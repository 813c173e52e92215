//! Whole tasks: that they end, that a called operation runs as if alone, and what they
//! leave untouched.

use vstd::prelude::*;

use crate::error::Answer;
use crate::irq::SdhciIrqState;
use crate::sdhci::bounds::law_steps_are_paid;
use crate::sdhci::card::{pow256, Manfid, ManfidPhase};
use crate::sdhci::config::HostConfig;
use crate::sdhci::frame::{Frame, Out};
use crate::sdhci::init::{Init, InitPhase};
use crate::sdhci::init_run::before_address;
use crate::sdhci::task::{law_calls_descend, TaskState, World};
use crate::sdhci::transfer::Pio;

verus! {

/// What a step of a task finds: the reply to its last request, and the interrupt state,
/// which interrupts may have changed since.
pub struct Turn {
    /// The reply.
    pub reply: u32,
    /// The interrupt state.
    pub irq: SdhciIrqState,
}

impl World {
    /// The world after one step of the task that finds `turn`.
    pub open spec fn turned(self, turn: Turn) -> World {
        (World { irq: turn.irq, ..self }).stepped(turn.reply)
    }

    /// The world after `n` steps of the task; step number `i` finds `turns(i)`.
    pub open spec fn after_turns(self, turns: spec_fn(int) -> Turn, n: nat) -> World
        decreases n,
    {
        if n == 0 {
            self
        } else {
            self.after_turns(turns, (n - 1) as nat).turned(turns(n - 1))
        }
    }

    /// The world with other operations in progress.
    pub open spec fn with_stack(self, stack: Seq<Frame>) -> World {
        World { task: TaskState { stack, ..self.task }, ..self }
    }
}

/// Steps that the operations in progress may still take.
pub open spec fn stack_budget(stack: Seq<Frame>, cfg: HostConfig) -> int
    decreases stack.len(),
{
    if stack.len() == 0 {
        0
    } else {
        stack_budget(stack.drop_last(), cfg) + stack.last().budget(cfg)
    }
}

#[verifier::rlimit(40)]
proof fn lemma_search_wf(f: Manfid, input: Answer)
    requires
        f.wf(),
    ensures
        f.next(input).frame.wf(),
        f.next(input).out matches Out::Call(callee) ==> callee.wf(),
{
    if let Ok(value) = input {
        assert(value & 0x00FF_FFFF <= 0x00FF_FFFF) by (bit_vector);
        if let ManfidPhase::Bytes { have, bytes } = f.phase {
            let byte = value as u8;
            let weight = pow256(have as nat);
            reveal_with_fuel(pow256, 5);
            assert(0 <= byte * weight <= 255 * weight) by (nonlinear_arith)
                requires
                    0 <= byte <= 255,
                    weight >= 0,
            ;
        }
    }
}

#[verifier::rlimit(40)]
proof fn lemma_init_wf(f: Init, cfg: HostConfig, input: Answer)
    ensures
        f.next(cfg, input).frame.wf(),
        f.next(cfg, input).out matches Out::Call(callee) ==> callee.wf(),
{
}

proof fn lemma_pio_wf(f: Pio, input: Answer)
    requires
        f.wf(),
    ensures
        f.next(input).frame.wf(),
        f.next(input).out matches Out::Call(callee) ==> callee.wf(),
{
}

#[verifier::rlimit(40)]
proof fn lemma_other_wf(frame: Frame, cfg: HostConfig, input: Answer)
    requires
        frame.wf(),
        !(frame is Manfid),
        !(frame is Init),
        !(frame is Pio),
    ensures
        frame.next(cfg, input).frame.wf(),
        frame.next(cfg, input).out matches Out::Call(callee) ==> callee.wf(),
{
}

proof fn lemma_next_wf(frame: Frame, cfg: HostConfig, input: Answer)
    requires
        frame.wf(),
    ensures
        frame.next(cfg, input).frame.wf(),
        frame.next(cfg, input).out matches Out::Call(callee) ==> callee.wf(),
{
    match frame {
        Frame::Manfid(f) => lemma_search_wf(f, input),
        Frame::Init(f) => lemma_init_wf(f, cfg, input),
        Frame::Pio(f) => lemma_pio_wf(f, input),
        _ => lemma_other_wf(frame, cfg, input),
    }
}

proof fn lemma_step_wf(world: World, reply: u32)
    requires
        world.task.wf(),
    ensures
        world.stepped(reply).task.wf(),
{
    if world.task.stack.len() > 0 {
        let top = world.task.stack.last();
        let input = world.task.input(reply);
        lemma_next_wf(top, world.host.cfg, input);
        law_calls_descend(top, world.host.cfg, input);
    }
}

proof fn lemma_push_budget(stack: Seq<Frame>, frame: Frame, cfg: HostConfig)
    ensures
        stack_budget(stack.push(frame), cfg) == stack_budget(stack, cfg) + frame.budget(cfg),
{
    assert(stack.push(frame).drop_last() =~= stack);
}

proof fn lemma_step_spends(world: World, reply: u32)
    requires
        world.task.wf(),
        world.task.stack.len() > 0,
    ensures
        stack_budget(world.stepped(reply).task.stack, world.host.cfg) < stack_budget(
            world.task.stack,
            world.host.cfg,
        ),
{
    let cfg = world.host.cfg;
    let rest = world.task.stack.drop_last();
    let top = world.task.stack.last();
    let step = world.resumed(reply);
    law_steps_are_paid(top, cfg, world.task.input(reply));
    lemma_push_budget(rest, step.frame, cfg);
    if let Out::Call(callee) = step.out {
        lemma_push_budget(rest.push(step.frame), callee, cfg);
    }
}

proof fn lemma_budget_is_no_debt(stack: Seq<Frame>, cfg: HostConfig)
    requires
        forall|i: int| 0 <= i < stack.len() ==> (#[trigger] stack[i]).wf(),
    ensures
        stack_budget(stack, cfg) >= stack.len(),
    decreases stack.len(),
{
    if stack.len() > 0 {
        lemma_budget_is_no_debt(stack.drop_last(), cfg);
        law_steps_are_paid(stack.last(), cfg, Ok(0));
    }
}

/// A step leaves alone what it has no business with: the register base and the board
/// parameters, the length of the transfer buffer, the callback for the card interrupt;
/// and unless it belongs to the bring-up, what is known of the card.
pub proof fn law_step_is_local(world: World, reply: u32)
    ensures
        ({
            let next = world.stepped(reply);
            &&& next.host.base == world.host.base
            &&& next.host.cfg == world.host.cfg
            &&& next.task.buf.len() == world.task.buf.len()
            &&& next.irq.card_irq_callback == world.irq.card_irq_callback
            &&& world.task.stack.len() > 0 && !(world.task.stack.last() is Init) ==> next.host
                == world.host
        }),
{
}

proof fn lemma_turns_count_down(world: World, turns: spec_fn(int) -> Turn, n: nat)
    requires
        world.task.wf(),
    ensures
        ({
            let end = world.after_turns(turns, n);
            &&& end.task.wf()
            &&& end.host.cfg == world.host.cfg
            &&& end.task.stack.len() == 0 || stack_budget(end.task.stack, world.host.cfg) + n
                <= stack_budget(world.task.stack, world.host.cfg)
        }),
    decreases n,
{
    if n > 0 {
        let m = (n - 1) as nat;
        lemma_turns_count_down(world, turns, m);
        let before = world.after_turns(turns, m);
        let found = World { irq: turns(m as int).irq, ..before };
        law_step_is_local(found, turns(m as int).reply);
        lemma_step_wf(found, turns(m as int).reply);
        if found.task.stack.len() > 0 {
            lemma_step_spends(found, turns(m as int).reply);
        }
    }
}

/// A task ends, whatever the registers read as and whatever interrupts come in between:
/// after no more steps than its operations have to spend.
pub proof fn law_task_ends(world: World, turns: spec_fn(int) -> Turn, n: nat)
    requires
        world.task.wf(),
        n >= stack_budget(world.task.stack, world.host.cfg),
    ensures
        world.after_turns(turns, n).task.stack.len() == 0,
{
    lemma_turns_count_down(world, turns, n);
    let end = world.after_turns(turns, n);
    lemma_budget_is_no_debt(end.task.stack, world.host.cfg);
}

/// Operations that are nested in others run as if alone: a step of theirs does the same
/// to everything but the operations around them, which it leaves as they are. When the
/// outermost of them returns, its answer is what the operation around it is resumed with.
pub proof fn law_nested_runs_alone(world: World, around: Seq<Frame>, nested: Seq<Frame>, turn: Turn)
    requires
        nested.len() > 0,
    ensures
        ({
            let alone = world.with_stack(nested).turned(turn);
            let inside = world.with_stack(around + nested).turned(turn);
            &&& inside == alone.with_stack(around + alone.task.stack)
            &&& alone.task.stack.len() == 0 ==> {
                &&& inside.task.stack == around
                &&& alone.task.waiting is None
                &&& forall|reply: u32|
                    #[trigger] inside.task.input(reply) == alone.task.inbox
            }
        }),
{
    let whole = around + nested;
    assert(whole.last() == nested.last());
    assert(whole.drop_last() =~= around + nested.drop_last());
    let alone = world.with_stack(nested).turned(turn);
    let inside = world.with_stack(whole).turned(turn);
    let step = (World { irq: turn.irq, ..world }).with_stack(nested).resumed(turn.reply);
    assert(step == (World { irq: turn.irq, ..world }).with_stack(whole).resumed(turn.reply));
    assert((around + nested.drop_last()).push(step.frame) =~= around + nested.drop_last().push(
        step.frame,
    ));
    if let Out::Call(callee) = step.out {
        assert((around + nested.drop_last()).push(step.frame).push(callee) =~= around
            + nested.drop_last().push(step.frame).push(callee));
    }
    assert(inside.task.stack =~= around + alone.task.stack);
    if alone.task.stack.len() == 0 {
        assert(inside.task.stack =~= around);
    }
}

/// Operations are nested at most eight deep.
pub proof fn law_nesting_is_bounded(task: TaskState)
    requires
        task.wf(),
    ensures
        task.stack.len() <= 8,
{
    if task.stack.len() > 8 {
        let s = task.stack;
        assert(s[0].level() > s[1].level() && s[1].level() > s[2].level() && s[2].level()
            > s[3].level());
        assert(s[3].level() > s[4].level() && s[4].level() > s[5].level() && s[5].level()
            > s[6].level());
        assert(s[6].level() > s[7].level() && s[7].level() > s[8].level());
        assert(s[0].level() <= 7);
    }
}

/// What is known of the card's identification.
pub open spec fn ids_of(world: World) -> (u16, u16) {
    (world.host.vendor_id, world.host.device_id)
}

/// The identification is as it was, or the bring-up is about to succeed, or has.
spec fn ids_in_step(world: World, ids: (u16, u16)) -> bool {
    let s = world.task.stack;
    &&& s.len() > 0 ==> s[0] is Init
    &&& ids_of(world) == ids || (world.task.waiting is None && world.task.inbox is Ok && s.len()
        <= 1 && (s.len() == 1 ==> s[0]->Init_0.phase is KeepIds))
}

proof fn lemma_ids_step(world: World, reply: u32, ids: (u16, u16))
    requires
        world.task.wf(),
        ids_in_step(world, ids),
    ensures
        ids_in_step(world.stepped(reply), ids),
{
    let s = world.task.stack;
    if s.len() > 1 {
        assert(s[0].level() > s[s.len() - 1].level());
        assert(!(s.last() is Init));
        law_step_is_local(world, reply);
        let t = world.stepped(reply).task.stack;
        assert(t[0] == s[0]);
    } else if s.len() == 1 {
        assert(s.last() == s[0]);
        assert(s.drop_last() =~= Seq::<Frame>::empty());
    }
}

proof fn lemma_ids_run(world: World, buf: Seq<u8>, turns: spec_fn(int) -> Turn, n: nat)
    requires
        world.task == TaskState::begins(Init::of(), buf),
    ensures
        world.after_turns(turns, n).task.wf(),
        ids_in_step(world.after_turns(turns, n), ids_of(world)),
    decreases n,
{
    if n > 0 {
        let m = (n - 1) as nat;
        lemma_ids_run(world, buf, turns, m);
        let found = World { irq: turns(m as int).irq, ..world.after_turns(turns, m) };
        lemma_step_wf(found, turns(m as int).reply);
        lemma_ids_step(found, turns(m as int).reply, ids_of(world));
    }
}

/// A bring-up that fails leaves the identification of the card as it was: it is kept only
/// by one that then succeeds.
pub proof fn law_failed_bring_up_keeps_ids(
    world: World,
    buf: Seq<u8>,
    turns: spec_fn(int) -> Turn,
    n: nat,
)
    requires
        world.task == TaskState::begins(Init::of(), buf),
        world.after_turns(turns, n).task.stack.len() == 0,
        world.after_turns(turns, n).task.inbox is Err,
    ensures
        world.after_turns(turns, n).host.vendor_id == world.host.vendor_id,
        world.after_turns(turns, n).host.device_id == world.host.device_id,
{
    lemma_ids_run(world, buf, turns, n);
}

/// Vendor and device that the answer of a search stands for.
pub open spec fn ids_in(answer: u32) -> (u16, u16) {
    ((answer % 0x1_0000) as u16, (answer / 0x1_0000) as u16)
}

/// What a step ends a search of function `func` for the identification with, where it ends
/// one that the outermost operation has called.
pub open spec fn ends_search(world: World, func: u8, reply: u32) -> Option<Answer> {
    let s = world.task.stack;
    let out = world.resumed(reply).out;
    if s.len() == 2 && s[1] is Manfid && s[1]->Manfid_0.func == func && out is Return {
        Some(out->Return_0)
    } else {
        None
    }
}

/// What the last search of function `func` for the identification was answered within `n`
/// steps of a task; step number `i` finds `turns(i)`.
pub open spec fn searched(
    world: World,
    turns: spec_fn(int) -> Turn,
    func: u8,
    n: nat,
) -> Option<Answer>
    decreases n,
{
    if n == 0 {
        None
    } else {
        let m = (n - 1) as nat;
        let found = World { irq: turns(m as int).irq, ..world.after_turns(turns, m) };
        match ends_search(found, func, turns(m as int).reply) {
            Some(answer) => Some(answer),
            None => searched(world, turns, func, m),
        }
    }
}

/// The identification is the one that the first search was answered; where that search
/// failed, the one that the second was answered.
pub open spec fn ids_found(ids: (u16, u16), first: Option<Answer>, common: Option<Answer>) -> bool {
    match first {
        None => false,
        Some(Ok(answer)) => ids == ids_in(answer),
        Some(Err(_)) => match common {
            Some(Ok(answer)) => ids == ids_in(answer),
            _ => false,
        },
    }
}

/// How a bring-up stands to the searches of function 1 and of the card.
spec fn search_in_step(world: World, first: Option<Answer>, common: Option<Answer>) -> bool {
    let s = world.task.stack;
    let idle = s.len() == 1 && world.task.waiting is None;
    if s.len() == 0 {
        world.task.inbox is Ok ==> ids_found(ids_of(world), first, common)
    } else {
        &&& s[0] is Init
        &&& match s[0]->Init_0.phase {
            InitPhase::FuncIds => {
                &&& common is None
                &&& if s.len() == 1 {
                    idle && first == Some(world.task.inbox)
                } else {
                    first is None && is_search(s[1], 1)
                }
            },
            InitPhase::CommonIds => {
                &&& first is Some && first->Some_0 is Err
                &&& if s.len() == 1 {
                    idle && common == Some(world.task.inbox)
                } else {
                    common is None && is_search(s[1], 0)
                }
            },
            InitPhase::KeepIds => {
                &&& idle && world.task.inbox is Ok
                &&& ids_found(ids_of(world), first, common)
            },
            _ => first is None && common is None && (s.len() > 1 ==> !(s[1] is Manfid)),
        }
    }
}

/// A search of function `func`.
spec fn is_search(frame: Frame, func: u8) -> bool {
    frame is Manfid && frame->Manfid_0.func == func
}

proof fn lemma_search_stays(frame: Frame, cfg: HostConfig, input: Answer, func: u8)
    ensures
        is_search(frame, func) ==> is_search(frame.next(cfg, input).frame, func),
        !(frame is Manfid) ==> !(frame.next(cfg, input).frame is Manfid),
{
}

#[verifier::rlimit(40)]
proof fn lemma_search_step(
    world: World,
    reply: u32,
    first: Option<Answer>,
    common: Option<Answer>,
)
    requires
        world.task.wf(),
        search_in_step(world, first, common),
    ensures
        search_in_step(
            world.stepped(reply),
            match ends_search(world, 1, reply) {
                Some(answer) => Some(answer),
                None => first,
            },
            match ends_search(world, 0, reply) {
                Some(answer) => Some(answer),
                None => common,
            },
        ),
{
    let s = world.task.stack;
    let t = world.stepped(reply).task.stack;
    if s.len() > 1 {
        assert(s[0].level() > s[s.len() - 1].level());
        assert(!(s.last() is Init));
        law_step_is_local(world, reply);
        assert(t[0] == s[0]);
        if s.len() == 2 {
            let input = world.task.input(reply);
            lemma_search_stays(s[1], world.host.cfg, input, 0);
            lemma_search_stays(s[1], world.host.cfg, input, 1);
        } else {
            assert(t[1] == s[1]);
        }
    } else if s.len() == 1 {
        lemma_search_begins(world, reply, first, common);
    }
}

#[verifier::rlimit(40)]
proof fn lemma_search_begins(
    world: World,
    reply: u32,
    first: Option<Answer>,
    common: Option<Answer>,
)
    requires
        world.task.stack.len() == 1,
        search_in_step(world, first, common),
    ensures
        search_in_step(world.stepped(reply), first, common),
{
    let s = world.task.stack;
    let step = world.resumed(reply);
    assert(s.last() == s[0]);
    assert(s.drop_last() =~= Seq::<Frame>::empty());
    if let Out::Call(callee) = step.out {
        assert(world.stepped(reply).task.stack =~= seq![step.frame, callee]);
    }
}

proof fn lemma_search_run(world: World, buf: Seq<u8>, turns: spec_fn(int) -> Turn, n: nat)
    requires
        world.task == TaskState::begins(Init::of(), buf),
    ensures
        world.after_turns(turns, n).task.wf(),
        search_in_step(
            world.after_turns(turns, n),
            searched(world, turns, 1, n),
            searched(world, turns, 0, n),
        ),
    decreases n,
{
    if n > 0 {
        let m = (n - 1) as nat;
        lemma_search_run(world, buf, turns, m);
        let found = World { irq: turns(m as int).irq, ..world.after_turns(turns, m) };
        lemma_step_wf(found, turns(m as int).reply);
        lemma_search_step(
            found,
            turns(m as int).reply,
            searched(world, turns, 1, m),
            searched(world, turns, 0, m),
        );
    }
}

/// A bring-up that succeeds keeps the identification that its search of function 1 was
/// answered; where that search failed, the one that its search of the card was answered.
pub proof fn law_bring_up_keeps_found_ids(
    world: World,
    buf: Seq<u8>,
    turns: spec_fn(int) -> Turn,
    n: nat,
)
    requires
        world.task == TaskState::begins(Init::of(), buf),
        world.after_turns(turns, n).task.stack.len() == 0,
        world.after_turns(turns, n).task.inbox is Ok,
    ensures
        ids_found(
            ids_of(world.after_turns(turns, n)),
            searched(world, turns, 1, n),
            searched(world, turns, 0, n),
        ),
{
    lemma_search_run(world, buf, turns, n);
}

/// The sending of command `index`.
spec fn is_command(frame: Frame, index: u8) -> bool {
    frame is SendCmd && frame->SendCmd_0.index == index
}

/// What a step ends a command of that index with, where it ends one that the outermost
/// operation has sent.
pub open spec fn ends_command(world: World, index: u8, reply: u32) -> Option<Answer> {
    let s = world.task.stack;
    let out = world.resumed(reply).out;
    if s.len() == 2 && s[1] is SendCmd && s[1]->SendCmd_0.index == index && out is Return {
        Some(out->Return_0)
    } else {
        None
    }
}

/// What the last command of that index was answered within `n` steps of a task; step number
/// `i` finds `turns(i)`.
pub open spec fn commanded(
    world: World,
    turns: spec_fn(int) -> Turn,
    index: u8,
    n: nat,
) -> Option<Answer>
    decreases n,
{
    if n == 0 {
        None
    } else {
        let m = (n - 1) as nat;
        let found = World { irq: turns(m as int).irq, ..world.after_turns(turns, m) };
        match ends_command(found, index, turns(m as int).reply) {
            Some(answer) => Some(answer),
            None => commanded(world, turns, index, m),
        }
    }
}

/// The address is the upper half of the answer.
pub open spec fn address_given(rca: u16, answer: Option<Answer>) -> bool {
    match answer {
        Some(Ok(resp)) => rca == resp / 0x1_0000,
        _ => false,
    }
}

/// How a bring-up stands to the question for the card's address.
spec fn address_in_step(world: World, given: Option<Answer>) -> bool {
    let s = world.task.stack;
    if s.len() == 0 {
        world.task.inbox is Ok ==> address_given(world.host.rca, given)
    } else {
        &&& s[0] is Init
        &&& if before_address(s[0]->Init_0.phase) {
            given is None && (s.len() > 1 ==> !is_command(s[1], 3))
        } else if s[0]->Init_0.phase is Address {
            if s.len() == 1 {
                world.task.waiting is None && given == Some(world.task.inbox)
            } else {
                given is None && is_command(s[1], 3)
            }
        } else {
            &&& address_given(world.host.rca, given)
            &&& s.len() > 1 ==> !is_command(s[1], 3)
        }
    }
}

proof fn lemma_command_stays(frame: Frame, cfg: HostConfig, input: Answer, index: u8)
    ensures
        is_command(frame, index) <==> is_command(frame.next(cfg, input).frame, index),
{
}

#[verifier::rlimit(40)]
proof fn lemma_address_outer(world: World, reply: u32, given: Option<Answer>)
    requires
        world.task.stack.len() == 1,
        address_in_step(world, given),
    ensures
        address_in_step(world.stepped(reply), given),
{
    let s = world.task.stack;
    let step = world.resumed(reply);
    assert(s.last() == s[0]);
    assert(s.drop_last() =~= Seq::<Frame>::empty());
    if let Out::Call(callee) = step.out {
        assert(world.stepped(reply).task.stack =~= seq![step.frame, callee]);
    }
}

#[verifier::rlimit(40)]
proof fn lemma_address_step(world: World, reply: u32, given: Option<Answer>)
    requires
        world.task.wf(),
        address_in_step(world, given),
    ensures
        address_in_step(
            world.stepped(reply),
            match ends_command(world, 3, reply) {
                Some(answer) => Some(answer),
                None => given,
            },
        ),
{
    let s = world.task.stack;
    let t = world.stepped(reply).task.stack;
    if s.len() > 1 {
        assert(s[0].level() > s[s.len() - 1].level());
        assert(!(s.last() is Init));
        law_step_is_local(world, reply);
        assert(t[0] == s[0]);
        if s.len() == 2 {
            lemma_command_stays(s[1], world.host.cfg, world.task.input(reply), 3);
        } else {
            assert(t[1] == s[1]);
        }
    } else if s.len() == 1 {
        lemma_address_outer(world, reply, given);
    }
}

proof fn lemma_address_run(world: World, buf: Seq<u8>, turns: spec_fn(int) -> Turn, n: nat)
    requires
        world.task == TaskState::begins(Init::of(), buf),
    ensures
        world.after_turns(turns, n).task.wf(),
        address_in_step(world.after_turns(turns, n), commanded(world, turns, 3, n)),
    decreases n,
{
    if n > 0 {
        let m = (n - 1) as nat;
        lemma_address_run(world, buf, turns, m);
        let found = World { irq: turns(m as int).irq, ..world.after_turns(turns, m) };
        lemma_step_wf(found, turns(m as int).reply);
        lemma_address_step(found, turns(m as int).reply, commanded(world, turns, 3, m));
    }
}

/// A bring-up that succeeds keeps the address that the card gave: the upper half of what its
/// question for the address was answered.
pub proof fn law_bring_up_keeps_given_address(
    world: World,
    buf: Seq<u8>,
    turns: spec_fn(int) -> Turn,
    n: nat,
)
    requires
        world.task == TaskState::begins(Init::of(), buf),
        world.after_turns(turns, n).task.stack.len() == 0,
        world.after_turns(turns, n).task.inbox is Ok,
    ensures
        commanded(world, turns, 3, n) matches Some(Ok(resp)) && world.after_turns(turns, n).host.rca
            == resp / 0x1_0000,
{
    lemma_address_run(world, buf, turns, n);
}

} // verus!
