//! What interrupts left behind before a command is never taken for its outcome.

use vstd::prelude::*;

use crate::error::Answer;
use crate::irq::{IrqFlag, SdhciIrqState};
use crate::sdhci::command::SendPhase;
use crate::sdhci::config::HostConfig;
use crate::sdhci::frame::{Frame, IrqOp, Out};
use crate::sdhci::init::Init;
use crate::sdhci::task::{irq_after, irq_answer, TaskState, World};
use crate::sdhci::task_run::Turn;
use crate::sdhci::transfer::FifoPhase;

verus! {

/// What comes in before a step of a task: interrupts with these statuses, one after the
/// other, and the reply to the last request.
pub struct Event {
    /// The reply.
    pub reply: u32,
    /// The interrupt statuses.
    pub statuses: Seq<u32>,
}

/// The interrupt state after interrupts with these statuses, one after the other.
pub open spec fn after_irqs(irq: SdhciIrqState, statuses: Seq<u32>) -> SdhciIrqState
    decreases statuses.len(),
{
    if statuses.len() == 0 {
        irq
    } else {
        after_irqs(irq, statuses.drop_last()).after_irq(statuses.last())
    }
}

impl World {
    /// The world once the interrupts of an event have come in.
    pub open spec fn interrupted(self, event: Event) -> World {
        World { irq: after_irqs(self.irq, event.statuses), ..self }
    }

    /// The world after `n` steps of the task; `events(i)` comes in before step number `i`.
    pub open spec fn after_events(self, events: spec_fn(int) -> Event, n: nat) -> World
        decreases n,
    {
        if n == 0 {
            self
        } else {
            self.after_events(events, (n - 1) as nat).interrupted(events(n - 1)).stepped(
                events(n - 1).reply,
            )
        }
    }

    /// What the steps of the task find where these events come in.
    pub open spec fn turns_of(self, events: spec_fn(int) -> Event) -> spec_fn(int) -> Turn {
        |i: int|
            Turn {
                reply: events(i).reply,
                irq: self.after_events(events, i as nat).interrupted(events(i)).irq,
            }
    }
}

/// A task that events come in for is one whose steps find what the events leave.
pub proof fn law_events_are_turns(world: World, events: spec_fn(int) -> Event, n: nat)
    ensures
        world.after_events(events, n) == world.after_turns(world.turns_of(events), n),
    decreases n,
{
    if n > 0 {
        law_events_are_turns(world, events, (n - 1) as nat);
    }
}

/// Nothing can tell the two interrupt states apart by taking flags and errors.
pub open spec fn alike(a: SdhciIrqState, b: SdhciIrqState) -> bool {
    &&& a.pending_error() == b.pending_error()
    &&& forall|flag: IrqFlag| #[trigger] a.flag(flag) == b.flag(flag)
}

/// The second operation may be in progress within the first.
pub open spec fn calls(outer: Frame, inner: Frame) -> bool {
    match outer {
        Frame::Poll(_) => false,
        Frame::ResetDat(_) => false,
        Frame::WaitIrq(_) => inner is ResetDat || inner is Poll,
        Frame::SendCmd(f) => match f.phase {
            SendPhase::Idle => inner is Poll,
            SendPhase::Complete => inner is WaitIrq,
            _ => false,
        },
        Frame::Cmd52(_) => inner is SendCmd,
        Frame::Cmd53(f) => f.phase is Send && inner is SendCmd,
        Frame::Pio(_) => inner is WaitIrq,
        Frame::Fifo(f) => match f.phase {
            FifoPhase::Begin => false,
            FifoPhase::Open => inner is Cmd53,
            FifoPhase::Move => inner is Pio,
            FifoPhase::Complete => inner is WaitIrq,
        },
        Frame::CisPtr(_) => inner is Cmd52,
        Frame::Manfid(_) => inner is CisPtr || inner is Cmd52,
        Frame::SetBlockSize(_) => inner is Cmd52,
        Frame::EnableFunc(_) => inner is Cmd52,
        Frame::SetClock(_) => inner is Poll,
        Frame::Init(_) => inner is Poll || inner is SetClock || inner is SendCmd || inner is Cmd52
            || inner is EnableFunc || inner is SetBlockSize || inner is Manfid,
    }
}

/// Each operation in progress is one that the operation around it calls.
pub open spec fn nested(stack: Seq<Frame>) -> bool {
    forall|i: int, j: int|
        0 <= i && j == i + 1 && j < stack.len() ==> calls(#[trigger] stack[i], #[trigger] stack[j])
}

/// Whatever the operation is resumed with, it does not look at the interrupt state before
/// what is pending has been dropped.
pub open spec fn calm(frame: Frame) -> bool {
    match frame {
        Frame::ResetDat(_) => false,
        Frame::WaitIrq(_) => false,
        Frame::SendCmd(f) => f.phase is Begin || f.phase is Idle,
        Frame::Cmd53(f) => !(f.phase is Send),
        Frame::Pio(_) => false,
        Frame::Fifo(f) => f.phase is Begin,
        _ => true,
    }
}

/// The operation is the opening of a transfer: it looks at the interrupt state only where
/// the command in it succeeds.
pub open spec fn opening(frame: Frame) -> bool {
    match frame {
        Frame::Cmd53(f) => f.phase is Send,
        Frame::Fifo(f) => f.phase is Open,
        _ => false,
    }
}

/// The task does not listen to interrupts: before it looks at the interrupt state, it drops
/// what is pending.
pub open spec fn is_deaf(task: TaskState) -> bool {
    let s = task.stack;
    &&& nested(s)
    &&& forall|i: int| 0 <= i < s.len() - 1 ==> calm(#[trigger] s[i]) || opening(s[i])
    &&& s.len() > 0 ==> calm(s.last()) || (opening(s.last()) && task.waiting is None
        && task.inbox is Err)
}

#[verifier::rlimit(40)]
proof fn lemma_init_calls(f: Init, cfg: HostConfig, input: Answer)
    ensures
        f.next(cfg, input).frame is Init,
        f.next(cfg, input).out matches Out::Call(callee) ==> calm(callee) && calls(
            f.next(cfg, input).frame,
            callee,
        ),
        f.next(cfg, input).out matches Out::Irq(op) ==> op is Attach,
{
}

#[verifier::rlimit(40)]
proof fn lemma_calls(frame: Frame, cfg: HostConfig, input: Answer, outer: Frame)
    ensures
        frame.next(cfg, input).out matches Out::Call(callee) ==> calls(
            frame.next(cfg, input).frame,
            callee,
        ),
        calls(outer, frame) ==> calls(outer, frame.next(cfg, input).frame),
{
    if let Frame::Init(f) = frame {
        lemma_init_calls(f, cfg, input);
    }
}

#[verifier::rlimit(40)]
proof fn lemma_calm_next(frame: Frame, cfg: HostConfig, input: Answer)
    requires
        calm(frame) || (opening(frame) && input is Err),
    ensures
        ({
            let step = frame.next(cfg, input);
            match step.out {
                Out::Irq(op) => op is Drain || (op is Attach && calm(step.frame)),
                Out::Call(callee) => calm(callee) && (calm(step.frame) || opening(step.frame)),
                Out::Return(answer) => (frame is Cmd53 || frame is SendCmd) ==> answer is Err,
                _ => calm(step.frame),
            }
        }),
{
    if let Frame::Init(f) = frame {
        lemma_init_calls(f, cfg, input);
    }
}

/// A step leaves the operations nested as they call each other.
proof fn lemma_nested_step(world: World, reply: u32)
    requires
        nested(world.task.stack),
    ensures
        nested(world.stepped(reply).task.stack),
{
    let s = world.task.stack;
    if s.len() > 0 {
        let step = world.resumed(reply);
        let t = world.stepped(reply).task.stack;
        let k = s.len() - 1;
        let outer = if k > 0 {
            s[k - 1]
        } else {
            s[k]
        };
        assert(k > 0 ==> calls(s[k - 1], s[k]));
        lemma_calls(s.last(), world.host.cfg, world.task.input(reply), outer);
        assert forall|i: int, j: int| 0 <= i && j == i + 1 && j < t.len() implies calls(
            #[trigger] t[i],
            #[trigger] t[j],
        ) by {
            if j < k {
                assert(t[i] == s[i] && t[j] == s[j]);
            } else if j == k {
                assert(t[i] == s[i] && t[j] == step.frame);
            } else {
                assert(t[i] == step.frame);
            }
        }
    }
}

/// A step of a task that does not listen: it does not look at the interrupt state; and if
/// the task listens afterwards, the step has dropped what was pending.
proof fn lemma_deaf_step(world: World, reply: u32)
    requires
        world.task.stack.len() > 0,
        is_deaf(world.task),
    ensures
        world.resumed(reply).out matches Out::Irq(op) ==> op is Drain || op is Attach,
        is_deaf(world.stepped(reply).task) || world.resumed(reply).out == Out::Irq(IrqOp::Drain),
{
    let s = world.task.stack;
    let step = world.resumed(reply);
    let t = world.stepped(reply).task.stack;
    let k = s.len() - 1;
    lemma_calm_next(s.last(), world.host.cfg, world.task.input(reply));
    lemma_nested_step(world, reply);
    if step.out != Out::Irq(IrqOp::Drain) {
        assert forall|i: int| 0 <= i < t.len() - 1 implies calm(#[trigger] t[i]) || opening(
            t[i],
        ) by {
            if i < k {
                assert(t[i] == s[i]);
            } else {
                assert(t[i] == step.frame);
            }
        }
        if step.out is Return && k > 0 {
            assert(t.last() == s[k - 1]);
            assert(calls(s[k - 1], s[k]));
        }
    }
}

proof fn lemma_irqs_keep_alike(a: SdhciIrqState, b: SdhciIrqState, statuses: Seq<u32>)
    requires
        alike(a, b),
    ensures
        alike(after_irqs(a, statuses), after_irqs(b, statuses)),
    decreases statuses.len(),
{
    if statuses.len() > 0 {
        lemma_irqs_keep_alike(a, b, statuses.drop_last());
        let x = after_irqs(a, statuses.drop_last());
        let y = after_irqs(b, statuses.drop_last());
        assert(x.flag(IrqFlag::CmdComplete) == y.flag(IrqFlag::CmdComplete));
        assert(x.flag(IrqFlag::XferComplete) == y.flag(IrqFlag::XferComplete));
        assert(x.flag(IrqFlag::BufRdReady) == y.flag(IrqFlag::BufRdReady));
        assert(x.flag(IrqFlag::BufWrReady) == y.flag(IrqFlag::BufWrReady));
    }
}

proof fn lemma_ops_keep_alike(a: SdhciIrqState, b: SdhciIrqState, op: IrqOp, base: usize)
    ensures
        op is Drain ==> alike(irq_after(a, op, base), irq_after(b, op, base)),
        alike(a, b) ==> alike(irq_after(a, op, base), irq_after(b, op, base)),
        alike(a, b) || op is Drain || op is Attach ==> irq_answer(a, op) == irq_answer(b, op),
{
    if alike(a, b) {
        assert(a.flag(IrqFlag::CmdComplete) == b.flag(IrqFlag::CmdComplete));
        assert(a.flag(IrqFlag::XferComplete) == b.flag(IrqFlag::XferComplete));
        assert(a.flag(IrqFlag::BufRdReady) == b.flag(IrqFlag::BufRdReady));
        assert(a.flag(IrqFlag::BufWrReady) == b.flag(IrqFlag::BufWrReady));
    }
}

/// The same task on the same controller, where it listens with nothing to tell the
/// interrupt states apart.
pub open spec fn in_tune(a: World, b: World) -> bool {
    &&& a.task == b.task
    &&& a.host == b.host
    &&& is_deaf(a.task) || alike(a.irq, b.irq)
}

proof fn lemma_tune_step(a: World, b: World, reply: u32)
    requires
        in_tune(a, b),
    ensures
        in_tune(a.stepped(reply), b.stepped(reply)),
{
    if a.task.stack.len() > 0 {
        let step = a.resumed(reply);
        assert(step == b.resumed(reply));
        if is_deaf(a.task) {
            lemma_deaf_step(a, reply);
        }
        if let Out::Irq(op) = step.out {
            lemma_ops_keep_alike(a.irq, b.irq, op, a.host.base);
        }
    }
}

/// The same reply comes in before step number `i`, and where the task listens, the same
/// interrupts.
pub open spec fn same_news(
    world: World,
    events: spec_fn(int) -> Event,
    others: spec_fn(int) -> Event,
    i: nat,
) -> bool {
    &&& events(i as int).reply == others(i as int).reply
    &&& is_deaf(world.after_events(events, i).task) || events(i as int).statuses == others(
        i as int,
    ).statuses
}

proof fn lemma_in_tune(
    a: World,
    b: World,
    events: spec_fn(int) -> Event,
    others: spec_fn(int) -> Event,
    n: nat,
)
    requires
        in_tune(a, b),
        forall|i: nat| i < n ==> #[trigger] same_news(a, events, others, i),
    ensures
        in_tune(a.after_events(events, n), b.after_events(others, n)),
    decreases n,
{
    if n > 0 {
        let m = (n - 1) as nat;
        lemma_in_tune(a, b, events, others, m);
        assert(same_news(a, events, others, m));
        let x = a.after_events(events, m);
        let y = b.after_events(others, m);
        if !is_deaf(x.task) {
            lemma_irqs_keep_alike(x.irq, y.irq, events(m as int).statuses);
        }
        lemma_tune_step(
            x.interrupted(events(m as int)),
            y.interrupted(others(m as int)),
            events(m as int).reply,
        );
    }
}

/// What is pending while a task does not listen has no influence on it: with the same
/// replies, and the same interrupts while it listens, the task asks for the same and ends
/// with the same answer, whatever the interrupt state held at its beginning and whatever
/// came in while it did not listen. So a completion or an error from before a command is
/// never taken for the outcome of that command.
pub proof fn law_stale_is_forgotten(
    a: World,
    b: World,
    events: spec_fn(int) -> Event,
    others: spec_fn(int) -> Event,
    n: nat,
)
    requires
        a.task == b.task,
        a.host == b.host,
        is_deaf(a.task),
        forall|i: nat| i < n ==> #[trigger] same_news(a, events, others, i),
    ensures
        a.after_events(events, n).task == b.after_events(others, n).task,
        a.after_events(events, n).host == b.after_events(others, n).host,
        forall|reply: u32|
            a.after_events(events, n).wants(reply) == #[trigger] b.after_events(others, n).wants(
                reply,
            ),
{
    lemma_in_tune(a, b, events, others, n);
}

/// A task that begins does not listen, unless it begins with waiting; so what the interrupt
/// state holds at its beginning changes nothing.
pub proof fn law_start_is_forgotten(
    world: World,
    frame: Frame,
    buf: Seq<u8>,
    irq: SdhciIrqState,
    events: spec_fn(int) -> Event,
    n: nat,
)
    requires
        world.task == TaskState::begins(frame, buf),
        calm(frame),
    ensures
        is_deaf(world.task),
        (World { irq, ..world }).after_events(events, n).task == world.after_events(events, n).task,
        (World { irq, ..world }).after_events(events, n).host == world.after_events(events, n).host,
{
    let other = World { irq, ..world };
    assert forall|i: nat| i < n implies #[trigger] same_news(other, events, events, i) by {}
    law_stale_is_forgotten(other, world, events, events, n);
}

/// A task begins to listen only by dropping everything that is pending.
pub proof fn law_listening_begins_with_drain(world: World, reply: u32)
    requires
        is_deaf(world.task),
        !is_deaf(world.stepped(reply).task),
    ensures
        world.stepped(reply).irq == world.irq.drained(),
{
    lemma_deaf_step(world, reply);
}

/// The operation is one that a command may be in progress in.
spec fn holds_command(frame: Frame) -> bool {
    frame is SendCmd || frame is Cmd52 || frame is Cmd53 || frame is Fifo || frame is CisPtr
        || frame is Manfid || frame is SetBlockSize || frame is EnableFunc || frame is Init
}

proof fn lemma_around_command(stack: Seq<Frame>, from: int, i: int)
    requires
        nested(stack),
        0 <= i < from < stack.len(),
        holds_command(stack[from]),
    ensures
        holds_command(stack[i]),
        calm(stack[i]) || opening(stack[i]),
    decreases from - i,
{
    assert(calls(stack[from - 1], stack[from]));
    if i < from - 1 {
        lemma_around_command(stack, from - 1, i);
    }
}

proof fn lemma_nested_run(world: World, events: spec_fn(int) -> Event, n: nat)
    requires
        nested(world.task.stack),
    ensures
        nested(world.after_events(events, n).task.stack),
    decreases n,
{
    if n > 0 {
        let m = (n - 1) as nat;
        lemma_nested_run(world, events, m);
        lemma_nested_step(
            world.after_events(events, m).interrupted(events(m as int)),
            events(m as int).reply,
        );
    }
}

/// A command is about to be sent: its sending has not begun, or waits for an idle command
/// line.
pub open spec fn about_to_send(stack: Seq<Frame>) -> bool {
    let waits = stack.len() > 1 && stack.last() is Poll;
    let at = if waits {
        stack.len() - 2
    } else {
        stack.len() - 1
    };
    &&& stack.len() > 0
    &&& stack[at] is SendCmd
    &&& stack[at]->SendCmd_0.phase is Begin || stack[at]->SendCmd_0.phase is Idle
}

/// Before every command the task does not listen, however many commands it has sent: until
/// the command line is idle, nothing that comes in has any influence on it.
pub proof fn law_deaf_before_every_command(
    world: World,
    frame: Frame,
    buf: Seq<u8>,
    events: spec_fn(int) -> Event,
    n: nat,
)
    requires
        world.task == TaskState::begins(frame, buf),
        about_to_send(world.after_events(events, n).task.stack),
    ensures
        is_deaf(world.after_events(events, n).task),
{
    lemma_nested_run(world, events, n);
    let s = world.after_events(events, n).task.stack;
    let k = s.len() - 1;
    let at = if s[k] is Poll {
        k - 1
    } else {
        k
    };
    assert forall|i: int| 0 <= i < k implies calm(#[trigger] s[i]) || opening(s[i]) by {
        if i < at {
            lemma_around_command(s, at, i);
        }
    }
}

} // verus!
