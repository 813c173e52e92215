//! A whole data transfer, whatever the hardware does meanwhile.

use vstd::prelude::*;

use crate::error::{Answer, SdioError};
use crate::regs::SDHCI_BUFFER;
use crate::sdhci::buffer::{law_word_round_trip, stored, word_at};
use crate::sdhci::config::HostConfig;
use crate::sdhci::frame::{Frame, Io, Out};
use crate::sdhci::port::{filled, least, lemma_stored_next, lemma_word_beyond, move_words};
use crate::sdhci::run::law_shape_round_trip;
use crate::sdhci::task::{Action, TaskState, World};
use crate::sdhci::task_run::Turn;
use crate::sdhci::transfer::{
    law_plan_covers_length, shape_word, words_for, Fifo, FifoPhase, Pio, PioPhase, Transfer,
};
use crate::sdhci::wait::WaitIrq;

verus! {

/// The words that have gone through the data port.
#[verifier::ext_equal]
pub struct Flow {
    /// Words written to the port.
    pub sent: Seq<u32>,
    /// Words read from the port.
    pub taken: Seq<u32>,
    /// How often the controller's buffer has been waited for.
    pub waits: nat,
}

impl Flow {
    /// The flow after a step of the task: a word is sent when the step asks for it to be
    /// written, and taken when the step is told what was read; the controller's buffer is
    /// waited for when the move of the data asks for its flag.
    pub open spec fn after(self, world: World, reply: u32) -> Flow {
        Flow {
            sent: match world.wants(reply) {
                Action::Io(Io::Write32 { off, value }) if off == SDHCI_BUFFER => self.sent.push(
                    value,
                ),
                _ => self.sent,
            },
            taken: if world.task.stack.len() > 0 && world.task.waiting == Some(
                Io::Read32 { off: SDHCI_BUFFER },
            ) {
                self.taken.push(reply)
            } else {
                self.taken
            },
            waits: self.waits + (if asks_for_buffer(world, reply) {
                1nat
            } else {
                0nat
            }),
        }
    }

    /// Number of words moved.
    pub open spec fn moved(self, write: bool) -> int {
        if write {
            self.sent.len() as int
        } else {
            self.taken.len() as int
        }
    }
}

/// The step is one of the move of data that waits for the controller's buffer.
pub open spec fn asks_for_buffer(world: World, reply: u32) -> bool {
    &&& world.task.stack.len() > 0
    &&& world.task.stack.last() matches Frame::Pio(pio)
    &&& world.resumed(reply).out == Out::Call(WaitIrq::of(pio.ready_flag()))
}

/// The flow of a task over `n` steps; step number `i` finds `turns(i)`.
pub open spec fn flow_after(world: World, turns: spec_fn(int) -> Turn, n: nat) -> Flow
    decreases n,
{
    if n == 0 {
        Flow { sent: Seq::empty(), taken: Seq::empty(), waits: 0 }
    } else {
        let m = (n - 1) as nat;
        let found = World { irq: turns(m as int).irq, ..world.after_turns(turns, m) };
        flow_after(world, turns, m).after(found, turns(m as int).reply)
    }
}

/// The operation has nothing to do with the data port.
pub open spec fn is_plain(frame: Frame) -> bool {
    frame is Poll || frame is ResetDat || frame is WaitIrq || frame is SendCmd
}

/// Every operation from place `from` on has nothing to do with the data port.
pub open spec fn plain_from(stack: Seq<Frame>, from: int) -> bool {
    forall|i: int| from <= i < stack.len() ==> is_plain(#[trigger] stack[i])
}

/// The request does not read the data port.
pub open spec fn spares_port(waiting: Option<Io>) -> bool {
    waiting != Some(Io::Read32 { off: SDHCI_BUFFER })
}

/// Words that a transfer is made up of.
pub open spec fn transfer_words(transfer: Transfer) -> int {
    move_words(transfer.plan_of().block_size, transfer.plan_of().blocks)
}

/// How the move of the data stands to the words that have gone through the port.
pub open spec fn pio_in_step(pio: Pio, transfer: Transfer, moved: int, waits: nat) -> bool {
    &&& waits + pio.blocks_left == transfer.plan_of().blocks
    &&& pio.write == transfer.write
    &&& pio.words == words_for(transfer.plan_of().block_size)
    &&& pio.len == transfer.len
    &&& pio.at == least(4 * moved, transfer.len as int)
    &&& moved + pio.blocks_left * pio.words + (match pio.phase {
        PioPhase::Block => 0,
        PioPhase::Ready => pio.words as int,
        PioPhase::Word => pio.words_left + 1,
        PioPhase::Moved => pio.words_left as int,
    }) == transfer_words(transfer)
}

/// How the operations in progress stand to the words that have gone through the port.
pub open spec fn stack_in_step(
    task: TaskState,
    transfer: Transfer,
    buf: Seq<u8>,
    moved: int,
    waits: nat,
) -> bool {
    let s = task.stack;
    let done = moved == transfer_words(transfer) && waits == transfer.plan_of().blocks;
    if s.len() == 0 {
        task.inbox is Ok ==> done
    } else {
        &&& s[0] matches Frame::Fifo(fifo)
        &&& fifo.transfer == transfer
        &&& match fifo.phase {
            FifoPhase::Begin => s.len() == 1 && moved == 0 && waits == 0 && spares_port(task.waiting),
            FifoPhase::Open => {
                &&& moved == 0
                &&& waits == 0
                &&& spares_port(task.waiting)
                &&& if s.len() == 1 {
                    &&& task.waiting is None
                    &&& task.inbox matches Ok(shape) ==> shape == shape_word(transfer.plan_of())
                } else {
                    &&& s[1] matches Frame::Cmd53(open)
                    &&& open.transfer == transfer
                    &&& plain_from(s, 2)
                }
            },
            FifoPhase::Move => if s.len() == 1 {
                &&& task.waiting is None
                &&& task.inbox is Ok ==> done
            } else {
                &&& s[1] matches Frame::Pio(pio)
                &&& pio_in_step(pio, transfer, moved, waits)
                &&& if s.len() == 2 {
                    if pio.phase is Word {
                        if transfer.write {
                            &&& task.waiting is None
                            &&& task.inbox == Ok::<u32, SdioError>(word_at(buf, 4 * moved))
                        } else {
                            task.waiting == Some(Io::Read32 { off: SDHCI_BUFFER })
                        }
                    } else {
                        spares_port(task.waiting)
                    }
                } else {
                    &&& pio.phase is Ready
                    &&& plain_from(s, 2)
                    &&& spares_port(task.waiting)
                }
            },
            FifoPhase::Complete => {
                &&& done
                &&& plain_from(s, 1)
                &&& spares_port(task.waiting)
            },
        }
    }
}

/// What has gone through the port is what belongs there: of a write, the words of the
/// buffer in order, and the buffer is as it was; of a read, the buffer holds the words in
/// order.
pub open spec fn data_in_step(
    task: TaskState,
    transfer: Transfer,
    buf: Seq<u8>,
    flow: Flow,
) -> bool {
    if transfer.write {
        &&& task.buf == buf
        &&& flow.taken.len() == 0
        &&& forall|k: int|
            0 <= k < flow.sent.len() ==> #[trigger] flow.sent[k] == word_at(buf, 4 * k)
    } else {
        &&& flow.sent.len() == 0
        &&& task.buf == filled(buf, |k: int| flow.taken[k], flow.taken.len() as int)
    }
}

/// Both.
pub open spec fn in_step(task: TaskState, transfer: Transfer, buf: Seq<u8>, flow: Flow) -> bool {
    &&& stack_in_step(task, transfer, buf, flow.moved(transfer.write), flow.waits)
    &&& data_in_step(task, transfer, buf, flow)
}

proof fn lemma_plain_next(frame: Frame, cfg: HostConfig, input: Answer)
    requires
        is_plain(frame),
    ensures
        ({
            let step = frame.next(cfg, input);
            &&& is_plain(step.frame)
            &&& match step.out {
                Out::Io(Io::Write32 { off, .. }) => off != SDHCI_BUFFER,
                Out::Io(Io::Read32 { off }) => off != SDHCI_BUFFER,
                Out::Io(_) => true,
                Out::Irq(_) => true,
                Out::Call(callee) => is_plain(callee),
                Out::Return(_) => true,
                _ => false,
            }
        }),
{
}

/// A step of an operation that has nothing to do with the port, on top of others.
proof fn lemma_plain_step(world: World, reply: u32, from: int, flow: Flow)
    requires
        0 <= from < world.task.stack.len(),
        plain_from(world.task.stack, from),
        spares_port(world.task.waiting),
    ensures
        ({
            let next = world.stepped(reply);
            let s = world.task.stack;
            let t = next.task.stack;
            &&& t.len() >= s.len() - 1
            &&& forall|i: int| 0 <= i < s.len() - 1 ==> #[trigger] t[i] == s[i]
            &&& plain_from(t, from)
            &&& next.task.buf == world.task.buf
            &&& spares_port(next.task.waiting)
            &&& t.len() == s.len() - 1 ==> next.task.waiting is None
            &&& flow.after(world, reply) == flow
        }),
{
    let s = world.task.stack;
    lemma_plain_next(s.last(), world.host.cfg, world.task.input(reply));
    let step = world.resumed(reply);
    let t = world.stepped(reply).task.stack;
    assert forall|i: int| from <= i < t.len() implies is_plain(#[trigger] t[i]) by {
        if i < s.len() - 1 {
            assert(t[i] == s[i]);
        }
    }
}

#[verifier::rlimit(40)]
proof fn lemma_fifo_step(
    world: World,
    reply: u32,
    transfer: Transfer,
    buf: Seq<u8>,
    flow: Flow,
)
    requires
        world.task.stack.len() == 1,
        in_step(world.task, transfer, buf, flow),
        transfer.len == buf.len(),
    ensures
        in_step(world.stepped(reply).task, transfer, buf, flow.after(world, reply)),
{
    let s = world.task.stack;
    let fifo = s[0]->Fifo_0;
    let next = world.stepped(reply);
    let step = world.resumed(reply);
    let plan = transfer.plan_of();
    law_shape_round_trip(plan);
    assert(s.last() == Frame::Fifo(fifo));
    assert(flow.after(world, reply) =~= flow);
    if fifo.phase is Move && world.task.inbox is Ok {
        assert(plain_from(next.task.stack, 1));
    }
    if let Out::Call(callee) = step.out {
        assert(next.task.stack =~= seq![step.frame, callee]);
    }
}

#[verifier::rlimit(40)]
proof fn lemma_open_step(
    world: World,
    reply: u32,
    transfer: Transfer,
    buf: Seq<u8>,
    flow: Flow,
)
    requires
        world.task.stack.len() == 2,
        world.task.stack[0] matches Frame::Fifo(fifo) && fifo.phase is Open,
        in_step(world.task, transfer, buf, flow),
    ensures
        in_step(world.stepped(reply).task, transfer, buf, flow.after(world, reply)),
{
    let s = world.task.stack;
    let next = world.stepped(reply);
    let step = world.resumed(reply);
    assert(s.last() == s[1]);
    assert(flow.after(world, reply) =~= flow);
    assert(next.task.stack[0] == s[0]);
}

#[verifier::rlimit(40)]
proof fn lemma_pio_step(
    world: World,
    reply: u32,
    transfer: Transfer,
    buf: Seq<u8>,
    flow: Flow,
)
    requires
        world.task.stack.len() == 2,
        world.task.stack[0] matches Frame::Fifo(fifo) && fifo.phase is Move,
        in_step(world.task, transfer, buf, flow),
        transfer.len == buf.len(),
    ensures
        in_step(world.stepped(reply).task, transfer, buf, flow.after(world, reply)),
{
    let s = world.task.stack;
    let pio = s[1]->Pio_0;
    let next = world.stepped(reply);
    let step = world.resumed(reply);
    let moved = flow.moved(transfer.write);
    let b = pio.blocks_left as int;
    let w = pio.words as int;
    assert((b - 1) * w == b * w - w) by (nonlinear_arith);
    assert(b == 0 ==> b * w == 0) by (nonlinear_arith);
    assert(s.last() == s[1]);
    assert(next.task.stack[0] == s[0]);
    lemma_word_beyond(buf, moved);
    let card = |k: int| flow.taken[k];
    if pio.phase is Word {
        let after = flow.after(world, reply);
        if transfer.write {
            assert(after.sent == flow.sent.push(word_at(buf, 4 * moved)));
            assert(after.taken =~= flow.taken);
        } else {
            let fed = |k: int| after.taken[k];
            assert(after.taken == flow.taken.push(reply));
            assert(after.sent =~= flow.sent);
            assert(filled(buf, card, moved) =~= filled(buf, fed, moved));
            lemma_stored_next(buf, fed, moved);
        }
    } else {
        assert(flow.after(world, reply).sent =~= flow.sent);
        assert(flow.after(world, reply).taken =~= flow.taken);
    }
}

#[verifier::rlimit(40)]
proof fn lemma_transfer_step(
    world: World,
    reply: u32,
    transfer: Transfer,
    buf: Seq<u8>,
    flow: Flow,
)
    requires
        in_step(world.task, transfer, buf, flow),
        transfer.len == buf.len(),
    ensures
        in_step(world.stepped(reply).task, transfer, buf, flow.after(world, reply)),
{
    let s = world.task.stack;
    if s.len() == 0 {
        assert(flow.after(world, reply) =~= flow);
    } else {
        let fifo = s[0]->Fifo_0;
        if s.len() == 1 {
            lemma_fifo_step(world, reply, transfer, buf, flow);
        } else if fifo.phase is Complete {
            lemma_plain_step(world, reply, 1, flow);
        } else if s.len() == 2 {
            if fifo.phase is Open {
                lemma_open_step(world, reply, transfer, buf, flow);
            } else {
                lemma_pio_step(world, reply, transfer, buf, flow);
            }
        } else {
            lemma_plain_step(world, reply, 2, flow);
        }
    }
}

proof fn lemma_transfer_runs(
    world: World,
    transfer: Transfer,
    buf: Seq<u8>,
    turns: spec_fn(int) -> Turn,
    n: nat,
)
    requires
        world.task == TaskState::begins(Fifo::of(transfer), buf),
        transfer.len == buf.len(),
    ensures
        in_step(world.after_turns(turns, n).task, transfer, buf, flow_after(world, turns, n)),
    decreases n,
{
    if n == 0 {
        let flow = Flow { sent: Seq::empty(), taken: Seq::empty(), waits: 0 };
        assert(filled(buf, |k: int| flow.taken[k], 0) =~= buf);
    } else {
        let m = (n - 1) as nat;
        lemma_transfer_runs(world, transfer, buf, turns, m);
        let found = World { irq: turns(m as int).irq, ..world.after_turns(turns, m) };
        lemma_transfer_step(
            found,
            turns(m as int).reply,
            transfer,
            buf,
            flow_after(world, turns, m),
        );
    }
}

/// Writing a buffer, whatever the registers read as and whatever interrupts come in
/// between: what the data port gets is, word by word and in order, what the buffer holds,
/// and the buffer is left as it is. Where the task succeeds, the port has got every word
/// of the transfer, and the controller's buffer has been waited for once for each block.
pub proof fn law_write_transfer(
    world: World,
    transfer: Transfer,
    buf: Seq<u8>,
    turns: spec_fn(int) -> Turn,
    n: nat,
)
    requires
        world.task == TaskState::begins(Fifo::of(transfer), buf),
        transfer.len == buf.len(),
        transfer.write,
    ensures
        ({
            let end = world.after_turns(turns, n).task;
            let sent = flow_after(world, turns, n).sent;
            &&& end.buf == buf
            &&& forall|k: int| 0 <= k < sent.len() ==> #[trigger] sent[k] == word_at(buf, 4 * k)
            &&& end.stack.len() == 0 && end.inbox is Ok ==> sent.len() == transfer_words(transfer)
                && flow_after(world, turns, n).waits == transfer.plan_of().blocks
        }),
{
    lemma_transfer_runs(world, transfer, buf, turns, n);
}

/// Reading into a buffer, whatever the registers read as and whatever interrupts come in
/// between: the buffer holds, word by word and in order, what the data port has given, as
/// far as that goes, and is otherwise as it was. Where the task succeeds, every word of
/// the transfer has been read, and the controller's buffer has been waited for once for
/// each block.
pub proof fn law_read_transfer(
    world: World,
    transfer: Transfer,
    buf: Seq<u8>,
    turns: spec_fn(int) -> Turn,
    n: nat,
)
    requires
        world.task == TaskState::begins(Fifo::of(transfer), buf),
        transfer.len == buf.len(),
        !transfer.write,
    ensures
        ({
            let end = world.after_turns(turns, n).task;
            let taken = flow_after(world, turns, n).taken;
            &&& end.buf == filled(buf, |k: int| taken[k], taken.len() as int)
            &&& flow_after(world, turns, n).sent.len() == 0
            &&& end.stack.len() == 0 && end.inbox is Ok ==> taken.len() == transfer_words(transfer)
                && flow_after(world, turns, n).waits == transfer.plan_of().blocks
        }),
{
    lemma_transfer_runs(world, transfer, buf, turns, n);
}

/// What is written is what is read back: where a write has succeeded, and a read of the
/// same shape that is given the words of that write succeeds, the buffer of the read then
/// holds what the buffer of the write held. This is so for every transfer whose blocks the
/// block count register can count.
pub proof fn law_transfer_round_trip(
    writer: World,
    sent: Transfer,
    source: Seq<u8>,
    written: spec_fn(int) -> Turn,
    n: nat,
    reader: World,
    target: Seq<u8>,
    read: spec_fn(int) -> Turn,
    m: nat,
)
    requires
        sent.is_supported(),
        sent.in_blocks() ==> sent.count() < 0x1_0000,
        sent.write,
        sent.len == source.len(),
        sent.len == target.len(),
        writer.task == TaskState::begins(Fifo::of(sent), source),
        reader.task == TaskState::begins(Fifo::of(Transfer { write: false, ..sent }), target),
        writer.after_turns(written, n).task.stack.len() == 0,
        writer.after_turns(written, n).task.inbox is Ok,
        reader.after_turns(read, m).task.stack.len() == 0,
        reader.after_turns(read, m).task.inbox is Ok,
        flow_after(reader, read, m).taken == flow_after(writer, written, n).sent,
    ensures
        reader.after_turns(read, m).task.buf == source,
{
    let taken_by = Transfer { write: false, ..sent };
    law_write_transfer(writer, sent, source, written, n);
    law_read_transfer(reader, taken_by, target, read, m);
    law_plan_covers_length(sent);
    let plan = sent.plan_of();
    let words = words_for(plan.block_size) as int;
    let total = transfer_words(sent);
    assert(4 * words >= plan.block_size);
    assert(4 * (plan.blocks * words) >= plan.block_size * plan.blocks) by (nonlinear_arith)
        requires
            4 * words >= plan.block_size,
            plan.blocks >= 0,
    ;
    let taken = flow_after(reader, read, m).taken;
    let card = |k: int| taken[k];
    let end = filled(target, card, total);
    assert forall|j: int| 0 <= j < source.len() implies end[j] == source[j] by {
        let k = j / 4;
        assert(card(k) == word_at(source, 4 * k));
        law_word_round_trip(source, target, 4 * k);
        assert(stored(target, 4 * k, word_at(source, 4 * k))[j] == source[j]);
    }
    assert(end =~= source);
}

} // verus!
