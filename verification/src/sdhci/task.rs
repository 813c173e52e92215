//! Tasks: running an operation to its end, one request at a time.

use vstd::prelude::*;

use crate::error::Answer;
use crate::irq::{drain_flags, irq_state_init, take_error, SdhciIrqState};
use crate::sdhci::buffer::{fetch_word, store_word, stored, word_at};
use crate::sdhci::frame::{Frame, Io, IrqOp, Out, Step, ERROR_TAKEN};
use crate::sdhci::host::CviSdhci;

verus! {

/// What a task wants of its runner.
#[derive(Clone, Copy, Debug, PartialEq, Eq)]
pub enum Action {
    /// Do this, and step the task with the register value that was read, if any.
    Io(Io),
    /// Step the task again.
    Again,
    /// The task is over.
    Done(Answer),
}

/// An operation in progress with everything that it waits for.
pub struct Task {
    /// The operations in progress, each called by the one before it.
    pub stack: Vec<Frame>,
    /// The transfer buffer.
    pub buf: Vec<u8>,
    /// The request that has not been answered yet.
    pub waiting: Option<Io>,
    /// The answer for the innermost operation, where it does not wait; at the end,
    /// the answer of the task.
    pub inbox: Answer,
}

/// A task as a value.
#[verifier::ext_equal]
pub struct TaskState {
    /// The operations in progress.
    pub stack: Seq<Frame>,
    /// The transfer buffer.
    pub buf: Seq<u8>,
    /// The request that has not been answered yet.
    pub waiting: Option<Io>,
    /// The answer for the innermost operation.
    pub inbox: Answer,
}

/// Everything that a step of a task works on.
#[verifier::ext_equal]
pub struct World {
    /// The task.
    pub task: TaskState,
    /// The controller.
    pub host: CviSdhci,
    /// The interrupt state.
    pub irq: SdhciIrqState,
}

/// What a runner's reply to a request amounts to: as many bits as were asked for.
pub open spec fn value_read(io: Io, reply: u32) -> u32 {
    match io {
        Io::Read8 { .. } => reply % 0x100,
        Io::Read16 { .. } => reply % 0x1_0000,
        Io::Read32 { .. } => reply,
        _ => 0,
    }
}

/// The interrupt state after a request to it.
pub open spec fn irq_after(irq: SdhciIrqState, op: IrqOp, base: usize) -> SdhciIrqState {
    match op {
        IrqOp::TakeError => irq.without_error(),
        IrqOp::Take(flag) => irq.without(flag),
        IrqOp::Drain => irq.drained(),
        IrqOp::Attach => SdhciIrqState { base, ..irq },
    }
}

/// The answer to a request to the interrupt state.
pub open spec fn irq_answer(irq: SdhciIrqState, op: IrqOp) -> u32 {
    match op {
        IrqOp::TakeError => match irq.pending_error() {
            Some(status) => (ERROR_TAKEN + status) as u32,
            None => 0,
        },
        IrqOp::Take(flag) => if irq.flag(flag) { 1 } else { 0 },
        IrqOp::Drain => 0,
        IrqOp::Attach => 0,
    }
}

impl TaskState {
    /// Every operation can be resumed, and each is nested less deeply than its caller.
    pub open spec fn wf(self) -> bool {
        &&& forall|i: int| 0 <= i < self.stack.len() ==> (#[trigger] self.stack[i]).wf()
        &&& forall|i: int, j: int|
            0 <= i < j < self.stack.len() ==> (#[trigger] self.stack[i]).level() > (
            #[trigger] self.stack[j]).level()
    }

    /// The task begins with `frame` on `buf`.
    pub open spec fn begins(frame: Frame, buf: Seq<u8>) -> TaskState {
        TaskState { stack: seq![frame], buf, waiting: None, inbox: Ok(0) }
    }

    /// What the innermost operation is resumed with.
    pub open spec fn input(self, reply: u32) -> Answer {
        match self.waiting {
            Some(io) => Ok(value_read(io, reply)),
            None => self.inbox,
        }
    }
}

impl World {
    /// The world once the innermost operation has become `frame` and has asked for
    /// `out`.
    pub open spec fn after(self, frame: Frame, out: Out) -> World {
        let held = self.task.stack.drop_last().push(frame);
        let task = TaskState { stack: held, waiting: None, inbox: Ok(0), ..self.task };
        match out {
            Out::Io(io) => World { task: TaskState { waiting: Some(io), ..task }, ..self },
            Out::Irq(op) => World {
                task: TaskState { inbox: Ok(irq_answer(self.irq, op)), ..task },
                irq: irq_after(self.irq, op, self.host.base),
                ..self
            },
            Out::SetRca(rca) => World { task, host: CviSdhci { rca, ..self.host }, ..self },
            Out::SetIds { vendor, device } => World {
                task,
                host: CviSdhci { vendor_id: vendor, device_id: device, ..self.host },
                ..self
            },
            Out::Store { at, word } => World {
                task: TaskState { buf: stored(self.task.buf, at as int, word), ..task },
                ..self
            },
            Out::Fetch { at } => World {
                task: TaskState { inbox: Ok(word_at(self.task.buf, at as int)), ..task },
                ..self
            },
            Out::Call(callee) => World {
                task: TaskState { stack: held.push(callee), ..task },
                ..self
            },
            Out::Return(answer) => World {
                task: TaskState { stack: self.task.stack.drop_last(), inbox: answer, ..task },
                ..self
            },
        }
    }

    /// What the innermost operation does when the runner replies with `reply`.
    pub open spec fn resumed(self, reply: u32) -> Step {
        self.task.stack.last().next(self.host.cfg, self.task.input(reply))
    }

    /// The world after one step of the task. A task that is over stays as it is.
    pub open spec fn stepped(self, reply: u32) -> World {
        if self.task.stack.len() == 0 {
            self
        } else {
            self.after(self.resumed(reply).frame, self.resumed(reply).out)
        }
    }

    /// What one step of the task wants of the runner.
    pub open spec fn wants(self, reply: u32) -> Action {
        if self.task.stack.len() == 0 {
            Action::Done(self.task.inbox)
        } else {
            match self.resumed(reply).out {
                Out::Io(io) => Action::Io(io),
                Out::Return(answer) => if self.task.stack.len() == 1 {
                    Action::Done(answer)
                } else {
                    Action::Again
                },
                _ => Action::Again,
            }
        }
    }
}

impl View for Task {
    type V = TaskState;

    open spec fn view(&self) -> TaskState {
        TaskState {
            stack: self.stack@,
            buf: self.buf@,
            waiting: self.waiting,
            inbox: self.inbox,
        }
    }
}

impl Task {
    /// The task is about to run `frame` on `buf`.
    pub open spec fn runs(self, frame: Frame, buf: Seq<u8>) -> bool {
        &&& self@ == TaskState::begins(frame, buf)
        &&& self@.wf()
    }

    /// A task that is about to run `frame` on `buf`.
    pub fn new(frame: Frame, buf: Vec<u8>) -> (task: Task)
        requires
            frame.wf(),
        ensures
            task.runs(frame, buf@),
    {
        let mut stack: Vec<Frame> = Vec::new();
        stack.push(frame);
        Task { stack, buf, waiting: None, inbox: Ok(0) }
    }

    fn perform_irq(irq: &mut SdhciIrqState, op: IrqOp, base: usize) -> (value: u32)
        ensures
            *final(irq) == irq_after(*old(irq), op, base),
            value == irq_answer(*old(irq), op),
    {
        match op {
            IrqOp::TakeError => match take_error(irq) {
                Some(status) => ERROR_TAKEN + status as u32,
                None => 0,
            },
            IrqOp::Take(flag) => if irq.take(flag) {
                1
            } else {
                0
            },
            IrqOp::Drain => {
                drain_flags(irq);
                0
            },
            IrqOp::Attach => {
                irq_state_init(irq, base);
                0
            },
        }
    }

    /// Takes the task one step further. `reply` is the register value that was read,
    /// where the last action was a read; otherwise it does not matter.
    pub fn step(
        &mut self,
        host: &mut CviSdhci,
        irq: &mut SdhciIrqState,
        reply: u32,
    ) -> (action: Action)
        requires
            old(self)@.wf(),
            old(host).wf(),
        ensures
            final(self)@.wf(),
            final(host).wf(),
            (World { task: final(self)@, host: *final(host), irq: *final(irq) }) == (World {
                task: old(self)@,
                host: *old(host),
                irq: *old(irq),
            }).stepped(reply),
            action == (World {
                task: old(self)@,
                host: *old(host),
                irq: *old(irq),
            }).wants(reply),
    {
        let ghost world = World { task: self@, host: *host, irq: *irq };
        let depth: usize = self.stack.len();
        if depth == 0 {
            return Action::Done(self.inbox);
        }
        let input: Answer = match self.waiting {
            Some(io) => Ok(
                match io {
                    Io::Read8 { .. } => reply % 0x100,
                    Io::Read16 { .. } => reply % 0x1_0000,
                    Io::Read32 { .. } => reply,
                    _ => 0,
                },
            ),
            None => self.inbox,
        };
        let top: Frame = self.stack[depth - 1];
        let step: Step = top.resume(&host.cfg, input);
        proof {
            law_calls_descend(top, host.cfg, input);
        }
        self.stack.pop();
        self.waiting = None;
        self.inbox = Ok(0);
        if let Out::Return(answer) = step.out {
            self.inbox = answer;
            return if depth == 1 {
                Action::Done(answer)
            } else {
                Action::Again
            };
        }
        self.stack.push(step.frame);
        match step.out {
            Out::Io(io) => {
                self.waiting = Some(io);
                return Action::Io(io);
            },
            Out::Irq(op) => {
                let value: u32 = Task::perform_irq(irq, op, host.base);
                self.inbox = Ok(value);
            },
            Out::SetRca(rca) => {
                host.rca = rca;
            },
            Out::SetIds { vendor, device } => {
                host.vendor_id = vendor;
                host.device_id = device;
            },
            Out::Store { at, word } => {
                store_word(&mut self.buf, at, word);
            },
            Out::Fetch { at } => {
                let word: u32 = fetch_word(&self.buf, at);
                self.inbox = Ok(word);
            },
            Out::Call(callee) => {
                self.stack.push(callee);
            },
            Out::Return(_) => {},
        }
        Action::Again
    }
}

// ---- Laws ----

/// An operation calls only operations that are nested less deeply, so calls never go
/// round in a circle.
#[verifier::rlimit(40)]
pub proof fn law_calls_descend(
    frame: Frame,
    cfg: crate::sdhci::config::HostConfig,
    input: Answer,
)
    requires
        frame.wf(),
    ensures
        frame.next(cfg, input).frame.level() <= frame.level(),
        frame.next(cfg, input).out matches Out::Call(callee) ==> callee.level() < frame.next(
            cfg,
            input,
        ).frame.level(),
{
}

} // verus!
