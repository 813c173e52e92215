//! Frames: operations in progress, and what they ask for.

use vstd::prelude::*;

use crate::error::Answer;
use crate::irq::IrqFlag;
use crate::sdhci::card::{CisPtr, EnableFunc, Manfid, SetBlockSize};
use crate::sdhci::clock::SetClock;
use crate::sdhci::command::{Cmd52, SendCmd};
use crate::sdhci::config::HostConfig;
use crate::sdhci::init::Init;
use crate::sdhci::transfer::{Cmd53, Fifo, Pio};
use crate::sdhci::wait::{Poll, ResetDat, WaitIrq};

verus! {

/// A request to the outside world. Offsets are relative to the register base.
#[derive(Clone, Copy, Debug, PartialEq, Eq, Structural)]
#[allow(inconsistent_fields)]
pub enum Io {
    /// Read an 8-bit register.
    Read8 { off: u32 },
    /// Read a 16-bit register.
    Read16 { off: u32 },
    /// Read a 32-bit register.
    Read32 { off: u32 },
    /// Write an 8-bit register.
    Write8 { off: u32, value: u8 },
    /// Write a 16-bit register.
    Write16 { off: u32, value: u16 },
    /// Write a 32-bit register.
    Write32 { off: u32, value: u32 },
    /// Pause for that many turns of a spin loop.
    Spin { times: u32 },
    /// Give way to other tasks.
    Yield,
}

/// A request to the interrupt state.
#[derive(Clone, Copy, Debug, PartialEq, Eq, Structural)]
pub enum IrqOp {
    /// Take the pending error. Answered by 0, or by `ERROR_TAKEN` plus its status.
    TakeError,
    /// Take a flag. Answered by 0 or 1.
    Take(IrqFlag),
    /// Drop everything that is pending.
    Drain,
    /// Make this controller the one that interrupts are taken from.
    Attach,
}

/// Marks the answer to [`IrqOp::TakeError`] as holding an error status.
pub const ERROR_TAKEN: u32 = 0x0001_0000;

/// What a frame asks for when it is resumed.
#[derive(Clone, Copy, Debug, PartialEq, Eq)]
pub enum Out {
    /// Something of the outside world.
    Io(Io),
    /// Something of the interrupt state.
    Irq(IrqOp),
    /// Keep the card's address.
    SetRca(u16),
    /// Keep the card's identification.
    SetIds { vendor: u16, device: u16 },
    /// Put the bytes of a word into the transfer buffer.
    Store { at: usize, word: u32 },
    /// Make a word of the bytes at a place of the transfer buffer.
    Fetch { at: usize },
    /// Run another operation and be resumed with its answer.
    Call(Frame),
    /// The operation is over.
    Return(Answer),
}

/// An operation in progress.
#[derive(Clone, Copy, Debug, PartialEq, Eq, Structural)]
pub enum Frame {
    /// Polling a register.
    Poll(Poll),
    /// Resetting the data line.
    ResetDat(ResetDat),
    /// Waiting for an interrupt flag.
    WaitIrq(WaitIrq),
    /// Sending a command.
    SendCmd(SendCmd),
    /// Accessing one card register.
    Cmd52(Cmd52),
    /// Opening a data transfer.
    Cmd53(Cmd53),
    /// Moving the data of a transfer.
    Pio(Pio),
    /// A whole data transfer.
    Fifo(Fifo),
    /// Reading a CIS pointer.
    CisPtr(CisPtr),
    /// Looking for the card's identification.
    Manfid(Manfid),
    /// Setting a function's block size.
    SetBlockSize(SetBlockSize),
    /// Enabling a function.
    EnableFunc(EnableFunc),
    /// Setting the bus clock.
    SetClock(SetClock),
    /// Bringing up the controller and the card.
    Init(Init),
}

/// A frame that has been resumed, and what it asks for.
#[derive(Clone, Copy, Debug, PartialEq, Eq)]
pub struct Step {
    /// The frame to be resumed next.
    pub frame: Frame,
    /// What it asks for until then.
    pub out: Out,
}

impl Frame {
    /// The numbers in the frame are such that it can be resumed.
    pub open spec fn wf(self) -> bool {
        match self {
            Frame::Manfid(f) => f.wf(),
            Frame::Pio(f) => f.wf(),
            Frame::SetClock(f) => f.wf(),
            Frame::SetBlockSize(f) => f.wf(),
            Frame::EnableFunc(f) => f.wf(),
            _ => true,
        }
    }

    /// How many operations may still be nested in this one.
    pub open spec fn level(self) -> nat {
        match self {
            Frame::Poll(_) => 0,
            Frame::ResetDat(_) => 1,
            Frame::WaitIrq(_) => 2,
            Frame::SendCmd(_) => 3,
            Frame::Cmd52(_) => 4,
            Frame::Cmd53(_) => 4,
            Frame::Pio(_) => 3,
            Frame::Fifo(_) => 5,
            Frame::CisPtr(_) => 5,
            Frame::Manfid(_) => 6,
            Frame::SetBlockSize(_) => 5,
            Frame::EnableFunc(_) => 5,
            Frame::SetClock(_) => 1,
            Frame::Init(_) => 7,
        }
    }

    /// What the frame does when it is resumed with `input`.
    pub open spec fn next(self, cfg: HostConfig, input: Answer) -> Step {
        match self {
            Frame::Poll(f) => f.next(input),
            Frame::ResetDat(f) => f.next(cfg),
            Frame::WaitIrq(f) => f.next(input),
            Frame::SendCmd(f) => f.next(cfg, input),
            Frame::Cmd52(f) => f.next(input),
            Frame::Cmd53(f) => f.next(input),
            Frame::Pio(f) => f.next(input),
            Frame::Fifo(f) => f.next(input),
            Frame::CisPtr(f) => f.next(input),
            Frame::Manfid(f) => f.next(input),
            Frame::SetBlockSize(f) => f.next(input),
            Frame::EnableFunc(f) => f.next(input),
            Frame::SetClock(f) => f.next(cfg, input),
            Frame::Init(f) => f.next(cfg, input),
        }
    }

    /// Resumes the frame.
    pub fn resume(self, cfg: &HostConfig, input: Answer) -> (step: Step)
        requires
            self.wf(),
        ensures
            step == self.next(*cfg, input),
            step.frame.wf(),
            step.out matches Out::Call(callee) ==> callee.wf(),
    {
        match self {
            Frame::Poll(f) => f.resume(input),
            Frame::ResetDat(f) => f.resume(cfg),
            Frame::WaitIrq(f) => f.resume(input),
            Frame::SendCmd(f) => f.resume(cfg, input),
            Frame::Cmd52(f) => f.resume(input),
            Frame::Cmd53(f) => f.resume(input),
            Frame::Pio(f) => f.resume(input),
            Frame::Fifo(f) => f.resume(input),
            Frame::CisPtr(f) => f.resume(input),
            Frame::Manfid(f) => f.resume(input),
            Frame::SetBlockSize(f) => f.resume(input),
            Frame::EnableFunc(f) => f.resume(input),
            Frame::SetClock(f) => f.resume(cfg, input),
            Frame::Init(f) => f.resume(cfg, input),
        }
    }
}

} // verus!
