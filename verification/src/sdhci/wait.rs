//! Waiting: for a register to reach a value, and for an interrupt flag.

use vstd::prelude::*;

use crate::bits::{bit, law_u16_bits, law_u32_bits};
use crate::error::{Answer, SdioError};
use crate::irq::IrqFlag;
use crate::regs::{
    CC_INT_CLK_STABLE, ERR_INT_CMD_CRC, ERR_INT_CMD_TIMEOUT, ERR_INT_DAT_CRC, ERR_INT_DAT_TIMEOUT,
    SDHCI_CLOCK_CONTROL, SDHCI_CMD_INHIBIT, SDHCI_PRESENT_STATE, SDHCI_SOFTWARE_RESET,
    SWRST_DAT_LINE,
};
use crate::sdhci::config::HostConfig;
use crate::sdhci::frame::{Frame, Io, IrqOp, Out, Step, ERROR_TAKEN};

verus! {

/// How often a flag is looked for with a short pause in between.
pub const WAIT_SPINS: u32 = 1_000;

/// How often it is then looked for with other tasks run in between.
pub const WAIT_YIELDS: u32 = 100_000;

/// What a register poll waits for.
#[derive(Clone, Copy, Debug, PartialEq, Eq, Structural)]
pub enum PollCond {
    /// No command in flight.
    CmdIdle,
    /// Internal clock stable.
    ClockStable,
    /// Controller reset over.
    ResetDone,
    /// Data line reset over.
    DatLineReset,
}

/// Polls a register.
#[derive(Clone, Copy, Debug, PartialEq, Eq, Structural)]
pub struct Poll {
    /// What is waited for.
    pub cond: PollCond,
    /// How often the register may still be read.
    pub left: u32,
    /// The register is being read.
    pub asked: bool,
}

/// Resets the data line, and gives it the time to do so.
#[derive(Clone, Copy, Debug, PartialEq, Eq, Structural)]
pub struct ResetDat {
    /// The reset has been requested.
    pub requested: bool,
}

/// Where a wait for an interrupt flag stands.
#[derive(Clone, Copy, Debug, PartialEq, Eq, Structural)]
pub enum WaitPhase {
    /// About to look.
    Look,
    /// Taking the error.
    Error,
    /// Taking the flag.
    Flag,
    /// Resetting the data line after an error with that status.
    Failed { status: u16 },
}

/// Waits for an interrupt flag.
#[derive(Clone, Copy, Debug, PartialEq, Eq, Structural)]
pub struct WaitIrq {
    /// The flag.
    pub flag: IrqFlag,
    /// How often it may still be looked for.
    pub left: u32,
    /// Where the wait stands.
    pub phase: WaitPhase,
}

/// The error that an error interrupt status stands for: a CRC error before a
/// timeout before anything else.
pub open spec fn error_of(status: u16) -> SdioError {
    if status & (ERR_INT_CMD_CRC | ERR_INT_DAT_CRC) != 0 {
        SdioError::CrcError
    } else if status & (ERR_INT_CMD_TIMEOUT | ERR_INT_DAT_TIMEOUT) != 0 {
        SdioError::Timeout
    } else {
        SdioError::IoError
    }
}

/// The error that an error interrupt status stands for.
pub fn classify_error(status: u16) -> (error: SdioError)
    ensures
        error == error_of(status),
        error == SdioError::CrcError <==> bit(status as int, 0x02) || bit(status as int, 0x20),
{
    proof {
        law_error_by_bits(status);
    }
    if status & (ERR_INT_CMD_CRC | ERR_INT_DAT_CRC) != 0 {
        SdioError::CrcError
    } else if status & (ERR_INT_CMD_TIMEOUT | ERR_INT_DAT_TIMEOUT) != 0 {
        SdioError::Timeout
    } else {
        SdioError::IoError
    }
}

impl PollCond {
    /// The register to look at.
    pub open spec fn register(self) -> Io {
        match self {
            PollCond::CmdIdle => Io::Read32 { off: SDHCI_PRESENT_STATE },
            PollCond::ClockStable => Io::Read16 { off: SDHCI_CLOCK_CONTROL },
            PollCond::ResetDone => Io::Read8 { off: SDHCI_SOFTWARE_RESET },
            PollCond::DatLineReset => Io::Read8 { off: SDHCI_SOFTWARE_RESET },
        }
    }

    /// The register value that ends the wait.
    pub open spec fn met_by(self, value: u32) -> bool {
        match self {
            PollCond::CmdIdle => value & SDHCI_CMD_INHIBIT == 0,
            PollCond::ClockStable => value & (CC_INT_CLK_STABLE as u32) != 0,
            PollCond::ResetDone => value == 0,
            PollCond::DatLineReset => value & (SWRST_DAT_LINE as u32) == 0,
        }
    }

    /// The answer where the wait ends without success. A data line reset that does
    /// not end is not an error of its own.
    pub open spec fn gives_up_with(self) -> Answer {
        match self {
            PollCond::DatLineReset => Ok(0),
            _ => Err(SdioError::Timeout),
        }
    }
}

impl Poll {
    /// A poll that reads the register at most `left` times.
    pub open spec fn of(cond: PollCond, left: u32) -> Frame {
        Frame::Poll(Poll { cond, left, asked: false })
    }

    /// Reads the register, as long as it may, until the condition is met; pauses
    /// after each read that does not meet it.
    pub open spec fn next(self, input: Answer) -> Step {
        if !self.asked {
            if self.left == 0 {
                Step { frame: Frame::Poll(self), out: Out::Return(self.cond.gives_up_with()) }
            } else {
                Step {
                    frame: Frame::Poll(Poll { left: (self.left - 1) as u32, asked: true, ..self }),
                    out: Out::Io(self.cond.register()),
                }
            }
        } else {
            match input {
                Err(e) => Step { frame: Frame::Poll(self), out: Out::Return(Err(e)) },
                Ok(value) => if self.cond.met_by(value) {
                    Step { frame: Frame::Poll(self), out: Out::Return(Ok(0)) }
                } else {
                    Step {
                        frame: Frame::Poll(Poll { asked: false, ..self }),
                        out: Out::Io(Io::Spin { times: 1 }),
                    }
                },
            }
        }
    }

    /// A poll that reads the register at most `left` times.
    pub fn start(cond: PollCond, left: u32) -> (frame: Frame)
        ensures
            frame == Poll::of(cond, left),
    {
        Frame::Poll(Poll { cond, left, asked: false })
    }

    /// Resumes the poll.
    pub fn resume(self, input: Answer) -> (step: Step)
        ensures
            step == self.next(input),
    {
        if !self.asked {
            if self.left == 0 {
                let answer: Answer = match self.cond {
                    PollCond::DatLineReset => Ok(0),
                    _ => Err(SdioError::Timeout),
                };
                return Step { frame: Frame::Poll(self), out: Out::Return(answer) };
            }
            let io: Io = match self.cond {
                PollCond::CmdIdle => Io::Read32 { off: SDHCI_PRESENT_STATE },
                PollCond::ClockStable => Io::Read16 { off: SDHCI_CLOCK_CONTROL },
                PollCond::ResetDone => Io::Read8 { off: SDHCI_SOFTWARE_RESET },
                PollCond::DatLineReset => Io::Read8 { off: SDHCI_SOFTWARE_RESET },
            };
            return Step {
                frame: Frame::Poll(Poll { left: self.left - 1, asked: true, ..self }),
                out: Out::Io(io),
            };
        }
        let value: u32 = match input {
            Err(e) => return Step { frame: Frame::Poll(self), out: Out::Return(Err(e)) },
            Ok(value) => value,
        };
        let met: bool = match self.cond {
            PollCond::CmdIdle => value & SDHCI_CMD_INHIBIT == 0,
            PollCond::ClockStable => value & (CC_INT_CLK_STABLE as u32) != 0,
            PollCond::ResetDone => value == 0,
            PollCond::DatLineReset => value & (SWRST_DAT_LINE as u32) == 0,
        };
        if met {
            Step { frame: Frame::Poll(self), out: Out::Return(Ok(0)) }
        } else {
            Step {
                frame: Frame::Poll(Poll { asked: false, ..self }),
                out: Out::Io(Io::Spin { times: 1 }),
            }
        }
    }
}

impl ResetDat {
    /// A reset that has not begun.
    pub open spec fn of() -> Frame {
        Frame::ResetDat(ResetDat { requested: false })
    }

    /// Requests the reset, then turns into the poll for its end.
    pub open spec fn next(self, cfg: HostConfig) -> Step {
        if !self.requested {
            Step {
                frame: Frame::ResetDat(ResetDat { requested: true }),
                out: Out::Io(Io::Write8 { off: SDHCI_SOFTWARE_RESET, value: SWRST_DAT_LINE }),
            }
        } else {
            Poll { cond: PollCond::DatLineReset, left: cfg.reset_polls, asked: false }.next(Ok(0))
        }
    }

    /// Resumes the reset.
    pub fn resume(self, cfg: &HostConfig) -> (step: Step)
        ensures
            step == self.next(*cfg),
    {
        if !self.requested {
            Step {
                frame: Frame::ResetDat(ResetDat { requested: true }),
                out: Out::Io(Io::Write8 { off: SDHCI_SOFTWARE_RESET, value: SWRST_DAT_LINE }),
            }
        } else {
            Poll { cond: PollCond::DatLineReset, left: cfg.reset_polls, asked: false }.resume(Ok(0))
        }
    }
}

impl WaitIrq {
    /// A wait that has not begun.
    pub open spec fn of(flag: IrqFlag) -> Frame {
        Frame::WaitIrq(
            WaitIrq { flag, left: (WAIT_SPINS + WAIT_YIELDS) as u32, phase: WaitPhase::Look },
        )
    }

    /// The wait in another phase.
    pub open spec fn at(self, phase: WaitPhase) -> Frame {
        Frame::WaitIrq(WaitIrq { phase, ..self })
    }

    /// Takes the error first: an error resets the data line and ends the wait. Then
    /// takes the flag: a flag that is up ends the wait. Otherwise pauses, or gives
    /// way once the short pauses are used up, and looks again.
    pub open spec fn next(self, input: Answer) -> Step {
        match (self.phase, input) {
            (WaitPhase::Look, _) => if self.left == 0 {
                Step { frame: Frame::WaitIrq(self), out: Out::Return(Err(SdioError::Timeout)) }
            } else {
                Step {
                    frame: (WaitIrq { left: (self.left - 1) as u32, ..self }).at(WaitPhase::Error),
                    out: Out::Irq(IrqOp::TakeError),
                }
            },
            (WaitPhase::Failed { status }, _) => Step {
                frame: Frame::WaitIrq(self),
                out: Out::Return(Err(error_of(status))),
            },
            (_, Err(e)) => Step { frame: Frame::WaitIrq(self), out: Out::Return(Err(e)) },
            (WaitPhase::Error, Ok(taken)) => if taken >= ERROR_TAKEN {
                Step {
                    frame: self.at(WaitPhase::Failed { status: (taken - ERROR_TAKEN) as u16 }),
                    out: Out::Call(ResetDat::of()),
                }
            } else {
                Step { frame: self.at(WaitPhase::Flag), out: Out::Irq(IrqOp::Take(self.flag)) }
            },
            (WaitPhase::Flag, Ok(up)) => if up != 0 {
                Step { frame: Frame::WaitIrq(self), out: Out::Return(Ok(0)) }
            } else {
                Step {
                    frame: self.at(WaitPhase::Look),
                    out: Out::Io(
                        if self.left >= WAIT_YIELDS { Io::Spin { times: 1 } } else { Io::Yield },
                    ),
                }
            },
        }
    }

    /// A wait that has not begun.
    pub fn start(flag: IrqFlag) -> (frame: Frame)
        ensures
            frame == WaitIrq::of(flag),
    {
        Frame::WaitIrq(WaitIrq { flag, left: WAIT_SPINS + WAIT_YIELDS, phase: WaitPhase::Look })
    }

    /// Resumes the wait.
    pub fn resume(self, input: Answer) -> (step: Step)
        ensures
            step == self.next(input),
    {
        match self.phase {
            WaitPhase::Look => {
                if self.left == 0 {
                    return Step {
                        frame: Frame::WaitIrq(self),
                        out: Out::Return(Err(SdioError::Timeout)),
                    };
                }
                return Step {
                    frame: Frame::WaitIrq(
                        WaitIrq { left: self.left - 1, phase: WaitPhase::Error, ..self },
                    ),
                    out: Out::Irq(IrqOp::TakeError),
                };
            },
            WaitPhase::Failed { status } => {
                let error: SdioError = classify_error(status);
                return Step { frame: Frame::WaitIrq(self), out: Out::Return(Err(error)) };
            },
            _ => {},
        }
        let value: u32 = match input {
            Err(e) => return Step { frame: Frame::WaitIrq(self), out: Out::Return(Err(e)) },
            Ok(value) => value,
        };
        if let WaitPhase::Error = self.phase {
            if value >= ERROR_TAKEN {
                let status: u16 = #[verifier::truncate] ((value - ERROR_TAKEN) as u16);
                return Step {
                    frame: Frame::WaitIrq(WaitIrq { phase: WaitPhase::Failed { status }, ..self }),
                    out: Out::Call(Frame::ResetDat(ResetDat { requested: false })),
                };
            }
            return Step {
                frame: Frame::WaitIrq(WaitIrq { phase: WaitPhase::Flag, ..self }),
                out: Out::Irq(IrqOp::Take(self.flag)),
            };
        }
        if value != 0 {
            return Step { frame: Frame::WaitIrq(self), out: Out::Return(Ok(0)) };
        }
        let pause: Io = if self.left >= WAIT_YIELDS { Io::Spin { times: 1 } } else { Io::Yield };
        Step {
            frame: Frame::WaitIrq(WaitIrq { phase: WaitPhase::Look, ..self }),
            out: Out::Io(pause),
        }
    }
}

// ---- Laws ----

/// What ends a wait for a register, value by value: the command line is idle where the
/// lowest bit is down; the clock is stable where the second is up; the controller is out of
/// reset where no bit at all is up; the data line where the third is down.
pub proof fn law_waits_by_value(value: u32)
    ensures
        PollCond::CmdIdle.met_by(value) <==> value % 2 == 0,
        PollCond::ClockStable.met_by(value) <==> bit(value as int, 0x02),
        PollCond::ResetDone.met_by(value) <==> value == 0,
        PollCond::DatLineReset.met_by(value) <==> !bit(value as int, 0x04),
{
    law_u32_bits(value);
}

/// Which register a wait reads, at its own width, and how it ends where it is in vain: only
/// a data line that stays in reset is put up with.
pub proof fn law_waits_read_their_register(cond: PollCond)
    ensures
        cond.register() == (match cond {
            PollCond::CmdIdle => Io::Read32 { off: 0x24 },
            PollCond::ClockStable => Io::Read16 { off: 0x2C },
            PollCond::ResetDone => Io::Read8 { off: 0x2F },
            PollCond::DatLineReset => Io::Read8 { off: 0x2F },
        }),
        cond.gives_up_with() is Ok <==> cond == PollCond::DatLineReset,
        cond.gives_up_with() matches Err(e) ==> e == SdioError::Timeout,
{
}

/// Which error a status stands for, bit by bit: a CRC error where one is reported of the
/// command or of the data; else a timeout where one is; else something else.
pub proof fn law_error_by_bits(status: u16)
    ensures
        ({
            let v = status as int;
            let crc = bit(v, 0x02) || bit(v, 0x20);
            let late = bit(v, 0x01) || bit(v, 0x10);
            &&& error_of(status) == SdioError::CrcError <==> crc
            &&& error_of(status) == SdioError::Timeout <==> late && !crc
            &&& error_of(status) == SdioError::IoError <==> !late && !crc
        }),
{
    law_u16_bits(status);
    assert(ERR_INT_CMD_CRC | ERR_INT_DAT_CRC == 0x0022u16 && ERR_INT_CMD_TIMEOUT
        | ERR_INT_DAT_TIMEOUT == 0x0011u16) by (bit_vector);
}

/// How long a wait for an interrupt goes on, and how an error is marked.
pub proof fn law_wait_limits()
    ensures
        WAIT_SPINS == 1_000,
        WAIT_YIELDS == 100_000,
        ERROR_TAKEN == 0x1_0000,
{
}

} // verus!
