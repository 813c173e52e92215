//! Commands without data: sending one, and accessing one card register.

use vstd::prelude::*;

use crate::bits::{bit, law_u32_bits};
use crate::error::{Answer, SdioError};
use crate::irq::IrqFlag;
use crate::regs::{
    CMD52_RAW_FLAG, CMD52_RW_FLAG, CMD_FLAGS_R1B, CMD_FLAGS_R4, CMD_FLAGS_R5, CMD_FLAGS_R5_DATA,
    CMD_INDEX_SHIFT, CMD_RESP_NONE, R5_COM_CRC_ERROR, R5_DATA_MASK, R5_ERROR, R5_FUNCTION_NUMBER,
    R5_ILLEGAL_COMMAND, R5_OUT_OF_RANGE, SDHCI_ARGUMENT, SDHCI_COMMAND, SDHCI_RESPONSE,
    SDIO_ADDR_MASK,
};
use crate::sdhci::config::HostConfig;
use crate::sdhci::frame::{Frame, Io, IrqOp, Out, Step};
use crate::sdhci::wait::{Poll, PollCond, WaitIrq};

verus! {

/// The response and data bits of the command register for a command, where the
/// driver knows the command.
pub open spec fn flags_of(index: u8) -> Option<u16> {
    if index == 0 {
        Some(CMD_RESP_NONE)
    } else if index == 3 || index == 52 {
        Some(CMD_FLAGS_R5)
    } else if index == 5 {
        Some(CMD_FLAGS_R4)
    } else if index == 7 {
        Some(CMD_FLAGS_R1B)
    } else if index == 53 {
        Some(CMD_FLAGS_R5_DATA)
    } else {
        None
    }
}

/// The command register value that issues command `index`.
pub open spec fn command_word(index: u8, flags: u16) -> u16 {
    ((index as u16) << CMD_INDEX_SHIFT) | flags
}

/// What an R5 response says: its data byte, or why there is none. A CRC error
/// comes before every other one.
pub open spec fn r5_answer(resp: u32) -> Answer {
    if resp & R5_COM_CRC_ERROR != 0 {
        Err(SdioError::CrcError)
    } else if resp & (R5_ILLEGAL_COMMAND | R5_FUNCTION_NUMBER | R5_OUT_OF_RANGE) != 0 {
        Err(SdioError::IoError)
    } else if resp & R5_ERROR != 0 {
        Err(SdioError::IoError)
    } else {
        Ok(resp & R5_DATA_MASK)
    }
}

/// What an R5 response says.
pub fn check_r5_response(resp: u32) -> (answer: Answer)
    ensures
        answer == r5_answer(resp),
        answer is Ok ==> answer == Ok::<u32, SdioError>(resp % 0x100),
        answer == Err::<u32, SdioError>(SdioError::CrcError) <==> bit(resp as int, 0x8000),
{
    proof {
        law_r5_by_bits(resp);
    }
    if resp & R5_COM_CRC_ERROR != 0 {
        return Err(SdioError::CrcError);
    }
    if resp & (R5_ILLEGAL_COMMAND | R5_FUNCTION_NUMBER | R5_OUT_OF_RANGE) != 0 {
        return Err(SdioError::IoError);
    }
    if resp & R5_ERROR != 0 {
        return Err(SdioError::IoError);
    }
    Ok(resp & R5_DATA_MASK)
}

/// The response and data bits of the command register for a command.
pub fn command_flags(index: u8) -> (flags: Option<u16>)
    ensures
        flags == flags_of(index),
{
    match index {
        0 => Some(CMD_RESP_NONE),
        3 => Some(CMD_FLAGS_R5),
        5 => Some(CMD_FLAGS_R4),
        7 => Some(CMD_FLAGS_R1B),
        52 => Some(CMD_FLAGS_R5),
        53 => Some(CMD_FLAGS_R5_DATA),
        _ => None,
    }
}

/// Where the sending of a command stands.
#[derive(Clone, Copy, Debug, PartialEq, Eq, Structural)]
pub enum SendPhase {
    /// Not begun.
    Begin,
    /// Waiting for the command line.
    Idle,
    /// Dropping what is pending from before.
    Drain,
    /// Writing the argument.
    Argument,
    /// Writing the command.
    Command,
    /// Waiting for its completion.
    Complete,
    /// Reading the response.
    Response,
}

/// Sends a command. Answered by the response word.
#[derive(Clone, Copy, Debug, PartialEq, Eq, Structural)]
pub struct SendCmd {
    /// Command index.
    pub index: u8,
    /// Command argument.
    pub arg: u32,
    /// Where the sending stands.
    pub phase: SendPhase,
}

impl SendCmd {
    /// A command that has not been sent.
    pub open spec fn of(index: u8, arg: u32) -> Frame {
        Frame::SendCmd(SendCmd { index, arg, phase: SendPhase::Begin })
    }

    /// The sending in another phase.
    pub open spec fn at(self, phase: SendPhase) -> Frame {
        Frame::SendCmd(SendCmd { phase, ..self })
    }

    /// Waits for an idle command line, drops what is pending, writes the argument
    /// and the command, waits for the completion and reads the response. The first
    /// failure ends it; a command that the driver does not know is not sent.
    pub open spec fn next(self, cfg: HostConfig, input: Answer) -> Step {
        match (self.phase, input) {
            (SendPhase::Begin, _) => Step {
                frame: self.at(SendPhase::Idle),
                out: Out::Call(Poll::of(PollCond::CmdIdle, cfg.cmd_idle_polls)),
            },
            (_, Err(e)) => Step { frame: Frame::SendCmd(self), out: Out::Return(Err(e)) },
            (SendPhase::Idle, Ok(_)) => Step {
                frame: self.at(SendPhase::Drain),
                out: Out::Irq(IrqOp::Drain),
            },
            (SendPhase::Drain, Ok(_)) => Step {
                frame: self.at(SendPhase::Argument),
                out: Out::Io(Io::Write32 { off: SDHCI_ARGUMENT, value: self.arg }),
            },
            (SendPhase::Argument, Ok(_)) => match flags_of(self.index) {
                None => Step {
                    frame: Frame::SendCmd(self),
                    out: Out::Return(Err(SdioError::Unsupported)),
                },
                Some(flags) => Step {
                    frame: self.at(SendPhase::Command),
                    out: Out::Io(
                        Io::Write16 {
                            off: SDHCI_COMMAND,
                            value: command_word(self.index, flags),
                        },
                    ),
                },
            },
            (SendPhase::Command, Ok(_)) => Step {
                frame: self.at(SendPhase::Complete),
                out: Out::Call(WaitIrq::of(IrqFlag::CmdComplete)),
            },
            (SendPhase::Complete, Ok(_)) => Step {
                frame: self.at(SendPhase::Response),
                out: Out::Io(Io::Read32 { off: SDHCI_RESPONSE }),
            },
            (SendPhase::Response, Ok(word)) => Step {
                frame: Frame::SendCmd(self),
                out: Out::Return(Ok(word)),
            },
        }
    }

    /// A command that has not been sent.
    pub fn start(index: u8, arg: u32) -> (frame: Frame)
        ensures
            frame == SendCmd::of(index, arg),
    {
        Frame::SendCmd(SendCmd { index, arg, phase: SendPhase::Begin })
    }

    /// Resumes the sending.
    pub fn resume(self, cfg: &HostConfig, input: Answer) -> (step: Step)
        ensures
            step == self.next(*cfg, input),
    {
        if let SendPhase::Begin = self.phase {
            return Step {
                frame: Frame::SendCmd(SendCmd { phase: SendPhase::Idle, ..self }),
                out: Out::Call(Poll::start(PollCond::CmdIdle, cfg.cmd_idle_polls)),
            };
        }
        let value: u32 = match input {
            Err(e) => return Step { frame: Frame::SendCmd(self), out: Out::Return(Err(e)) },
            Ok(value) => value,
        };
        let next: (SendPhase, Out) = match self.phase {
            SendPhase::Begin | SendPhase::Idle => (SendPhase::Drain, Out::Irq(IrqOp::Drain)),
            SendPhase::Drain => (
                SendPhase::Argument,
                Out::Io(Io::Write32 { off: SDHCI_ARGUMENT, value: self.arg }),
            ),
            SendPhase::Argument => match command_flags(self.index) {
                None => (SendPhase::Argument, Out::Return(Err(SdioError::Unsupported))),
                Some(flags) => {
                    let word: u16 = ((self.index as u16) << CMD_INDEX_SHIFT) | flags;
                    (
                        SendPhase::Command,
                        Out::Io(Io::Write16 { off: SDHCI_COMMAND, value: word }),
                    )
                },
            },
            SendPhase::Command => (
                SendPhase::Complete,
                Out::Call(WaitIrq::start(IrqFlag::CmdComplete)),
            ),
            SendPhase::Complete => (
                SendPhase::Response,
                Out::Io(Io::Read32 { off: SDHCI_RESPONSE }),
            ),
            SendPhase::Response => (SendPhase::Response, Out::Return(Ok(value))),
        };
        Step { frame: Frame::SendCmd(SendCmd { phase: next.0, ..self }), out: next.1 }
    }
}

/// Accesses one card register with CMD52. Answered by the byte of the response.
#[derive(Clone, Copy, Debug, PartialEq, Eq, Structural)]
pub struct Cmd52 {
    /// Function number.
    pub func: u8,
    /// Register address.
    pub addr: u32,
    /// Direction flags of the argument.
    pub flags: u32,
    /// Byte to write.
    pub value: u8,
    /// The command has been sent.
    pub sent: bool,
}

impl Cmd52 {
    /// An access that has not begun.
    pub open spec fn of(func: u8, addr: u32, flags: u32, value: u8) -> Frame {
        Frame::Cmd52(Cmd52 { func, addr, flags, value, sent: false })
    }

    /// A read that has not begun.
    pub open spec fn read_of(func: u8, addr: u32) -> Frame {
        Cmd52::of(func, addr, 0, 0)
    }

    /// A write that has not begun.
    pub open spec fn write_of(func: u8, addr: u32, value: u8) -> Frame {
        Cmd52::of(func, addr, CMD52_RW_FLAG, value)
    }

    /// The argument of the command.
    pub open spec fn argument(self) -> u32 {
        self.flags | ((self.func as u32 & 0x07) << 28) | ((self.addr & SDIO_ADDR_MASK) << 9)
            | self.value as u32
    }

    /// Sends the command and checks its response. An address that does not fit is
    /// refused before anything is sent.
    pub open spec fn next(self, input: Answer) -> Step {
        if !self.sent {
            if self.addr > SDIO_ADDR_MASK {
                Step { frame: Frame::Cmd52(self), out: Out::Return(Err(SdioError::Unsupported)) }
            } else {
                Step {
                    frame: Frame::Cmd52(Cmd52 { sent: true, ..self }),
                    out: Out::Call(SendCmd::of(52, self.argument())),
                }
            }
        } else {
            Step {
                frame: Frame::Cmd52(self),
                out: Out::Return(
                    match input {
                        Err(e) => Err(e),
                        Ok(resp) => r5_answer(resp),
                    },
                ),
            }
        }
    }

    /// An access that has not begun.
    pub fn start(func: u8, addr: u32, flags: u32, value: u8) -> (frame: Frame)
        ensures
            frame == Cmd52::of(func, addr, flags, value),
    {
        Frame::Cmd52(Cmd52 { func, addr, flags, value, sent: false })
    }

    /// A read that has not begun.
    pub fn start_read(func: u8, addr: u32) -> (frame: Frame)
        ensures
            frame == Cmd52::read_of(func, addr),
    {
        Cmd52::start(func, addr, 0, 0)
    }

    /// A write that has not begun.
    pub fn start_write(func: u8, addr: u32, value: u8) -> (frame: Frame)
        ensures
            frame == Cmd52::write_of(func, addr, value),
    {
        Cmd52::start(func, addr, CMD52_RW_FLAG, value)
    }

    /// Resumes the access.
    pub fn resume(self, input: Answer) -> (step: Step)
        ensures
            step == self.next(input),
    {
        if !self.sent {
            if self.addr > SDIO_ADDR_MASK {
                return Step {
                    frame: Frame::Cmd52(self),
                    out: Out::Return(Err(SdioError::Unsupported)),
                };
            }
            let arg: u32 = self.flags | ((self.func as u32 & 0x07) << 28) | ((self.addr
                & SDIO_ADDR_MASK) << 9) | self.value as u32;
            return Step {
                frame: Frame::Cmd52(Cmd52 { sent: true, ..self }),
                out: Out::Call(SendCmd::start(52, arg)),
            };
        }
        let answer: Answer = match input {
            Err(e) => Err(e),
            Ok(resp) => check_r5_response(resp),
        };
        Step { frame: Frame::Cmd52(self), out: Out::Return(answer) }
    }
}

// ---- Laws ----

/// The fields of a register access can be read off its argument, each at its place and
/// apart from the others.
pub proof fn law_cmd52_argument(func: u8, addr: u32, flags: u32, value: u8, sent: bool)
    requires
        func <= 7,
        addr <= SDIO_ADDR_MASK,
        flags == 0 || flags == CMD52_RW_FLAG || flags == CMD52_RW_FLAG | CMD52_RAW_FLAG,
    ensures
        ({
            let arg = (Cmd52 { func, addr, flags, value, sent }).argument();
            &&& arg & (CMD52_RW_FLAG | CMD52_RAW_FLAG) == flags
            &&& (arg >> 28) & 0x07 == func
            &&& (arg >> 9) & SDIO_ADDR_MASK == addr
            &&& arg & 0xFF == value
        }),
{
    let f = func as u32;
    let v = value as u32;
    assert({
        let arg = flags | ((f & 0x07) << 28) | ((addr & 0x0001_FFFF) << 9) | v;
        &&& arg & (0x8000_0000u32 | 0x0800_0000u32) == flags
        &&& (arg >> 28) & 0x07 == f
        &&& (arg >> 9) & 0x0001_FFFF == addr
        &&& arg & 0xFF == v
    }) by (bit_vector)
        requires
            f <= 7,
            addr <= 0x0001_FFFF,
            v <= 0xFF,
            flags == 0 || flags == 0x8000_0000u32 || flags == 0x8000_0000u32 | 0x0800_0000u32,
    ;
}

/// The command register holds the index in its upper bits and the flags below.
pub proof fn law_command_word(index: u8, flags: u16)
    requires
        index < 64,
        flags_of(index) == Some(flags),
    ensures
        command_word(index, flags) >> CMD_INDEX_SHIFT == index,
        command_word(index, flags) & 0x00FF == flags,
{
    let i = index as u16;
    assert(flags <= 0x00FF);
    assert(((i << 8) | flags) >> 8 == i && ((i << 8) | flags) & 0x00FF == flags) by (bit_vector)
        requires
            i < 64,
            flags <= 0x00FF,
    ;
}

/// What a response says, bit by bit: a CRC error where that bit is up; else a failure where
/// the command was illegal, the function wrong, the argument out of range, or something else
/// went wrong; else the lowest byte.
pub proof fn law_r5_by_bits(resp: u32)
    ensures
        ({
            let v = resp as int;
            let crc = bit(v, 0x8000);
            let bad = bit(v, 0x4000) || bit(v, 0x0200) || bit(v, 0x0100) || bit(v, 0x0800);
            &&& crc ==> r5_answer(resp) == Err::<u32, SdioError>(SdioError::CrcError)
            &&& !crc && bad ==> r5_answer(resp) == Err::<u32, SdioError>(SdioError::IoError)
            &&& !crc && !bad ==> r5_answer(resp) == Ok::<u32, SdioError>((v % 0x100) as u32)
        }),
{
    law_u32_bits(resp);
    assert(R5_ILLEGAL_COMMAND | R5_FUNCTION_NUMBER | R5_OUT_OF_RANGE == 0x4300u32) by (bit_vector);
}

/// The argument of a register access is the sum of its fields, each at its place, and of
/// nothing else; of the function three bits count.
pub proof fn law_cmd52_argument_is_sum(func: u8, addr: u32, flags: u32, value: u8, sent: bool)
    requires
        addr < 0x2_0000,
        flags == 0 || flags == 0x8000_0000u32 || flags == 0x8800_0000u32,
    ensures
        (Cmd52 { func, addr, flags, value, sent }).argument() == flags + (func % 8) * 0x1000_0000
            + addr * 0x200 + value,
{
    let f = func as u32;
    let v = value as u32;
    assert(flags | ((f & 0x07) << 28) | ((addr & 0x0001_FFFF) << 9) | v == flags + (f % 8)
        * 0x1000_0000 + addr * 0x200 + v) by (bit_vector)
        requires
            f <= 0xFF,
            addr < 0x2_0000,
            v <= 0xFF,
            flags == 0 || flags == 0x8000_0000u32 || flags == 0x8800_0000u32,
    ;
}

/// A read asks for nothing but the register; a write also carries its byte and the mark of
/// a write. Neither has been sent when it begins.
pub proof fn law_reads_and_writes(func: u8, addr: u32, value: u8)
    ensures
        Cmd52::read_of(func, addr) == Frame::Cmd52(
            Cmd52 { func, addr, flags: 0, value: 0, sent: false },
        ),
        Cmd52::write_of(func, addr, value) == Frame::Cmd52(
            Cmd52 { func, addr, flags: 0x8000_0000, value, sent: false },
        ),
        CMD52_RW_FLAG | CMD52_RAW_FLAG == 0x8800_0000u32,
{
    assert(CMD52_RW_FLAG | CMD52_RAW_FLAG == 0x8800_0000u32) by (bit_vector);
}

/// What the controller is told of a command: which have a response at all, of which the card
/// stays busy, whose CRC and index are checked, and which one moves data. No other command is
/// known.
pub proof fn law_command_kinds(index: u8)
    ensures
        flags_of(index) is Some <==> index == 0 || index == 3 || index == 5 || index == 7 || index
            == 52 || index == 53,
        flags_of(index) matches Some(flags) ==> {
            &&& flags % 4 == (if index == 0 {
                0int
            } else if index == 7 {
                3int
            } else {
                2int
            })
            &&& flags / 4 % 2 == 0
            &&& flags / 8 % 4 == (if index == 0 || index == 5 {
                0int
            } else {
                3int
            })
            &&& flags / 32 == (if index == 53 {
                1int
            } else {
                0int
            })
        },
        index < 64 ==> (flags_of(index) matches Some(flags) ==> command_word(index, flags) == index
            * 0x100 + flags),
{
    if let Some(flags) = flags_of(index) {
        let i = index as u16;
        assert(flags <= 0x00FF);
        assert((i << 8) | flags == i * 0x100 + flags) by (bit_vector)
            requires
                i < 64,
                flags <= 0x00FF,
        ;
    }
}

} // verus!
