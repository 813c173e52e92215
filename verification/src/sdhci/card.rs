//! Card registers: identification, block sizes and functions.

use vstd::prelude::*;

use crate::error::{Answer, SdioError};
use crate::regs::{
    CCCR_CIS_POINTER, CCCR_IO_ENABLE, CCCR_IO_READY, CISTPL_END, CISTPL_MANFID, CISTPL_NULL,
    FBR_CIS_PTR_OFFSET, FBR_STRIDE, IO_BLOCK_SIZE_MAX, IO_BLOCK_SIZE_OFFSET,
};
use crate::sdhci::command::Cmd52;
use crate::sdhci::frame::{Frame, Io, Out, Step};

verus! {

/// How often a function that has been enabled is asked whether it is ready.
pub const READY_POLLS: u32 = 1_000;

/// Pause between two such questions.
pub const READY_PAUSE: u32 = 100_000;

/// How many tuples of a chain are looked at.
pub const CIS_TUPLES: u32 = 256;

/// Address of the first byte of a function's CIS pointer.
pub open spec fn cis_ptr_addr(func: u8) -> u32 {
    if func == 0 {
        CCCR_CIS_POINTER
    } else {
        (FBR_STRIDE * func + FBR_CIS_PTR_OFFSET) as u32
    }
}

/// Reads a function's CIS pointer. Answered by its 24 bits.
#[derive(Clone, Copy, Debug, PartialEq, Eq, Structural)]
pub struct CisPtr {
    /// Function number.
    pub func: u8,
    /// Bytes asked for.
    pub asked: u8,
    /// The low byte, once it is known.
    pub low: u8,
    /// The middle byte, once it is known.
    pub mid: u8,
}

impl CisPtr {
    /// A read that has not begun.
    pub open spec fn of(func: u8) -> Frame {
        Frame::CisPtr(CisPtr { func, asked: 0, low: 0, mid: 0 })
    }

    /// The register of byte `i` of the pointer.
    pub open spec fn byte_of(self, i: int) -> Frame {
        Cmd52::read_of(0, (cis_ptr_addr(self.func) + i) as u32)
    }

    /// Reads the three bytes, low one first.
    pub open spec fn next(self, input: Answer) -> Step {
        match input {
            _ if self.asked == 0 => Step {
                frame: Frame::CisPtr(CisPtr { asked: 1, ..self }),
                out: Out::Call(self.byte_of(0)),
            },
            Err(e) => Step { frame: Frame::CisPtr(self), out: Out::Return(Err(e)) },
            Ok(byte) => if self.asked == 1 {
                Step {
                    frame: Frame::CisPtr(CisPtr { asked: 2, low: byte as u8, ..self }),
                    out: Out::Call(self.byte_of(1)),
                }
            } else if self.asked == 2 {
                Step {
                    frame: Frame::CisPtr(CisPtr { asked: 3, mid: byte as u8, ..self }),
                    out: Out::Call(self.byte_of(2)),
                }
            } else {
                Step {
                    frame: Frame::CisPtr(self),
                    out: Out::Return(
                        Ok((self.low + self.mid * 0x100 + (byte as u8) * 0x1_0000) as u32),
                    ),
                }
            },
        }
    }

    /// A read that has not begun.
    pub fn start(func: u8) -> (frame: Frame)
        ensures
            frame == CisPtr::of(func),
    {
        Frame::CisPtr(CisPtr { func, asked: 0, low: 0, mid: 0 })
    }

    /// Resumes the read.
    pub fn resume(self, input: Answer) -> (step: Step)
        ensures
            step == self.next(input),
    {
        let base: u32 = if self.func == 0 {
            CCCR_CIS_POINTER
        } else {
            FBR_STRIDE * self.func as u32 + FBR_CIS_PTR_OFFSET
        };
        if self.asked == 0 {
            return Step {
                frame: Frame::CisPtr(CisPtr { asked: 1, ..self }),
                out: Out::Call(Cmd52::start_read(0, base)),
            };
        }
        let byte: u8 = match input {
            Err(e) => return Step { frame: Frame::CisPtr(self), out: Out::Return(Err(e)) },
            Ok(value) => #[verifier::truncate] (value as u8),
        };
        if self.asked == 1 {
            Step {
                frame: Frame::CisPtr(CisPtr { asked: 2, low: byte, ..self }),
                out: Out::Call(Cmd52::start_read(0, base + 1)),
            }
        } else if self.asked == 2 {
            Step {
                frame: Frame::CisPtr(CisPtr { asked: 3, mid: byte, ..self }),
                out: Out::Call(Cmd52::start_read(0, base + 2)),
            }
        } else {
            let ptr: u32 = self.low as u32 + self.mid as u32 * 0x100 + byte as u32 * 0x1_0000;
            Step { frame: Frame::CisPtr(self), out: Out::Return(Ok(ptr)) }
        }
    }
}

/// Where the search for the identification stands.
#[derive(Clone, Copy, Debug, PartialEq, Eq, Structural)]
pub enum ManfidPhase {
    /// Not begun.
    Begin,
    /// Reading the CIS pointer.
    Pointer,
    /// Reading a tuple's code.
    Code,
    /// Reading the link of a tuple with that code.
    Link { code: u8 },
    /// Reading the identification: the first `have` bytes are in `bytes`.
    Bytes { have: u8, bytes: u32 },
}

/// Looks for the identification in a function's tuple chain. Answered by the vendor,
/// plus the device in the upper half.
#[derive(Clone, Copy, Debug, PartialEq, Eq, Structural)]
pub struct Manfid {
    /// Function number.
    pub func: u8,
    /// Address of the tuple.
    pub addr: u32,
    /// Tuples that may still be looked at.
    pub left: u32,
    /// Where the search stands.
    pub phase: ManfidPhase,
}

impl Manfid {
    /// The address lies within what a pointer and the links of the tuples looked at
    /// can reach.
    pub open spec fn wf(self) -> bool {
        &&& self.left <= CIS_TUPLES
        &&& self.addr <= 0x00FF_FFFF + (CIS_TUPLES - self.left) * 257
        &&& self.phase matches ManfidPhase::Bytes { have, bytes } ==> have <= 3 && bytes < pow256(
            have as nat,
        )
    }

    /// A search that has not begun.
    pub open spec fn of(func: u8) -> Frame {
        Frame::Manfid(Manfid { func, addr: 0, left: CIS_TUPLES, phase: ManfidPhase::Begin })
    }

    /// The search in another phase.
    pub open spec fn at(self, phase: ManfidPhase) -> Frame {
        Frame::Manfid(Manfid { phase, ..self })
    }

    /// Reads the code of the tuple at `addr`, or gives up.
    pub open spec fn tuple(self, addr: int) -> Step {
        if self.left == 0 {
            Step {
                frame: Frame::Manfid(self),
                out: Out::Return(Err(SdioError::Unsupported)),
            }
        } else {
            Step {
                frame: (Manfid { addr: addr as u32, left: (self.left - 1) as u32, ..self }).at(
                    ManfidPhase::Code,
                ),
                out: Out::Call(Cmd52::read_of(0, addr as u32)),
            }
        }
    }

    /// Walks the chain from the CIS pointer on. The end of the chain, and a chain that
    /// is too long, end the search without success; a null tuple has no link; an
    /// identification with a link of at least four is read.
    pub open spec fn next(self, input: Answer) -> Step {
        match (self.phase, input) {
            (ManfidPhase::Begin, _) => Step {
                frame: self.at(ManfidPhase::Pointer),
                out: Out::Call(CisPtr::of(self.func)),
            },
            (_, Err(e)) => Step { frame: Frame::Manfid(self), out: Out::Return(Err(e)) },
            (ManfidPhase::Pointer, Ok(ptr)) => self.tuple((ptr & 0x00FF_FFFF) as int),
            (ManfidPhase::Code, Ok(value)) => {
                let code = value as u8;
                if code == CISTPL_END {
                    Step {
                        frame: Frame::Manfid(self),
                        out: Out::Return(Err(SdioError::Unsupported)),
                    }
                } else if code == CISTPL_NULL {
                    self.tuple(self.addr + 1)
                } else {
                    Step {
                        frame: self.at(ManfidPhase::Link { code }),
                        out: Out::Call(Cmd52::read_of(0, (self.addr + 1) as u32)),
                    }
                }
            },
            (ManfidPhase::Link { code }, Ok(value)) => {
                let link = value as u8;
                if code == CISTPL_MANFID && link >= 4 {
                    Step {
                        frame: self.at(ManfidPhase::Bytes { have: 0, bytes: 0 }),
                        out: Out::Call(Cmd52::read_of(0, (self.addr + 2) as u32)),
                    }
                } else {
                    self.tuple(self.addr + 2 + link)
                }
            },
            (ManfidPhase::Bytes { have, bytes }, Ok(value)) => {
                let all = bytes + (value as u8) * pow256(have as nat);
                if have < 3 {
                    Step {
                        frame: self.at(
                            ManfidPhase::Bytes { have: (have + 1) as u8, bytes: all as u32 },
                        ),
                        out: Out::Call(Cmd52::read_of(0, (self.addr + 3 + have) as u32)),
                    }
                } else {
                    Step { frame: Frame::Manfid(self), out: Out::Return(Ok(all as u32)) }
                }
            },
        }
    }

    /// A search that has not begun.
    pub fn start(func: u8) -> (frame: Frame)
        ensures
            frame == Manfid::of(func),
            frame.wf(),
    {
        Frame::Manfid(Manfid { func, addr: 0, left: CIS_TUPLES, phase: ManfidPhase::Begin })
    }

    fn begin_tuple(self, addr: u32) -> (step: Step)
        requires
            self.wf(),
            self.phase !is Bytes,
            addr <= 0x00FF_FFFF + (CIS_TUPLES - self.left + 1) * 257,
        ensures
            step == self.tuple(addr as int),
            step.frame.wf(),
    {
        if self.left == 0 {
            return Step {
                frame: Frame::Manfid(self),
                out: Out::Return(Err(SdioError::Unsupported)),
            };
        }
        Step {
            frame: Frame::Manfid(
                Manfid { addr, left: self.left - 1, phase: ManfidPhase::Code, ..self },
            ),
            out: Out::Call(Cmd52::start_read(0, addr)),
        }
    }

    /// Resumes the search.
    pub fn resume(self, input: Answer) -> (step: Step)
        requires
            self.wf(),
        ensures
            step == self.next(input),
            step.frame.wf(),
    {
        if let ManfidPhase::Begin = self.phase {
            return Step {
                frame: Frame::Manfid(Manfid { phase: ManfidPhase::Pointer, ..self }),
                out: Out::Call(CisPtr::start(self.func)),
            };
        }
        let value: u32 = match input {
            Err(e) => return Step { frame: Frame::Manfid(self), out: Out::Return(Err(e)) },
            Ok(value) => value,
        };
        let byte: u8 = #[verifier::truncate] (value as u8);
        match self.phase {
            ManfidPhase::Begin | ManfidPhase::Pointer => {
                proof {
                    assert(value & 0x00FF_FFFF <= 0x00FF_FFFF) by (bit_vector);
                }
                self.begin_tuple(value & 0x00FF_FFFF)
            },
            ManfidPhase::Code => {
                if byte == CISTPL_END {
                    return Step {
                        frame: Frame::Manfid(self),
                        out: Out::Return(Err(SdioError::Unsupported)),
                    };
                }
                if byte == CISTPL_NULL {
                    return self.begin_tuple(self.addr + 1);
                }
                Step {
                    frame: Frame::Manfid(
                        Manfid { phase: ManfidPhase::Link { code: byte }, ..self },
                    ),
                    out: Out::Call(Cmd52::start_read(0, self.addr + 1)),
                }
            },
            ManfidPhase::Link { code } => {
                if code == CISTPL_MANFID && byte >= 4 {
                    return Step {
                        frame: Frame::Manfid(
                            Manfid { phase: ManfidPhase::Bytes { have: 0, bytes: 0 }, ..self },
                        ),
                        out: Out::Call(Cmd52::start_read(0, self.addr + 2)),
                    };
                }
                self.begin_tuple(self.addr + 2 + byte as u32)
            },
            ManfidPhase::Bytes { have, bytes } => {
                let weight: u32 = if have == 0 {
                    1
                } else if have == 1 {
                    0x100
                } else if have == 2 {
                    0x1_0000
                } else {
                    0x100_0000
                };
                assert(weight == pow256(have as nat) && weight * 0x100 == pow256(
                    (have + 1) as nat,
                )) by {
                    reveal_with_fuel(pow256, 5);
                }
                assert(byte * weight <= 255 * weight) by (nonlinear_arith)
                    requires
                        byte <= 255,
                        weight >= 0,
                ;
                let all: u32 = bytes + byte as u32 * weight;
                if have < 3 {
                    Step {
                        frame: Frame::Manfid(
                            Manfid {
                                phase: ManfidPhase::Bytes { have: have + 1, bytes: all },
                                ..self
                            },
                        ),
                        out: Out::Call(Cmd52::start_read(0, self.addr + 3 + have as u32)),
                    }
                } else {
                    Step { frame: Frame::Manfid(self), out: Out::Return(Ok(all)) }
                }
            },
        }
    }
}

/// The weight of byte `n` of a little-endian number.
pub open spec fn pow256(n: nat) -> int
    decreases n,
{
    if n == 0 {
        1
    } else {
        256 * pow256((n - 1) as nat)
    }
}

/// Where the setting of a block size stands.
#[derive(Clone, Copy, Debug, PartialEq, Eq, Structural)]
pub enum BlockPhase {
    /// Not begun.
    Begin,
    /// Writing the low byte.
    WriteLow,
    /// Writing the high byte.
    WriteHigh,
    /// Reading the low byte back.
    ReadLow,
    /// Reading the high byte back; the low one is known.
    ReadHigh { low: u8 },
}

/// Sets a function's block size, and reads it back.
#[derive(Clone, Copy, Debug, PartialEq, Eq, Structural)]
pub struct SetBlockSize {
    /// Function number.
    pub func: u8,
    /// Block size in bytes.
    pub size: u16,
    /// Where the setting stands.
    pub phase: BlockPhase,
}

impl SetBlockSize {
    /// A function and a block size that exist.
    pub open spec fn is_supported(self) -> bool {
        self.func <= 7 && 0 < self.size <= IO_BLOCK_SIZE_MAX
    }

    /// Once begun, the setting is one that is supported.
    pub open spec fn wf(self) -> bool {
        self.phase !is Begin ==> self.is_supported()
    }

    /// A setting that has not begun.
    pub open spec fn of(func: u8, size: u16) -> Frame {
        Frame::SetBlockSize(SetBlockSize { func, size, phase: BlockPhase::Begin })
    }

    /// The setting in another phase.
    pub open spec fn at(self, phase: BlockPhase) -> Frame {
        Frame::SetBlockSize(SetBlockSize { phase, ..self })
    }

    /// Address of the low byte of the block size; the high byte follows.
    pub open spec fn addr(self) -> int {
        FBR_STRIDE * self.func + IO_BLOCK_SIZE_OFFSET
    }

    /// Writes both bytes and reads them back; what comes back has to be what was
    /// written.
    pub open spec fn next(self, input: Answer) -> Step {
        match (self.phase, input) {
            (BlockPhase::Begin, _) => if !self.is_supported() {
                Step {
                    frame: Frame::SetBlockSize(self),
                    out: Out::Return(Err(SdioError::Unsupported)),
                }
            } else {
                Step {
                    frame: self.at(BlockPhase::WriteLow),
                    out: Out::Call(
                        Cmd52::write_of(0, self.addr() as u32, (self.size % 0x100) as u8),
                    ),
                }
            },
            (_, Err(e)) => Step { frame: Frame::SetBlockSize(self), out: Out::Return(Err(e)) },
            (BlockPhase::WriteLow, Ok(_)) => Step {
                frame: self.at(BlockPhase::WriteHigh),
                out: Out::Call(
                    Cmd52::write_of(0, (self.addr() + 1) as u32, (self.size / 0x100) as u8),
                ),
            },
            (BlockPhase::WriteHigh, Ok(_)) => Step {
                frame: self.at(BlockPhase::ReadLow),
                out: Out::Call(Cmd52::read_of(0, self.addr() as u32)),
            },
            (BlockPhase::ReadLow, Ok(value)) => Step {
                frame: self.at(BlockPhase::ReadHigh { low: value as u8 }),
                out: Out::Call(Cmd52::read_of(0, (self.addr() + 1) as u32)),
            },
            (BlockPhase::ReadHigh { low }, Ok(value)) => Step {
                frame: Frame::SetBlockSize(self),
                out: Out::Return(
                    if low + (value as u8) * 0x100 == self.size {
                        Ok(0)
                    } else {
                        Err(SdioError::IoError)
                    },
                ),
            },
        }
    }

    /// A setting that has not begun.
    pub fn start(func: u8, size: u16) -> (frame: Frame)
        ensures
            frame == SetBlockSize::of(func, size),
            frame.wf(),
    {
        Frame::SetBlockSize(SetBlockSize { func, size, phase: BlockPhase::Begin })
    }

    /// Resumes the setting.
    pub fn resume(self, input: Answer) -> (step: Step)
        requires
            self.wf(),
        ensures
            step == self.next(input),
            step.frame.wf(),
    {
        let addr: u32 = FBR_STRIDE * self.func as u32 + IO_BLOCK_SIZE_OFFSET;
        if let BlockPhase::Begin = self.phase {
            if self.func > 7 || self.size == 0 || self.size > IO_BLOCK_SIZE_MAX {
                return Step {
                    frame: Frame::SetBlockSize(self),
                    out: Out::Return(Err(SdioError::Unsupported)),
                };
            }
            return Step {
                frame: Frame::SetBlockSize(SetBlockSize { phase: BlockPhase::WriteLow, ..self }),
                out: Out::Call(Cmd52::start_write(0, addr, (self.size % 0x100) as u8)),
            };
        }
        let value: u8 = match input {
            Err(e) => return Step { frame: Frame::SetBlockSize(self), out: Out::Return(Err(e)) },
            Ok(value) => #[verifier::truncate] (value as u8),
        };
        let next: (BlockPhase, Out) = match self.phase {
            BlockPhase::Begin | BlockPhase::WriteLow => (
                BlockPhase::WriteHigh,
                Out::Call(Cmd52::start_write(0, addr + 1, (self.size / 0x100) as u8)),
            ),
            BlockPhase::WriteHigh => (
                BlockPhase::ReadLow,
                Out::Call(Cmd52::start_read(0, addr)),
            ),
            BlockPhase::ReadLow => (
                BlockPhase::ReadHigh { low: value },
                Out::Call(Cmd52::start_read(0, addr + 1)),
            ),
            BlockPhase::ReadHigh { low } => {
                let readback: u16 = low as u16 + value as u16 * 0x100;
                let answer: Answer = if readback == self.size {
                    Ok(0)
                } else {
                    Err(SdioError::IoError)
                };
                (BlockPhase::ReadHigh { low }, Out::Return(answer))
            },
        };
        Step { frame: Frame::SetBlockSize(SetBlockSize { phase: next.0, ..self }), out: next.1 }
    }
}

/// Where the enabling of a function stands.
#[derive(Clone, Copy, Debug, PartialEq, Eq, Structural)]
pub enum EnablePhase {
    /// Not begun.
    Begin,
    /// Reading which functions are enabled.
    Enabled,
    /// Enabling this one too.
    Enable,
    /// Reading which functions are ready.
    Ready,
    /// Pausing.
    Pause,
}

/// Enables a function and waits until it is ready.
#[derive(Clone, Copy, Debug, PartialEq, Eq, Structural)]
pub struct EnableFunc {
    /// Function number.
    pub func: u8,
    /// How often it may still be asked whether it is ready.
    pub left: u32,
    /// Where the enabling stands.
    pub phase: EnablePhase,
}

impl EnableFunc {
    /// A function that can be enabled.
    pub open spec fn is_supported(self) -> bool {
        1 <= self.func <= 7
    }

    /// Once begun, the function is one that can be enabled.
    pub open spec fn wf(self) -> bool {
        self.phase !is Begin ==> self.is_supported()
    }

    /// An enabling that has not begun.
    pub open spec fn of(func: u8) -> Frame {
        Frame::EnableFunc(EnableFunc { func, left: READY_POLLS, phase: EnablePhase::Begin })
    }

    /// The enabling in another phase.
    pub open spec fn at(self, phase: EnablePhase) -> Frame {
        Frame::EnableFunc(EnableFunc { phase, ..self })
    }

    /// The function's bit in the enable and ready registers.
    pub open spec fn bit(self) -> u8 {
        1u8 << self.func
    }

    /// Asks whether the function is ready, or gives up.
    pub open spec fn ask(self) -> Step {
        if self.left == 0 {
            Step {
                frame: Frame::EnableFunc(self),
                out: Out::Return(Err(SdioError::Timeout)),
            }
        } else {
            Step {
                frame: (EnableFunc { left: (self.left - 1) as u32, ..self }).at(EnablePhase::Ready),
                out: Out::Call(Cmd52::read_of(0, CCCR_IO_READY)),
            }
        }
    }

    /// Adds the function to those that are enabled, then asks until it is ready, with
    /// a pause after each question.
    pub open spec fn next(self, input: Answer) -> Step {
        match (self.phase, input) {
            (EnablePhase::Begin, _) => if !self.is_supported() {
                Step {
                    frame: Frame::EnableFunc(self),
                    out: Out::Return(Err(SdioError::Unsupported)),
                }
            } else {
                Step {
                    frame: self.at(EnablePhase::Enabled),
                    out: Out::Call(Cmd52::read_of(0, CCCR_IO_ENABLE)),
                }
            },
            (_, Err(e)) => Step { frame: Frame::EnableFunc(self), out: Out::Return(Err(e)) },
            (EnablePhase::Enabled, Ok(value)) => Step {
                frame: self.at(EnablePhase::Enable),
                out: Out::Call(Cmd52::write_of(0, CCCR_IO_ENABLE, (value as u8) | self.bit())),
            },
            (EnablePhase::Enable, Ok(_)) => self.ask(),
            (EnablePhase::Ready, Ok(value)) => if (value as u8) & self.bit() != 0 {
                Step { frame: Frame::EnableFunc(self), out: Out::Return(Ok(0)) }
            } else {
                Step {
                    frame: self.at(EnablePhase::Pause),
                    out: Out::Io(Io::Spin { times: READY_PAUSE }),
                }
            },
            (EnablePhase::Pause, Ok(_)) => self.ask(),
        }
    }

    /// An enabling that has not begun.
    pub fn start(func: u8) -> (frame: Frame)
        ensures
            frame == EnableFunc::of(func),
            frame.wf(),
    {
        Frame::EnableFunc(EnableFunc { func, left: READY_POLLS, phase: EnablePhase::Begin })
    }

    fn ask_ready(self) -> (step: Step)
        requires
            self.is_supported(),
        ensures
            step == self.ask(),
            step.frame.wf(),
    {
        if self.left == 0 {
            return Step {
                frame: Frame::EnableFunc(self),
                out: Out::Return(Err(SdioError::Timeout)),
            };
        }
        Step {
            frame: Frame::EnableFunc(
                EnableFunc { left: self.left - 1, phase: EnablePhase::Ready, ..self },
            ),
            out: Out::Call(Cmd52::start_read(0, CCCR_IO_READY)),
        }
    }

    /// Resumes the enabling.
    pub fn resume(self, input: Answer) -> (step: Step)
        requires
            self.wf(),
        ensures
            step == self.next(input),
            step.frame.wf(),
    {
        if let EnablePhase::Begin = self.phase {
            if self.func == 0 || self.func > 7 {
                return Step {
                    frame: Frame::EnableFunc(self),
                    out: Out::Return(Err(SdioError::Unsupported)),
                };
            }
            return Step {
                frame: Frame::EnableFunc(EnableFunc { phase: EnablePhase::Enabled, ..self }),
                out: Out::Call(Cmd52::start_read(0, CCCR_IO_ENABLE)),
            };
        }
        let value: u8 = match input {
            Err(e) => return Step { frame: Frame::EnableFunc(self), out: Out::Return(Err(e)) },
            Ok(value) => #[verifier::truncate] (value as u8),
        };
        let bit: u8 = 1u8 << self.func;
        match self.phase {
            EnablePhase::Begin | EnablePhase::Enabled => Step {
                frame: Frame::EnableFunc(EnableFunc { phase: EnablePhase::Enable, ..self }),
                out: Out::Call(Cmd52::start_write(0, CCCR_IO_ENABLE, value | bit)),
            },
            EnablePhase::Enable => self.ask_ready(),
            EnablePhase::Ready => {
                if value & bit != 0 {
                    return Step { frame: Frame::EnableFunc(self), out: Out::Return(Ok(0)) };
                }
                Step {
                    frame: Frame::EnableFunc(EnableFunc { phase: EnablePhase::Pause, ..self }),
                    out: Out::Io(Io::Spin { times: READY_PAUSE }),
                }
            },
            EnablePhase::Pause => self.ask_ready(),
        }
    }
}

// ---- Laws ----

/// Every function has its registers 256 apart, and its CIS pointer at the same place among
/// them; those of the card itself come first.
pub proof fn law_cis_pointer_address(func: u8)
    ensures
        cis_ptr_addr(func) == 0x100 * func + 9,
{
}

/// The block size of a function is at the same place among its registers. There are eight
/// functions, of which the first cannot be enabled, and a block has 1 to 2048 bytes.
pub proof fn law_what_a_card_has(set: SetBlockSize, enable: EnableFunc)
    ensures
        set.addr() == 0x100 * set.func + 0x10,
        set.is_supported() <==> set.func < 8 && 1 <= set.size <= 2048,
        enable.is_supported() <==> 0 < enable.func < 8,
{
}

/// How often a function is asked whether it is ready, the pause in between, and how many
/// tuples are looked at.
pub proof fn law_card_limits()
    ensures
        READY_POLLS == 1_000,
        READY_PAUSE == 100_000,
        CIS_TUPLES == 256,
{
}

} // verus!
