//! Commands with data: opening a transfer and moving its words through the
//! buffer data port.

use vstd::prelude::*;

use crate::bits::weight_if;
use crate::error::{Answer, SdioError};
use crate::irq::IrqFlag;
use crate::regs::{
    CMD53_BLOCK_MODE, CMD53_OP_CODE_INC, CMD53_RW_FLAG, SDHCI_BLOCK_COUNT, SDHCI_BLOCK_SIZE,
    SDHCI_BUFFER, SDHCI_TRANSFER_MODE, SDIO_ADDR_MASK, SDIO_DEFAULT_BLOCK_SIZE, TM_BLK_CNT_EN,
    TM_DATA_DIR_READ, TM_MULTI_BLOCK,
};
use crate::sdhci::command::SendCmd;
use crate::sdhci::frame::{Frame, Io, Out, Step};
use crate::sdhci::wait::WaitIrq;

verus! {

/// What a data transfer asks for.
#[derive(Clone, Copy, Debug, PartialEq, Eq, Structural)]
pub struct Transfer {
    /// Function number.
    pub func: u8,
    /// Register address.
    pub addr: u32,
    /// Host to card.
    pub write: bool,
    /// Let the address run along with the data.
    pub inc_addr: bool,
    /// Block size of a transfer in blocks.
    pub block_size: u16,
    /// Transfer in blocks.
    pub use_block: bool,
    /// Number of bytes.
    pub len: usize,
}

/// What a transfer is opened with.
#[derive(Clone, Copy, Debug, PartialEq, Eq, Structural)]
pub struct TransferPlan {
    /// Argument of the command.
    pub arg: u32,
    /// Block size register.
    pub block_size: u16,
    /// Block count register.
    pub blocks: u16,
    /// Transfer mode register.
    pub mode: u16,
}

impl Transfer {
    /// The transfer goes in blocks.
    pub open spec fn in_blocks(self) -> bool {
        self.use_block && self.block_size > 0
    }

    /// The transfer is one that a single command can open: the address fits, there
    /// is something to move, blocks come out even, and bytes fit into one block.
    pub open spec fn is_supported(self) -> bool {
        &&& self.addr <= SDIO_ADDR_MASK
        &&& self.len > 0
        &&& if self.in_blocks() {
            self.len % (self.block_size as usize) == 0
        } else {
            self.len <= SDIO_DEFAULT_BLOCK_SIZE
        }
    }

    /// The count of the argument: blocks, or bytes with 0 for a whole block.
    pub open spec fn count(self) -> int {
        if self.in_blocks() {
            self.len as int / self.block_size as int
        } else if self.len == SDIO_DEFAULT_BLOCK_SIZE {
            0
        } else {
            self.len as int
        }
    }

    /// The argument of the command. Its count has nine bits.
    pub open spec fn argument(self) -> u32 {
        ((self.func as u32 & 0x07) << 28) | ((self.addr & SDIO_ADDR_MASK) << 9) | ((self.count()
            % 512) as u32) | (if self.write { CMD53_RW_FLAG } else { 0 }) | (if self.in_blocks() {
            CMD53_BLOCK_MODE
        } else {
            0
        }) | (if self.inc_addr { CMD53_OP_CODE_INC } else { 0 })
    }

    /// What the transfer is opened with. The block count register has sixteen bits.
    pub open spec fn plan_of(self) -> TransferPlan {
        TransferPlan {
            arg: self.argument(),
            block_size: if self.in_blocks() { self.block_size } else { self.len as u16 },
            blocks: if self.in_blocks() { (self.count() % 0x1_0000) as u16 } else { 1 },
            mode: (if self.in_blocks() { TM_MULTI_BLOCK | TM_BLK_CNT_EN } else { 0 }) | (
            if self.write { 0 } else { TM_DATA_DIR_READ }),
        }
    }

    /// What the transfer is opened with, where it is supported.
    pub fn plan(&self) -> (plan: Option<TransferPlan>)
        ensures
            plan == (if self.is_supported() { Some(self.plan_of()) } else { None }),
    {
        if self.addr > SDIO_ADDR_MASK || self.len == 0 {
            return None;
        }
        let in_blocks: bool = self.use_block && self.block_size > 0;
        let count: usize = if in_blocks {
            if self.len % (self.block_size as usize) != 0 {
                return None;
            }
            self.len / (self.block_size as usize)
        } else {
            if self.len > SDIO_DEFAULT_BLOCK_SIZE as usize {
                return None;
            }
            if self.len == SDIO_DEFAULT_BLOCK_SIZE as usize {
                0
            } else {
                self.len
            }
        };
        let mut arg: u32 = ((self.func as u32 & 0x07) << 28) | ((self.addr & SDIO_ADDR_MASK) << 9)
            | ((count % 512) as u32);
        arg = arg | (if self.write { CMD53_RW_FLAG } else { 0 });
        arg = arg | (if in_blocks { CMD53_BLOCK_MODE } else { 0 });
        arg = arg | (if self.inc_addr { CMD53_OP_CODE_INC } else { 0 });
        let mode: u16 = (if in_blocks { TM_MULTI_BLOCK | TM_BLK_CNT_EN } else { 0 }) | (
        if self.write { 0 } else { TM_DATA_DIR_READ });
        Some(
            TransferPlan {
                arg,
                block_size: if in_blocks { self.block_size } else { self.len as u16 },
                blocks: if in_blocks { (count % 0x1_0000) as u16 } else { 1 },
                mode,
            },
        )
    }
}

/// Where the opening of a transfer stands.
#[derive(Clone, Copy, Debug, PartialEq, Eq, Structural)]
pub enum OpenPhase {
    /// Not begun.
    Begin,
    /// Writing the block size.
    Size,
    /// Writing the block count.
    Count,
    /// Writing the transfer mode.
    Mode,
    /// Sending the command.
    Send,
}

/// Opens a transfer with CMD53. Answered by the block size, plus the number of
/// blocks in the upper half.
#[derive(Clone, Copy, Debug, PartialEq, Eq, Structural)]
pub struct Cmd53 {
    /// The transfer.
    pub transfer: Transfer,
    /// Where the opening stands.
    pub phase: OpenPhase,
}

/// Block size and number of blocks in one word.
pub open spec fn shape_word(plan: TransferPlan) -> u32 {
    (plan.block_size + plan.blocks * 0x1_0000) as u32
}

impl Cmd53 {
    /// A transfer that has not been opened.
    pub open spec fn of(transfer: Transfer) -> Frame {
        Frame::Cmd53(Cmd53 { transfer, phase: OpenPhase::Begin })
    }

    /// The opening in another phase.
    pub open spec fn at(self, phase: OpenPhase) -> Frame {
        Frame::Cmd53(Cmd53 { phase, ..self })
    }

    /// Writes block size, block count and transfer mode and sends the command. A
    /// transfer that is not supported is refused before anything is written.
    pub open spec fn next(self, input: Answer) -> Step {
        let plan = self.transfer.plan_of();
        match (self.phase, input) {
            (_, _) if !self.transfer.is_supported() => Step {
                frame: Frame::Cmd53(self),
                out: Out::Return(Err(SdioError::Unsupported)),
            },
            (OpenPhase::Begin, _) => Step {
                frame: self.at(OpenPhase::Size),
                out: Out::Io(Io::Write16 { off: SDHCI_BLOCK_SIZE, value: plan.block_size }),
            },
            (_, Err(e)) => Step { frame: Frame::Cmd53(self), out: Out::Return(Err(e)) },
            (OpenPhase::Size, Ok(_)) => Step {
                frame: self.at(OpenPhase::Count),
                out: Out::Io(Io::Write16 { off: SDHCI_BLOCK_COUNT, value: plan.blocks }),
            },
            (OpenPhase::Count, Ok(_)) => Step {
                frame: self.at(OpenPhase::Mode),
                out: Out::Io(Io::Write16 { off: SDHCI_TRANSFER_MODE, value: plan.mode }),
            },
            (OpenPhase::Mode, Ok(_)) => Step {
                frame: self.at(OpenPhase::Send),
                out: Out::Call(SendCmd::of(53, plan.arg)),
            },
            (OpenPhase::Send, Ok(_)) => Step {
                frame: Frame::Cmd53(self),
                out: Out::Return(Ok(shape_word(plan))),
            },
        }
    }

    /// A transfer that has not been opened.
    pub fn start(transfer: Transfer) -> (frame: Frame)
        ensures
            frame == Cmd53::of(transfer),
    {
        Frame::Cmd53(Cmd53 { transfer, phase: OpenPhase::Begin })
    }

    /// Resumes the opening.
    pub fn resume(self, input: Answer) -> (step: Step)
        ensures
            step == self.next(input),
    {
        let plan: TransferPlan = match self.transfer.plan() {
            None => return Step {
                frame: Frame::Cmd53(self),
                out: Out::Return(Err(SdioError::Unsupported)),
            },
            Some(plan) => plan,
        };
        if let OpenPhase::Begin = self.phase {
            return Step {
                frame: Frame::Cmd53(Cmd53 { phase: OpenPhase::Size, ..self }),
                out: Out::Io(Io::Write16 { off: SDHCI_BLOCK_SIZE, value: plan.block_size }),
            };
        }
        if let Err(e) = input {
            return Step { frame: Frame::Cmd53(self), out: Out::Return(Err(e)) };
        }
        let next: (OpenPhase, Out) = match self.phase {
            OpenPhase::Begin | OpenPhase::Size => (
                OpenPhase::Count,
                Out::Io(Io::Write16 { off: SDHCI_BLOCK_COUNT, value: plan.blocks }),
            ),
            OpenPhase::Count => (
                OpenPhase::Mode,
                Out::Io(Io::Write16 { off: SDHCI_TRANSFER_MODE, value: plan.mode }),
            ),
            OpenPhase::Mode => (OpenPhase::Send, Out::Call(SendCmd::start(53, plan.arg))),
            OpenPhase::Send => {
                let shape: u32 = plan.block_size as u32 + plan.blocks as u32 * 0x1_0000;
                (OpenPhase::Send, Out::Return(Ok(shape)))
            },
        };
        Step { frame: Frame::Cmd53(Cmd53 { phase: next.0, ..self }), out: next.1 }
    }
}

/// Where the moving of data stands.
#[derive(Clone, Copy, Debug, PartialEq, Eq, Structural)]
pub enum PioPhase {
    /// Between two blocks.
    Block,
    /// Waiting until the controller's buffer is ready.
    Ready,
    /// A word is on its way.
    Word,
    /// The word has arrived.
    Moved,
}

/// Moves the data of a transfer, word by word, between the transfer buffer and the
/// buffer data port.
#[derive(Clone, Copy, Debug, PartialEq, Eq, Structural)]
pub struct Pio {
    /// Host to card.
    pub write: bool,
    /// Words in a block.
    pub words: u16,
    /// Bytes in the transfer buffer.
    pub len: usize,
    /// Blocks still to be begun.
    pub blocks_left: u16,
    /// Words still to be moved in this block.
    pub words_left: u16,
    /// Bytes moved.
    pub at: usize,
    /// Where the moving stands.
    pub phase: PioPhase,
}

/// The number of 32-bit words that hold `bytes` bytes.
pub open spec fn words_for(bytes: u16) -> u16 {
    ceil_quarter(bytes as int) as u16
}

/// A quarter, rounded up.
pub open spec fn ceil_quarter(n: int) -> int {
    (n + 3) / 4
}

impl Pio {
    /// Not more bytes have been moved than there are.
    pub open spec fn wf(self) -> bool {
        self.at <= self.len
    }

    /// A move of `blocks` blocks of `block_size` bytes that has not begun.
    pub open spec fn of(write: bool, block_size: u16, blocks: u16, len: usize) -> Frame {
        Frame::Pio(
            Pio {
                write,
                words: words_for(block_size),
                len,
                blocks_left: blocks,
                words_left: 0,
                at: 0,
                phase: PioPhase::Block,
            },
        )
    }

    /// The flag that says that the controller's buffer is ready.
    pub open spec fn ready_flag(self) -> IrqFlag {
        if self.write { IrqFlag::BufWrReady } else { IrqFlag::BufRdReady }
    }

    /// The number of bytes of the transfer buffer that the next word holds.
    pub open spec fn in_word(self) -> int {
        if self.len - self.at < 4 { self.len - self.at } else { 4 }
    }

    /// Begins the next block, or ends after the last.
    pub open spec fn next_block(self) -> Step {
        if self.blocks_left == 0 {
            Step { frame: Frame::Pio(self), out: Out::Return(Ok(0)) }
        } else {
            Step {
                frame: Frame::Pio(
                    Pio {
                        blocks_left: (self.blocks_left - 1) as u16,
                        phase: PioPhase::Ready,
                        ..self
                    },
                ),
                out: Out::Call(WaitIrq::of(self.ready_flag())),
            }
        }
    }

    /// Begins the next word, or the next block after the last word.
    pub open spec fn next_word(self) -> Step {
        if self.words_left == 0 {
            self.next_block()
        } else {
            Step {
                frame: Frame::Pio(
                    Pio {
                        words_left: (self.words_left - 1) as u16,
                        phase: PioPhase::Word,
                        ..self
                    },
                ),
                out: if self.write {
                    Out::Fetch { at: self.at }
                } else {
                    Out::Io(Io::Read32 { off: SDHCI_BUFFER })
                },
            }
        }
    }

    /// Waits for the buffer before each block, then moves its words one after the
    /// other. The words beyond the end of the transfer buffer are moved too: read
    /// and dropped, or written as zeros.
    pub open spec fn next(self, input: Answer) -> Step {
        match (self.phase, input) {
            (PioPhase::Block, _) => self.next_block(),
            (_, Err(e)) => Step { frame: Frame::Pio(self), out: Out::Return(Err(e)) },
            (PioPhase::Ready, Ok(_)) => (Pio { words_left: self.words, ..self }).next_word(),
            (PioPhase::Word, Ok(word)) => Step {
                frame: Frame::Pio(
                    Pio {
                        at: (self.at + self.in_word()) as usize,
                        phase: PioPhase::Moved,
                        ..self
                    },
                ),
                out: if self.write {
                    Out::Io(Io::Write32 { off: SDHCI_BUFFER, value: word })
                } else {
                    Out::Store { at: self.at, word }
                },
            },
            (PioPhase::Moved, Ok(_)) => self.next_word(),
        }
    }

    /// A move that has not begun.
    pub fn start(write: bool, block_size: u16, blocks: u16, len: usize) -> (frame: Frame)
        ensures
            frame == Pio::of(write, block_size, blocks, len),
            frame.wf(),
    {
        Frame::Pio(
            Pio {
                write,
                words: ((block_size as u32 + 3) / 4) as u16,
                len,
                blocks_left: blocks,
                words_left: 0,
                at: 0,
                phase: PioPhase::Block,
            },
        )
    }

    fn begin_block(self) -> (step: Step)
        requires
            self.wf(),
        ensures
            step == self.next_block(),
            step.frame.wf(),
    {
        if self.blocks_left == 0 {
            return Step { frame: Frame::Pio(self), out: Out::Return(Ok(0)) };
        }
        let flag: IrqFlag = if self.write { IrqFlag::BufWrReady } else { IrqFlag::BufRdReady };
        Step {
            frame: Frame::Pio(
                Pio { blocks_left: self.blocks_left - 1, phase: PioPhase::Ready, ..self },
            ),
            out: Out::Call(WaitIrq::start(flag)),
        }
    }

    fn begin_word(self) -> (step: Step)
        requires
            self.wf(),
        ensures
            step == self.next_word(),
            step.frame.wf(),
    {
        if self.words_left == 0 {
            return self.begin_block();
        }
        let out: Out = if self.write {
            Out::Fetch { at: self.at }
        } else {
            Out::Io(Io::Read32 { off: SDHCI_BUFFER })
        };
        Step {
            frame: Frame::Pio(
                Pio { words_left: self.words_left - 1, phase: PioPhase::Word, ..self },
            ),
            out,
        }
    }

    /// Resumes the move.
    pub fn resume(self, input: Answer) -> (step: Step)
        requires
            self.wf(),
        ensures
            step == self.next(input),
            step.frame.wf(),
    {
        if let PioPhase::Block = self.phase {
            return self.begin_block();
        }
        let word: u32 = match input {
            Err(e) => return Step { frame: Frame::Pio(self), out: Out::Return(Err(e)) },
            Ok(word) => word,
        };
        match self.phase {
            PioPhase::Block => self.begin_block(),
            PioPhase::Ready => (Pio { words_left: self.words, ..self }).begin_word(),
            PioPhase::Moved => self.begin_word(),
            PioPhase::Word => {
                let remaining: usize = self.len - self.at;
                let moved: usize = if remaining < 4 { remaining } else { 4 };
                let out: Out = if self.write {
                    Out::Io(Io::Write32 { off: SDHCI_BUFFER, value: word })
                } else {
                    Out::Store { at: self.at, word }
                };
                Step {
                    frame: Frame::Pio(
                        Pio { at: self.at + moved, phase: PioPhase::Moved, ..self },
                    ),
                    out,
                }
            },
        }
    }
}

/// Where a whole transfer stands.
#[derive(Clone, Copy, Debug, PartialEq, Eq, Structural)]
pub enum FifoPhase {
    /// Not begun.
    Begin,
    /// Opening it.
    Open,
    /// Moving its data.
    Move,
    /// Waiting for its completion.
    Complete,
}

/// A whole transfer of the transfer buffer: opens it, moves the data and waits for
/// the completion.
#[derive(Clone, Copy, Debug, PartialEq, Eq, Structural)]
pub struct Fifo {
    /// The transfer.
    pub transfer: Transfer,
    /// Where it stands.
    pub phase: FifoPhase,
}

impl Fifo {
    /// A transfer that has not begun.
    pub open spec fn of(transfer: Transfer) -> Frame {
        Frame::Fifo(Fifo { transfer, phase: FifoPhase::Begin })
    }

    /// The transfer in another phase.
    pub open spec fn at(self, phase: FifoPhase) -> Frame {
        Frame::Fifo(Fifo { phase, ..self })
    }

    /// Opens the transfer, moves as many blocks as it was opened with and waits for
    /// the completion. The first failure ends it.
    pub open spec fn next(self, input: Answer) -> Step {
        match (self.phase, input) {
            (FifoPhase::Begin, _) => Step {
                frame: self.at(FifoPhase::Open),
                out: Out::Call(Cmd53::of(self.transfer)),
            },
            (_, Err(e)) => Step { frame: Frame::Fifo(self), out: Out::Return(Err(e)) },
            (FifoPhase::Open, Ok(shape)) => Step {
                frame: self.at(FifoPhase::Move),
                out: Out::Call(
                    Pio::of(
                        self.transfer.write,
                        (shape % 0x1_0000) as u16,
                        (shape / 0x1_0000) as u16,
                        self.transfer.len,
                    ),
                ),
            },
            (FifoPhase::Move, Ok(_)) => Step {
                frame: self.at(FifoPhase::Complete),
                out: Out::Call(WaitIrq::of(IrqFlag::XferComplete)),
            },
            (FifoPhase::Complete, Ok(_)) => Step {
                frame: Frame::Fifo(self),
                out: Out::Return(Ok(0)),
            },
        }
    }

    /// A transfer that has not begun.
    pub fn start(transfer: Transfer) -> (frame: Frame)
        ensures
            frame == Fifo::of(transfer),
    {
        Frame::Fifo(Fifo { transfer, phase: FifoPhase::Begin })
    }

    /// Resumes the transfer.
    pub fn resume(self, input: Answer) -> (step: Step)
        ensures
            step == self.next(input),
    {
        if let FifoPhase::Begin = self.phase {
            return Step {
                frame: Frame::Fifo(Fifo { phase: FifoPhase::Open, ..self }),
                out: Out::Call(Cmd53::start(self.transfer)),
            };
        }
        let value: u32 = match input {
            Err(e) => return Step { frame: Frame::Fifo(self), out: Out::Return(Err(e)) },
            Ok(value) => value,
        };
        let next: (FifoPhase, Out) = match self.phase {
            FifoPhase::Begin | FifoPhase::Open => (
                FifoPhase::Move,
                Out::Call(
                    Pio::start(
                        self.transfer.write,
                        (value % 0x1_0000) as u16,
                        (value / 0x1_0000) as u16,
                        self.transfer.len,
                    ),
                ),
            ),
            FifoPhase::Move => (
                FifoPhase::Complete,
                Out::Call(WaitIrq::start(IrqFlag::XferComplete)),
            ),
            FifoPhase::Complete => (FifoPhase::Complete, Out::Return(Ok(0))),
        };
        Step { frame: Frame::Fifo(Fifo { phase: next.0, ..self }), out: next.1 }
    }
}

// ---- Laws ----

/// The fields of a data transfer can be read off its argument, each at its place and
/// apart from the others.
pub proof fn law_cmd53_argument(transfer: Transfer)
    requires
        transfer.func <= 7,
        transfer.is_supported(),
    ensures
        ({
            let arg = transfer.argument();
            &&& arg & CMD53_RW_FLAG != 0 <==> transfer.write
            &&& arg & CMD53_BLOCK_MODE != 0 <==> transfer.in_blocks()
            &&& arg & CMD53_OP_CODE_INC != 0 <==> transfer.inc_addr
            &&& (arg >> 28) & 0x07 == transfer.func
            &&& (arg >> 9) & SDIO_ADDR_MASK == transfer.addr
            &&& arg & 0x1FF == transfer.count() % 512
        }),
{
    let f = transfer.func as u32;
    let addr = transfer.addr;
    let count = (transfer.count() % 512) as u32;
    let w = if transfer.write { CMD53_RW_FLAG } else { 0 };
    let b = if transfer.in_blocks() { CMD53_BLOCK_MODE } else { 0 };
    let o = if transfer.inc_addr { CMD53_OP_CODE_INC } else { 0 };
    assert({
        let arg = ((f & 0x07) << 28) | ((addr & 0x0001_FFFF) << 9) | count | w | b | o;
        &&& arg & 0x8000_0000u32 == w
        &&& arg & 0x0800_0000u32 == b
        &&& arg & 0x0400_0000u32 == o
        &&& (arg >> 28) & 0x07 == f
        &&& (arg >> 9) & 0x0001_FFFF == addr
        &&& arg & 0x1FF == count
    }) by (bit_vector)
        requires
            f <= 7,
            addr <= 0x0001_FFFF,
            count < 512,
            w == 0 || w == 0x8000_0000u32,
            b == 0 || b == 0x0800_0000u32,
            o == 0 || o == 0x0400_0000u32,
    ;
}

/// A transfer moves as many bytes as it was asked for: the blocks of the plan make up the
/// whole length, as long as the block count register can hold their number, and the
/// count that the card is told is that number, as long as nine bits can.
pub proof fn law_plan_covers_length(transfer: Transfer)
    requires
        transfer.is_supported(),
        transfer.in_blocks() ==> transfer.count() < 0x1_0000,
    ensures
        transfer.plan_of().block_size * transfer.plan_of().blocks == transfer.len,
        transfer.plan_of().block_size > 0,
        transfer.plan_of().blocks > 0,
        transfer.in_blocks() && transfer.count() < 512 ==> transfer.count() % 512
            == transfer.plan_of().blocks,
{
    if transfer.in_blocks() {
        let size = transfer.block_size as int;
        let len = transfer.len as int;
        vstd::arithmetic::div_mod::lemma_fundamental_div_mod(len, size);
        assert(len == size * transfer.count());
        assert(transfer.count() > 0) by (nonlinear_arith)
            requires
                len == size * transfer.count(),
                len > 0,
                size > 0,
        ;
    }
}

/// A transfer can be opened exactly where its address has seventeen bits, there is something
/// to move, and that makes whole blocks, or fits into 512 bytes where it does not go in
/// blocks.
pub proof fn law_what_can_be_opened(transfer: Transfer)
    ensures
        transfer.in_blocks() <==> transfer.use_block && transfer.block_size != 0,
        transfer.is_supported() <==> {
            &&& transfer.addr < 0x2_0000
            &&& transfer.len != 0
            &&& transfer.use_block && transfer.block_size != 0 ==> transfer.len as int
                % transfer.block_size as int == 0
            &&& !(transfer.use_block && transfer.block_size != 0) ==> transfer.len <= 512
        },
{
}

/// The argument of a data transfer is the sum of its fields, each at its place, and of
/// nothing else: direction, function, block mode, running address, address, and as many
/// blocks or bytes as nine bits hold.
pub proof fn law_cmd53_argument_is_sum(transfer: Transfer)
    requires
        transfer.addr < 0x2_0000,
    ensures
        ({
            let blocks = transfer.use_block && transfer.block_size != 0;
            let count = if blocks {
                transfer.len as int / transfer.block_size as int
            } else {
                transfer.len as int
            };
            transfer.argument() == weight_if(transfer.write, 0x8000_0000) + (transfer.func % 8)
                * 0x1000_0000 + weight_if(blocks, 0x0800_0000) + weight_if(
                transfer.inc_addr,
                0x0400_0000,
            ) + transfer.addr * 0x200 + count % 512
        }),
{
    let f = transfer.func as u32;
    let addr = transfer.addr;
    let count = (transfer.count() % 512) as u32;
    let w = if transfer.write { CMD53_RW_FLAG } else { 0 };
    let b = if transfer.in_blocks() { CMD53_BLOCK_MODE } else { 0 };
    let o = if transfer.inc_addr { CMD53_OP_CODE_INC } else { 0 };
    assert(((f & 0x07) << 28) | ((addr & 0x0001_FFFF) << 9) | count | w | b | o == w + (f % 8)
        * 0x1000_0000 + b + o + addr * 0x200 + count) by (bit_vector)
        requires
            f <= 0xFF,
            addr < 0x2_0000,
            count < 512,
            w == 0 || w == 0x8000_0000u32,
            b == 0 || b == 0x0800_0000u32,
            o == 0 || o == 0x0400_0000u32,
    ;
}

/// What a transfer is opened with besides its argument: in blocks, their size and number,
/// several of them and counted; else all bytes as one block. The direction is that of the
/// transfer.
pub proof fn law_plan_by_fields(transfer: Transfer)
    ensures
        ({
            let plan = transfer.plan_of();
            let read = weight_if(!transfer.write, 0x10);
            &&& plan.arg == transfer.argument()
            &&& if transfer.use_block && transfer.block_size != 0 {
                &&& plan.block_size == transfer.block_size
                &&& plan.blocks == transfer.len as int / transfer.block_size as int % 0x1_0000
                &&& plan.mode == 0x22 + read
            } else {
                &&& transfer.len < 0x1_0000 ==> plan.block_size == transfer.len
                &&& plan.blocks == 1
                &&& plan.mode == read
            }
        }),
{
    assert(TM_MULTI_BLOCK | TM_BLK_CNT_EN == 0x22u16 && 0x22u16 | 0 == 0x22 && 0x22u16 | 0x10
        == 0x32 && 0u16 | 0 == 0 && 0u16 | 0x10 == 0x10) by (bit_vector);
}

/// The words of a block hold its bytes, with less than a word to spare.
pub proof fn law_words_hold_block(bytes: u16)
    ensures
        bytes <= 4 * words_for(bytes) < bytes + 4,
{
}

/// Which flag a move waits for: that of its own direction.
pub proof fn law_move_waits_for_its_direction(pio: Pio)
    ensures
        pio.ready_flag() == (if pio.write {
            IrqFlag::BufWrReady
        } else {
            IrqFlag::BufRdReady
        }),
{
}

} // verus!
