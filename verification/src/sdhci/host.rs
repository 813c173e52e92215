//! The controller as its users see it.

use vstd::prelude::*;

use crate::irq::{
    disable_irq_signals, enable_irq_signals, mask_card_irq_raw, with_card_irq, RegWrite,
    SdhciIrqState, NORM_INT_SERVED,
};
use crate::regs::{
    CMD52_RAW_FLAG, CMD52_RW_FLAG, SDHCI_ERR_INT_SIG_EN, SDHCI_NORM_INT_SIG_EN,
    SDIO_DEFAULT_BLOCK_SIZE,
};
use crate::sdhci::card::{BlockPhase, EnableFunc, EnablePhase, SetBlockSize};
use crate::sdhci::clock::{ClockPhase, SetClock};
use crate::sdhci::command::{law_reads_and_writes, Cmd52};
use crate::sdhci::config::HostConfig;
use crate::sdhci::frame::Frame;
use crate::sdhci::init::{Init, InitPhase};
use crate::sdhci::task::Task;
use crate::sdhci::transfer::{Fifo, FifoPhase, Transfer};

verus! {

/// Masks and unmasks the card interrupt of a controller.
#[derive(Clone, Copy, Debug, PartialEq, Eq, Structural)]
pub struct CviCardIrqCtrl {
    /// Register base of the controller.
    pub base: usize,
}

impl CviCardIrqCtrl {
    /// The card interrupt of the controller at `base`.
    pub fn new(base: usize) -> (ctrl: Self)
        ensures
            ctrl.base == base,
    {
        CviCardIrqCtrl { base }
    }

    /// The write that masks the card interrupt, where the signal enable register
    /// holds `cur`.
    pub fn mask_card_irq(&self, cur: u16) -> (write: RegWrite)
        ensures
            write == (RegWrite {
                base: self.base,
                off: SDHCI_NORM_INT_SIG_EN,
                value: with_card_irq(cur, true),
            }),
    {
        mask_card_irq_raw(self.base, cur, true)
    }

    /// The write that lets the card interrupt through.
    pub fn unmask_card_irq(&self, cur: u16) -> (write: RegWrite)
        ensures
            write == (RegWrite {
                base: self.base,
                off: SDHCI_NORM_INT_SIG_EN,
                value: with_card_irq(cur, false),
            }),
    {
        mask_card_irq_raw(self.base, cur, false)
    }
}

/// An SDIO host controller and the card behind it.
#[derive(Clone, Copy, Debug, PartialEq, Eq, Structural)]
pub struct CviSdhci {
    /// Register base.
    pub base: usize,
    /// Relative card address.
    pub rca: u16,
    /// Vendor of the card.
    pub vendor_id: u16,
    /// Device number of the card.
    pub device_id: u16,
    /// Board parameters.
    pub cfg: HostConfig,
}

/// A transfer in blocks of the default size.
pub open spec fn block_transfer(
    func: u8,
    addr: u32,
    write: bool,
    inc_addr: bool,
    len: usize,
) -> Transfer {
    Transfer {
        func,
        addr,
        write,
        inc_addr,
        block_size: SDIO_DEFAULT_BLOCK_SIZE,
        use_block: true,
        len,
    }
}

impl CviSdhci {
    /// The board lets every interrupt through that the driver lives on.
    pub open spec fn wf(self) -> bool {
        self.cfg.masks.wf()
    }

    /// A controller that has not been brought up.
    pub fn new(base_addr: usize, cfg: HostConfig) -> (host: Self)
        requires
            cfg.masks.wf(),
        ensures
            host.wf(),
            host == (CviSdhci { base: base_addr, rca: 0, vendor_id: 0, device_id: 0, cfg }),
    {
        CviSdhci { base: base_addr, rca: 0, vendor_id: 0, device_id: 0, cfg }
    }

    /// Brings up the controller and the card.
    pub fn init(&self) -> (task: Task)
        requires
            self.wf(),
        ensures
            task.runs(Init::of(), Seq::empty()),
            task@.stack == seq![Frame::Init(Init { phase: InitPhase::Begin })],
    {
        Task::new(Init::start(), Vec::new())
    }

    /// The register base.
    pub fn mmio_base(&self) -> (base: usize)
        ensures
            base == self.base,
    {
        self.base
    }

    /// Reads a card register.
    pub fn read_byte(&self, func: u8, addr: u32) -> (task: Task)
        ensures
            task.runs(Cmd52::read_of(func, addr), Seq::empty()),
            task@.stack == seq![
                Frame::Cmd52(Cmd52 { func, addr, flags: 0, value: 0, sent: false }),
            ],
    {
        Task::new(Cmd52::start_read(func, addr), Vec::new())
    }

    /// Writes a card register.
    pub fn write_byte(&self, func: u8, addr: u32, val: u8) -> (task: Task)
        ensures
            task.runs(Cmd52::write_of(func, addr, val), Seq::empty()),
            task@.stack == seq![
                Frame::Cmd52(Cmd52 { func, addr, flags: 0x8000_0000, value: val, sent: false }),
            ],
    {
        Task::new(Cmd52::start_write(func, addr, val), Vec::new())
    }

    /// Writes a card register and reads it back with the same command.
    pub fn write_byte_read(&self, func: u8, addr: u32, val: u8) -> (task: Task)
        ensures
            task.runs(Cmd52::of(func, addr, CMD52_RW_FLAG | CMD52_RAW_FLAG, val), Seq::empty()),
            task@.stack == seq![
                Frame::Cmd52(Cmd52 { func, addr, flags: 0x8800_0000, value: val, sent: false }),
            ],
    {
        proof {
            law_reads_and_writes(func, addr, val);
        }
        Task::new(Cmd52::start(func, addr, CMD52_RW_FLAG | CMD52_RAW_FLAG, val), Vec::new())
    }

    fn fifo(func: u8, addr: u32, write: bool, inc_addr: bool, buf: Vec<u8>) -> (task: Task)
        ensures
            task.runs(
                Fifo::of(block_transfer(func, addr, write, inc_addr, buf@.len() as usize)),
                buf@,
            ),
    {
        let transfer: Transfer = Transfer {
            func,
            addr,
            write,
            inc_addr,
            block_size: SDIO_DEFAULT_BLOCK_SIZE,
            use_block: true,
            len: buf.len(),
        };
        Task::new(Fifo::start(transfer), buf)
    }

    /// Fills `buf` from one card register.
    pub fn read_fifo(&self, func: u8, addr: u32, buf: Vec<u8>) -> (task: Task)
        ensures
            task.runs(
                Fifo::of(block_transfer(func, addr, false, false, buf@.len() as usize)),
                buf@,
            ),
            task@.stack == seq![
                Frame::Fifo(
                    Fifo {
                        transfer: Transfer {
                            func,
                            addr,
                            write: false,
                            inc_addr: false,
                            block_size: 512,
                            use_block: true,
                            len: buf@.len() as usize,
                        },
                        phase: FifoPhase::Begin,
                    },
                ),
            ],
            task@.buf == buf@,
    {
        CviSdhci::fifo(func, addr, false, false, buf)
    }

    /// Fills `buf` from a range of card registers.
    pub fn read_fifo_inc(&self, func: u8, addr: u32, buf: Vec<u8>) -> (task: Task)
        ensures
            task.runs(
                Fifo::of(block_transfer(func, addr, false, true, buf@.len() as usize)),
                buf@,
            ),
            task@.stack == seq![
                Frame::Fifo(
                    Fifo {
                        transfer: Transfer {
                            func,
                            addr,
                            write: false,
                            inc_addr: true,
                            block_size: 512,
                            use_block: true,
                            len: buf@.len() as usize,
                        },
                        phase: FifoPhase::Begin,
                    },
                ),
            ],
            task@.buf == buf@,
    {
        CviSdhci::fifo(func, addr, false, true, buf)
    }

    /// Writes `buf` to one card register.
    pub fn write_fifo(&self, func: u8, addr: u32, buf: Vec<u8>) -> (task: Task)
        ensures
            task.runs(
                Fifo::of(block_transfer(func, addr, true, false, buf@.len() as usize)),
                buf@,
            ),
            task@.stack == seq![
                Frame::Fifo(
                    Fifo {
                        transfer: Transfer {
                            func,
                            addr,
                            write: true,
                            inc_addr: false,
                            block_size: 512,
                            use_block: true,
                            len: buf@.len() as usize,
                        },
                        phase: FifoPhase::Begin,
                    },
                ),
            ],
            task@.buf == buf@,
    {
        CviSdhci::fifo(func, addr, true, false, buf)
    }

    /// Writes `buf` to a range of card registers.
    pub fn write_fifo_inc(&self, func: u8, addr: u32, buf: Vec<u8>) -> (task: Task)
        ensures
            task.runs(
                Fifo::of(block_transfer(func, addr, true, true, buf@.len() as usize)),
                buf@,
            ),
            task@.stack == seq![
                Frame::Fifo(
                    Fifo {
                        transfer: Transfer {
                            func,
                            addr,
                            write: true,
                            inc_addr: true,
                            block_size: 512,
                            use_block: true,
                            len: buf@.len() as usize,
                        },
                        phase: FifoPhase::Begin,
                    },
                ),
            ],
            task@.buf == buf@,
    {
        CviSdhci::fifo(func, addr, true, true, buf)
    }

    /// Sets a function's block size.
    pub fn set_block_size(&self, func: u8, size: u16) -> (task: Task)
        ensures
            task.runs(SetBlockSize::of(func, size), Seq::empty()),
            task@.stack == seq![
                Frame::SetBlockSize(SetBlockSize { func, size, phase: BlockPhase::Begin }),
            ],
    {
        Task::new(SetBlockSize::start(func, size), Vec::new())
    }

    /// Sets the bus clock to at most `hz`. One that the divider cannot make is refused.
    pub fn set_clock(&self, hz: u32) -> (task: Task)
        requires
            hz > 0,
        ensures
            task.runs(SetClock::of(hz), Seq::empty()),
            task@.stack == seq![Frame::SetClock(SetClock { hz, phase: ClockPhase::Begin })],
    {
        Task::new(SetClock::start(hz), Vec::new())
    }

    /// Enables a function.
    pub fn enable_func(&self, func: u8) -> (task: Task)
        ensures
            task.runs(EnableFunc::of(func), Seq::empty()),
            task@.stack == seq![
                Frame::EnableFunc(EnableFunc { func, left: 1_000, phase: EnablePhase::Begin }),
            ],
    {
        Task::new(EnableFunc::start(func), Vec::new())
    }

    /// Vendor and device number of the card.
    pub fn vendor_device_id(&self) -> (ids: (u16, u16))
        ensures
            ids == (self.vendor_id, self.device_id),
    {
        (self.vendor_id, self.device_id)
    }

    /// The writes that let the controller raise interrupts, in order.
    pub fn enable_irq(&self, irq: &SdhciIrqState) -> (writes: [RegWrite; 2])
        requires
            self.wf(),
        ensures
            writes@[0].value & NORM_INT_SERVED == NORM_INT_SERVED,
            writes@ == seq![
                RegWrite {
                    base: irq.base,
                    off: SDHCI_NORM_INT_SIG_EN,
                    value: self.cfg.masks.norm_signal,
                },
                RegWrite {
                    base: irq.base,
                    off: SDHCI_ERR_INT_SIG_EN,
                    value: self.cfg.masks.err_signal,
                },
            ],
    {
        enable_irq_signals(irq, &self.cfg.masks)
    }

    /// The writes that keep the controller from raising any interrupt, in order.
    pub fn disable_irq(&self, irq: &SdhciIrqState) -> (writes: [RegWrite; 2])
        ensures
            writes@ == seq![
                RegWrite { base: irq.base, off: SDHCI_NORM_INT_SIG_EN, value: 0 },
                RegWrite { base: irq.base, off: SDHCI_ERR_INT_SIG_EN, value: 0 },
            ],
    {
        disable_irq_signals(irq)
    }

    /// The card interrupt of this controller.
    pub fn card_irq_ctrl(&self) -> (ctrl: CviCardIrqCtrl)
        ensures
            ctrl.base == self.base,
    {
        CviCardIrqCtrl::new(self.base)
    }
}

// ---- Laws ----

/// A transfer in blocks is one for the function, the address, the direction and the length
/// that were given, with the address running along exactly where that was asked for, and in
/// blocks of 512 bytes, whatever each of them is.
pub proof fn law_block_transfer_is_as_asked(
    func: u8,
    addr: u32,
    write: bool,
    inc_addr: bool,
    len: usize,
)
    ensures
        ({
            let transfer = block_transfer(func, addr, write, inc_addr, len);
            &&& transfer.func == func
            &&& transfer.addr == addr
            &&& transfer.write == write
            &&& transfer.inc_addr == inc_addr
            &&& transfer.len == len
            &&& transfer.use_block
            &&& transfer.block_size == 512
        }),
{
}

} // verus!
