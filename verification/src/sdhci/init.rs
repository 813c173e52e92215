//! Bringing up the controller and the card.

use vstd::prelude::*;

use crate::bits::{bit, law_u32_bits};
use crate::error::{Answer, SdioError};
use crate::regs::{
    CCCR_BUS_INTERFACE, CCCR_BUS_SPEED_SELECT, HC_BUS_WIDTH_4, HC_CARD_DET_SEL, HC_CARD_DET_TEST,
    HC_HIGH_SPEED, OCR_3V2_3V4, OCR_VOLTAGE_MASK, POWER_330V_ON, R4_READY, SDHCI_ERR_INT_SIG_EN,
    SDHCI_ERR_INT_STS_EN, SDHCI_HOST_CONTROL, SDHCI_NORM_INT_SIG_EN, SDHCI_NORM_INT_STS_EN,
    SDHCI_POWER_CONTROL, SDHCI_SOFTWARE_RESET, SDIO_DEFAULT_BLOCK_SIZE, SWRST_ALL,
};
use crate::sdhci::card::{EnableFunc, Manfid, SetBlockSize};
use crate::sdhci::clock::SetClock;
use crate::sdhci::command::{Cmd52, SendCmd};
use crate::sdhci::config::HostConfig;
use crate::sdhci::frame::{Frame, Io, IrqOp, Out, Step};
use crate::sdhci::wait::{Poll, PollCond};

verus! {

/// Bus clock while the card is being identified.
pub const INIT_CLOCK_HZ: u32 = 400_000;

/// Bus clock without high-speed timing.
pub const DEFAULT_CLOCK_HZ: u32 = 25_000_000;

/// Bus clock with high-speed timing.
pub const HIGH_SPEED_CLOCK_HZ: u32 = 50_000_000;

/// Pause between two questions whether the card is ready.
pub const OCR_PAUSE: u32 = 1_000;

/// Bus speed select: the card knows high-speed timing.
pub const BUS_SPEED_SHS: u8 = 0x01;

/// Bus speed select: use it.
pub const BUS_SPEED_EHS: u8 = 0x02;

/// Bus interface control without the bus width.
pub const BUS_IF_KEEP: u8 = 0xFC;

/// Bus interface control: four data lines.
pub const BUS_IF_WIDTH_4: u8 = 0x02;

/// Where the bring-up stands.
#[derive(Clone, Copy, Debug, PartialEq, Eq, Structural)]
pub enum InitPhase {
    /// Not begun.
    Begin,
    /// Requesting the controller reset.
    Reset,
    /// Waiting for its end.
    ResetDone,
    /// Reading host control for the card detect override.
    Detect,
    /// Writing it.
    DetectSet,
    /// Switching the bus power on.
    Power,
    /// Setting the identification clock.
    InitClock,
    /// Taking interrupts from this controller.
    Attach,
    /// Enabling the normal status bits.
    NormStatus,
    /// Enabling the error status bits.
    ErrStatus,
    /// Enabling the normal signals.
    NormSignal,
    /// Enabling the error signals.
    ErrSignal,
    /// Asking the card for its operating conditions.
    Query,
    /// Asking with `voltage` whether it is ready, and `left` more times.
    Ready { voltage: u32, left: u32 },
    /// Pausing before the next question.
    ReadyPause { voltage: u32, left: u32 },
    /// Asking for the card's address.
    Address,
    /// Keeping the address.
    KeepAddress { rca: u16 },
    /// Selecting the card.
    Select,
    /// Reading the bus speed register.
    Speed,
    /// Writing it.
    SpeedSet,
    /// Reading host control for the timing.
    Timing,
    /// Writing it.
    TimingSet,
    /// Setting the bus clock.
    Clock,
    /// Reading the bus interface register.
    Width,
    /// Writing it.
    WidthSet,
    /// Reading host control for the bus width.
    HostWidth,
    /// Writing it.
    HostWidthSet,
    /// Enabling function 1.
    Enable,
    /// Setting its block size.
    BlockSize,
    /// Reading the identification from function 1.
    FuncIds,
    /// Reading it from the common area.
    CommonIds,
    /// Keeping the identification.
    KeepIds,
}

/// Brings up the controller and the card.
#[derive(Clone, Copy, Debug, PartialEq, Eq, Structural)]
pub struct Init {
    /// Where the bring-up stands.
    pub phase: InitPhase,
}

/// The voltages that the card and the host have in common.
pub open spec fn common_voltage(ocr: u32) -> u32 {
    ocr & OCR_VOLTAGE_MASK & OCR_3V2_3V4
}

impl Init {
    /// A bring-up that has not begun.
    pub open spec fn of() -> Frame {
        Frame::Init(Init { phase: InitPhase::Begin })
    }

    /// The bring-up goes on in `phase` once `out` has been done.
    pub open spec fn go(phase: InitPhase, out: Out) -> Step {
        Step { frame: Frame::Init(Init { phase }), out }
    }

    /// The bring-up ends here.
    pub open spec fn end(self, answer: Answer) -> Step {
        Step { frame: Frame::Init(self), out: Out::Return(answer) }
    }

    /// Asks whether the card is ready at `voltage`, or gives up.
    pub open spec fn ask(self, voltage: u32, left: u32) -> Step {
        if left == 0 {
            self.end(Err(SdioError::Timeout))
        } else {
            Init::go(
                InitPhase::Ready { voltage, left: (left - 1) as u32 },
                Out::Call(SendCmd::of(5, voltage)),
            )
        }
    }

    /// Keeps the identification.
    pub open spec fn keep_ids(ids: u32) -> Step {
        Init::go(
            InitPhase::KeepIds,
            Out::SetIds { vendor: (ids % 0x1_0000) as u16, device: (ids / 0x1_0000) as u16 },
        )
    }

    /// The bring-up, in this order: reset; card detect override; power; identification
    /// clock; interrupts; operating conditions and readiness of the card; its address
    /// and selection; bus speed; bus width; function 1 with its block size; the
    /// identification, of function 1 or else of the card. The first failure ends it,
    /// except that of function 1's identification.
    pub open spec fn next(self, cfg: HostConfig, input: Answer) -> Step {
        match (self.phase, input) {
            (InitPhase::Begin, _) => Init::go(
                InitPhase::Reset,
                Out::Io(Io::Write8 { off: SDHCI_SOFTWARE_RESET, value: SWRST_ALL }),
            ),
            (InitPhase::FuncIds, Err(_)) => Init::go(
                InitPhase::CommonIds,
                Out::Call(Manfid::of(0)),
            ),
            (_, Err(e)) => self.end(Err(e)),
            (InitPhase::Reset, Ok(_)) => Init::go(
                InitPhase::ResetDone,
                Out::Call(Poll::of(PollCond::ResetDone, cfg.reset_polls)),
            ),
            (InitPhase::ResetDone, Ok(_)) => Init::go(
                InitPhase::Detect,
                Out::Io(Io::Read8 { off: SDHCI_HOST_CONTROL }),
            ),
            (InitPhase::Detect, Ok(hc)) => Init::go(
                InitPhase::DetectSet,
                Out::Io(
                    Io::Write8 {
                        off: SDHCI_HOST_CONTROL,
                        value: (hc as u8) | HC_CARD_DET_TEST | HC_CARD_DET_SEL,
                    },
                ),
            ),
            (InitPhase::DetectSet, Ok(_)) => Init::go(
                InitPhase::Power,
                Out::Io(Io::Write8 { off: SDHCI_POWER_CONTROL, value: POWER_330V_ON }),
            ),
            (InitPhase::Power, Ok(_)) => Init::go(
                InitPhase::InitClock,
                Out::Call(SetClock::of(INIT_CLOCK_HZ)),
            ),
            (InitPhase::InitClock, Ok(_)) => Init::go(InitPhase::Attach, Out::Irq(IrqOp::Attach)),
            (InitPhase::Attach, Ok(_)) => Init::go(
                InitPhase::NormStatus,
                Out::Io(Io::Write16 { off: SDHCI_NORM_INT_STS_EN, value: cfg.masks.norm_status }),
            ),
            (InitPhase::NormStatus, Ok(_)) => Init::go(
                InitPhase::ErrStatus,
                Out::Io(Io::Write16 { off: SDHCI_ERR_INT_STS_EN, value: cfg.masks.err_status }),
            ),
            (InitPhase::ErrStatus, Ok(_)) => Init::go(
                InitPhase::NormSignal,
                Out::Io(Io::Write16 { off: SDHCI_NORM_INT_SIG_EN, value: cfg.masks.norm_signal }),
            ),
            (InitPhase::NormSignal, Ok(_)) => Init::go(
                InitPhase::ErrSignal,
                Out::Io(Io::Write16 { off: SDHCI_ERR_INT_SIG_EN, value: cfg.masks.err_signal }),
            ),
            (InitPhase::ErrSignal, Ok(_)) => Init::go(
                InitPhase::Query,
                Out::Call(SendCmd::of(5, 0)),
            ),
            (InitPhase::Query, Ok(ocr)) => if common_voltage(ocr) == 0 {
                self.end(Err(SdioError::Unsupported))
            } else {
                self.ask(common_voltage(ocr), cfg.ocr_retries)
            },
            (InitPhase::Ready { voltage, left }, Ok(ocr)) => if ocr & R4_READY != 0 {
                Init::go(InitPhase::Address, Out::Call(SendCmd::of(3, 0)))
            } else {
                Init::go(
                    InitPhase::ReadyPause { voltage, left },
                    Out::Io(Io::Spin { times: OCR_PAUSE }),
                )
            },
            (InitPhase::ReadyPause { voltage, left }, Ok(_)) => self.ask(voltage, left),
            (InitPhase::Address, Ok(resp)) => Init::go(
                InitPhase::KeepAddress { rca: (resp / 0x1_0000) as u16 },
                Out::SetRca((resp / 0x1_0000) as u16),
            ),
            (InitPhase::KeepAddress { rca }, Ok(_)) => Init::go(
                InitPhase::Select,
                Out::Call(SendCmd::of(7, (rca * 0x1_0000) as u32)),
            ),
            (InitPhase::Select, Ok(_)) => Init::go(
                InitPhase::Speed,
                Out::Call(Cmd52::read_of(0, CCCR_BUS_SPEED_SELECT)),
            ),
            (InitPhase::Speed, Ok(speed)) => if (speed as u8) & BUS_SPEED_SHS != 0 {
                Init::go(
                    InitPhase::SpeedSet,
                    Out::Call(
                        Cmd52::write_of(0, CCCR_BUS_SPEED_SELECT, (speed as u8) | BUS_SPEED_EHS),
                    ),
                )
            } else {
                Init::go(InitPhase::Clock, Out::Call(SetClock::of(DEFAULT_CLOCK_HZ)))
            },
            (InitPhase::SpeedSet, Ok(_)) => Init::go(
                InitPhase::Timing,
                Out::Io(Io::Read8 { off: SDHCI_HOST_CONTROL }),
            ),
            (InitPhase::Timing, Ok(hc)) => Init::go(
                InitPhase::TimingSet,
                Out::Io(
                    Io::Write8 { off: SDHCI_HOST_CONTROL, value: (hc as u8) | HC_HIGH_SPEED },
                ),
            ),
            (InitPhase::TimingSet, Ok(_)) => Init::go(
                InitPhase::Clock,
                Out::Call(SetClock::of(HIGH_SPEED_CLOCK_HZ)),
            ),
            (InitPhase::Clock, Ok(_)) => Init::go(
                InitPhase::Width,
                Out::Call(Cmd52::read_of(0, CCCR_BUS_INTERFACE)),
            ),
            (InitPhase::Width, Ok(bus_if)) => Init::go(
                InitPhase::WidthSet,
                Out::Call(
                    Cmd52::write_of(
                        0,
                        CCCR_BUS_INTERFACE,
                        ((bus_if as u8) & BUS_IF_KEEP) | BUS_IF_WIDTH_4,
                    ),
                ),
            ),
            (InitPhase::WidthSet, Ok(_)) => Init::go(
                InitPhase::HostWidth,
                Out::Io(Io::Read8 { off: SDHCI_HOST_CONTROL }),
            ),
            (InitPhase::HostWidth, Ok(hc)) => Init::go(
                InitPhase::HostWidthSet,
                Out::Io(
                    Io::Write8 { off: SDHCI_HOST_CONTROL, value: (hc as u8) | HC_BUS_WIDTH_4 },
                ),
            ),
            (InitPhase::HostWidthSet, Ok(_)) => Init::go(
                InitPhase::Enable,
                Out::Call(EnableFunc::of(1)),
            ),
            (InitPhase::Enable, Ok(_)) => Init::go(
                InitPhase::BlockSize,
                Out::Call(SetBlockSize::of(1, SDIO_DEFAULT_BLOCK_SIZE)),
            ),
            (InitPhase::BlockSize, Ok(_)) => Init::go(
                InitPhase::FuncIds,
                Out::Call(Manfid::of(1)),
            ),
            (InitPhase::FuncIds, Ok(ids)) => Init::keep_ids(ids),
            (InitPhase::CommonIds, Ok(ids)) => Init::keep_ids(ids),
            (InitPhase::KeepIds, Ok(_)) => self.end(Ok(0)),
        }
    }

    /// A bring-up that has not begun.
    pub fn start() -> (frame: Frame)
        ensures
            frame == Init::of(),
    {
        Frame::Init(Init { phase: InitPhase::Begin })
    }

    fn ask_ready(self, voltage: u32, left: u32) -> (step: Step)
        ensures
            step == self.ask(voltage, left),
    {
        if left == 0 {
            return Step {
                frame: Frame::Init(self),
                out: Out::Return(Err(SdioError::Timeout)),
            };
        }
        Step {
            frame: Frame::Init(Init { phase: InitPhase::Ready { voltage, left: left - 1 } }),
            out: Out::Call(SendCmd::start(5, voltage)),
        }
    }

    /// Resumes the bring-up.
    pub fn resume(self, cfg: &HostConfig, input: Answer) -> (step: Step)
        ensures
            step == self.next(*cfg, input),
    {
        if let InitPhase::Begin = self.phase {
            return Step {
                frame: Frame::Init(Init { phase: InitPhase::Reset }),
                out: Out::Io(Io::Write8 { off: SDHCI_SOFTWARE_RESET, value: SWRST_ALL }),
            };
        }
        let value: u32 = match input {
            Ok(value) => value,
            Err(e) => {
                if let InitPhase::FuncIds = self.phase {
                    return Step {
                        frame: Frame::Init(Init { phase: InitPhase::CommonIds }),
                        out: Out::Call(Manfid::start(0)),
                    };
                }
                return Step { frame: Frame::Init(self), out: Out::Return(Err(e)) };
            },
        };
        let byte: u8 = #[verifier::truncate] (value as u8);
        let next: (InitPhase, Out) = match self.phase {
            InitPhase::Begin | InitPhase::Reset => (
                InitPhase::ResetDone,
                Out::Call(Poll::start(PollCond::ResetDone, cfg.reset_polls)),
            ),
            InitPhase::ResetDone => (
                InitPhase::Detect,
                Out::Io(Io::Read8 { off: SDHCI_HOST_CONTROL }),
            ),
            InitPhase::Detect => (
                InitPhase::DetectSet,
                Out::Io(
                    Io::Write8 {
                        off: SDHCI_HOST_CONTROL,
                        value: byte | HC_CARD_DET_TEST | HC_CARD_DET_SEL,
                    },
                ),
            ),
            InitPhase::DetectSet => (
                InitPhase::Power,
                Out::Io(Io::Write8 { off: SDHCI_POWER_CONTROL, value: POWER_330V_ON }),
            ),
            InitPhase::Power => (InitPhase::InitClock, Out::Call(SetClock::start(INIT_CLOCK_HZ))),
            InitPhase::InitClock => (InitPhase::Attach, Out::Irq(IrqOp::Attach)),
            InitPhase::Attach => (
                InitPhase::NormStatus,
                Out::Io(Io::Write16 { off: SDHCI_NORM_INT_STS_EN, value: cfg.masks.norm_status }),
            ),
            InitPhase::NormStatus => (
                InitPhase::ErrStatus,
                Out::Io(Io::Write16 { off: SDHCI_ERR_INT_STS_EN, value: cfg.masks.err_status }),
            ),
            InitPhase::ErrStatus => (
                InitPhase::NormSignal,
                Out::Io(Io::Write16 { off: SDHCI_NORM_INT_SIG_EN, value: cfg.masks.norm_signal }),
            ),
            InitPhase::NormSignal => (
                InitPhase::ErrSignal,
                Out::Io(Io::Write16 { off: SDHCI_ERR_INT_SIG_EN, value: cfg.masks.err_signal }),
            ),
            InitPhase::ErrSignal => (InitPhase::Query, Out::Call(SendCmd::start(5, 0))),
            InitPhase::Query => {
                let voltage: u32 = value & OCR_VOLTAGE_MASK & OCR_3V2_3V4;
                if voltage == 0 {
                    (InitPhase::Query, Out::Return(Err(SdioError::Unsupported)))
                } else {
                    return self.ask_ready(voltage, cfg.ocr_retries);
                }
            },
            InitPhase::Ready { voltage, left } => if value & R4_READY != 0 {
                (InitPhase::Address, Out::Call(SendCmd::start(3, 0)))
            } else {
                (
                    InitPhase::ReadyPause { voltage, left },
                    Out::Io(Io::Spin { times: OCR_PAUSE }),
                )
            },
            InitPhase::ReadyPause { voltage, left } => {
                return self.ask_ready(voltage, left);
            },
            InitPhase::Address => {
                let rca: u16 = (value / 0x1_0000) as u16;
                (InitPhase::KeepAddress { rca }, Out::SetRca(rca))
            },
            InitPhase::KeepAddress { rca } => (
                InitPhase::Select,
                Out::Call(SendCmd::start(7, rca as u32 * 0x1_0000)),
            ),
            InitPhase::Select => (
                InitPhase::Speed,
                Out::Call(Cmd52::start_read(0, CCCR_BUS_SPEED_SELECT)),
            ),
            InitPhase::Speed => if byte & BUS_SPEED_SHS != 0 {
                (
                    InitPhase::SpeedSet,
                    Out::Call(Cmd52::start_write(0, CCCR_BUS_SPEED_SELECT, byte | BUS_SPEED_EHS)),
                )
            } else {
                (InitPhase::Clock, Out::Call(SetClock::start(DEFAULT_CLOCK_HZ)))
            },
            InitPhase::SpeedSet => (
                InitPhase::Timing,
                Out::Io(Io::Read8 { off: SDHCI_HOST_CONTROL }),
            ),
            InitPhase::Timing => (
                InitPhase::TimingSet,
                Out::Io(Io::Write8 { off: SDHCI_HOST_CONTROL, value: byte | HC_HIGH_SPEED }),
            ),
            InitPhase::TimingSet => (
                InitPhase::Clock,
                Out::Call(SetClock::start(HIGH_SPEED_CLOCK_HZ)),
            ),
            InitPhase::Clock => (
                InitPhase::Width,
                Out::Call(Cmd52::start_read(0, CCCR_BUS_INTERFACE)),
            ),
            InitPhase::Width => (
                InitPhase::WidthSet,
                Out::Call(
                    Cmd52::start_write(
                        0,
                        CCCR_BUS_INTERFACE,
                        (byte & BUS_IF_KEEP) | BUS_IF_WIDTH_4,
                    ),
                ),
            ),
            InitPhase::WidthSet => (
                InitPhase::HostWidth,
                Out::Io(Io::Read8 { off: SDHCI_HOST_CONTROL }),
            ),
            InitPhase::HostWidth => (
                InitPhase::HostWidthSet,
                Out::Io(Io::Write8 { off: SDHCI_HOST_CONTROL, value: byte | HC_BUS_WIDTH_4 }),
            ),
            InitPhase::HostWidthSet => (InitPhase::Enable, Out::Call(EnableFunc::start(1))),
            InitPhase::Enable => (
                InitPhase::BlockSize,
                Out::Call(SetBlockSize::start(1, SDIO_DEFAULT_BLOCK_SIZE)),
            ),
            InitPhase::BlockSize => (InitPhase::FuncIds, Out::Call(Manfid::start(1))),
            InitPhase::FuncIds | InitPhase::CommonIds => (
                InitPhase::KeepIds,
                Out::SetIds {
                    vendor: (value % 0x1_0000) as u16,
                    device: (value / 0x1_0000) as u16,
                },
            ),
            InitPhase::KeepIds => (InitPhase::KeepIds, Out::Return(Ok(0))),
        };
        Step { frame: Frame::Init(Init { phase: next.0 }), out: next.1 }
    }
}

// ---- Laws ----

/// The voltages in common are those of the card at 3.2 V to 3.4 V, two bits of its operating
/// conditions, and no other bit.
pub proof fn law_common_voltage(ocr: u32)
    ensures
        common_voltage(ocr) == ocr / 0x10_0000 % 4 * 0x10_0000,
        ocr & R4_READY != 0 <==> bit(ocr as int, 0x8000_0000),
{
    assert(ocr & 0x00FF_FFFF & 0x0030_0000 == (ocr / 0x10_0000 % 4) * 0x10_0000) by (bit_vector);
    law_u32_bits(ocr);
}

/// The speeds of the bus, and the bits that set speed and width.
pub proof fn law_bus_speeds()
    ensures
        INIT_CLOCK_HZ == 400_000,
        DEFAULT_CLOCK_HZ == 25_000_000,
        HIGH_SPEED_CLOCK_HZ == 50_000_000,
        OCR_PAUSE == 1_000,
        BUS_SPEED_SHS == 0x01,
        BUS_SPEED_EHS == 0x02,
        BUS_IF_KEEP == 0xFC,
        BUS_IF_WIDTH_4 == 0x02,
{
}

} // verus!
