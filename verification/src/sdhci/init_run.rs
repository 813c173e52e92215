//! The bring-up from beginning to end.

use vstd::prelude::*;

use crate::error::{Answer, SdioError};
use crate::irq::NORM_INT_SERVED;
use crate::regs::{
    CCCR_BUS_INTERFACE, CCCR_BUS_SPEED_SELECT, HC_BUS_WIDTH_4, HC_CARD_DET_SEL, HC_CARD_DET_TEST,
    HC_HIGH_SPEED, POWER_330V_ON, R4_READY, SDHCI_ERR_INT_SIG_EN, SDHCI_ERR_INT_STS_EN,
    SDHCI_HOST_CONTROL, SDHCI_NORM_INT_SIG_EN, SDHCI_NORM_INT_STS_EN, SDHCI_POWER_CONTROL,
    SDHCI_SOFTWARE_RESET, SDIO_DEFAULT_BLOCK_SIZE, SWRST_ALL,
};
use crate::sdhci::card::{EnableFunc, Manfid, SetBlockSize};
use crate::sdhci::clock::{
    base_clock_of, divisor_of, law_divisor_keeps_rate, rate_within, SetClock,
};
use crate::sdhci::command::{Cmd52, SendCmd};
use crate::sdhci::config::HostConfig;
use crate::sdhci::frame::{Frame, Io, IrqOp, Out};
use crate::sdhci::init::{
    common_voltage, Init, InitPhase, BUS_IF_KEEP, BUS_IF_WIDTH_4, BUS_SPEED_EHS, BUS_SPEED_SHS,
    DEFAULT_CLOCK_HZ, HIGH_SPEED_CLOCK_HZ, INIT_CLOCK_HZ, OCR_PAUSE,
};
use crate::sdhci::run::{ask, frame_after, lemma_advance, lemma_not_resumed, well_until};
use crate::sdhci::wait::{Poll, PollCond};

verus! {

/// The bring-up in a phase.
pub open spec fn init_at(phase: InitPhase) -> Frame {
    Frame::Init(Init { phase })
}

/// The controller is brought up first: it is reset, told that the card is there, and the
/// bus gets power; then the bus clock runs at the speed for identification; then
/// interrupts are let through, all that the driver lives on among them; only then is the
/// card spoken to.
#[verifier::rlimit(40)]
pub proof fn law_init_brings_controller_up(cfg: HostConfig, inputs: spec_fn(int) -> Answer)
    requires
        well_until(inputs, 11),
        cfg.masks.wf(),
    ensures
        cfg.masks.norm_status & NORM_INT_SERVED == NORM_INT_SERVED,
        cfg.masks.norm_signal & NORM_INT_SERVED == NORM_INT_SERVED,
        ({
            let init = Init::of();
            let hc = inputs(3).unwrap() as u8;
            &&& ask(init, cfg, inputs, 0) == Out::Io(
                Io::Write8 { off: SDHCI_SOFTWARE_RESET, value: SWRST_ALL },
            )
            &&& ask(init, cfg, inputs, 1) == Out::Call(
                Poll::of(PollCond::ResetDone, cfg.reset_polls),
            )
            &&& ask(init, cfg, inputs, 2) == Out::Io(Io::Read8 { off: SDHCI_HOST_CONTROL })
            &&& ask(init, cfg, inputs, 3) == Out::Io(
                Io::Write8 {
                    off: SDHCI_HOST_CONTROL,
                    value: hc | HC_CARD_DET_TEST | HC_CARD_DET_SEL,
                },
            )
            &&& ask(init, cfg, inputs, 4) == Out::Io(
                Io::Write8 { off: SDHCI_POWER_CONTROL, value: POWER_330V_ON },
            )
            &&& ask(init, cfg, inputs, 5) == Out::Call(SetClock::of(INIT_CLOCK_HZ))
            &&& ask(init, cfg, inputs, 6) == Out::Irq(IrqOp::Attach)
            &&& ask(init, cfg, inputs, 7) == Out::Io(
                Io::Write16 { off: SDHCI_NORM_INT_STS_EN, value: cfg.masks.norm_status },
            )
            &&& ask(init, cfg, inputs, 8) == Out::Io(
                Io::Write16 { off: SDHCI_ERR_INT_STS_EN, value: cfg.masks.err_status },
            )
            &&& ask(init, cfg, inputs, 9) == Out::Io(
                Io::Write16 { off: SDHCI_NORM_INT_SIG_EN, value: cfg.masks.norm_signal },
            )
            &&& ask(init, cfg, inputs, 10) == Out::Io(
                Io::Write16 { off: SDHCI_ERR_INT_SIG_EN, value: cfg.masks.err_signal },
            )
            &&& ask(init, cfg, inputs, 11) == Out::Call(SendCmd::of(5, 0))
            &&& frame_after(init, cfg, inputs, 12) == init_at(InitPhase::Query)
        }),
{
    reveal(ask);
    reveal_with_fuel(frame_after, 13);
    reveal_with_fuel(well_until, 13);
}

/// Then the card is asked for its operating conditions. Without a voltage in common it is
/// given up. Otherwise it is asked at that voltage whether it is ready.
pub proof fn law_init_agrees_on_voltage(cfg: HostConfig, ocr: u32)
    ensures
        ({
            let step = init_at(InitPhase::Query).next(cfg, Ok(ocr));
            if common_voltage(ocr) == 0 {
                step.out == Out::Return(Err(SdioError::Unsupported))
            } else if cfg.ocr_retries == 0 {
                step.out == Out::Return(Err(SdioError::Timeout))
            } else {
                &&& step.out == Out::Call(SendCmd::of(5, common_voltage(ocr)))
                &&& step.frame == init_at(
                    InitPhase::Ready {
                        voltage: common_voltage(ocr),
                        left: (cfg.ocr_retries - 1) as u32,
                    },
                )
            }
        }),
{
}

/// The inputs of the question for readiness where `replies(k)` is what the card says to
/// question number `k`.
pub open spec fn ready_inputs(replies: spec_fn(int) -> u32) -> spec_fn(int) -> Answer {
    |i: int| Ok(replies(i / 2))
}

proof fn lemma_card_not_ready(
    voltage: u32,
    left: u32,
    cfg: HostConfig,
    replies: spec_fn(int) -> u32,
    k: nat,
)
    requires
        k <= left,
        forall|j: int| 0 <= j < k ==> (#[trigger] replies(j)) & R4_READY == 0,
    ensures
        frame_after(
            init_at(InitPhase::Ready { voltage, left }),
            cfg,
            ready_inputs(replies),
            2 * k,
        ) == init_at(InitPhase::Ready { voltage, left: (left - k) as u32 }),
    decreases k,
{
    let frame = init_at(InitPhase::Ready { voltage, left });
    let inputs = ready_inputs(replies);
    if k == 0 {
        lemma_not_resumed(frame, cfg, inputs);
    } else {
        let m = (k - 1) as nat;
        lemma_card_not_ready(voltage, left, cfg, replies, m);
        let i = 2 * m as int;
        let more = (left - m) as u32;
        assert(inputs(i) == Ok::<u32, SdioError>(replies(m as int)));
        let ready = init_at(InitPhase::Ready { voltage, left: more });
        lemma_advance(frame, cfg, inputs, i as nat, ready);
        let pause = init_at(InitPhase::ReadyPause { voltage, left: more });
        lemma_advance(frame, cfg, inputs, (i + 1) as nat, pause);
    }
}

/// A card that is not ready is asked again at the same voltage, after a pause, as often as
/// allowed; the first time that it is, its address is asked for; if it never is, the
/// bring-up times out.
pub proof fn law_init_waits_for_card(
    voltage: u32,
    left: u32,
    cfg: HostConfig,
    replies: spec_fn(int) -> u32,
    k: nat,
)
    requires
        k <= left,
        forall|j: int| 0 <= j < k ==> (#[trigger] replies(j)) & R4_READY == 0,
    ensures
        ({
            let frame = init_at(InitPhase::Ready { voltage, left });
            let inputs = ready_inputs(replies);
            if replies(k as int) & R4_READY != 0 {
                &&& ask(frame, cfg, inputs, 2 * k) == Out::Call(SendCmd::of(3, 0))
                &&& frame_after(frame, cfg, inputs, 2 * k + 1) == init_at(InitPhase::Address)
            } else {
                &&& ask(frame, cfg, inputs, 2 * k) == Out::Io(Io::Spin { times: OCR_PAUSE })
                &&& ask(frame, cfg, inputs, 2 * k + 1) == (if k == left {
                    Out::Return(Err(SdioError::Timeout))
                } else {
                    Out::Call(SendCmd::of(5, voltage))
                })
            }
        }),
{
    lemma_card_not_ready(voltage, left, cfg, replies, k);
    let frame = init_at(InitPhase::Ready { voltage, left });
    let inputs = ready_inputs(replies);
    let i = 2 * k as int;
    assert(inputs(i) == Ok::<u32, SdioError>(replies(k as int)));
    let more = (left - k) as u32;
    lemma_advance(frame, cfg, inputs, i as nat, init_at(InitPhase::Ready { voltage, left: more }));
    if replies(k as int) & R4_READY == 0 {
        let pause = init_at(InitPhase::ReadyPause { voltage, left: more });
        lemma_advance(frame, cfg, inputs, (i + 1) as nat, pause);
    }
}

/// The address that the card gives is kept and is the one that the card is selected with.
#[verifier::rlimit(40)]
pub proof fn law_init_selects_card(cfg: HostConfig, inputs: spec_fn(int) -> Answer)
    requires
        inputs(0) is Ok,
        well_until(inputs, 2),
    ensures
        ({
            let frame = init_at(InitPhase::Address);
            let rca = (inputs(0).unwrap() / 0x1_0000) as u16;
            &&& ask(frame, cfg, inputs, 0) == Out::SetRca(rca)
            &&& ask(frame, cfg, inputs, 1) == Out::Call(SendCmd::of(7, (rca * 0x1_0000) as u32))
            &&& ask(frame, cfg, inputs, 2) == Out::Call(
                Cmd52::read_of(0, CCCR_BUS_SPEED_SELECT),
            )
            &&& frame_after(frame, cfg, inputs, 3) == init_at(InitPhase::Speed)
        }),
{
    reveal(ask);
    reveal_with_fuel(frame_after, 4);
    reveal_with_fuel(well_until, 4);
}

/// A card that knows high-speed timing is switched to it, then the controller, then the
/// clock; one that does not gets the slower clock.
#[verifier::rlimit(40)]
pub proof fn law_init_sets_speed(cfg: HostConfig, inputs: spec_fn(int) -> Answer)
    requires
        inputs(0) is Ok,
        well_until(inputs, 3),
    ensures
        ({
            let frame = init_at(InitPhase::Speed);
            let speed = inputs(0).unwrap() as u8;
            let hc = inputs(2).unwrap() as u8;
            if speed & BUS_SPEED_SHS != 0 {
                &&& ask(frame, cfg, inputs, 0) == Out::Call(
                    Cmd52::write_of(0, CCCR_BUS_SPEED_SELECT, speed | BUS_SPEED_EHS),
                )
                &&& ask(frame, cfg, inputs, 1) == Out::Io(Io::Read8 { off: SDHCI_HOST_CONTROL })
                &&& ask(frame, cfg, inputs, 2) == Out::Io(
                    Io::Write8 { off: SDHCI_HOST_CONTROL, value: hc | HC_HIGH_SPEED },
                )
                &&& ask(frame, cfg, inputs, 3) == Out::Call(SetClock::of(HIGH_SPEED_CLOCK_HZ))
                &&& frame_after(frame, cfg, inputs, 4) == init_at(InitPhase::Clock)
            } else {
                &&& ask(frame, cfg, inputs, 0) == Out::Call(SetClock::of(DEFAULT_CLOCK_HZ))
                &&& frame_after(frame, cfg, inputs, 1) == init_at(InitPhase::Clock)
            }
        }),
{
    reveal(ask);
    reveal_with_fuel(frame_after, 5);
    reveal_with_fuel(well_until, 5);
}

/// Last come the bus width, first of the card and then of the controller, the first
/// function with its block size, and the identification, which is kept.
#[verifier::rlimit(40)]
pub proof fn law_init_finishes(cfg: HostConfig, inputs: spec_fn(int) -> Answer)
    requires
        inputs(0) is Ok,
        well_until(inputs, 8),
    ensures
        ({
            let frame = init_at(InitPhase::Clock);
            let bus_if = inputs(1).unwrap() as u8;
            let hc = inputs(3).unwrap() as u8;
            let ids = inputs(7).unwrap();
            &&& ask(frame, cfg, inputs, 0) == Out::Call(Cmd52::read_of(0, CCCR_BUS_INTERFACE))
            &&& ask(frame, cfg, inputs, 1) == Out::Call(
                Cmd52::write_of(0, CCCR_BUS_INTERFACE, (bus_if & BUS_IF_KEEP) | BUS_IF_WIDTH_4),
            )
            &&& ask(frame, cfg, inputs, 2) == Out::Io(Io::Read8 { off: SDHCI_HOST_CONTROL })
            &&& ask(frame, cfg, inputs, 3) == Out::Io(
                Io::Write8 { off: SDHCI_HOST_CONTROL, value: hc | HC_BUS_WIDTH_4 },
            )
            &&& ask(frame, cfg, inputs, 4) == Out::Call(EnableFunc::of(1))
            &&& ask(frame, cfg, inputs, 5) == Out::Call(
                SetBlockSize::of(1, SDIO_DEFAULT_BLOCK_SIZE),
            )
            &&& ask(frame, cfg, inputs, 6) == Out::Call(Manfid::of(1))
            &&& ask(frame, cfg, inputs, 7) == Out::SetIds {
                vendor: (ids % 0x1_0000) as u16,
                device: (ids / 0x1_0000) as u16,
            }
            &&& ask(frame, cfg, inputs, 8) == Out::Return(Ok(0))
        }),
{
    reveal(ask);
    reveal_with_fuel(frame_after, 10);
    reveal_with_fuel(well_until, 10);
}

/// Where the first function has no identification, that of the card is looked for; only
/// if there is none either does the bring-up fail.
pub proof fn law_init_falls_back(cfg: HostConfig, error: SdioError, common: Answer)
    ensures
        ({
            let step = init_at(InitPhase::FuncIds).next(cfg, Err(error));
            let next = step.frame.next(cfg, common);
            &&& step.out == Out::Call(Manfid::of(0))
            &&& match common {
                Ok(ids) => next.out == Out::SetIds {
                    vendor: (ids % 0x1_0000) as u16,
                    device: (ids / 0x1_0000) as u16,
                } && next.frame.next(cfg, Ok(0)).out == Out::Return(Ok(0)),
                Err(e) => next.out == Out::Return(Err(e)),
            }
        }),
{
}

/// The bring-up has not ended within its first `n` requests.
pub open spec fn still_running(cfg: HostConfig, inputs: spec_fn(int) -> Answer, n: nat) -> bool {
    forall|i: nat| i < n ==> !((#[trigger] ask(Init::of(), cfg, inputs, i)) is Return)
}

/// The bus never has a clock before it has power: whenever the bring-up sets the clock,
/// it has switched the power on before.
#[verifier::rlimit(40)]
pub proof fn law_power_before_clock(cfg: HostConfig, inputs: spec_fn(int) -> Answer, n: nat)
    requires
        still_running(cfg, inputs, n),
        ask(Init::of(), cfg, inputs, n) matches Out::Call(Frame::SetClock(_)),
    ensures
        n > 4,
        ask(Init::of(), cfg, inputs, 4) == Out::Io(
            Io::Write8 { off: SDHCI_POWER_CONTROL, value: POWER_330V_ON },
        ),
{
    reveal(ask);
    reveal_with_fuel(frame_after, 6);
    let init = Init::of();
    assert(n > 0 ==> !(ask(init, cfg, inputs, 0) is Return));
    assert(n > 1 ==> !(ask(init, cfg, inputs, 1) is Return));
    assert(n > 2 ==> !(ask(init, cfg, inputs, 2) is Return));
    assert(n > 3 ==> !(ask(init, cfg, inputs, 3) is Return));
    assert(n > 4 ==> !(ask(init, cfg, inputs, 4) is Return));
}

/// The address of the card has not been asked for yet.
pub open spec fn before_address(phase: InitPhase) -> bool {
    match phase {
        InitPhase::Begin | InitPhase::Reset | InitPhase::ResetDone | InitPhase::Detect
        | InitPhase::DetectSet | InitPhase::Power | InitPhase::InitClock | InitPhase::Attach
        | InitPhase::NormStatus | InitPhase::ErrStatus | InitPhase::NormSignal
        | InitPhase::ErrSignal | InitPhase::Query => true,
        InitPhase::Ready { .. } => true,
        InitPhase::ReadyPause { .. } => true,
        _ => false,
    }
}

proof fn lemma_address_first(cfg: HostConfig, inputs: spec_fn(int) -> Answer, n: nat)
    requires
        still_running(cfg, inputs, n),
    ensures
        frame_after(Init::of(), cfg, inputs, n) is Init,
        before_address(frame_after(Init::of(), cfg, inputs, n)->Init_0.phase) || exists|i: nat|
            i < n && #[trigger] ask(Init::of(), cfg, inputs, i) == Out::Call(SendCmd::of(3, 0)),
    decreases n,
{
    lemma_not_resumed(Init::of(), cfg, inputs);
    if n > 0 {
        let m = (n - 1) as nat;
        assert(still_running(cfg, inputs, m));
        lemma_address_first(cfg, inputs, m);
        lemma_advance(Init::of(), cfg, inputs, m, frame_after(Init::of(), cfg, inputs, m));
        assert(!(ask(Init::of(), cfg, inputs, m) is Return));
        let phase = frame_after(Init::of(), cfg, inputs, m)->Init_0.phase;
        if before_address(phase) && !before_address(
            frame_after(Init::of(), cfg, inputs, n)->Init_0.phase,
        ) {
            assert(ask(Init::of(), cfg, inputs, m) == Out::Call(SendCmd::of(3, 0)));
        }
    }
}

/// Until the card has been asked for its address, the bus clock is only ever set to the
/// speed for identification; and a divisor that such a setting finds keeps that rate,
/// whatever the capabilities are.
pub proof fn law_slow_until_identified(
    cfg: HostConfig,
    inputs: spec_fn(int) -> Answer,
    n: nat,
    hz: u32,
)
    requires
        still_running(cfg, inputs, n),
        ask(Init::of(), cfg, inputs, n) == Out::Call(SetClock::of(hz)),
        forall|i: nat|
            i < n ==> #[trigger] ask(Init::of(), cfg, inputs, i) != Out::Call(SendCmd::of(3, 0)),
    ensures
        hz == INIT_CLOCK_HZ,
        forall|caps: u32|
            (#[trigger] divisor_of(base_clock_of(cfg, caps), hz)) matches Some(d) ==> rate_within(
                base_clock_of(cfg, caps),
                d,
                INIT_CLOCK_HZ,
            ),
{
    assert forall|caps: u32|
        (#[trigger] divisor_of(base_clock_of(cfg, caps), INIT_CLOCK_HZ)) matches Some(d)
            ==> rate_within(base_clock_of(cfg, caps), d, INIT_CLOCK_HZ) by {
        law_divisor_keeps_rate(base_clock_of(cfg, caps), INIT_CLOCK_HZ);
    }
    lemma_address_first(cfg, inputs, n);
    lemma_advance(Init::of(), cfg, inputs, n, frame_after(Init::of(), cfg, inputs, n));
}

} // verus!
