//! The bus clock.

use vstd::prelude::*;

use crate::bits::law_u32_bits;
use crate::error::{Answer, SdioError};
use crate::regs::{
    CAPS_BASE_FREQ_MASK, CAPS_BASE_FREQ_SHIFT, CC_DIV_SHIFT, CC_EXT_DIV_SHIFT,
    CC_FREQ_SEL_EXT_MASK, CC_FREQ_SEL_MASK, CC_INT_CLK_EN, CC_SD_CLK_EN, DIVISOR_HIGH_MASK,
    DIVISOR_LOW_MASK, DIV_FACTOR, MAX_DIVISOR, MHZ_TO_HZ, SDHCI_CAPABILITIES, SDHCI_CLOCK_CONTROL,
};
use crate::sdhci::config::HostConfig;
use crate::sdhci::frame::{Frame, Io, Out, Step};
use crate::sdhci::wait::{Poll, PollCond};

verus! {

/// The base clock in Hz that a capabilities register reports, or the board's own
/// where it reports none.
pub open spec fn base_clock_of(cfg: HostConfig, caps: u32) -> u32 {
    let mhz = (caps >> CAPS_BASE_FREQ_SHIFT) & CAPS_BASE_FREQ_MASK;
    if mhz == 0 { cfg.fallback_base_clock } else { (mhz * MHZ_TO_HZ) as u32 }
}

/// `a / b`, rounded up.
pub open spec fn ceil_div(a: int, b: int) -> int {
    (a + b - 1) / b
}

/// A bus clock of at most `hz` can be had: the base clock is no faster, or the divider goes
/// far enough.
pub open spec fn reachable(base: u32, hz: u32) -> bool {
    hz >= base || base <= DIV_FACTOR * hz * MAX_DIVISOR
}

/// The divisor for a bus clock of at most `hz`, where that can be had: 0, for no division,
/// where the base clock is no faster, else the least that is enough.
pub open spec fn divisor_of(base: u32, hz: u32) -> Option<u16> {
    if !reachable(base, hz) {
        None
    } else if hz >= base {
        Some(0)
    } else {
        Some(ceil_div(base as int, DIV_FACTOR * hz) as u16)
    }
}

/// The bus clock that a divisor makes of the base clock is at most `hz`.
pub open spec fn rate_within(base: u32, divisor: u16, hz: u32) -> bool {
    if divisor == 0 {
        base <= hz
    } else {
        base <= DIV_FACTOR * divisor * hz
    }
}

/// A clock control value with both clocks off.
pub open spec fn clock_stopped(reg: u16) -> u16 {
    reg & !(CC_SD_CLK_EN | CC_INT_CLK_EN)
}

/// A clock control value with `divisor` in place and the internal clock on.
pub open spec fn clock_divided(reg: u16, divisor: u16) -> u16 {
    (reg & !(CC_FREQ_SEL_MASK | CC_FREQ_SEL_EXT_MASK)) | (((divisor & DIVISOR_LOW_MASK)
        << CC_DIV_SHIFT) | (((divisor >> 8) & DIVISOR_HIGH_MASK) << CC_EXT_DIV_SHIFT)
        | CC_INT_CLK_EN)
}

/// The divisor that a clock control value holds.
pub open spec fn divisor_in(reg: u16) -> u16 {
    (reg >> 8) | (((reg >> 6) & 0x03) << 8)
}

/// The base clock in Hz.
pub fn base_clock(cfg: &HostConfig, caps: u32) -> (hz: u32)
    ensures
        hz == base_clock_of(*cfg, caps),
{
    let mhz: u32 = (caps >> CAPS_BASE_FREQ_SHIFT) & CAPS_BASE_FREQ_MASK;
    proof {
        assert((caps >> 8) & 0xFF <= 0xFF) by (bit_vector);
    }
    let hz: u32 = mhz * MHZ_TO_HZ;
    if hz == 0 {
        cfg.fallback_base_clock
    } else {
        hz
    }
}

/// The divisor for a bus clock of at most `hz`, where that can be had.
pub fn divisor(base: u32, hz: u32) -> (d: Option<u16>)
    requires
        hz > 0,
    ensures
        d == divisor_of(base, hz),
        d matches Some(d) ==> d <= MAX_DIVISOR && rate_within(base, d, hz),
{
    if hz >= base {
        return Some(0);
    }
    assert(DIV_FACTOR * hz == 2 * hz) by (nonlinear_arith)
        requires
            DIV_FACTOR == 2,
    ;
    assert(DIV_FACTOR * hz * MAX_DIVISOR == 2 * hz * 1023) by (nonlinear_arith)
        requires
            DIV_FACTOR == 2,
            MAX_DIVISOR == 1023,
    ;
    let by: u64 = DIV_FACTOR as u64 * hz as u64;
    if base as u64 > by * 1023 {
        return None;
    }
    proof {
        law_divisor_is_least(base, hz);
    }
    let div: u64 = (base as u64 + by - 1) / by;
    Some(div as u16)
}

/// Where the setting of the clock stands.
#[derive(Clone, Copy, Debug, PartialEq, Eq, Structural)]
pub enum ClockPhase {
    /// Not begun.
    Begin,
    /// Reading the capabilities.
    Caps,
    /// Reading the clock control register.
    Current { divisor: u16 },
    /// Stopping the clock; the register then holds `reg`.
    Stop { divisor: u16, reg: u16 },
    /// Writing the divisor.
    Divide,
    /// Waiting for the internal clock.
    Stable,
    /// Reading the clock control register again.
    Reread,
    /// Letting the clock out.
    Release,
}

/// Sets the bus clock to at most `hz`.
#[derive(Clone, Copy, Debug, PartialEq, Eq, Structural)]
pub struct SetClock {
    /// Target frequency in Hz.
    pub hz: u32,
    /// Where the setting stands.
    pub phase: ClockPhase,
}

impl SetClock {
    /// A target that has a divisor.
    pub open spec fn wf(self) -> bool {
        self.hz > 0
    }

    /// A setting that has not begun.
    pub open spec fn of(hz: u32) -> Frame {
        Frame::SetClock(SetClock { hz, phase: ClockPhase::Begin })
    }

    /// The setting in another phase.
    pub open spec fn at(self, phase: ClockPhase) -> Frame {
        Frame::SetClock(SetClock { phase, ..self })
    }

    /// Works out the divisor from the capabilities, stops the clock, writes the
    /// divisor with the internal clock on, waits until that is stable and lets the
    /// clock out. A clock that cannot be had is refused before the clock is touched.
    pub open spec fn next(self, cfg: HostConfig, input: Answer) -> Step {
        match (self.phase, input) {
            (ClockPhase::Begin, _) => Step {
                frame: self.at(ClockPhase::Caps),
                out: Out::Io(Io::Read32 { off: SDHCI_CAPABILITIES }),
            },
            (_, Err(e)) => Step { frame: Frame::SetClock(self), out: Out::Return(Err(e)) },
            (ClockPhase::Caps, Ok(caps)) => match divisor_of(
                base_clock_of(cfg, caps),
                self.hz,
            ) {
                None => Step {
                    frame: Frame::SetClock(self),
                    out: Out::Return(Err(SdioError::Unsupported)),
                },
                Some(divisor) => Step {
                    frame: self.at(ClockPhase::Current { divisor }),
                    out: Out::Io(Io::Read16 { off: SDHCI_CLOCK_CONTROL }),
                },
            },
            (ClockPhase::Current { divisor }, Ok(now)) => Step {
                frame: self.at(ClockPhase::Stop { divisor, reg: clock_stopped(now as u16) }),
                out: Out::Io(
                    Io::Write16 { off: SDHCI_CLOCK_CONTROL, value: clock_stopped(now as u16) },
                ),
            },
            (ClockPhase::Stop { divisor, reg }, Ok(_)) => Step {
                frame: self.at(ClockPhase::Divide),
                out: Out::Io(
                    Io::Write16 { off: SDHCI_CLOCK_CONTROL, value: clock_divided(reg, divisor) },
                ),
            },
            (ClockPhase::Divide, Ok(_)) => Step {
                frame: self.at(ClockPhase::Stable),
                out: Out::Call(Poll::of(PollCond::ClockStable, cfg.clock_stable_polls)),
            },
            (ClockPhase::Stable, Ok(_)) => Step {
                frame: self.at(ClockPhase::Reread),
                out: Out::Io(Io::Read16 { off: SDHCI_CLOCK_CONTROL }),
            },
            (ClockPhase::Reread, Ok(now)) => Step {
                frame: self.at(ClockPhase::Release),
                out: Out::Io(
                    Io::Write16 { off: SDHCI_CLOCK_CONTROL, value: (now as u16) | CC_SD_CLK_EN },
                ),
            },
            (ClockPhase::Release, Ok(_)) => Step {
                frame: Frame::SetClock(self),
                out: Out::Return(Ok(0)),
            },
        }
    }

    /// A setting that has not begun.
    pub fn start(hz: u32) -> (frame: Frame)
        ensures
            frame == SetClock::of(hz),
    {
        Frame::SetClock(SetClock { hz, phase: ClockPhase::Begin })
    }

    /// Resumes the setting.
    pub fn resume(self, cfg: &HostConfig, input: Answer) -> (step: Step)
        requires
            self.wf(),
        ensures
            step == self.next(*cfg, input),
    {
        if let ClockPhase::Begin = self.phase {
            return Step {
                frame: Frame::SetClock(SetClock { phase: ClockPhase::Caps, ..self }),
                out: Out::Io(Io::Read32 { off: SDHCI_CAPABILITIES }),
            };
        }
        let value: u32 = match input {
            Err(e) => return Step { frame: Frame::SetClock(self), out: Out::Return(Err(e)) },
            Ok(value) => value,
        };
        let now: u16 = #[verifier::truncate] (value as u16);
        let next: (ClockPhase, Out) = match self.phase {
            ClockPhase::Begin | ClockPhase::Caps => match divisor(
                base_clock(cfg, value),
                self.hz,
            ) {
                None => (ClockPhase::Caps, Out::Return(Err(SdioError::Unsupported))),
                Some(divisor) => (
                    ClockPhase::Current { divisor },
                    Out::Io(Io::Read16 { off: SDHCI_CLOCK_CONTROL }),
                ),
            },
            ClockPhase::Current { divisor } => {
                let reg: u16 = now & !(CC_SD_CLK_EN | CC_INT_CLK_EN);
                (
                    ClockPhase::Stop { divisor, reg },
                    Out::Io(Io::Write16 { off: SDHCI_CLOCK_CONTROL, value: reg }),
                )
            },
            ClockPhase::Stop { divisor, reg } => {
                let freq_sel: u16 = (divisor & DIVISOR_LOW_MASK) << CC_DIV_SHIFT;
                let ext_sel: u16 = ((divisor >> 8) & DIVISOR_HIGH_MASK) << CC_EXT_DIV_SHIFT;
                let clear: u16 = reg & !(CC_FREQ_SEL_MASK | CC_FREQ_SEL_EXT_MASK);
                let reg: u16 = clear | (freq_sel | ext_sel | CC_INT_CLK_EN);
                (
                    ClockPhase::Divide,
                    Out::Io(Io::Write16 { off: SDHCI_CLOCK_CONTROL, value: reg }),
                )
            },
            ClockPhase::Divide => (
                ClockPhase::Stable,
                Out::Call(Poll::start(PollCond::ClockStable, cfg.clock_stable_polls)),
            ),
            ClockPhase::Stable => (
                ClockPhase::Reread,
                Out::Io(Io::Read16 { off: SDHCI_CLOCK_CONTROL }),
            ),
            ClockPhase::Reread => (
                ClockPhase::Release,
                Out::Io(Io::Write16 { off: SDHCI_CLOCK_CONTROL, value: now | CC_SD_CLK_EN }),
            ),
            ClockPhase::Release => (ClockPhase::Release, Out::Return(Ok(0))),
        };
        Step { frame: Frame::SetClock(SetClock { phase: next.0, ..self }), out: next.1 }
    }
}

// ---- Laws ----

/// Where the bus clock has to be divided and can be, it is then no faster than asked for,
/// the divisor fits into its ten bits, and no smaller divisor would do.
pub proof fn law_divisor_is_least(base: u32, hz: u32)
    requires
        0 < hz < base,
        reachable(base, hz),
    ensures
        divisor_of(base, hz) matches Some(d) && 0 < d <= MAX_DIVISOR && base <= DIV_FACTOR * d * hz,
        divisor_of(base, hz) == Some(ceil_div(base as int, DIV_FACTOR * hz) as u16),
        0 < ceil_div(base as int, DIV_FACTOR * hz) <= MAX_DIVISOR,
        forall|d: int| #![trigger DIV_FACTOR * d * hz]
            0 <= d < divisor_of(base, hz).unwrap() ==> DIV_FACTOR * d * hz < base,
{
    let by = DIV_FACTOR * hz;
    let least = ceil_div(base as int, by);
    vstd::arithmetic::div_mod::lemma_fundamental_div_mod(base as int + by - 1, by);
    let rem = (base as int + by - 1) % by;
    assert(by * least + rem == base + by - 1);
    assert(0 <= rem < by) by {
        vstd::arithmetic::div_mod::lemma_mod_bound(base as int + by - 1, by);
    }
    assert(least <= MAX_DIVISOR) by (nonlinear_arith)
        requires
            by > 0,
            by * least <= base + by - 1,
            base <= by * 1023,
            MAX_DIVISOR == 1023,
    ;
    assert(least > 0) by (nonlinear_arith)
        requires
            by > 0,
            by * least >= base,
            base > 0,
    ;
    assert(DIV_FACTOR * least * hz == by * least) by (nonlinear_arith)
        requires
            by == DIV_FACTOR * hz,
    ;
    assert forall|d: int| #![trigger DIV_FACTOR * d * hz] 0 <= d < least implies DIV_FACTOR * d * hz
        < base by {
        assert(DIV_FACTOR * d * hz == by * d) by (nonlinear_arith)
            requires
                by == DIV_FACTOR * hz,
        ;
        assert(by * d <= by * (least - 1)) by (nonlinear_arith)
            requires
                d <= least - 1,
                by > 0,
        ;
        assert(by * (least - 1) == by * least - by) by (nonlinear_arith);
    }
}

/// A divisor never leaves the bus clock faster than asked for, and there is one exactly
/// where the divider goes far enough: no divisor that fits would do otherwise.
pub proof fn law_divisor_keeps_rate(base: u32, hz: u32)
    requires
        hz > 0,
    ensures
        divisor_of(base, hz) matches Some(d) ==> d <= MAX_DIVISOR && rate_within(base, d, hz),
        divisor_of(base, hz) is None ==> forall|d: u16|
            d <= MAX_DIVISOR ==> !(#[trigger] rate_within(base, d, hz)),
{
    if hz < base && reachable(base, hz) {
        law_divisor_is_least(base, hz);
    }
    if !reachable(base, hz) {
        assert forall|d: u16| d <= MAX_DIVISOR implies !(#[trigger] rate_within(base, d, hz)) by {
            assert(DIV_FACTOR * d * hz <= DIV_FACTOR * hz * MAX_DIVISOR) by (nonlinear_arith)
                requires
                    d <= MAX_DIVISOR,
                    hz > 0,
                    DIV_FACTOR == 2,
            ;
        }
    }
}

/// The register holds the divisor that was put in, the internal clock is on and the
/// bus clock is off; the remaining bits are as they were.
pub proof fn law_clock_register_round_trip(reg: u16, divisor: u16)
    requires
        divisor <= MAX_DIVISOR,
    ensures
        divisor_in(clock_divided(clock_stopped(reg), divisor)) == divisor,
        clock_divided(clock_stopped(reg), divisor) & CC_INT_CLK_EN == CC_INT_CLK_EN,
        clock_divided(clock_stopped(reg), divisor) & CC_SD_CLK_EN == 0,
        clock_stopped(reg) & (CC_SD_CLK_EN | CC_INT_CLK_EN) == 0,
        clock_divided(clock_stopped(reg), divisor) & 0x003A == reg & 0x003A,
{
    assert({
        let stopped = reg & !(0x0004u16 | 0x0001u16);
        let out = (stopped & !(0xFF00u16 | 0x00C0u16)) | (((divisor & 0x00FFu16) << 8u16) | (((
        divisor >> 8) & 0x0003u16) << 6u16) | 0x0001u16);
        &&& (out >> 8) | (((out >> 6) & 0x03) << 8) == divisor
        &&& out & 0x0001u16 == 0x0001u16
        &&& out & 0x0004u16 == 0
        &&& stopped & (0x0004u16 | 0x0001u16) == 0
        &&& out & 0x003A == reg & 0x003A
    }) by (bit_vector)
        requires
            divisor <= 1023,
    ;
}

/// The base clock is what the second byte of the capabilities says in megahertz; where that
/// is nothing, it is the board's own.
pub proof fn law_base_clock(cfg: HostConfig, caps: u32)
    ensures
        ({
            let mhz = caps as int / 0x100 % 0x100;
            base_clock_of(cfg, caps) == (if mhz == 0 {
                cfg.fallback_base_clock as int
            } else {
                mhz * 1_000_000
            })
        }),
{
    law_u32_bits(caps);
}

/// The divisor is the least that keeps the bus clock within bounds: none where the base clock
/// is no faster than asked for; else the least `d` for which twice `d` times the clock asked
/// for reaches the base clock. There is none where 1023 is not enough.
pub proof fn law_divisor_by_bounds(base: u32, hz: u32)
    requires
        hz > 0,
    ensures
        divisor_of(base, hz) is None <==> base > 2046 * hz,
        hz >= base ==> divisor_of(base, hz) == Some(0u16),
        hz < base ==> (divisor_of(base, hz) matches Some(d) ==> {
            &&& 1 <= d <= 1023
            &&& base <= 2 * d * hz
            &&& base > 2 * (d - 1) * hz
        }),
{
    assert(DIV_FACTOR * hz * MAX_DIVISOR == 2046 * hz) by (nonlinear_arith)
        requires
            DIV_FACTOR == 2,
            MAX_DIVISOR == 1023,
    ;
    if hz < base && reachable(base, hz) {
        law_divisor_is_least(base, hz);
        let d = divisor_of(base, hz).unwrap() as int;
        assert(DIV_FACTOR * d * hz == 2 * d * hz) by (nonlinear_arith)
            requires
                DIV_FACTOR == 2,
        ;
        assert(DIV_FACTOR * (d - 1) * hz < base);
        assert(DIV_FACTOR * (d - 1) * hz == 2 * (d - 1) * hz) by (nonlinear_arith)
            requires
                DIV_FACTOR == 2,
        ;
    }
}

/// Stopping the clock lowers the two enable bits of the register and leaves every other bit;
/// putting a divisor in replaces the ten bits of the old one, wherever they are, and raises
/// the internal clock.
pub proof fn law_clock_register_by_bits(reg: u16, divisor: u16)
    requires
        divisor <= 1023,
    ensures
        clock_stopped(reg) == reg - reg % 2 - reg / 4 % 2 * 4,
        clock_divided(reg, divisor) == divisor % 256 * 256 + divisor / 256 * 64 + reg % 64 + (1
            - reg % 2),
{
    assert(reg & !(0x0004u16 | 0x0001u16) == reg - reg % 2 - (reg / 4 % 2) * 4) by (bit_vector);
    assert((reg & !(0xFF00u16 | 0x00C0u16)) | (((divisor & 0x00FFu16) << 8u16) | (((divisor >> 8)
        & 0x0003u16) << 6u16) | 0x0001u16) == (divisor % 256) * 256 + (divisor / 256) * 64 + reg
        % 64 + (1 - reg % 2)) by (bit_vector)
        requires
            divisor <= 1023,
    ;
}

} // verus!
