//! Interrupt side of the host controller.
//!
//! The interrupt handler turns the status registers into flags; the waiting
//! side consumes them. Neither touches a register itself: functions that need
//! one take its value, or say what is to be written.

use vstd::prelude::*;

use crate::bits::{bit, law_low_half_bits, law_u16_bits, weight_if};
use crate::regs::{
    NORM_INT_BUF_RD_READY, NORM_INT_BUF_WR_READY, NORM_INT_CARD_INT, NORM_INT_CMD_COMPLETE,
    NORM_INT_ERROR, NORM_INT_XFER_COMPLETE, SDHCI_ERR_INT_SIG_EN, SDHCI_NORM_INT_SIG_EN,
};

verus! {

/// The four interrupt enable masks that a board runs the controller with.
#[derive(Clone, Copy, Debug, PartialEq, Eq, Structural)]
pub struct InterruptMasks {
    /// Normal Interrupt Status Enable.
    pub norm_status: u16,
    /// Error Interrupt Status Enable.
    pub err_status: u16,
    /// Normal Interrupt Signal Enable.
    pub norm_signal: u16,
    /// Error Interrupt Signal Enable.
    pub err_signal: u16,
}

/// The interrupts that the driver lives on: every completion, and the card interrupt.
pub const NORM_INT_SERVED: u16 = 0x0133;

impl InterruptMasks {
    /// Every interrupt that the driver lives on is let through as a signal.
    pub open spec fn signals_served(self) -> bool {
        self.norm_signal & NORM_INT_SERVED == NORM_INT_SERVED
    }

    /// Every interrupt that the driver lives on shows in the status and is let through as a
    /// signal.
    pub open spec fn wf(self) -> bool {
        self.norm_status & NORM_INT_SERVED == NORM_INT_SERVED && self.signals_served()
    }

    /// Every interrupt that the driver lives on shows in the status and is let through as a
    /// signal.
    pub fn is_wf(&self) -> (ok: bool)
        ensures
            ok == self.wf(),
    {
        self.norm_status & NORM_INT_SERVED == NORM_INT_SERVED && self.norm_signal
            & NORM_INT_SERVED == NORM_INT_SERVED
    }
}

/// State shared between the interrupt handler and the waiting side.
#[derive(Clone, Copy, Debug, PartialEq, Eq, Structural)]
pub struct SdhciIrqState {
    /// Register base of the controller; 0 before it is known.
    pub base: usize,
    /// Entry point to call on a card interrupt; 0 where there is none.
    pub card_irq_callback: usize,
    /// Command complete.
    pub cmd_complete: bool,
    /// Transfer complete.
    pub xfer_complete: bool,
    /// Buffer read ready.
    pub buf_rd_ready: bool,
    /// Buffer write ready.
    pub buf_wr_ready: bool,
    /// An error was reported.
    pub error: bool,
    /// Error status as it was reported.
    pub error_status: u16,
}

/// Counters kept by the interrupt handler.
#[derive(Clone, Copy, Debug, PartialEq, Eq, Structural)]
pub struct IrqStats {
    /// Interrupts taken.
    pub irq_count: u64,
    /// The last normal interrupt status.
    pub last_norm: u16,
    /// Card interrupts taken.
    pub card_int_count: u64,
}

/// One of the completion flags.
#[derive(Clone, Copy, Debug, PartialEq, Eq, Structural)]
pub enum IrqFlag {
    /// Command complete.
    CmdComplete,
    /// Transfer complete.
    XferComplete,
    /// Buffer read ready.
    BufRdReady,
    /// Buffer write ready.
    BufWrReady,
}

/// A 16-bit register write.
#[derive(Clone, Copy, Debug, PartialEq, Eq, Structural)]
pub struct RegWrite {
    /// Register base of the controller.
    pub base: usize,
    /// Offset from the base.
    pub off: u32,
    /// Value to write.
    pub value: u16,
}

/// What the interrupt handler has to do, in the order of the fields.
#[derive(Clone, Copy, Debug, PartialEq, Eq, Structural)]
pub struct IrqPlan {
    /// Error status bits to write back.
    pub clear_err: Option<u16>,
    /// Normal status bits to write back.
    pub clear_norm: Option<u16>,
    /// Wake the waiting tasks.
    pub wake: bool,
    /// Mask the card interrupt signal.
    pub mask_card: bool,
    /// Entry point to call last.
    pub callback: Option<usize>,
}

/// The completion bits of a normal interrupt status.
pub const NORM_INT_COMPLETIONS: u16 = NORM_INT_CMD_COMPLETE | NORM_INT_XFER_COMPLETE
    | NORM_INT_BUF_WR_READY | NORM_INT_BUF_RD_READY;

/// Lower half of a 32-bit status: the normal interrupt status.
pub open spec fn norm_of(status: u32) -> u16 {
    (status & 0xFFFF) as u16
}

/// Upper half of a 32-bit status: the error interrupt status.
pub open spec fn err_of(status: u32) -> u16 {
    (status >> 16) as u16
}

/// The status reports an error.
pub open spec fn reports_error(status: u32) -> bool {
    norm_of(status) & NORM_INT_ERROR != 0
}

/// The status completes what `bit` stands for: the bit is up and there is no error.
pub open spec fn completes(status: u32, bit: u16) -> bool {
    !reports_error(status) && norm_of(status) & bit != 0
}

/// The card interrupt is up.
pub open spec fn reports_card(status: u32) -> bool {
    norm_of(status) & NORM_INT_CARD_INT != 0
}

/// What a handler that found `status` has to do.
pub open spec fn irq_plan(callback: usize, status: u32) -> IrqPlan {
    let done = norm_of(status) & NORM_INT_COMPLETIONS;
    IrqPlan {
        clear_err: if reports_error(status) { Some(err_of(status)) } else { None },
        clear_norm: if done != 0 { Some(done) } else { None },
        wake: reports_error(status) || done != 0,
        mask_card: reports_card(status),
        callback: if reports_card(status) && callback != 0 { Some(callback) } else { None },
    }
}

impl IrqFlag {
    /// The status bit behind the flag.
    pub open spec fn bit(self) -> u16 {
        match self {
            IrqFlag::CmdComplete => NORM_INT_CMD_COMPLETE,
            IrqFlag::XferComplete => NORM_INT_XFER_COMPLETE,
            IrqFlag::BufRdReady => NORM_INT_BUF_RD_READY,
            IrqFlag::BufWrReady => NORM_INT_BUF_WR_READY,
        }
    }
}

impl SdhciIrqState {
    /// The value of `flag`.
    pub open spec fn flag(self, flag: IrqFlag) -> bool {
        match flag {
            IrqFlag::CmdComplete => self.cmd_complete,
            IrqFlag::XferComplete => self.xfer_complete,
            IrqFlag::BufRdReady => self.buf_rd_ready,
            IrqFlag::BufWrReady => self.buf_wr_ready,
        }
    }

    /// The state with `flag` down.
    pub open spec fn without(self, flag: IrqFlag) -> SdhciIrqState {
        match flag {
            IrqFlag::CmdComplete => SdhciIrqState { cmd_complete: false, ..self },
            IrqFlag::XferComplete => SdhciIrqState { xfer_complete: false, ..self },
            IrqFlag::BufRdReady => SdhciIrqState { buf_rd_ready: false, ..self },
            IrqFlag::BufWrReady => SdhciIrqState { buf_wr_ready: false, ..self },
        }
    }

    /// The pending error, where there is one.
    pub open spec fn pending_error(self) -> Option<u16> {
        if self.error { Some(self.error_status) } else { None }
    }

    /// The state once the pending error, if any, is consumed. The status of an
    /// error that is not pending is left alone.
    pub open spec fn without_error(self) -> SdhciIrqState {
        if self.error {
            SdhciIrqState { error: false, error_status: 0, ..self }
        } else {
            self
        }
    }

    /// The state with nothing pending.
    pub open spec fn drained(self) -> SdhciIrqState {
        SdhciIrqState {
            cmd_complete: false,
            xfer_complete: false,
            buf_rd_ready: false,
            buf_wr_ready: false,
            error: false,
            error_status: if self.error { 0 } else { self.error_status },
            ..self
        }
    }

    /// The state after an interrupt with `status`.
    pub open spec fn after_irq(self, status: u32) -> SdhciIrqState {
        SdhciIrqState {
            cmd_complete: self.cmd_complete || completes(status, NORM_INT_CMD_COMPLETE),
            xfer_complete: self.xfer_complete || completes(status, NORM_INT_XFER_COMPLETE),
            buf_rd_ready: self.buf_rd_ready || completes(status, NORM_INT_BUF_RD_READY),
            buf_wr_ready: self.buf_wr_ready || completes(status, NORM_INT_BUF_WR_READY),
            error: self.error || reports_error(status),
            error_status: if reports_error(status) { err_of(status) } else { self.error_status },
            ..self
        }
    }

    /// A state that knows no controller and has nothing pending.
    pub fn new() -> (state: Self)
        ensures
            state == (SdhciIrqState {
                base: 0,
                card_irq_callback: 0,
                cmd_complete: false,
                xfer_complete: false,
                buf_rd_ready: false,
                buf_wr_ready: false,
                error: false,
                error_status: 0,
            }),
    {
        SdhciIrqState {
            base: 0,
            card_irq_callback: 0,
            cmd_complete: false,
            xfer_complete: false,
            buf_rd_ready: false,
            buf_wr_ready: false,
            error: false,
            error_status: 0,
        }
    }

    /// Reads and consumes `flag`.
    pub fn take(&mut self, flag: IrqFlag) -> (was: bool)
        ensures
            was == old(self).flag(flag),
            *final(self) == old(self).without(flag),
    {
        match flag {
            IrqFlag::CmdComplete => take_cmd_complete(self),
            IrqFlag::XferComplete => take_xfer_complete(self),
            IrqFlag::BufRdReady => take_buf_rd_ready(self),
            IrqFlag::BufWrReady => take_buf_wr_ready(self),
        }
    }
}

impl IrqStats {
    /// Counters at zero.
    pub fn new() -> (stats: Self)
        ensures
            stats == (IrqStats { irq_count: 0, last_norm: 0, card_int_count: 0 }),
    {
        IrqStats { irq_count: 0, last_norm: 0, card_int_count: 0 }
    }
}

/// Sets the register base that the interrupt side works on.
pub fn irq_state_init(state: &mut SdhciIrqState, base: usize)
    ensures
        *final(state) == (SdhciIrqState { base, ..*old(state) }),
{
    state.base = base;
}

/// Sets the entry point to call when the card has data. It runs in interrupt
/// context: it must neither lock, allocate, schedule nor log.
pub fn register_card_irq_callback(state: &mut SdhciIrqState, cb: usize)
    ensures
        *final(state) == (SdhciIrqState { card_irq_callback: cb, ..*old(state) }),
{
    state.card_irq_callback = cb;
}

/// The writes that let the controller raise interrupts, in order. Every completion and the
/// card interrupt then reach the handler.
pub fn enable_irq_signals(state: &SdhciIrqState, masks: &InterruptMasks) -> (writes: [RegWrite; 2])
    requires
        masks.signals_served(),
    ensures
        writes@[0].value & NORM_INT_SERVED == NORM_INT_SERVED,
        writes@ == seq![
            RegWrite { base: state.base, off: SDHCI_NORM_INT_SIG_EN, value: masks.norm_signal },
            RegWrite { base: state.base, off: SDHCI_ERR_INT_SIG_EN, value: masks.err_signal },
        ],
{
    [
        RegWrite { base: state.base, off: SDHCI_NORM_INT_SIG_EN, value: masks.norm_signal },
        RegWrite { base: state.base, off: SDHCI_ERR_INT_SIG_EN, value: masks.err_signal },
    ]
}

/// The writes that keep the controller from raising any interrupt, in order.
pub fn disable_irq_signals(state: &SdhciIrqState) -> (writes: [RegWrite; 2])
    ensures
        writes@ == seq![
            RegWrite { base: state.base, off: SDHCI_NORM_INT_SIG_EN, value: 0 },
            RegWrite { base: state.base, off: SDHCI_ERR_INT_SIG_EN, value: 0 },
        ],
{
    [
        RegWrite { base: state.base, off: SDHCI_NORM_INT_SIG_EN, value: 0 },
        RegWrite { base: state.base, off: SDHCI_ERR_INT_SIG_EN, value: 0 },
    ]
}

/// A signal enable value with the card interrupt masked or let through.
pub open spec fn with_card_irq(cur: u16, mask: bool) -> u16 {
    if mask { cur & !NORM_INT_CARD_INT } else { cur | NORM_INT_CARD_INT }
}

/// The write that masks the card interrupt, or lets it through, where the signal
/// enable register holds `cur`.
pub fn mask_card_irq_raw(base: usize, cur: u16, mask: bool) -> (write: RegWrite)
    ensures
        write == (RegWrite {
            base,
            off: SDHCI_NORM_INT_SIG_EN,
            value: with_card_irq(cur, mask),
        }),
{
    let bit: u16 = if mask { 0 } else { NORM_INT_CARD_INT };
    proof {
        assert((cur & !0x0100u16) | 0 == cur & !0x0100u16) by (bit_vector);
        assert((cur & !0x0100u16) | 0x0100 == cur | 0x0100) by (bit_vector);
    }
    RegWrite { base, off: SDHCI_NORM_INT_SIG_EN, value: (cur & !NORM_INT_CARD_INT) | bit }
}

/// Reads and consumes the command complete flag.
pub fn take_cmd_complete(state: &mut SdhciIrqState) -> (was: bool)
    ensures
        was == old(state).cmd_complete,
        *final(state) == (SdhciIrqState { cmd_complete: false, ..*old(state) }),
{
    let was: bool = state.cmd_complete;
    state.cmd_complete = false;
    was
}

/// Reads and consumes the transfer complete flag.
pub fn take_xfer_complete(state: &mut SdhciIrqState) -> (was: bool)
    ensures
        was == old(state).xfer_complete,
        *final(state) == (SdhciIrqState { xfer_complete: false, ..*old(state) }),
{
    let was: bool = state.xfer_complete;
    state.xfer_complete = false;
    was
}

/// Reads and consumes the buffer read ready flag.
pub fn take_buf_rd_ready(state: &mut SdhciIrqState) -> (was: bool)
    ensures
        was == old(state).buf_rd_ready,
        *final(state) == (SdhciIrqState { buf_rd_ready: false, ..*old(state) }),
{
    let was: bool = state.buf_rd_ready;
    state.buf_rd_ready = false;
    was
}

/// Reads and consumes the buffer write ready flag.
pub fn take_buf_wr_ready(state: &mut SdhciIrqState) -> (was: bool)
    ensures
        was == old(state).buf_wr_ready,
        *final(state) == (SdhciIrqState { buf_wr_ready: false, ..*old(state) }),
{
    let was: bool = state.buf_wr_ready;
    state.buf_wr_ready = false;
    was
}

/// Reads and consumes the pending error.
pub fn take_error(state: &mut SdhciIrqState) -> (error: Option<u16>)
    ensures
        error == old(state).pending_error(),
        *final(state) == old(state).without_error(),
{
    if state.error {
        let status: u16 = state.error_status;
        state.error = false;
        state.error_status = 0;
        Some(status)
    } else {
        None
    }
}

/// Drops everything that is pending.
pub fn drain_flags(state: &mut SdhciIrqState)
    ensures
        *final(state) == old(state).drained(),
{
    take_cmd_complete(state);
    take_xfer_complete(state);
    take_buf_rd_ready(state);
    take_buf_wr_ready(state);
    take_error(state);
}

/// Counts an interrupt and says at which base its status is to be read; `None`
/// where no controller is known yet, and there is nothing more to do.
pub fn irq_enter(state: &SdhciIrqState, stats: &mut IrqStats) -> (base: Option<usize>)
    ensures
        *final(stats) == (IrqStats {
            irq_count: ((old(stats).irq_count + 1) % 0x1_0000_0000_0000_0000) as u64,
            ..*old(stats)
        }),
        base == (if state.base == 0 { None } else { Some(state.base) }),
        base is None <==> state.base == 0,
{
    stats.irq_count = stats.irq_count.wrapping_add(1);
    if state.base == 0 {
        None
    } else {
        Some(state.base)
    }
}

/// Takes in the 32-bit interrupt status and says what is to be done about it.
///
/// An error is written back and kept for the waiting side, and the completions
/// that came with it are written back but not reported. Without an error every
/// completion raises its flag. A card interrupt is level triggered: it is masked
/// until the card has been served.
pub fn sdhci_irq_handler(
    state: &mut SdhciIrqState,
    stats: &mut IrqStats,
    status: u32,
) -> (plan: IrqPlan)
    ensures
        *final(state) == old(state).after_irq(status),
        plan == irq_plan(old(state).card_irq_callback, status),
        plan.mask_card <==> bit(status as int, 0x100),
        plan.callback == (if bit(status as int, 0x100) && old(state).card_irq_callback != 0 {
            Some(old(state).card_irq_callback)
        } else {
            None
        }),
        final(stats).card_int_count != old(stats).card_int_count <==> bit(status as int, 0x100),
        *final(stats) == (IrqStats {
            last_norm: if status == 0 { old(stats).last_norm } else { norm_of(status) },
            card_int_count: if reports_card(status) {
                ((old(stats).card_int_count + 1) % 0x1_0000_0000_0000_0000) as u64
            } else {
                old(stats).card_int_count
            },
            ..*old(stats)
        }),
{
    proof {
        law_card_interrupt_is_handed_on(*old(state), status);
    }
    let idle: IrqPlan = IrqPlan {
        clear_err: None,
        clear_norm: None,
        wake: false,
        mask_card: false,
        callback: None,
    };
    if status == 0 {
        proof {
            assert(0u32 & 0xFFFF == 0) by (bit_vector);
            assert(forall|m: u16| #[trigger] (0u16 & m) == 0) by (bit_vector);
        }
        return idle;
    }
    let norm: u16 = (status & 0xFFFF) as u16;
    let err: u16 = (status >> 16) as u16;
    stats.last_norm = norm;
    let has_error: bool = norm & NORM_INT_ERROR != 0;
    let mut plan: IrqPlan = idle;

    if has_error {
        plan.clear_err = Some(err);
        state.error_status = err;
        state.error = true;
    } else {
        if norm & NORM_INT_CMD_COMPLETE != 0 {
            state.cmd_complete = true;
        }
        if norm & NORM_INT_XFER_COMPLETE != 0 {
            state.xfer_complete = true;
        }
        if norm & NORM_INT_BUF_WR_READY != 0 {
            state.buf_wr_ready = true;
        }
        if norm & NORM_INT_BUF_RD_READY != 0 {
            state.buf_rd_ready = true;
        }
    }

    let done: u16 = norm & NORM_INT_COMPLETIONS;
    if done != 0 {
        plan.clear_norm = Some(done);
    }
    plan.wake = has_error || done != 0;

    if norm & NORM_INT_CARD_INT != 0 {
        stats.card_int_count = stats.card_int_count.wrapping_add(1);
        plan.mask_card = true;
        if state.card_irq_callback != 0 {
            plan.callback = Some(state.card_irq_callback);
        }
    }
    plan
}

// ---- Laws ----

/// A flag or an error that has been taken is gone: taking it again finds nothing.
pub proof fn law_taken_once(state: SdhciIrqState, flag: IrqFlag)
    ensures
        !state.without(flag).flag(flag),
        state.without_error().pending_error() is None,
{
}

/// Taking one flag leaves the other flags and the error alone.
pub proof fn law_take_is_local(state: SdhciIrqState, flag: IrqFlag, other: IrqFlag)
    requires
        flag != other,
    ensures
        state.without(flag).flag(other) == state.flag(other),
        state.without(flag).pending_error() == state.pending_error(),
        state.without_error().flag(flag) == state.flag(flag),
{
}

/// After a drain nothing is pending, and the controller and the callback are kept.
pub proof fn law_drained_is_quiet(state: SdhciIrqState, flag: IrqFlag)
    ensures
        !state.drained().flag(flag),
        state.drained().pending_error() is None,
        state.drained().base == state.base,
        state.drained().card_irq_callback == state.card_irq_callback,
{
}

/// An interrupt never lowers a flag and never drops a pending error.
pub proof fn law_irq_only_raises(state: SdhciIrqState, status: u32, flag: IrqFlag)
    ensures
        state.flag(flag) ==> state.after_irq(status).flag(flag),
        state.error ==> state.after_irq(status).error,
{
}

/// A completion raises its flag and no other.
pub proof fn law_irq_raises_what_completed(state: SdhciIrqState, status: u32, flag: IrqFlag)
    ensures
        state.after_irq(status).flag(flag) == (state.flag(flag) || completes(status, flag.bit())),
{
}

/// An error keeps the completions that came with it from being reported, and its
/// status is what the waiting side then takes.
pub proof fn law_error_suppresses_completion(state: SdhciIrqState, status: u32, flag: IrqFlag)
    requires
        reports_error(status),
    ensures
        state.after_irq(status).flag(flag) == state.flag(flag),
        state.after_irq(status).pending_error() == Some(err_of(status)),
        irq_plan(state.card_irq_callback, status).clear_err == Some(err_of(status)),
{
}

/// Written back to a write-one-to-clear register, the plan clears every completion
/// bit that was up and no bit that was not.
pub proof fn law_irq_acknowledges_completions(callback: usize, status: u32)
    ensures
        ({
            let clear = match irq_plan(callback, status).clear_norm {
                Some(bits) => bits,
                None => 0,
            };
            &&& (norm_of(status) & !clear) & NORM_INT_COMPLETIONS == 0
            &&& clear & !norm_of(status) == 0
            &&& clear & !NORM_INT_COMPLETIONS == 0
        }),
{
    let norm = norm_of(status);
    assert(NORM_INT_COMPLETIONS == 0x33u16) by (bit_vector);
    let done = norm & 0x33u16;
    assert((norm & !done) & 0x33u16 == 0 && done & !norm == 0 && done & !0x33u16 == 0)
        by (bit_vector)
        requires
            done == norm & 0x33u16,
    ;
    assert((norm & !0u16) & 0x33u16 == norm & 0x33u16) by (bit_vector);
    assert(0u16 & !norm == 0 && 0u16 & !0x33u16 == 0) by (bit_vector);
}

/// Whoever waits is woken exactly where there is something to take: an error or a
/// completion.
pub proof fn law_irq_wakes_for_news(state: SdhciIrqState, status: u32)
    ensures
        irq_plan(state.card_irq_callback, status).wake
            <==> reports_error(status) || exists|flag: IrqFlag| completes(status, #[trigger] flag.bit()),
{
    let norm = norm_of(status);
    assert(NORM_INT_COMPLETIONS == 0x33u16) by (bit_vector);
    assert(norm & 0x33u16 != 0 <==> (norm & 0x01u16 != 0 || norm & 0x02u16 != 0 || norm & 0x10u16
        != 0 || norm & 0x20u16 != 0)) by (bit_vector);
    assert(IrqFlag::CmdComplete.bit() == 0x01);
    assert(IrqFlag::XferComplete.bit() == 0x02);
    assert(IrqFlag::BufWrReady.bit() == 0x10);
    assert(IrqFlag::BufRdReady.bit() == 0x20);
}

/// The interrupts that the driver lives on are the four completions and the card
/// interrupt; masks that serve them let each of these through.
pub proof fn law_served_interrupts(masks: InterruptMasks, flag: IrqFlag)
    requires
        masks.signals_served(),
    ensures
        NORM_INT_SERVED == NORM_INT_COMPLETIONS | NORM_INT_CARD_INT,
        masks.norm_signal & flag.bit() == flag.bit(),
        masks.norm_signal & NORM_INT_CARD_INT == NORM_INT_CARD_INT,
{
    let signal = masks.norm_signal;
    assert(NORM_INT_COMPLETIONS == 0x33u16) by (bit_vector);
    assert(0x0133u16 == 0x33u16 | 0x0100u16) by (bit_vector);
    assert(signal & 0x01u16 == 0x01 && signal & 0x02u16 == 0x02 && signal & 0x10u16 == 0x10
        && signal & 0x20u16 == 0x20 && signal & 0x0100u16 == 0x0100) by (bit_vector)
        requires
            signal & 0x0133u16 == 0x0133u16,
    ;
}

/// Masking and then unmasking the card interrupt lets it through and changes
/// nothing else; masking leaves it, and only it, down.
pub proof fn law_card_irq_mask_round_trip(cur: u16)
    ensures
        with_card_irq(with_card_irq(cur, true), false) == cur | NORM_INT_CARD_INT,
        with_card_irq(with_card_irq(cur, false), true) == cur & !NORM_INT_CARD_INT,
        with_card_irq(cur, true) & NORM_INT_CARD_INT == 0,
        with_card_irq(cur, false) & NORM_INT_CARD_INT == NORM_INT_CARD_INT,
        with_card_irq(cur, true) & !NORM_INT_CARD_INT == cur & !NORM_INT_CARD_INT,
        with_card_irq(cur, false) & !NORM_INT_CARD_INT == cur & !NORM_INT_CARD_INT,
{
    assert((cur & !0x0100u16) | 0x0100 == cur | 0x0100) by (bit_vector);
    assert((cur | 0x0100u16) & !0x0100u16 == cur & !0x0100u16) by (bit_vector);
    assert((cur & !0x0100u16) & 0x0100 == 0) by (bit_vector);
    assert((cur | 0x0100u16) & 0x0100 == 0x0100) by (bit_vector);
    assert((cur & !0x0100u16) & !0x0100u16 == cur & !0x0100u16) by (bit_vector);
}

/// Whatever else a status reports: where the card interrupt is up, it is masked and the
/// callback, if there is one, is called; where it is down, neither. So the card interrupt is
/// never masked without a callback that there is being called.
pub proof fn law_card_interrupt_is_handed_on(state: SdhciIrqState, status: u32)
    ensures
        reports_card(status) <==> bit(status as int, 0x100),
        ({
            let plan = irq_plan(state.card_irq_callback, status);
            let card = bit(status as int, 0x100);
            &&& plan.mask_card <==> card
            &&& card && state.card_irq_callback != 0 ==> plan.callback == Some(
                state.card_irq_callback,
            )
            &&& !card || state.card_irq_callback == 0 ==> plan.callback is None
            &&& plan.mask_card && plan.callback is None ==> state.card_irq_callback == 0
        }),
{
    law_status_halves(status);
}

/// The two halves of a status make it up: the upper one is the error status, the lower one
/// the normal status, and each bit of the status is that bit of its half.
pub proof fn law_status_halves(status: u32)
    ensures
        norm_of(status) == status % 0x1_0000,
        err_of(status) == status / 0x1_0000,
        norm_of(status) + err_of(status) * 0x1_0000 == status,
        reports_error(status) <==> bit(status as int, 0x8000),
        reports_card(status) <==> bit(status as int, 0x100),
        forall|flag: IrqFlag|
            #[trigger] completes(status, flag.bit()) <==> !bit(status as int, 0x8000) && bit(
                status as int,
                flag.bit() as int,
            ),
{
    law_low_half_bits(status);
}

/// What an interrupt leaves for the waiting side, bit by bit of its status: an error is kept
/// with its status, and keeps completions from being reported; every other completion raises
/// its own flag; nothing else changes.
pub proof fn law_irq_raises_by_bits(state: SdhciIrqState, status: u32)
    ensures
        ({
            let after = state.after_irq(status);
            let v = status as int;
            let error = bit(v, 0x8000);
            &&& after.cmd_complete <==> state.cmd_complete || (!error && bit(v, 0x01))
            &&& after.xfer_complete <==> state.xfer_complete || (!error && bit(v, 0x02))
            &&& after.buf_wr_ready <==> state.buf_wr_ready || (!error && bit(v, 0x10))
            &&& after.buf_rd_ready <==> state.buf_rd_ready || (!error && bit(v, 0x20))
            &&& after.error <==> state.error || error
            &&& error ==> after.error_status == v / 0x1_0000
            &&& error ==> after.pending_error() == Some((v / 0x1_0000) as u16)
            &&& !error ==> after.error_status == state.error_status && after.pending_error()
                == state.pending_error()
            &&& after.base == state.base
            &&& after.card_irq_callback == state.card_irq_callback
        }),
{
    law_status_halves(status);
    assert(IrqFlag::CmdComplete.bit() == 0x01 && IrqFlag::XferComplete.bit() == 0x02);
    assert(IrqFlag::BufWrReady.bit() == 0x10 && IrqFlag::BufRdReady.bit() == 0x20);
    assert(completes(status, IrqFlag::CmdComplete.bit()) <==> !bit(status as int, 0x8000) && bit(
        status as int,
        0x01,
    ));
    assert(completes(status, IrqFlag::XferComplete.bit()) <==> !bit(status as int, 0x8000) && bit(
        status as int,
        0x02,
    ));
    assert(completes(status, IrqFlag::BufWrReady.bit()) <==> !bit(status as int, 0x8000) && bit(
        status as int,
        0x10,
    ));
    assert(completes(status, IrqFlag::BufRdReady.bit()) <==> !bit(status as int, 0x8000) && bit(
        status as int,
        0x20,
    ));
}

/// What is written back and who is woken, bit by bit of the status: the whole error status
/// where there is an error, exactly the completions that are up, with or without an error;
/// whoever waits is woken for either.
pub proof fn law_irq_answers_by_bits(callback: usize, status: u32)
    ensures
        ({
            let plan = irq_plan(callback, status);
            let v = status as int;
            let error = bit(v, 0x8000);
            let done = weight_if(bit(v, 0x01), 0x01) + weight_if(bit(v, 0x02), 0x02) + weight_if(
                bit(v, 0x10),
                0x10,
            ) + weight_if(bit(v, 0x20), 0x20);
            &&& error ==> plan.clear_err == Some((v / 0x1_0000) as u16)
            &&& !error ==> plan.clear_err is None
            &&& done != 0 ==> plan.clear_norm == Some(done as u16)
            &&& done == 0 ==> plan.clear_norm is None
            &&& plan.wake <==> error || done != 0
        }),
{
    law_low_half_bits(status);
    assert(NORM_INT_COMPLETIONS == 0x33u16) by (bit_vector);
}

/// A flag is the field of its name, and so is its bit; taking it lowers that field and no
/// other; taking the error lowers the error and clears its status.
pub proof fn law_flags_are_fields(state: SdhciIrqState)
    ensures
        state.flag(IrqFlag::CmdComplete) == state.cmd_complete,
        state.flag(IrqFlag::XferComplete) == state.xfer_complete,
        state.flag(IrqFlag::BufRdReady) == state.buf_rd_ready,
        state.flag(IrqFlag::BufWrReady) == state.buf_wr_ready,
        IrqFlag::CmdComplete.bit() == 0x01,
        IrqFlag::XferComplete.bit() == 0x02,
        IrqFlag::BufWrReady.bit() == 0x10,
        IrqFlag::BufRdReady.bit() == 0x20,
        forall|flag: IrqFlag|
            {
                let after = #[trigger] state.without(flag);
                &&& after.error == state.error
                &&& after.error_status == state.error_status
                &&& after.base == state.base
                &&& after.card_irq_callback == state.card_irq_callback
                &&& after.cmd_complete == (state.cmd_complete && flag != IrqFlag::CmdComplete)
                &&& after.xfer_complete == (state.xfer_complete && flag != IrqFlag::XferComplete)
                &&& after.buf_rd_ready == (state.buf_rd_ready && flag != IrqFlag::BufRdReady)
                &&& after.buf_wr_ready == (state.buf_wr_ready && flag != IrqFlag::BufWrReady)
            },
        ({
            let after = state.without_error();
            &&& !after.error
            &&& state.error ==> after.error_status == 0 && state.pending_error() == Some(
                state.error_status,
            )
            &&& !state.error ==> after == state && state.pending_error() is None
            &&& after.cmd_complete == state.cmd_complete
            &&& after.xfer_complete == state.xfer_complete
            &&& after.buf_rd_ready == state.buf_rd_ready
            &&& after.buf_wr_ready == state.buf_wr_ready
            &&& after.base == state.base
            &&& after.card_irq_callback == state.card_irq_callback
        }),
        ({
            let after = state.drained();
            &&& !after.cmd_complete && !after.xfer_complete && !after.buf_rd_ready
            &&& !after.buf_wr_ready && !after.error
            &&& state.error ==> after.error_status == 0
            &&& !state.error ==> after.error_status == state.error_status
            &&& after.base == state.base
            &&& after.card_irq_callback == state.card_irq_callback
        }),
{
}

/// Masks serve the driver exactly where each of the four completions and the card interrupt
/// is let through; they are fit for use where each also shows in the status.
pub proof fn law_masks_by_bits(masks: InterruptMasks)
    ensures
        ({
            let v = masks.norm_signal as int;
            let s = masks.norm_status as int;
            let signals = bit(v, 0x01) && bit(v, 0x02) && bit(v, 0x10) && bit(v, 0x20) && bit(
                v,
                0x100,
            );
            &&& masks.signals_served() <==> signals
            &&& masks.wf() <==> signals && bit(s, 0x01) && bit(s, 0x02) && bit(s, 0x10) && bit(
                s,
                0x20,
            ) && bit(s, 0x100)
        }),
{
    law_u16_bits(masks.norm_signal);
    law_u16_bits(masks.norm_status);
}

} // verus!
