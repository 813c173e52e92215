use aic8800_sdio::irq::{
    disable_irq_signals, drain_flags, enable_irq_signals, irq_enter, irq_state_init,
    mask_card_irq_raw, register_card_irq_callback, sdhci_irq_handler, take_buf_rd_ready,
    take_buf_wr_ready, take_cmd_complete, take_error, take_xfer_complete, InterruptMasks, IrqFlag,
    IrqPlan, IrqStats, RegWrite, SdhciIrqState,
};
use aic8800_sdio::regs::{
    NORM_INT_BUF_RD_READY, NORM_INT_BUF_WR_READY, NORM_INT_CARD_INT, NORM_INT_CMD_COMPLETE,
    NORM_INT_ERROR, NORM_INT_XFER_COMPLETE, SDHCI_ERR_INT_SIG_EN, SDHCI_NORM_INT_SIG_EN,
};

const MASKS: InterruptMasks = InterruptMasks {
    norm_status: 0x01FF,
    err_status: 0x00FF,
    norm_signal: 0x0133,
    err_signal: 0x003F,
};

#[test]
fn new_state_is_quiet() {
    let mut state = SdhciIrqState::new();
    assert_eq!(state.base, 0);
    assert_eq!(state.card_irq_callback, 0);
    assert!(!take_cmd_complete(&mut state));
    assert!(!take_xfer_complete(&mut state));
    assert!(!take_buf_rd_ready(&mut state));
    assert!(!take_buf_wr_ready(&mut state));
    assert_eq!(take_error(&mut state), None);
}

#[test]
fn flag_is_taken_once() {
    let mut state = SdhciIrqState::new();
    let mut stats = IrqStats::new();
    sdhci_irq_handler(&mut state, &mut stats, NORM_INT_CMD_COMPLETE as u32);
    assert!(take_cmd_complete(&mut state));
    assert!(!take_cmd_complete(&mut state));
}

#[test]
fn taking_a_flag_leaves_the_others() {
    let mut state = SdhciIrqState::new();
    let mut stats = IrqStats::new();
    let all = NORM_INT_CMD_COMPLETE | NORM_INT_XFER_COMPLETE | NORM_INT_BUF_RD_READY
        | NORM_INT_BUF_WR_READY;
    sdhci_irq_handler(&mut state, &mut stats, all as u32);
    assert!(state.take(IrqFlag::XferComplete));
    assert!(!state.take(IrqFlag::XferComplete));
    assert!(state.take(IrqFlag::CmdComplete));
    assert!(state.take(IrqFlag::BufRdReady));
    assert!(state.take(IrqFlag::BufWrReady));
}

#[test]
fn drained_state_is_quiet() {
    let mut state = SdhciIrqState::new();
    let mut stats = IrqStats::new();
    irq_state_init(&mut state, 0x4310000);
    register_card_irq_callback(&mut state, 0x8000);
    sdhci_irq_handler(&mut state, &mut stats, 0x0002_8000);
    sdhci_irq_handler(&mut state, &mut stats, 0x0033);
    drain_flags(&mut state);
    assert!(!take_cmd_complete(&mut state));
    assert!(!take_xfer_complete(&mut state));
    assert!(!take_buf_rd_ready(&mut state));
    assert!(!take_buf_wr_ready(&mut state));
    assert_eq!(take_error(&mut state), None);
    assert_eq!(state.base, 0x4310000);
    assert_eq!(state.card_irq_callback, 0x8000);
}

#[test]
fn completions_raise_their_flags_and_are_acknowledged() {
    let mut state = SdhciIrqState::new();
    let mut stats = IrqStats::new();
    let plan = sdhci_irq_handler(&mut state, &mut stats, 0x0021);
    assert_eq!(
        plan,
        IrqPlan {
            clear_err: None,
            clear_norm: Some(0x0021),
            wake: true,
            mask_card: false,
            callback: None,
        }
    );
    assert!(state.cmd_complete);
    assert!(state.buf_rd_ready);
    assert!(!state.xfer_complete);
    assert!(!state.buf_wr_ready);
    assert_eq!(stats.last_norm, 0x0021);
}

#[test]
fn error_suppresses_completions() {
    let mut state = SdhciIrqState::new();
    let mut stats = IrqStats::new();
    let status = ((0x0010u32) << 16) | (NORM_INT_ERROR | NORM_INT_CMD_COMPLETE) as u32;
    let plan = sdhci_irq_handler(&mut state, &mut stats, status);
    assert_eq!(plan.clear_err, Some(0x0010));
    assert_eq!(plan.clear_norm, Some(NORM_INT_CMD_COMPLETE));
    assert!(plan.wake);
    assert!(!take_cmd_complete(&mut state));
    assert_eq!(take_error(&mut state), Some(0x0010));
    assert_eq!(take_error(&mut state), None);
}

#[test]
fn last_error_wins() {
    let mut state = SdhciIrqState::new();
    let mut stats = IrqStats::new();
    sdhci_irq_handler(&mut state, &mut stats, 0x0001_8000);
    sdhci_irq_handler(&mut state, &mut stats, 0x0020_8000);
    assert_eq!(take_error(&mut state), Some(0x0020));
}

#[test]
fn flags_stay_up_until_taken() {
    let mut state = SdhciIrqState::new();
    let mut stats = IrqStats::new();
    sdhci_irq_handler(&mut state, &mut stats, NORM_INT_XFER_COMPLETE as u32);
    sdhci_irq_handler(&mut state, &mut stats, 0x0001_8000);
    sdhci_irq_handler(&mut state, &mut stats, 0);
    assert!(take_xfer_complete(&mut state));
    assert_eq!(take_error(&mut state), Some(1));
}

#[test]
fn spurious_interrupt_does_nothing() {
    let mut state = SdhciIrqState::new();
    let mut stats = IrqStats::new();
    stats.last_norm = 7;
    let before = state;
    let plan = sdhci_irq_handler(&mut state, &mut stats, 0);
    assert_eq!(
        plan,
        IrqPlan {
            clear_err: None,
            clear_norm: None,
            wake: false,
            mask_card: false,
            callback: None,
        }
    );
    assert_eq!(state, before);
    assert_eq!(stats.last_norm, 7);
}

#[test]
fn card_interrupt_is_masked_and_handed_on() {
    let mut state = SdhciIrqState::new();
    let mut stats = IrqStats::new();
    let plan = sdhci_irq_handler(&mut state, &mut stats, NORM_INT_CARD_INT as u32);
    assert_eq!(plan.callback, None);
    assert!(plan.mask_card);
    assert!(!plan.wake);
    assert_eq!(plan.clear_norm, None);
    register_card_irq_callback(&mut state, 0xABCD);
    let plan = sdhci_irq_handler(&mut state, &mut stats, NORM_INT_CARD_INT as u32);
    assert_eq!(plan.callback, Some(0xABCD));
    assert_eq!(stats.card_int_count, 2);
}

#[test]
fn interrupt_without_controller_is_only_counted() {
    let mut state = SdhciIrqState::new();
    let mut stats = IrqStats::new();
    assert_eq!(irq_enter(&state, &mut stats), None);
    irq_state_init(&mut state, 0x1000);
    assert_eq!(irq_enter(&state, &mut stats), Some(0x1000));
    assert_eq!(stats.irq_count, 2);
    stats.irq_count = u64::MAX;
    irq_enter(&state, &mut stats);
    assert_eq!(stats.irq_count, 0);
}

#[test]
fn signals_are_enabled_and_disabled() {
    let mut state = SdhciIrqState::new();
    irq_state_init(&mut state, 0x2000);
    assert_eq!(
        enable_irq_signals(&state, &MASKS),
        [
            RegWrite { base: 0x2000, off: SDHCI_NORM_INT_SIG_EN, value: 0x0133 },
            RegWrite { base: 0x2000, off: SDHCI_ERR_INT_SIG_EN, value: 0x003F },
        ]
    );
    assert_eq!(
        disable_irq_signals(&state),
        [
            RegWrite { base: 0x2000, off: SDHCI_NORM_INT_SIG_EN, value: 0 },
            RegWrite { base: 0x2000, off: SDHCI_ERR_INT_SIG_EN, value: 0 },
        ]
    );
}

#[test]
fn masks_have_to_serve_every_interrupt() {
    assert!(MASKS.is_wf());
    for bit in [0x0001u16, 0x0002, 0x0010, 0x0020, 0x0100] {
        assert!(!InterruptMasks { norm_signal: 0xFFFF & !bit, ..MASKS }.is_wf());
        assert!(!InterruptMasks { norm_status: 0xFFFF & !bit, ..MASKS }.is_wf());
    }
    assert!(InterruptMasks { norm_signal: 0xFFFF, err_signal: 0, ..MASKS }.is_wf());
}

#[test]
fn card_interrupt_mask_goes_and_comes_back() {
    let masked = mask_card_irq_raw(0x3000, 0x0133, true);
    assert_eq!(masked, RegWrite { base: 0x3000, off: SDHCI_NORM_INT_SIG_EN, value: 0x0033 });
    let open = mask_card_irq_raw(0x3000, masked.value, false);
    assert_eq!(open.value, 0x0133);
    assert_eq!(mask_card_irq_raw(0x3000, 0x0033, true).value, 0x0033);
    assert_eq!(mask_card_irq_raw(0x3000, 0x0133, false).value, 0x0133);
}
