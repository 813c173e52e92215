use aic8800_sdio::wifi::bus::{BusState, WifiBus};
use aic8800_sdio::wifi::codec::build_data_frame;
use aic8800_sdio::wifi::device::{
    store_wifi_net_device, take_wifi_net_device, AicWifiNetDev, DevError, DeviceType,
};
use aic8800_sdio::wifi::tx::{
    enqueue_data_frame, has_pending_work, tx_process, tx_thread_ends, tx_thread_poll, TxAction,
    TxConfig, TxError, TxPoll,
};
use aic8800_sdio::wifi::wireless::{
    connect, shutdown, unknown_chip, wifi_config, Connect, ConnectAction, ConnectReply, Security,
    ShutdownAction, WifiError,
};

const CFG: TxConfig = TxConfig { is_v3: true, batch_limit: 3, flow_threshold: 2 };

fn eth(tag: u8) -> Vec<u8> {
    let mut frame = vec![tag; 14];
    frame.extend_from_slice(&[tag; 6]);
    frame
}

fn connected_bus() -> WifiBus {
    let mut bus = WifiBus::new();
    bus.conn.vif_idx = 1;
    bus.conn.sta_idx = 4;
    bus
}

/// What a pass did, in words.
struct Pass {
    said: Vec<String>,
    written: Vec<Vec<u8>>,
    did_work: bool,
}

fn run(
    bus: &mut WifiBus,
    cfg: TxConfig,
    room: bool,
    free: &mut dyn FnMut() -> Option<u32>,
    fifo: &mut dyn FnMut(&mut WifiBus) -> bool,
) -> Pass {
    let mut pass = tx_process(cfg);
    let mut said = Vec::new();
    let mut written = Vec::new();
    let mut reply = None;
    let mut bus_ref = bus;
    loop {
        let (next, action) = pass.step(&mut *bus_ref, reply);
        pass = next;
        reply = None;
        match action {
            TxAction::MaskCardIrq => said.push(String::from("mask")),
            TxAction::UnmaskCardIrq => said.push(String::from("unmask")),
            TxAction::WaitFlowCtrl { len, attempts } => {
                said.push(format!("wait {} {}", len, attempts));
                if room {
                    reply = Some(0);
                }
            }
            TxAction::ReadFlowCtrl => {
                said.push(String::from("ask"));
                reply = free();
            }
            TxAction::WriteFifo { func, frame } => {
                assert_eq!(func, 1);
                said.push(format!("write {}", frame.len()));
                written.push(frame);
                if fifo(&mut *bus_ref) {
                    reply = Some(0);
                }
            }
            TxAction::Yield => said.push(String::from("yield")),
            TxAction::WakeRx => said.push(String::from("wake rx")),
            TxAction::WakeRsp => said.push(String::from("wake rsp")),
            TxAction::Done { did_work } => return Pass { said, written, did_work },
        }
    }
}

#[test]
fn queue_takes_so_many_frames() {
    let mut bus = WifiBus::new();
    for i in 0..128u32 {
        assert_eq!(enqueue_data_frame(&mut bus, eth(i as u8)), Ok(()));
    }
    assert_eq!(enqueue_data_frame(&mut bus, eth(0)), Err(TxError::QueueFull));
    assert_eq!(bus.tx.pktcnt, 128);
    assert_eq!(bus.tx.queue.len(), 128);
    assert_eq!(bus.tx.queue[5].data, eth(5));
    assert_eq!(bus.tx.queue[5].priority, 0);
}

#[test]
fn pending_work_is_seen() {
    let mut bus = WifiBus::new();
    assert!(!has_pending_work(&bus));
    bus.cmd.pending_flag = true;
    assert!(has_pending_work(&bus));
    bus.cmd.pending_flag = false;
    enqueue_data_frame(&mut bus, eth(1)).unwrap();
    assert!(has_pending_work(&bus));
}

#[test]
fn command_goes_before_data() {
    let mut bus = connected_bus();
    bus.cmd.pending = Some(vec![1, 2, 3]);
    bus.cmd.pending_flag = true;
    enqueue_data_frame(&mut bus, eth(7)).unwrap();
    let pass = run(&mut bus, CFG, true, &mut || Some(9), &mut |_| true);
    assert_eq!(
        pass.said,
        vec!["mask", "wait 512 10", "write 512", "wake rx", "unmask", "ask", "write 512"]
    );
    assert_eq!(&pass.written[0][0..4], &[1, 2, 3, 0]);
    assert_eq!(pass.written[1], build_data_frame(&eth(7), 1, 4, true).unwrap());
    assert!(pass.did_work);
    assert!(!bus.cmd.pending_flag);
    assert!(bus.cmd.pending.is_none());
    assert!(!bus.cmd.rsp_error);
}

#[test]
fn command_without_room_gives_the_response_up() {
    let mut bus = connected_bus();
    bus.cmd.pending = Some(vec![1, 2, 3]);
    bus.cmd.pending_flag = true;
    let pass = run(&mut bus, CFG, false, &mut || Some(9), &mut |_| true);
    assert_eq!(pass.said, vec!["mask", "wait 512 10", "wake rsp", "unmask"]);
    assert!(!pass.did_work);
    assert!(bus.cmd.rsp_error);
    assert!(bus.cmd.pending.is_none());
}

#[test]
fn command_that_fails_is_dropped_quietly() {
    let mut bus = connected_bus();
    bus.cmd.pending = Some(vec![1, 2, 3]);
    bus.cmd.pending_flag = true;
    let pass = run(&mut bus, CFG, true, &mut || Some(9), &mut |_| false);
    assert_eq!(pass.said, vec!["mask", "wait 512 10", "write 512", "unmask"]);
    assert!(!pass.did_work);
    assert!(!bus.cmd.rsp_error);
}

#[test]
fn flag_without_command_keeps_data_waiting() {
    let mut bus = connected_bus();
    bus.cmd.pending_flag = true;
    enqueue_data_frame(&mut bus, eth(7)).unwrap();
    let pass = run(&mut bus, CFG, true, &mut || Some(9), &mut |_| true);
    assert!(pass.said.is_empty());
    assert!(bus.cmd.pending_flag);
    assert_eq!(bus.tx.pktcnt, 1);
}

#[test]
fn batch_is_bounded_and_keeps_order() {
    let mut bus = connected_bus();
    for i in 0..5u8 {
        enqueue_data_frame(&mut bus, eth(i)).unwrap();
    }
    let pass = run(&mut bus, CFG, true, &mut || Some(3), &mut |_| true);
    assert_eq!(pass.written.len(), 3);
    for i in 0..3u8 {
        assert_eq!(pass.written[i as usize], build_data_frame(&eth(i), 1, 4, true).unwrap());
    }
    assert_eq!(bus.tx.pktcnt, 2);
    assert_eq!(bus.tx.queue[0].data, eth(3));
    assert!(pass.did_work);
}

#[test]
fn frames_that_fail_do_not_count() {
    let mut bus = connected_bus();
    for i in 0..5u8 {
        enqueue_data_frame(&mut bus, eth(i)).unwrap();
    }
    let pass = run(&mut bus, CFG, true, &mut || Some(3), &mut |_| false);
    assert_eq!(pass.written.len(), 5);
    assert!(!pass.did_work);
    assert_eq!(bus.tx.pktcnt, 0);
}

#[test]
fn short_frames_are_dropped() {
    let mut bus = connected_bus();
    enqueue_data_frame(&mut bus, vec![1; 13]).unwrap();
    enqueue_data_frame(&mut bus, Vec::new()).unwrap();
    enqueue_data_frame(&mut bus, eth(9)).unwrap();
    let pass = run(&mut bus, CFG, true, &mut || Some(3), &mut |_| true);
    assert_eq!(pass.said, vec!["ask", "ask", "ask", "write 512"]);
    assert_eq!(bus.tx.pktcnt, 0);
}

#[test]
fn data_waits_for_free_buffers() {
    let mut bus = connected_bus();
    enqueue_data_frame(&mut bus, eth(9)).unwrap();
    let mut asked = 0;
    let pass = run(
        &mut bus,
        CFG,
        true,
        &mut || {
            asked += 1;
            if asked == 1 {
                None
            } else if asked == 2 {
                Some(2)
            } else {
                Some(3)
            }
        },
        &mut |_| true,
    );
    assert_eq!(pass.said, vec!["ask", "yield", "ask", "yield", "ask", "write 512"]);
}

#[test]
fn data_without_free_buffers_is_kept() {
    let mut bus = connected_bus();
    enqueue_data_frame(&mut bus, eth(9)).unwrap();
    let pass = run(&mut bus, CFG, true, &mut || Some(2), &mut |_| true);
    assert_eq!(pass.said.len(), 100);
    assert_eq!(pass.said.iter().filter(|s| *s == "ask").count(), 50);
    assert!(!pass.did_work);
    assert_eq!(bus.tx.pktcnt, 1);
}

#[test]
fn command_that_comes_in_stops_the_batch() {
    let mut bus = connected_bus();
    for i in 0..3u8 {
        enqueue_data_frame(&mut bus, eth(i)).unwrap();
    }
    let pass = run(&mut bus, CFG, true, &mut || Some(3), &mut |bus| {
        bus.cmd.pending_flag = true;
        true
    });
    assert_eq!(pass.written.len(), 1);
    assert_eq!(bus.tx.pktcnt, 2);
}

#[test]
fn without_a_connection_data_is_dropped() {
    let mut bus = WifiBus::new();
    enqueue_data_frame(&mut bus, eth(1)).unwrap();
    enqueue_data_frame(&mut bus, eth(2)).unwrap();
    let pass = run(&mut bus, CFG, true, &mut || Some(9), &mut |_| true);
    assert!(pass.said.is_empty());
    assert!(!pass.did_work);
    assert_eq!(bus.tx.pktcnt, 0);
    assert!(bus.tx.queue.is_empty());
}

#[test]
fn bus_that_is_down_is_left_alone() {
    let mut bus = connected_bus();
    bus.cmd.pending = Some(vec![1]);
    bus.cmd.pending_flag = true;
    enqueue_data_frame(&mut bus, eth(1)).unwrap();
    assert!(!tx_thread_ends(&bus));
    bus.state = BusState::Down;
    assert!(tx_thread_ends(&bus));
    let pass = run(&mut bus, CFG, true, &mut || Some(9), &mut |_| true);
    assert!(pass.said.is_empty());
    assert_eq!(bus.tx.pktcnt, 1);
    assert!(bus.cmd.pending.is_some());
}

#[test]
fn thread_is_polled_again_while_there_is_work() {
    let mut bus = connected_bus();
    assert_eq!(tx_thread_poll(&bus, false), TxPoll { again: false, wake_rsp: false });
    assert_eq!(tx_thread_poll(&bus, true), TxPoll { again: true, wake_rsp: false });
    bus.cmd.rsp_error = true;
    enqueue_data_frame(&mut bus, eth(1)).unwrap();
    assert_eq!(tx_thread_poll(&bus, false), TxPoll { again: true, wake_rsp: true });
}

#[test]
fn device_says_what_it_is() {
    let dev = AicWifiNetDev::new(0u32, [1, 2, 3, 4, 5, 6]);
    assert_eq!(dev.device_type(), DeviceType::Net);
    assert_eq!(dev.device_name(), "aic8800-wifi");
    assert_eq!(dev.irq_num(), Some(38));
    assert_eq!(dev.mac_address(), [1, 2, 3, 4, 5, 6]);
}

#[test]
fn device_transmits_while_there_is_room() {
    let mut dev = AicWifiNetDev::new((), [0; 6]);
    let mut bus = WifiBus::new();
    assert!(!dev.can_transmit(&bus));
    bus.conn.vif_idx = 0;
    assert!(dev.can_transmit(&bus));
    for i in 0..128usize {
        assert_eq!(dev.tx_queue_size(&bus), i);
        assert_eq!(dev.transmit(&mut bus, eth(i as u8)), Ok(()));
    }
    assert!(!dev.can_transmit(&bus));
    assert_eq!(dev.transmit(&mut bus, eth(0)), Err(DevError::Again));
    assert_eq!(dev.recycle_tx_buffers(), Ok(()));
}

#[test]
fn device_receives_in_order() {
    let mut dev = AicWifiNetDev::new((), [0; 6]);
    let mut bus = WifiBus::new();
    assert!(!dev.can_receive(&bus));
    assert_eq!(dev.receive(&mut bus), Err(DevError::Again));
    bus.rx.data_queue.push_back(vec![1, 2, 3]);
    bus.rx.data_queue.push_back(Vec::new());
    bus.rx.data_queue.push_back(vec![4]);
    assert!(dev.can_receive(&bus));
    assert_eq!(dev.rx_queue_size(&bus), 3);
    let first = dev.receive(&mut bus).unwrap();
    assert_eq!(first, vec![1, 2, 3]);
    assert_eq!(dev.recycle_rx_buffer(first), Ok(()));
    assert_eq!(dev.receive(&mut bus), Err(DevError::NoMemory));
    assert_eq!(dev.receive(&mut bus), Ok(vec![4]));
    assert_eq!(dev.rx_queue_size(&bus), 0);
}

#[test]
fn device_allocates_buffers_of_zeros() {
    let mut dev = AicWifiNetDev::new((), [0; 6]);
    assert_eq!(dev.alloc_tx_buffer(5), Ok(vec![0; 5]));
    assert_eq!(dev.alloc_tx_buffer(0), Err(DevError::NoMemory));
    assert_eq!(AicWifiNetDev::<()>::alloc_buf(0), None);
    assert_eq!(AicWifiNetDev::<()>::alloc_buf(2), Some(vec![0, 0]));
}

#[test]
fn stored_device_is_taken_once() {
    let mut slot: Option<AicWifiNetDev<u8>> = None;
    assert!(take_wifi_net_device(&mut slot).is_none());
    store_wifi_net_device(&mut slot, 1, [1; 6]);
    store_wifi_net_device(&mut slot, 2, [2; 6]);
    let dev = take_wifi_net_device(&mut slot).unwrap();
    assert_eq!(dev.bus, 2);
    assert_eq!(dev.mac, [2; 6]);
    assert!(take_wifi_net_device(&mut slot).is_none());
}

const DONE: ConnectReply = ConnectReply { ok: true, vid: 0, did: 0, known: true };

fn phrase(action: &ConnectAction<String>) -> String {
    format!("{:?}", action)
}

fn steps(connect: &mut Connect, fail_at: usize) -> Vec<String> {
    let mut said = Vec::new();
    let mut reply = DONE;
    loop {
        let action = connect.step(reply);
        said.push(phrase(&action));
        if matches!(action, ConnectAction::Up | ConnectAction::Fail(_)) {
            return said;
        }
        reply = if said.len() == fail_at {
            ConnectReply { ok: false, vid: 0xC8A1, did: 0x00F2, known: false }
        } else {
            DONE
        };
    }
}

#[test]
fn module_is_brought_up_in_order() {
    let mut up = connect("net", "secret12", "192.168.1.200", 24, "192.168.1.1");
    assert_eq!(
        steps(&mut up, 0),
        vec![
            "PowerSlot",
            "RegisterHostIrq",
            "InitHost",
            "Identify",
            "LoadFirmware",
            "StartDriver",
            "RegisterCardIrq",
            "ConfigureLmac { timeout_ms: 6000 }",
            "JoinNetwork { timeout_ms: 15000 }",
            "StoreDevice",
            "Up",
        ]
    );
}

#[test]
fn bring_up_that_is_over_says_nothing_more() {
    let mut up = connect("net", "", "", 0, "");
    steps(&mut up, 3);
    assert_eq!(phrase(&up.step(DONE)), "Rest");
    let mut up = connect("net", "", "", 0, "");
    steps(&mut up, 0);
    assert_eq!(phrase(&up.step(DONE)), "Rest");
}

#[test]
fn submitted_command_is_sent_next() {
    let mut bus = connected_bus();
    bus.cmd.rsp_error = true;
    assert!(bus.submit_cmd(vec![9; 8]));
    assert!(!bus.cmd.rsp_error);
    let pass = run(&mut bus, CFG, true, &mut || Some(9), &mut |_| true);
    assert_eq!(&pass.written[0][0..9], &[9, 9, 9, 9, 9, 9, 9, 9, 0]);
    assert!(pass.did_work);
}

#[test]
fn bring_up_stops_at_the_first_failure() {
    for (at, error) in [
        (3usize, "Fail(NotInitialized)"),
        (5, "Fail(NotInitialized)"),
        (6, "Fail(NotInitialized)"),
        (8, "Fail(Client)"),
        (9, "Fail(Client)"),
    ] {
        let mut up = connect("net", "", "", 0, "");
        let said = steps(&mut up, at);
        assert_eq!(said.len(), at + 1);
        assert_eq!(said[at], error);
    }
}

#[test]
fn unknown_chip_is_refused_by_name() {
    let mut up = connect("net", "", "", 0, "");
    let said = steps(&mut up, 4);
    assert_eq!(said.len(), 5);
    assert_eq!(
        said[4],
        "Fail(OperationFailed(\"Unknown WiFi chip: vid=0xc8a1, did=0x00f2\"))"
    );
    assert_eq!(unknown_chip(0, 0xFFFF), "Unknown WiFi chip: vid=0x0000, did=0xffff");
    assert!(matches!(
        ConnectAction::<String>::Fail(WifiError::NotInitialized),
        ConnectAction::Fail(WifiError::NotInitialized)
    ));
}

#[test]
fn network_without_password_is_open() {
    let open = wifi_config("cafe", "");
    assert_eq!(open.ssid, "cafe");
    assert!(matches!(open.security, Security::Open));
    let up = connect("home", "hunter22", "", 0, "");
    assert_eq!(up.config.ssid, "home");
    match up.config.security {
        Security::Wpa2Psk { password } => assert_eq!(password, "hunter22"),
        Security::Open => panic!("not open"),
    }
}

#[test]
fn shutdown_takes_its_steps() {
    let mut last = None;
    let mut said = Vec::new();
    while last != Some(ShutdownAction::Down) {
        let next = shutdown(last);
        said.push(next);
        last = Some(next);
    }
    assert_eq!(
        said,
        vec![
            ShutdownAction::Disconnect,
            ShutdownAction::StopBus,
            ShutdownAction::DisableIrq,
            ShutdownAction::ReleaseBus,
            ShutdownAction::Down,
        ]
    );
    assert_eq!(shutdown(Some(ShutdownAction::Down)), ShutdownAction::Down);
}

#[test]
fn stopped_bus_holds_nothing() {
    let mut bus = connected_bus();
    enqueue_data_frame(&mut bus, eth(1)).unwrap();
    bus.rx.data_queue.push_back(vec![1]);
    bus.shutdown();
    assert_eq!(bus.state, BusState::Down);
    assert!(bus.tx.queue.is_empty());
    assert_eq!(bus.tx.pktcnt, 0);
    assert!(bus.rx.data_queue.is_empty());
    assert!(tx_thread_ends(&bus));
}
