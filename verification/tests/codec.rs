use aic8800_sdio::wifi::codec::{
    align_up, build_data_frame, crc8_ponl_107, fill_hostdesc, pad_cmd_frame, DataFrameBuildError,
};

fn eth(payload: usize) -> Vec<u8> {
    let mut frame = vec![0x02, 0x11, 0x22, 0x33, 0x44, 0x55];
    frame.extend_from_slice(&[0x06, 0xAA, 0xBB, 0xCC, 0xDD, 0xEE, 0x08, 0x00]);
    for i in 0..payload {
        frame.push((i % 251) as u8 + 1);
    }
    frame
}

#[test]
fn rounds_up_to_least_multiple() {
    assert_eq!(align_up(0, 4), 0);
    assert_eq!(align_up(1, 4), 4);
    assert_eq!(align_up(4, 4), 4);
    assert_eq!(align_up(513, 512), 1024);
    assert_eq!(align_up(511, 512), 512);
    assert_eq!(align_up(9, 1), 9);
    assert_eq!(align_up(usize::MAX, 1), usize::MAX);
    assert_eq!(align_up(usize::MAX - 3, 4), usize::MAX - 3);
}

#[test]
fn command_frame_fills_whole_blocks() {
    let mut cmd = vec![1u8, 2, 3, 4, 5];
    assert_eq!(pad_cmd_frame(&mut cmd), 512);
    assert_eq!(cmd.len(), 512);
    assert_eq!(&cmd[0..5], &[1, 2, 3, 4, 5]);
    assert!(cmd[5..].iter().all(|b| *b == 0));
}

#[test]
fn command_frame_of_whole_blocks_gets_no_tail() {
    let mut cmd = vec![7u8; 1024];
    assert_eq!(pad_cmd_frame(&mut cmd), 1024);
    assert_eq!(cmd, vec![7u8; 1024]);
    let mut empty: Vec<u8> = Vec::new();
    assert_eq!(pad_cmd_frame(&mut empty), 0);
    assert!(empty.is_empty());
}

#[test]
fn command_frame_just_below_a_block_keeps_its_block() {
    for len in 505..=512usize {
        let mut cmd = vec![9u8; len];
        assert_eq!(pad_cmd_frame(&mut cmd), 512);
    }
    let mut cmd = vec![9u8; 513];
    assert_eq!(pad_cmd_frame(&mut cmd), 1024);
}

#[test]
fn padding_twice_is_padding_once() {
    for len in [0usize, 1, 511, 512, 513, 1000] {
        let mut cmd = vec![5u8; len];
        let n = pad_cmd_frame(&mut cmd);
        let once = cmd.clone();
        assert_eq!(pad_cmd_frame(&mut cmd), n);
        assert_eq!(cmd, once);
    }
}

#[test]
fn crc_of_known_messages() {
    assert_eq!(crc8_ponl_107(&[]), 0x00);
    assert_eq!(crc8_ponl_107(&[0x01]), 0x07);
    assert_eq!(crc8_ponl_107(&[0x80]), 0x89);
    assert_eq!(crc8_ponl_107(b"123456789"), 0xF4);
}

#[test]
fn message_with_its_crc_checks() {
    let mut message = vec![0x1C, 0x00, 0x00];
    message.push(crc8_ponl_107(&message));
    assert_eq!(crc8_ponl_107(&message), 0);
}

#[test]
fn short_frame_is_refused() {
    for len in 0..14usize {
        assert_eq!(
            build_data_frame(&vec![0u8; len], 0, 0, true),
            Err(DataFrameBuildError::InvalidFrameLength)
        );
    }
    assert!(build_data_frame(&[0u8; 14], 0, 0, true).is_ok());
}

#[test]
fn data_frame_holds_header_descriptor_and_payload() {
    let frame = eth(10);
    let buf = build_data_frame(&frame, 3, 7, false).unwrap();
    assert_eq!(buf.len(), 512);
    assert_eq!(&buf[0..4], &[40, 0, 0, 0]);
    assert_eq!(&buf[4..8], &[10, 0, 0, 0]);
    assert_eq!(&buf[8..12], &[0x01, 0x00, 0x00, 0x80]);
    assert_eq!(&buf[12..26], &frame[0..14]);
    assert_eq!(&buf[26..32], &[0, 0, 3, 7, 0, 0]);
    assert_eq!(&buf[32..42], &frame[14..]);
    assert!(buf[42..].iter().all(|b| *b == 0));
}

#[test]
fn third_generation_header_carries_its_crc() {
    let plain = build_data_frame(&eth(10), 0, 0, false).unwrap();
    let checked = build_data_frame(&eth(10), 0, 0, true).unwrap();
    assert_eq!(checked[3], crc8_ponl_107(&plain[0..3]));
    assert_eq!(crc8_ponl_107(&checked[0..4]), 0);
    assert_eq!(&plain[4..], &checked[4..]);
    assert_eq!(&plain[0..3], &checked[0..3]);
    assert_eq!(plain[3], 0);
}

#[test]
fn data_frame_lengths() {
    // 32 bytes of header and descriptor: a payload of 480 fills a block exactly.
    assert_eq!(build_data_frame(&eth(480), 0, 0, true).unwrap().len(), 512);
    assert_eq!(build_data_frame(&eth(479), 0, 0, true).unwrap().len(), 512);
    assert_eq!(build_data_frame(&eth(481), 0, 0, true).unwrap().len(), 1024);
    let buf = build_data_frame(&eth(1500), 0, 0, false).unwrap();
    assert_eq!(buf.len(), 1536);
    assert_eq!(buf[0] as usize + buf[1] as usize * 256, 1528);
    assert_eq!(buf[4] as usize + buf[5] as usize * 256, 1500);
}

#[test]
fn length_fields_wrap() {
    let buf = build_data_frame(&eth(5000), 0, 0, false).unwrap();
    assert_eq!(buf[0] as usize + buf[1] as usize * 256, 5028 % 4096);
    let buf = build_data_frame(&eth(70000), 0, 0, false).unwrap();
    assert_eq!(buf[4] as usize + buf[5] as usize * 256, 70000 % 65536);
}

#[test]
fn different_frames_have_different_data_frames() {
    let a = build_data_frame(&eth(20), 1, 2, true).unwrap();
    let b = build_data_frame(&eth(21), 1, 2, true).unwrap();
    let c = build_data_frame(&eth(20), 2, 2, true).unwrap();
    let d = build_data_frame(&eth(20), 1, 3, true).unwrap();
    assert_ne!(a, b);
    assert_ne!(a, c);
    assert_ne!(a, d);
}

#[test]
fn descriptor_is_filled_in_place() {
    let mut buf = vec![0u8; 40];
    fill_hostdesc(&mut buf, 0x1234, &[1; 6], &[2; 6], &[0x86, 0xDD], 9, 8);
    let mut expected = vec![0u8, 0, 0, 0, 0x34, 0x12, 0, 0, 0x01, 0x00, 0x00, 0x80];
    expected.extend_from_slice(&[1; 6]);
    expected.extend_from_slice(&[2; 6]);
    expected.extend_from_slice(&[0x86, 0xDD, 0, 0, 9, 8]);
    expected.resize(40, 0);
    assert_eq!(buf, expected);
}
