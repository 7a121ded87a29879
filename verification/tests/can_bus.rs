use code_02_stm32h7_dm::can_bus::{can_rcvd, can_send_header, tx_header, FrameKind, RxMailbox, TxHeader};
use code_02_stm32h7_dm::motor_dm::{enable, set_pos_spd, CanFrame};
use fdcan::frame::{FrameFormat, RxFrameInfo};
use fdcan::id::{Id, StandardId};

fn info(stamp: u16) -> RxFrameInfo {
    RxFrameInfo {
        len: 8,
        frame_format: FrameFormat::Standard,
        id: Id::Standard(StandardId::new(0x11).unwrap()),
        rtr: false,
        filter_match: None,
        bit_rate_switching: false,
        time_stamp: stamp,
    }
}

#[test]
fn plain_header_for_a_standard_id() {
    let f = enable(0x123);
    assert_eq!(
        tx_header(f.id, &f.data),
        TxHeader {
            len: 8,
            id: 0x123,
            format: FrameKind::Classic,
            bit_rate_switching: false,
            marker: None,
        }
    );
}

#[test]
fn header_length_follows_the_payload() {
    assert_eq!(tx_header(0x10, &[1, 2, 3]).len, 3);
    assert_eq!(tx_header(0x10, &[]).len, 0);
    let h = can_send_header(0x10, &[1, 2, 3]);
    assert_eq!(h.len, 3);
    assert_eq!(h.id, Id::Standard(StandardId::new(0x10).unwrap()));
}

#[test]
fn header_for_a_standard_id() {
    let f = enable(0x7FF);
    let h = can_send_header(f.id, &f.data);
    assert_eq!(h.len, 8);
    assert_eq!(h.id, Id::Standard(StandardId::new(0x7FF).unwrap()));
    assert_eq!(h.frame_format, FrameFormat::Standard);
    assert!(!h.bit_rate_switching);
    assert_eq!(h.marker, None);
}

#[test]
fn header_keeps_the_frame_id() {
    let f = CanFrame { id: 0x123, data: [0; 8] };
    let h = can_send_header(f.id, &f.data);
    assert_eq!(h.len, 8);
    assert_eq!(h.id, Id::Standard(StandardId::new(0x123).unwrap()));
}

#[test]
fn command_frames_carry_standard_ids() {
    let (mode, cmd) = set_pos_spd(0x6FF, 0, 0);
    assert_eq!(mode.id, 0x7FF);
    assert_eq!(cmd.id, 0x7FF);
    let h = can_send_header(cmd.id, &cmd.data);
    assert_eq!(h.id, Id::Standard(StandardId::new(0x7FF).unwrap()));
}

#[test]
fn empty_mailbox_reads_nothing() {
    let mut m = RxMailbox::new();
    let mut buf = [7u8; 8];
    assert!(can_rcvd(&mut m, &mut buf).is_none());
    assert_eq!(buf, [7u8; 8]);
    assert_eq!(m.data(), [0u8; 8]);
}

#[test]
fn stored_frame_is_read_once() {
    let mut m = RxMailbox::new();
    m.store([1, 2, 3, 4, 5, 6, 7, 8], info(42));
    let mut buf = [0u8; 8];
    let got = can_rcvd(&mut m, &mut buf).expect("a frame is waiting");
    assert_eq!(got.time_stamp, 42);
    assert_eq!(buf, [1, 2, 3, 4, 5, 6, 7, 8]);
    let mut again = [9u8; 8];
    assert!(can_rcvd(&mut m, &mut again).is_none());
    assert_eq!(again, [9u8; 8]);
    assert_eq!(m.data(), [1, 2, 3, 4, 5, 6, 7, 8]);
}

#[test]
fn newest_frame_wins() {
    let mut m = RxMailbox::new();
    m.store([1; 8], info(1));
    m.store([2; 8], info(2));
    let mut buf = [0u8; 8];
    assert_eq!(can_rcvd(&mut m, &mut buf).unwrap().time_stamp, 2);
    assert_eq!(buf, [2; 8]);
}

#[test]
fn short_buffer_gets_the_first_bytes() {
    let mut m = RxMailbox::new();
    m.store([1, 2, 3, 4, 5, 6, 7, 8], info(0));
    let mut buf = [0u8; 3];
    assert!(can_rcvd(&mut m, &mut buf).is_some());
    assert_eq!(buf, [1, 2, 3]);
}

#[test]
fn long_buffer_keeps_its_tail() {
    let mut m = RxMailbox::new();
    m.store([1, 2, 3, 4, 5, 6, 7, 8], info(0));
    let mut buf = [0xAAu8; 10];
    assert!(can_rcvd(&mut m, &mut buf).is_some());
    assert_eq!(buf, [1, 2, 3, 4, 5, 6, 7, 8, 0xAA, 0xAA]);
}

#[test]
fn reads_follow_stores_over_an_interleaving() {
    let mut m = RxMailbox::new();
    let mut buf = [0u8; 8];
    assert!(can_rcvd(&mut m, &mut buf).is_none());
    m.store([1; 8], info(1));
    m.store([2; 8], info(2));
    assert_eq!(can_rcvd(&mut m, &mut buf).unwrap().time_stamp, 2);
    assert!(can_rcvd(&mut m, &mut buf).is_none());
    m.store([3; 8], info(3));
    assert_eq!(can_rcvd(&mut m, &mut buf).unwrap().time_stamp, 3);
    assert_eq!(buf, [3; 8]);
    assert!(can_rcvd(&mut m, &mut buf).is_none());
}
