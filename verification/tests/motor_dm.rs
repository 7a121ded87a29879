use code_02_stm32h7_dm::motor_dm::{
    disable, enable, feedback_request, get_err_code, get_feedback, pos_raw, set_mit, set_pos_spd,
    set_pos_spd_cur, set_spd, spd_raw, switch_mode, torque_raw, write_register, CanFrame,
    FeedbackPoll,
};

fn frame(id: u16, data: [u8; 8]) -> CanFrame {
    CanFrame { id, data }
}

#[test]
fn enable_frame_bytes() {
    assert_eq!(enable(0x01), frame(0x01, [0xFF, 0xFF, 0xFF, 0xFF, 0xFF, 0xFF, 0xFF, 0xFC]));
}

#[test]
fn disable_frame_bytes() {
    assert_eq!(disable(0x7FF), frame(0x7FF, [0xFF, 0xFF, 0xFF, 0xFF, 0xFF, 0xFF, 0xFF, 0xFD]));
}

#[test]
fn write_register_splits_the_id() {
    assert_eq!(
        write_register(0x123, 0x21, 1, 2, 3, 4),
        frame(0x7FF, [0x23, 0x01, 0x55, 0x21, 1, 2, 3, 4])
    );
    assert_eq!(
        write_register(0x7FF, 10, 4, 0, 0, 0),
        frame(0x7FF, [0xFF, 0x07, 0x55, 10, 4, 0, 0, 0])
    );
}

#[test]
fn write_register_masks_ids_wider_than_eleven_bits() {
    assert_eq!(
        write_register(0xFFFF, 1, 0, 0, 0, 0),
        frame(0x7FF, [0xFF, 0x07, 0x55, 1, 0, 0, 0, 0])
    );
}

#[test]
fn switch_mode_writes_register_ten() {
    assert_eq!(switch_mode(0x01, 3), frame(0x7FF, [0x01, 0x00, 0x55, 10, 3, 0, 0, 0]));
}

#[test]
fn mit_command_packs_fields() {
    let (mode, cmd) = set_mit(0x01, 0x8000, 0x7FF, 0x123, 0xABC, 0x456);
    assert_eq!(mode, switch_mode(0x01, 1));
    assert_eq!(cmd, frame(0x01, [0x80, 0x00, 0x7F, 0xF1, 0x23, 0xAB, 0xC4, 0x56]));
}

#[test]
fn mit_command_fields_read_back() {
    let (pos, spd, kp, kd, torque) = (0xBEEFu16, 0x9A5u16, 0x3C1u16, 0xFFFu16, 0x001u16);
    let (_, cmd) = set_mit(0x02, pos, spd, kp, kd, torque);
    let d: Vec<u16> = cmd.data.iter().map(|b| *b as u16).collect();
    assert_eq!(d[0] * 0x100 + d[1], pos);
    assert_eq!(d[2] * 16 + d[3] / 16, spd);
    assert_eq!((d[3] % 16) * 0x100 + d[4], kp);
    assert_eq!(d[5] * 16 + d[6] / 16, kd);
    assert_eq!((d[6] % 16) * 0x100 + d[7], torque);
}

#[test]
fn mit_command_keeps_unmasked_high_bits() {
    let (_, cmd) = set_mit(0x01, 0, 0x7FF, 0x1234, 0, 0xF00);
    assert_eq!(cmd.data, [0x00, 0x00, 0x7F, 0xF2, 0x34, 0x00, 0x0F, 0x00]);
}

#[test]
fn pos_spd_command_bytes() {
    let (mode, cmd) = set_pos_spd(0x01, 1.0f32.to_bits(), 1.57f32.to_bits());
    assert_eq!(mode, frame(0x7FF, [0x01, 0x00, 0x55, 10, 2, 0, 0, 0]));
    assert_eq!(cmd, frame(0x101, [0x00, 0x00, 0x80, 0x3F, 0xC3, 0xF5, 0xC8, 0x3F]));
}

#[test]
fn spd_command_bytes() {
    let (mode, cmd) = set_spd(0x01, 2.0f32.to_bits());
    assert_eq!(mode, frame(0x7FF, [0x01, 0x00, 0x55, 10, 3, 0, 0, 0]));
    assert_eq!(cmd, frame(0x201, [0x00, 0x00, 0x00, 0x40, 0, 0, 0, 0]));
}

#[test]
fn pos_spd_cur_command_bytes() {
    let (mode, cmd) = set_pos_spd_cur(0x01, 5.07f32.to_bits(), 157, 10000);
    assert_eq!(mode, frame(0x7FF, [0x01, 0x00, 0x55, 10, 4, 0, 0, 0]));
    assert_eq!(cmd, frame(0x301, [0x71, 0x3D, 0xA2, 0x40, 0x9D, 0x00, 0x10, 0x27]));
}

#[test]
fn little_endian_bytes_read_back() {
    let x: u32 = 0xDEAD_BEEF;
    let (_, cmd) = set_pos_spd(0x05, x, 0x0102_0304);
    let d = cmd.data;
    assert_eq!(u32::from_le_bytes([d[0], d[1], d[2], d[3]]), x);
    assert_eq!(u32::from_le_bytes([d[4], d[5], d[6], d[7]]), 0x0102_0304);
}

#[test]
fn command_ids_are_offset_from_the_motor_id() {
    assert_eq!(set_pos_spd(0x6FF, 0, 0).1.id, 0x7FF);
    assert_eq!(set_spd(0x10, 0).1.id, 0x210);
    assert_eq!(set_pos_spd_cur(0x4FF, 0, 0, 0).1.id, 0x7FF);
}

#[test]
fn feedback_request_bytes() {
    assert_eq!(feedback_request(0x123), frame(0x7FF, [0x23, 0x01, 0xCC, 0, 0, 0, 0, 0]));
}

#[test]
fn feedback_poll_waits_without_data() {
    assert_eq!(get_feedback(0x01, false, &[0x01, 0, 0, 0, 0, 0, 0, 0]), FeedbackPoll::Waiting);
}

#[test]
fn feedback_poll_matches_on_the_id_nibble() {
    assert_eq!(get_feedback(0x01, true, &[0x31, 0, 0, 0, 0, 0, 0, 0]), FeedbackPoll::Matched);
    assert_eq!(get_feedback(0x11, true, &[0x01, 0, 0, 0, 0, 0, 0, 0]), FeedbackPoll::Matched);
}

#[test]
fn feedback_poll_rejects_another_motor() {
    assert_eq!(get_feedback(0x01, true, &[0x32, 0, 0, 0, 0, 0, 0, 0]), FeedbackPoll::Mismatched);
}

#[test]
fn err_code_is_the_high_nibble() {
    assert_eq!(get_err_code(Some([0x31, 0, 0, 0, 0, 0, 0, 0])), Some(3));
    assert_eq!(get_err_code(Some([0xF1, 0, 0, 0, 0, 0, 0, 0])), Some(15));
}

#[test]
fn err_code_of_a_failed_query_is_none() {
    assert_eq!(get_err_code(None), None);
}

#[test]
fn feedback_fields_decode() {
    let f = [0x01, 0x12, 0x34, 0xAB, 0xCD, 0xEF, 0x00, 0x00];
    assert_eq!(pos_raw(&f), 0x1234);
    assert_eq!(spd_raw(&f), 0xABC);
    assert_eq!(torque_raw(&f), 0xDEF);
}

#[test]
fn feedback_fields_read_back() {
    let (err, nib, pos, spd, torque) = (5u8, 1u8, 0x8000u16, 0x800u16, 0x7FFu16);
    let f = [
        err * 16 + nib,
        (pos >> 8) as u8,
        pos as u8,
        (spd >> 4) as u8,
        (((spd & 0xF) << 4) | (torque >> 8)) as u8,
        torque as u8,
        40,
        41,
    ];
    assert_eq!(get_err_code(Some(f)), Some(err));
    assert_eq!(pos_raw(&f), pos);
    assert_eq!(spd_raw(&f), spd);
    assert_eq!(torque_raw(&f), torque);
    assert_eq!(get_feedback(0x21, true, &f), FeedbackPoll::Matched);
    assert_eq!(get_feedback(0x22, true, &f), FeedbackPoll::Mismatched);
}
