//! Command and feedback frames of the DM motor protocol.

use vstd::prelude::*;

verus! {

/// Identifier on which register writes and feedback queries are sent.
pub const MANAGEMENT_ID: u16 = 0x7FF;

/// Register that selects the control mode.
pub const MODE_REGISTER: u8 = 10;

/// Largest 11-bit (standard) CAN identifier.
pub const MAX_STANDARD_ID: u16 = 0x7FF;

/// One classic CAN data frame of eight bytes, addressed by a standard identifier.
#[derive(Debug, Clone, Copy, PartialEq, Eq)]
pub struct CanFrame {
    pub id: u16,
    pub data: [u8; 8],
}

/// The low byte of an identifier, as the motor expects it in byte 0 of a
/// management frame.
pub open spec fn id_low(id: u16) -> u8 {
    (id % 256) as u8
}

/// The three high bits of an 11-bit identifier, as byte 1 of a management frame.
pub open spec fn id_high(id: u16) -> u8 {
    ((id / 256) % 8) as u8
}

/// Data of a register write: the target motor, the write opcode 0x55, the
/// register address and four data bytes.
pub open spec fn register_write_data(id: u16, rid: u8, d0: u8, d1: u8, d2: u8, d3: u8) -> Seq<u8> {
    seq![id_low(id), id_high(id), 0x55u8, rid, d0, d1, d2, d3]
}

/// Builds the frame that writes four bytes into register `rid` of motor `id`.
pub fn write_register(id: u16, rid: u8, d0: u8, d1: u8, d2: u8, d3: u8) -> (frame: CanFrame)
    ensures
        frame.id == MANAGEMENT_ID,
        frame.data@ == register_write_data(id, rid, d0, d1, d2, d3),
{
    let can_id_l = id & 0xFF;
    let can_id_h = (id >> 8) & 0x07;
    assert(can_id_l == id % 256 && can_id_h == (id / 256) % 8) by (bit_vector)
        requires
            can_id_l == id & 0xFF,
            can_id_h == (id >> 8) & 0x07,
    ;
    let data: [u8; 8] = [can_id_l as u8, can_id_h as u8, 0x55, rid, d0, d1, d2, d3];
    CanFrame { id: MANAGEMENT_ID, data }
}

/// `frame` is the register write that puts motor `id` into mode `mode`.
pub open spec fn is_mode_switch(frame: CanFrame, id: u16, mode: u8) -> bool {
    &&& frame.id == MANAGEMENT_ID
    &&& frame.data@ == register_write_data(id, MODE_REGISTER, mode, 0, 0, 0)
}

/// Builds the frame that puts motor `id` into control mode `mode`
/// (1: MIT, 2: position and speed, 3: speed, 4: position, speed and current).
pub fn switch_mode(id: u16, mode: u8) -> (frame: CanFrame)
    ensures
        is_mode_switch(frame, id, mode),
        frame.id == MANAGEMENT_ID,
        frame.data@[4] == mode,
{
    write_register(id, MODE_REGISTER, mode, 0, 0, 0)
}

/// Data of the frame that enables a motor.
pub open spec fn enable_data() -> Seq<u8> {
    seq![0xFFu8, 0xFF, 0xFF, 0xFF, 0xFF, 0xFF, 0xFF, 0xFC]
}

/// Data of the frame that disables a motor.
pub open spec fn disable_data() -> Seq<u8> {
    seq![0xFFu8, 0xFF, 0xFF, 0xFF, 0xFF, 0xFF, 0xFF, 0xFD]
}

/// Builds the frame that enables motor `id`.
pub fn enable(id: u16) -> (frame: CanFrame)
    requires
        id <= MAX_STANDARD_ID,
    ensures
        frame.id == id,
        frame.data@ == enable_data(),
        frame.data@[7] == 0xFC,
{
    let data: [u8; 8] = [0xFF, 0xFF, 0xFF, 0xFF, 0xFF, 0xFF, 0xFF, 0xFC];
    CanFrame { id, data }
}

/// Builds the frame that disables motor `id`.
pub fn disable(id: u16) -> (frame: CanFrame)
    requires
        id <= MAX_STANDARD_ID,
    ensures
        frame.id == id,
        frame.data@ == disable_data(),
        frame.data@[7] == 0xFD,
{
    let data: [u8; 8] = [0xFF, 0xFF, 0xFF, 0xFF, 0xFF, 0xFF, 0xFF, 0xFD];
    CanFrame { id, data }
}

/// Byte `k` (0 is the least significant) of a 32-bit value.
pub open spec fn byte_of_u32(x: u32, k: nat) -> u8 {
    if k == 0 {
        (x % 0x100) as u8
    } else if k == 1 {
        ((x / 0x100) % 0x100) as u8
    } else if k == 2 {
        ((x / 0x1_0000) % 0x100) as u8
    } else {
        (x / 0x100_0000) as u8
    }
}

/// The four bytes of a 32-bit value, least significant first.
pub open spec fn le_bytes_u32(x: u32) -> Seq<u8> {
    seq![byte_of_u32(x, 0), byte_of_u32(x, 1), byte_of_u32(x, 2), byte_of_u32(x, 3)]
}

/// The two bytes of a 16-bit value, least significant first.
pub open spec fn le_bytes_u16(x: u16) -> Seq<u8> {
    seq![(x % 0x100) as u8, (x / 0x100) as u8]
}

proof fn lemma_u32_bytes(x: u32)
    ensures
        (x & 0xFF) as u8 == byte_of_u32(x, 0),
        ((x >> 8) & 0xFF) as u8 == byte_of_u32(x, 1),
        ((x >> 16) & 0xFF) as u8 == byte_of_u32(x, 2),
        (x >> 24) as u8 == byte_of_u32(x, 3),
{
    assert((x & 0xFF) as u8 == (x % 0x100) as u8) by (bit_vector);
    assert(((x >> 8) & 0xFF) as u8 == ((x / 0x100) % 0x100) as u8) by (bit_vector);
    assert(((x >> 16) & 0xFF) as u8 == ((x / 0x1_0000) % 0x100) as u8) by (bit_vector);
    assert((x >> 24) as u8 == (x / 0x100_0000) as u8) by (bit_vector);
}

proof fn lemma_u16_bytes(x: u16)
    ensures
        (x & 0xFF) as u8 == (x % 0x100) as u8,
        (x >> 8) as u8 == (x / 0x100) as u8,
        x / 0x100 < 0x100,
{
    assert((x & 0xFF) as u8 == (x % 0x100) as u8) by (bit_vector);
    assert((x >> 8) as u8 == (x / 0x100) as u8) by (bit_vector);
}

/// The four bytes of `x`, least significant first.
fn u32_le_bytes(x: u32) -> (bytes: [u8; 4])
    ensures
        bytes@ == le_bytes_u32(x),
{
    proof {
        lemma_u32_bytes(x);
    }
    [(x & 0xFF) as u8, ((x >> 8) & 0xFF) as u8, ((x >> 16) & 0xFF) as u8, (x >> 24) as u8]
}

/// The two bytes of `x`, least significant first.
fn u16_le_bytes(x: u16) -> (bytes: [u8; 2])
    ensures
        bytes@ == le_bytes_u16(x),
{
    proof {
        lemma_u16_bytes(x);
    }
    [(x & 0xFF) as u8, (x >> 8) as u8]
}

/// Data of an MIT-mode command: position in 16 bits, then speed, `kp`, `kd`
/// and torque in 12 bits each, packed most significant bit first. Bits of a
/// 12-bit field above its width are not masked: the high nibble of `kp` and of
/// `torque` is or-ed into the byte it shares.
pub open spec fn mit_command_data(pos: u16, spd: u16, kp: u16, kd: u16, torque: u16) -> Seq<u8> {
    seq![
        (pos / 0x100) as u8,
        (pos % 0x100) as u8,
        ((spd / 16) % 0x100) as u8,
        (((spd % 16) * 16) as u8) | ((kp / 0x100) as u8),
        (kp % 0x100) as u8,
        ((kd / 16) % 0x100) as u8,
        (((kd % 16) * 16) as u8) | ((torque / 0x100) as u8),
        (torque % 0x100) as u8,
    ]
}

proof fn lemma_twelve_bit_split(x: u16)
    ensures
        (x >> 4) as u8 == ((x / 16) % 0x100) as u8,
        ((x & 0xF) << 4) as u8 == ((x % 16) * 16) as u8,
        (x >> 8) as u8 == (x / 0x100) as u8,
        x as u8 == (x % 0x100) as u8,
{
    assert((x >> 4) as u8 == ((x / 16) % 0x100) as u8) by (bit_vector);
    assert(((x & 0xF) << 4) as u8 == ((x % 16) * 16) as u8) by (bit_vector);
    assert((x >> 8) as u8 == (x / 0x100) as u8) by (bit_vector);
    assert(x as u8 == (x % 0x100) as u8) by (bit_vector);
}

/// Builds the two frames of an MIT-mode command to motor `id`: the switch to
/// mode 1, then the command with the quantised position, speed, gains and
/// torque.
pub fn set_mit(id: u16, pos: u16, spd: u16, kp: u16, kd: u16, torque: u16) -> (frames: (
    CanFrame,
    CanFrame,
))
    requires
        id <= MAX_STANDARD_ID,
    ensures
        is_mode_switch(frames.0, id, 1),
        frames.0.data@[4] == 1,
        frames.1.id == id,
        frames.1.data@ == mit_command_data(pos, spd, kp, kd, torque),
{
    let mode = switch_mode(id, 1);
    proof {
        lemma_twelve_bit_split(pos);
        lemma_twelve_bit_split(spd);
        lemma_twelve_bit_split(kp);
        lemma_twelve_bit_split(kd);
        lemma_twelve_bit_split(torque);
    }
    let data: [u8; 8] = [
        (pos >> 8) as u8,
        pos as u8,
        (spd >> 4) as u8,
        ((spd & 0xF) << 4) as u8 | (kp >> 8) as u8,
        kp as u8,
        (kd >> 4) as u8,
        ((kd & 0xF) << 4) as u8 | (torque >> 8) as u8,
        torque as u8,
    ];
    (mode, CanFrame { id, data })
}


/// Offset added to the motor id for position-and-speed commands.
pub const POS_SPD_OFFSET: u16 = 0x100;

/// Offset added to the motor id for speed commands.
pub const SPD_OFFSET: u16 = 0x200;

/// Offset added to the motor id for position, speed and current commands.
pub const POS_SPD_CUR_OFFSET: u16 = 0x300;

/// Builds the two frames of a position-and-speed command to motor `id`: the
/// switch to mode 2, then on `id + 0x100` the two 32-bit patterns (IEEE 754
/// single precision of the target position and speed), least significant
/// byte first. The command identifier `id + 0x100` must be an 11-bit id.
pub fn set_pos_spd(id: u16, pos: u32, spd: u32) -> (frames: (CanFrame, CanFrame))
    requires
        id + POS_SPD_OFFSET <= MAX_STANDARD_ID,
    ensures
        is_mode_switch(frames.0, id, 2),
        frames.0.data@[4] == 2,
        frames.1.id == id + POS_SPD_OFFSET,
        frames.1.data@ == le_bytes_u32(pos) + le_bytes_u32(spd),
{
    let mode = switch_mode(id, 2);
    let pos_bytes = u32_le_bytes(pos);
    let spd_bytes = u32_le_bytes(spd);
    let data: [u8; 8] = [
        pos_bytes[0],
        pos_bytes[1],
        pos_bytes[2],
        pos_bytes[3],
        spd_bytes[0],
        spd_bytes[1],
        spd_bytes[2],
        spd_bytes[3],
    ];
    assert(data@ =~= le_bytes_u32(pos) + le_bytes_u32(spd));
    (mode, CanFrame { id: id + POS_SPD_OFFSET, data })
}

/// Builds the two frames of a speed command to motor `id`: the switch to
/// mode 3, then on `id + 0x200` the 32-bit pattern of the target speed, least
/// significant byte first, and four zero bytes. The command identifier
/// `id + 0x200` must be an 11-bit id.
pub fn set_spd(id: u16, spd: u32) -> (frames: (CanFrame, CanFrame))
    requires
        id + SPD_OFFSET <= MAX_STANDARD_ID,
    ensures
        is_mode_switch(frames.0, id, 3),
        frames.0.data@[4] == 3,
        frames.1.id == id + SPD_OFFSET,
        frames.1.data@ == le_bytes_u32(spd) + seq![0u8, 0, 0, 0],
{
    let mode = switch_mode(id, 3);
    let spd_bytes = u32_le_bytes(spd);
    let data: [u8; 8] = [spd_bytes[0], spd_bytes[1], spd_bytes[2], spd_bytes[3], 0, 0, 0, 0];
    assert(data@ =~= le_bytes_u32(spd) + seq![0u8, 0, 0, 0]);
    (mode, CanFrame { id: id + SPD_OFFSET, data })
}

/// Builds the two frames of a position, speed and current command to motor
/// `id`: the switch to mode 4, then on `id + 0x300` the 32-bit pattern of the
/// target position, the speed in hundredths and the current in ten
/// thousandths, each least significant byte first. The command identifier
/// `id + 0x300` must be an 11-bit id.
pub fn set_pos_spd_cur(id: u16, pos: u32, spd: u16, cur: u16) -> (frames: (CanFrame, CanFrame))
    requires
        id + POS_SPD_CUR_OFFSET <= MAX_STANDARD_ID,
    ensures
        is_mode_switch(frames.0, id, 4),
        frames.0.data@[4] == 4,
        frames.1.id == id + POS_SPD_CUR_OFFSET,
        frames.1.data@ == le_bytes_u32(pos) + le_bytes_u16(spd) + le_bytes_u16(cur),
{
    let mode = switch_mode(id, 4);
    let pos_bytes = u32_le_bytes(pos);
    let spd_bytes = u16_le_bytes(spd);
    let cur_bytes = u16_le_bytes(cur);
    let data: [u8; 8] = [
        pos_bytes[0],
        pos_bytes[1],
        pos_bytes[2],
        pos_bytes[3],
        spd_bytes[0],
        spd_bytes[1],
        cur_bytes[0],
        cur_bytes[1],
    ];
    assert(data@ =~= le_bytes_u32(pos) + le_bytes_u16(spd) + le_bytes_u16(cur));
    (mode, CanFrame { id: id + POS_SPD_CUR_OFFSET, data })
}


/// Opcode of a feedback query in byte 2 of a management frame.
pub const FEEDBACK_QUERY: u8 = 0xCC;

/// Data of the management frame that asks motor `id` for its feedback.
pub open spec fn feedback_request_data(id: u16) -> Seq<u8> {
    seq![id_low(id), id_high(id), FEEDBACK_QUERY, 0u8, 0, 0, 0, 0]
}

/// Builds the frame that asks motor `id` for a feedback frame.
pub fn feedback_request(id: u16) -> (frame: CanFrame)
    ensures
        frame.id == MANAGEMENT_ID,
        frame.data@ == feedback_request_data(id),
{
    let can_id_l = id & 0xFF;
    let can_id_h = (id >> 8) & 0x07;
    assert(can_id_l == id % 256 && can_id_h == (id / 256) % 8) by (bit_vector)
        requires
            can_id_l == id & 0xFF,
            can_id_h == (id >> 8) & 0x07,
    ;
    let data: [u8; 8] = [can_id_l as u8, can_id_h as u8, FEEDBACK_QUERY, 0x00, 0, 0, 0, 0];
    CanFrame { id: MANAGEMENT_ID, data }
}

/// What a feedback query does after one look at the receive mailbox.
#[derive(Debug, Clone, Copy, PartialEq, Eq, Structural)]
pub enum FeedbackPoll {
    /// Nothing has arrived yet: wait for the next interrupt and look again.
    Waiting,
    /// A frame arrived from the queried motor: the query succeeds.
    Matched,
    /// A frame arrived from another motor: the query fails.
    Mismatched,
}

/// A reply belongs to motor `id` when the low nibble of its first byte equals
/// the low nibble of the id.
pub open spec fn reply_matches(id: u16, reply: Seq<u8>) -> bool {
    reply[0] % 16 == id % 16
}

/// Decides, after one look at the receive mailbox, how a feedback query to
/// motor `id` goes on: `has_data` says whether a frame arrived, and then
/// `feedback` holds its data.
pub fn get_feedback(id: u16, has_data: bool, feedback: &[u8; 8]) -> (poll: FeedbackPoll)
    ensures
        !has_data ==> poll == FeedbackPoll::Waiting,
        has_data && reply_matches(id, feedback@) ==> poll == FeedbackPoll::Matched,
        has_data && !reply_matches(id, feedback@) ==> poll == FeedbackPoll::Mismatched,
{
    if has_data {
        let can_id_l = id & 0xFF;
        let excepted_id = (can_id_l & 0x0F) as u8;
        let rcvd_id = feedback[0] & 0x0F;
        let first = feedback[0];
        assert(excepted_id == id % 16 && rcvd_id == first % 16) by (bit_vector)
            requires
                can_id_l == id & 0xFF,
                excepted_id == (can_id_l & 0x0F) as u8,
                rcvd_id == first & 0x0F,
        ;
        if excepted_id == rcvd_id {
            FeedbackPoll::Matched
        } else {
            FeedbackPoll::Mismatched
        }
    } else {
        FeedbackPoll::Waiting
    }
}

/// Error code in the high nibble of byte 0 of a feedback frame.
pub open spec fn err_code_of(reply: Seq<u8>) -> u8 {
    reply[0] / 16
}

/// Raw 16-bit position in bytes 1 (high) and 2 (low) of a feedback frame.
pub open spec fn pos_of(reply: Seq<u8>) -> u16 {
    (reply[1] * 0x100 + reply[2]) as u16
}

/// Raw 12-bit speed in byte 3 and the high nibble of byte 4 of a feedback frame.
pub open spec fn spd_of(reply: Seq<u8>) -> u16 {
    (reply[3] * 16 + reply[4] / 16) as u16
}

/// Raw 12-bit torque in the low nibble of byte 4 and byte 5 of a feedback frame.
pub open spec fn torque_of(reply: Seq<u8>) -> u16 {
    ((reply[4] % 16) * 0x100 + reply[5]) as u16
}

/// The error code (0 to 15) of a feedback query's outcome: `None` where the
/// query failed.
pub fn get_err_code(feedback: Option<[u8; 8]>) -> (code: Option<u8>)
    ensures
        feedback is None ==> code is None,
        feedback matches Some(f) ==> code == Some(err_code_of(f@)),
        code matches Some(c) ==> c < 16,
{
    match feedback {
        Some(f) => {
            let first = f[0];
            let err_code = first >> 4;
            assert(err_code == first / 16) by (bit_vector)
                requires
                    err_code == first >> 4,
            ;
            Some(err_code)
        },
        None => None,
    }
}

/// The raw 16-bit position of a feedback frame.
pub fn pos_raw(feedback: &[u8; 8]) -> (pos: u16)
    ensures
        pos == pos_of(feedback@),
{
    let hi = feedback[1];
    let lo = feedback[2];
    let pos = ((hi as u16) << 8) | (lo as u16);
    assert(pos == hi * 0x100 + lo) by (bit_vector)
        requires
            pos == ((hi as u16) << 8) | (lo as u16),
    ;
    pos
}

/// The raw 12-bit speed of a feedback frame.
pub fn spd_raw(feedback: &[u8; 8]) -> (spd: u16)
    ensures
        spd == spd_of(feedback@),
        spd < 0x1000,
{
    let hi = feedback[3];
    let mid = feedback[4];
    let spd = ((hi as u16) << 4) | (((mid & 0xF0) >> 4) as u16);
    assert(spd == hi * 16 + mid / 16 && spd < 0x1000) by (bit_vector)
        requires
            spd == ((hi as u16) << 4) | (((mid & 0xF0) >> 4) as u16),
    ;
    spd
}

/// The raw 12-bit torque of a feedback frame.
pub fn torque_raw(feedback: &[u8; 8]) -> (torque: u16)
    ensures
        torque == torque_of(feedback@),
        torque < 0x1000,
{
    let mid = feedback[4];
    let lo = feedback[5];
    let torque = (((mid & 0x0F) as u16) << 8) | (lo as u16);
    assert(torque == (mid % 16) * 0x100 + lo && torque < 0x1000) by (bit_vector)
        requires
            torque == (((mid & 0x0F) as u16) << 8) | (lo as u16),
    ;
    torque
}


/// A management frame names its motor exactly: for an 11-bit id, byte 0 plus
/// 256 times byte 1 of a register write or of a feedback query is the id.
pub proof fn lemma_management_id_recoverable(id: u16, rid: u8, d0: u8, d1: u8, d2: u8, d3: u8)
    requires
        id <= MAX_STANDARD_ID,
    ensures
        ({
            let w = register_write_data(id, rid, d0, d1, d2, d3);
            w[0] + 0x100 * w[1] == id
        }),
        feedback_request_data(id)[0] + 0x100 * feedback_request_data(id)[1] == id,
{
}

/// The four bytes of a 32-bit value give the value back.
pub proof fn lemma_le_bytes_u32_recoverable(x: u32)
    ensures
        le_bytes_u32(x).len() == 4,
        le_bytes_u32(x)[0] + 0x100 * le_bytes_u32(x)[1] + 0x1_0000 * le_bytes_u32(x)[2]
            + 0x100_0000 * le_bytes_u32(x)[3] == x,
{
    assert((x % 0x100) + 0x100 * ((x / 0x100) % 0x100) + 0x1_0000 * ((x / 0x1_0000) % 0x100)
        + 0x100_0000 * (x / 0x100_0000) == x) by (bit_vector);
    assert(x / 0x100_0000 < 0x100) by (bit_vector);
}

/// The two bytes of a 16-bit value give the value back.
pub proof fn lemma_le_bytes_u16_recoverable(x: u16)
    ensures
        le_bytes_u16(x).len() == 2,
        le_bytes_u16(x)[0] + 0x100 * le_bytes_u16(x)[1] == x,
{
}

proof fn lemma_nibbles_join(hi: u8, lo: u8)
    requires
        hi < 16,
        lo < 16,
    ensures
        ((hi * 16) as u8) | lo == hi * 16 + lo,
{
    assert(((hi * 16) as u8) | lo == hi * 16 + lo) by (bit_vector)
        requires
            hi < 16,
            lo < 16,
    ;
}

/// An MIT command carries each of its fields losslessly: with the four 12-bit
/// fields inside 12 bits, every field can be read back from the eight bytes.
pub proof fn lemma_mit_fields_recoverable(pos: u16, spd: u16, kp: u16, kd: u16, torque: u16)
    requires
        spd < 0x1000,
        kp < 0x1000,
        kd < 0x1000,
        torque < 0x1000,
    ensures
        ({
            let d = mit_command_data(pos, spd, kp, kd, torque);
            &&& d.len() == 8
            &&& d[0] * 0x100 + d[1] == pos
            &&& d[2] * 16 + d[3] / 16 == spd
            &&& (d[3] % 16) * 0x100 + d[4] == kp
            &&& d[5] * 16 + d[6] / 16 == kd
            &&& (d[6] % 16) * 0x100 + d[7] == torque
        }),
{
    lemma_nibbles_join((spd % 16) as u8, (kp / 0x100) as u8);
    lemma_nibbles_join((kd % 16) as u8, (torque / 0x100) as u8);
}

/// Data of a feedback frame as the motor writes it: error code and id nibble,
/// 16-bit position, 12-bit speed, 12-bit torque, then two temperature bytes.
pub open spec fn feedback_data(
    err: u8,
    id_nibble: u8,
    pos: u16,
    spd: u16,
    torque: u16,
    t_mos: u8,
    t_rotor: u8,
) -> Seq<u8> {
    seq![
        (err * 16 + id_nibble) as u8,
        (pos / 0x100) as u8,
        (pos % 0x100) as u8,
        (spd / 16) as u8,
        ((spd % 16) * 16 + torque / 0x100) as u8,
        (torque % 0x100) as u8,
        t_mos,
        t_rotor,
    ]
}

/// The decoders read back every field of a feedback frame, and a query to a
/// motor accepts the reply exactly when the reply's id nibble is the motor's.
pub proof fn lemma_feedback_fields_recoverable(
    id: u16,
    err: u8,
    id_nibble: u8,
    pos: u16,
    spd: u16,
    torque: u16,
    t_mos: u8,
    t_rotor: u8,
)
    requires
        err < 16,
        id_nibble < 16,
        spd < 0x1000,
        torque < 0x1000,
    ensures
        ({
            let f = feedback_data(err, id_nibble, pos, spd, torque, t_mos, t_rotor);
            &&& err_code_of(f) == err
            &&& pos_of(f) == pos
            &&& spd_of(f) == spd
            &&& torque_of(f) == torque
            &&& reply_matches(id, f) == (id_nibble == id % 16)
        }),
{
}


/// A mode switch is a write of the mode itself into register 10 of the
/// motor, sent on the management id: byte 2 is the write opcode 0x55, byte 3
/// the register, byte 4 the mode, and bytes 5 to 7 are zero.
pub proof fn lemma_mode_switch_carries_mode(frame: CanFrame, id: u16, mode: u8)
    requires
        is_mode_switch(frame, id, mode),
    ensures
        frame.id == 0x7FF,
        frame.data@.len() == 8,
        frame.data@[2] == 0x55,
        frame.data@[3] == 10,
        frame.data@[4] == mode,
        frame.data@[5] == 0 && frame.data@[6] == 0 && frame.data@[7] == 0,
{
}

/// A register write carries, after the motor id, the opcode 0x55, the
/// register address and the four data bytes in order.
pub proof fn lemma_register_write_layout(id: u16, rid: u8, d0: u8, d1: u8, d2: u8, d3: u8)
    ensures
        ({
            let w = register_write_data(id, rid, d0, d1, d2, d3);
            &&& w.len() == 8
            &&& w[0] == id % 0x100
            &&& w[1] == (id / 0x100) % 8
            &&& w[2] == 0x55
            &&& w[3] == rid
            &&& w[4] == d0 && w[5] == d1 && w[6] == d2 && w[7] == d3
        }),
{
}

/// A feedback query names the motor in bytes 0 and 1, carries the query
/// opcode 0xCC in byte 2, and zeros after it.
pub proof fn lemma_feedback_request_layout(id: u16)
    ensures
        ({
            let q = feedback_request_data(id);
            &&& q.len() == 8
            &&& q[0] == id % 0x100
            &&& q[1] == (id / 0x100) % 8
            &&& q[2] == 0xCC
            &&& forall|j: int| 3 <= j < 8 ==> #[trigger] q[j] == 0
        }),
{
}

/// Enabling and disabling differ in the last byte only: seven 0xFF bytes,
/// then 0xFC to enable or 0xFD to disable.
pub proof fn lemma_enable_disable_layout()
    ensures
        enable_data().len() == 8,
        disable_data().len() == 8,
        forall|j: int| 0 <= j < 7 ==> #[trigger] enable_data()[j] == 0xFF && disable_data()[j] == 0xFF,
        enable_data()[7] == 0xFC,
        disable_data()[7] == 0xFD,
{
}


proof fn lemma_shared_byte_low_nibble(hi: u8, lo: u8)
    requires
        hi < 16,
    ensures
        (((hi * 16) as u8) | lo) % 16 == lo % 16,
        (((hi * 16) as u8) | lo) / 16 >= hi,
{
    assert((((hi * 16) as u8) | lo) % 16 == lo % 16 && (((hi * 16) as u8) | lo) / 16 >= hi)
        by (bit_vector)
        requires
            hi < 16,
    ;
}

/// Whatever the field values, an MIT command puts the position in bytes 0
/// and 1 (high byte first), the low 8 bits of `kp` and of `torque` in bytes 4
/// and 7, the speed and `kd` (above their low nibble) in bytes 2 and 5, and
/// the next nibble of `kp` and of `torque` in the low halves of bytes 3 and 6.
pub proof fn lemma_mit_layout(pos: u16, spd: u16, kp: u16, kd: u16, torque: u16)
    ensures
        ({
            let d = mit_command_data(pos, spd, kp, kd, torque);
            &&& d.len() == 8
            &&& d[0] == pos / 0x100
            &&& d[1] == pos % 0x100
            &&& d[2] == (spd / 16) % 0x100
            &&& d[3] % 16 == (kp / 0x100) % 16
            &&& d[3] / 16 >= spd % 16
            &&& d[4] == kp % 0x100
            &&& d[5] == (kd / 16) % 0x100
            &&& d[6] % 16 == (torque / 0x100) % 16
            &&& d[6] / 16 >= kd % 16
            &&& d[7] == torque % 0x100
        }),
{
    lemma_shared_byte_low_nibble((spd % 16) as u8, (kp / 0x100) as u8);
    lemma_shared_byte_low_nibble((kd % 16) as u8, (torque / 0x100) as u8);
}

} // verus!
