//! Colour frames for a WS2812 LED driven through an SPI line.
//!
//! Each colour bit becomes one SPI byte whose high bits shape the LED's pulse:
//! a long pulse for a one, a short pulse for a zero. The LED takes green, red,
//! then blue, each most significant bit first.

use vstd::prelude::*;

verus! {

/// SPI byte pattern of a zero bit, before the one-bit shift that fits the
/// pulse to the 6 MHz clock.
pub const LOW_LEVEL: u8 = 0xC0;

/// SPI byte pattern of a one bit, before the one-bit shift.
pub const HIGH_LEVEL: u8 = 0xF0;

/// Low bytes sent before a colour, so that the LED sees the line idle.
pub const RESET_LEAD: usize = 1;

/// Low bytes sent after a colour, long enough for the LED to latch it.
pub const LATCH_TAIL: usize = 100;

/// Bit `k` (0 is the least significant) of `x`.
pub open spec fn bit(x: u8, k: u8) -> bool {
    (x >> k) & 1 == 1
}

/// The SPI byte that sends one colour bit.
pub open spec fn symbol(one: bool) -> u8 {
    if one {
        HIGH_LEVEL / 2
    } else {
        LOW_LEVEL / 2
    }
}

/// Channel `c` of the LED's order: 0 green, 1 red, 2 blue.
pub open spec fn channel(r: u8, g: u8, b: u8, c: int) -> u8 {
    if c == 0 {
        g
    } else if c == 1 {
        r
    } else {
        b
    }
}

/// The 24 SPI bytes that set the LED to red `r`, green `g` and blue `b`:
/// byte `j` sends bit `7 - j % 8` of channel `j / 8`.
pub open spec fn led_data(r: u8, g: u8, b: u8) -> Seq<u8> {
    Seq::new(24, |j: int| symbol(bit(channel(r, g, b, j / 8), (7 - j % 8) as u8)))
}

/// The SPI byte that sends bit `i` of `x`.
fn bit_symbol(x: u8, i: u8) -> (s: u8)
    requires
        i < 8,
    ensures
        s == symbol(bit(x, i)),
{
    let one = (x >> i) & 0x01 != 0;
    assert(one == ((x >> i) & 1 == 1) && HIGH_LEVEL >> 1 == HIGH_LEVEL / 2 && LOW_LEVEL >> 1
        == LOW_LEVEL / 2) by (bit_vector)
        requires
            one == ((x >> i) & 0x01 != 0),
            HIGH_LEVEL == 0xF0,
            LOW_LEVEL == 0xC0,
    ;
    if one {
        HIGH_LEVEL >> 1
    } else {
        LOW_LEVEL >> 1
    }
}

/// The 24 SPI bytes that set the LED to red `r`, green `g` and blue `b`.
pub fn set_color(r: u8, g: u8, b: u8) -> (txbuf: [u8; 24])
    ensures
        txbuf@ == led_data(r, g, b),
{
    let mut txbuf = [0u8; 24];
    let mut i: u8 = 0;
    while i < 8
        invariant
            i <= 8,
            txbuf@.len() == 24,
            forall|j: int|
                0 <= j < 24 ==> #[trigger] txbuf@[j] == if j % 8 >= 8 - i {
                    led_data(r, g, b)[j]
                } else {
                    0
                },
        decreases 8 - i,
    {
        let k: usize = 7 - i as usize;
        txbuf[k] = bit_symbol(g, i);
        txbuf[15 - i as usize] = bit_symbol(r, i);
        txbuf[23 - i as usize] = bit_symbol(b, i);
        assert forall|j: int|
            0 <= j < 24 implies #[trigger] txbuf@[j] == if j % 8 >= 8 - (i + 1) {
                led_data(r, g, b)[j]
            } else {
                0
            } by {
            if j % 8 == 7 - i {
                assert(j == k || j == k + 8 || j == k + 16);
            }
        }
        i = i + 1;
    }
    assert(txbuf@ =~= led_data(r, g, b));
    txbuf
}

/// Everything that goes on the SPI line for one colour: the reset lead, the
/// 24 colour bytes, then the latch tail.
pub open spec fn led_burst_data(txbuf: Seq<u8>) -> Seq<u8> {
    Seq::new(RESET_LEAD as nat, |i: int| 0u8) + txbuf + Seq::new(LATCH_TAIL as nat, |i: int| 0u8)
}

/// The bytes that send the colour bytes `txbuf` to the LED: one low byte,
/// the colour, then 100 low bytes.
pub fn led_burst(txbuf: &[u8; 24]) -> (burst: Vec<u8>)
    ensures
        burst@ == led_burst_data(txbuf@),
{
    let mut burst: Vec<u8> = Vec::new();
    let mut i: usize = 0;
    while i < RESET_LEAD
        invariant
            i <= RESET_LEAD,
            burst@ == Seq::new(i as nat, |k: int| 0u8),
        decreases RESET_LEAD - i,
    {
        burst.push(0);
        i = i + 1;
        assert(burst@ =~= Seq::new(i as nat, |k: int| 0u8));
    }
    let mut j: usize = 0;
    while j < 24
        invariant
            j <= 24,
            burst@ == Seq::new(RESET_LEAD as nat, |k: int| 0u8) + txbuf@.take(j as int),
        decreases 24 - j,
    {
        burst.push(txbuf[j]);
        j = j + 1;
        assert(burst@ =~= Seq::new(RESET_LEAD as nat, |k: int| 0u8) + txbuf@.take(j as int));
    }
    let ghost head = burst@;
    assert(txbuf@.take(24) =~= txbuf@);
    let mut k: usize = 0;
    while k < LATCH_TAIL
        invariant
            k <= LATCH_TAIL,
            head == Seq::new(RESET_LEAD as nat, |n: int| 0u8) + txbuf@,
            burst@ == head + Seq::new(k as nat, |n: int| 0u8),
        decreases LATCH_TAIL - k,
    {
        burst.push(0);
        k = k + 1;
        assert(burst@ =~= head + Seq::new(k as nat, |n: int| 0u8));
    }
    burst
}

/// Turns the LED off.
pub fn clear() -> (txbuf: [u8; 24])
    ensures
        txbuf@ == led_data(0, 0, 0),
{
    set_color(0, 0, 0)
}

/// Red.
pub fn red() -> (txbuf: [u8; 24])
    ensures
        txbuf@ == led_data(255, 0, 0),
{
    set_color(255, 0, 0)
}

/// Green.
pub fn green() -> (txbuf: [u8; 24])
    ensures
        txbuf@ == led_data(0, 255, 0),
{
    set_color(0, 255, 0)
}

/// Blue.
pub fn blue() -> (txbuf: [u8; 24])
    ensures
        txbuf@ == led_data(0, 0, 255),
{
    set_color(0, 0, 255)
}

/// Yellow.
pub fn yellow() -> (txbuf: [u8; 24])
    ensures
        txbuf@ == led_data(255, 255, 0),
{
    set_color(255, 255, 0)
}

/// Cyan.
pub fn cyan() -> (txbuf: [u8; 24])
    ensures
        txbuf@ == led_data(0, 255, 255),
{
    set_color(0, 255, 255)
}

/// Magenta.
pub fn magenta() -> (txbuf: [u8; 24])
    ensures
        txbuf@ == led_data(255, 0, 255),
{
    set_color(255, 0, 255)
}

/// White.
pub fn white() -> (txbuf: [u8; 24])
    ensures
        txbuf@ == led_data(255, 255, 255),
{
    set_color(255, 255, 255)
}


proof fn lemma_byte_from_bits(a: u8, b: u8)
    requires
        bit(a, 0) == bit(b, 0),
        bit(a, 1) == bit(b, 1),
        bit(a, 2) == bit(b, 2),
        bit(a, 3) == bit(b, 3),
        bit(a, 4) == bit(b, 4),
        bit(a, 5) == bit(b, 5),
        bit(a, 6) == bit(b, 6),
        bit(a, 7) == bit(b, 7),
    ensures
        a == b,
{
    assert(a == b) by (bit_vector)
        requires
            ((a >> 0) & 1 == 1) == ((b >> 0) & 1 == 1),
            ((a >> 1) & 1 == 1) == ((b >> 1) & 1 == 1),
            ((a >> 2) & 1 == 1) == ((b >> 2) & 1 == 1),
            ((a >> 3) & 1 == 1) == ((b >> 3) & 1 == 1),
            ((a >> 4) & 1 == 1) == ((b >> 4) & 1 == 1),
            ((a >> 5) & 1 == 1) == ((b >> 5) & 1 == 1),
            ((a >> 6) & 1 == 1) == ((b >> 6) & 1 == 1),
            ((a >> 7) & 1 == 1) == ((b >> 7) & 1 == 1),
    ;
}

proof fn lemma_channel_bits_equal(r1: u8, g1: u8, b1: u8, r2: u8, g2: u8, b2: u8, c: int)
    requires
        0 <= c < 3,
        led_data(r1, g1, b1) == led_data(r2, g2, b2),
    ensures
        channel(r1, g1, b1, c) == channel(r2, g2, b2, c),
{
    let x = channel(r1, g1, b1, c);
    let y = channel(r2, g2, b2, c);
    assert forall|k: u8| k < 8 implies bit(x, k) == bit(y, k) by {
        let j = 8 * c + 7 - k;
        assert(j / 8 == c && (7 - j % 8) as u8 == k);
        assert(0 <= j < 24);
        assert(led_data(r1, g1, b1)[j] == symbol(bit(x, k)));
        assert(led_data(r2, g2, b2)[j] == symbol(bit(y, k)));
    }
    assert(bit(x, 0) == bit(y, 0));
    assert(bit(x, 1) == bit(y, 1));
    assert(bit(x, 2) == bit(y, 2));
    assert(bit(x, 3) == bit(y, 3));
    assert(bit(x, 4) == bit(y, 4));
    assert(bit(x, 5) == bit(y, 5));
    assert(bit(x, 6) == bit(y, 6));
    assert(bit(x, 7) == bit(y, 7));
    lemma_byte_from_bits(x, y);
}

/// A colour frame is made of bit patterns only, and it names its colour:
/// two colours give the same 24 bytes only when they are the same colour.
pub proof fn lemma_led_data_determines_color(r1: u8, g1: u8, b1: u8, r2: u8, g2: u8, b2: u8)
    ensures
        led_data(r1, g1, b1).len() == 24,
        forall|j: int|
            0 <= j < 24 ==> #[trigger] led_data(r1, g1, b1)[j] == HIGH_LEVEL / 2
                || led_data(r1, g1, b1)[j] == LOW_LEVEL / 2,
        led_data(r1, g1, b1) == led_data(r2, g2, b2) ==> r1 == r2 && g1 == g2 && b1 == b2,
{
    if led_data(r1, g1, b1) == led_data(r2, g2, b2) {
        lemma_channel_bits_equal(r1, g1, b1, r2, g2, b2, 0);
        lemma_channel_bits_equal(r1, g1, b1, r2, g2, b2, 1);
        lemma_channel_bits_equal(r1, g1, b1, r2, g2, b2, 2);
    }
}


/// Each channel goes most significant bit first, green then red then blue:
/// byte `8 * c + 7 - k` of a colour is the one-bit pattern 0x78 exactly when
/// bit `k` of channel `c` (0 green, 1 red, 2 blue) is set, and the zero-bit
/// pattern 0x60 otherwise.
pub proof fn lemma_led_msb_first(r: u8, g: u8, b: u8, c: int, k: u8)
    requires
        0 <= c < 3,
        k < 8,
    ensures
        ({
            let x = if c == 0 {
                g
            } else if c == 1 {
                r
            } else {
                b
            };
            &&& led_data(r, g, b).len() == 24
            &&& led_data(r, g, b)[8 * c + 7 - k] == (if (x >> k) & 1 == 1 {
                0x78u8
            } else {
                0x60u8
            })
        }),
{
    let j = 8 * c + 7 - k;
    assert(j / 8 == c && (7 - j % 8) as u8 == k);
}

/// The burst for a colour is one zero byte, the 24 colour bytes in order,
/// then 100 zero bytes.
pub proof fn lemma_led_burst_layout(txbuf: Seq<u8>)
    requires
        txbuf.len() == 24,
    ensures
        led_burst_data(txbuf).len() == 125,
        led_burst_data(txbuf)[0] == 0,
        forall|j: int| 0 <= j < 24 ==> #[trigger] led_burst_data(txbuf)[1 + j] == txbuf[j],
        forall|j: int| 25 <= j < 125 ==> #[trigger] led_burst_data(txbuf)[j] == 0,
{
    let s = led_burst_data(txbuf);
    assert forall|j: int| 0 <= j < 24 implies #[trigger] s[1 + j] == txbuf[j] by {}
}

} // verus!
