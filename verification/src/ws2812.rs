use vstd::prelude::*;

verus! {

/// Compare value of the PWM channel that sends a 1 bit.
pub const WS_HIGH: u16 = 57;

/// Compare value of the PWM channel that sends a 0 bit.
pub const WS_LOW: u16 = 22;

/// Period of the rainbow animation, in ms.
pub const RAINBOW_PERIOD_MS: u64 = 100;

/// A colour of the WS2812B LED, one byte per channel.
#[derive(Clone, Copy, Debug, PartialEq, Eq, Structural)]
pub struct Rgb8 {
    pub r: u8,
    pub g: u8,
    pub b: u8,
}

impl Rgb8 {
    pub fn new(r: u8, g: u8, b: u8) -> (c: Rgb8)
        ensures
            c == (Rgb8 { r, g, b }),
    {
        Rgb8 { r, g, b }
    }
}

/// The colour at `pos` on the colour wheel: red, through blue and green,
/// back to red.
pub open spec fn spec_wheel(pos: u8) -> Rgb8 {
    let p: int = 255 - pos;
    if p < 85 {
        Rgb8 { r: (255 - p * 3) as u8, g: 0, b: (p * 3) as u8 }
    } else if p < 170 {
        let q = p - 85;
        Rgb8 { r: 0, g: (q * 3) as u8, b: (255 - q * 3) as u8 }
    } else {
        let q = p - 170;
        Rgb8 { r: (q * 3) as u8, g: (255 - q * 3) as u8, b: 0 }
    }
}

/// The colour at `wheel_pos` on the colour wheel.
pub fn wheel(wheel_pos: u8) -> (c: Rgb8)
    ensures
        c == spec_wheel(wheel_pos),
{
    let wheel_pos: u8 = 255 - wheel_pos;
    if wheel_pos < 85 {
        Rgb8::new(255 - wheel_pos * 3, 0, wheel_pos * 3)
    } else if wheel_pos < 170 {
        let wheel_pos: u8 = wheel_pos - 85;
        Rgb8::new(0, wheel_pos * 3, 255 - wheel_pos * 3)
    } else {
        let wheel_pos: u8 = wheel_pos - 170;
        Rgb8::new(wheel_pos * 3, 255 - wheel_pos * 3, 0)
    }
}

/// Every colour of the wheel has full brightness, `r + g + b == 255`, and at
/// least one channel dark.
pub proof fn lemma_wheel_brightness(pos: u8)
    ensures
        spec_wheel(pos).r + spec_wheel(pos).g + spec_wheel(pos).b == 255,
        spec_wheel(pos).r == 0 || spec_wheel(pos).g == 0 || spec_wheel(pos).b == 0,
{
}

/// The wheel runs red to green over positions 0 to 85, green to blue over 85
/// to 170, and blue back to red over 170 to 255, three steps of brightness
/// per position.
pub proof fn lemma_wheel_thirds(pos: u8)
    ensures
        pos <= 85 ==> spec_wheel(pos) == (Rgb8 { r: (255 - 3 * pos) as u8, g: (3 * pos) as u8, b: 0 }),
        85 <= pos <= 170 ==> spec_wheel(pos) == (Rgb8 { r: 0, g: (255 - 3 * (pos - 85)) as u8, b: (3 * (pos - 85)) as u8 }),
        170 <= pos ==> spec_wheel(pos) == (Rgb8 { r: (3 * (pos - 170)) as u8, g: 0, b: (255 - 3 * (pos - 170)) as u8 }),
{
}

/// `a` and `b` differ by at most `d`.
pub open spec fn close(a: u8, b: u8, d: int) -> bool {
    -d <= a - b <= d
}

/// The rainbow is smooth: from one wheel position to the next, the last one
/// wrapping to the first, no channel moves by more than 3.
pub proof fn lemma_wheel_smooth(pos: u8)
    ensures
        close(spec_wheel(pos).r, spec_wheel(((pos + 1) % 256) as u8).r, 3),
        close(spec_wheel(pos).g, spec_wheel(((pos + 1) % 256) as u8).g, 3),
        close(spec_wheel(pos).b, spec_wheel(((pos + 1) % 256) as u8).b, 3),
{
    let next: u8 = ((pos + 1) % 256) as u8;
    if pos == 255 {
        assert(next == 0);
        assert(spec_wheel(pos) == Rgb8 { r: 255, g: 0, b: 0 });
        assert(spec_wheel(next) == Rgb8 { r: 255, g: 0, b: 0 });
    } else {
        assert(next == pos + 1);
        let p: int = 255 - pos;
        if p < 85 {
            assert(spec_wheel(next) == Rgb8 { r: (255 - (p - 1) * 3) as u8, g: 0, b: ((p - 1) * 3) as u8 });
        } else if p == 85 {
            assert(spec_wheel(pos) == Rgb8 { r: 0, g: 0, b: 255 });
            assert(spec_wheel(next) == Rgb8 { r: 3, g: 0, b: 252 });
        } else if p < 170 {
            assert(spec_wheel(next) == Rgb8 { r: 0, g: ((p - 86) * 3) as u8, b: (255 - (p - 86) * 3) as u8 });
        } else if p == 170 {
            assert(spec_wheel(pos) == Rgb8 { r: 0, g: 255, b: 0 });
            assert(spec_wheel(next) == Rgb8 { r: 0, g: 252, b: 3 });
        } else {
            assert(spec_wheel(next) == Rgb8 { r: ((p - 171) * 3) as u8, g: (255 - (p - 171) * 3) as u8, b: 0 });
        }
    }
}

/// One tick of the rainbow: the colour to show at position `j`, and the next
/// position, which wraps from 255 to 0.
pub fn rainbow_step(j: u8) -> (out: (Rgb8, u8))
    ensures
        out.0 == spec_wheel(j),
        out.1 == (j + 1) % 256,
{
    (wheel(j), j.wrapping_add(1))
}

/// The channel byte that the bit at `i` of a frame comes from: green, red,
/// then blue.
pub open spec fn frame_byte(c: Rgb8, i: int) -> u8 {
    if i < 8 {
        c.g
    } else if i < 16 {
        c.r
    } else {
        c.b
    }
}

/// Whether the bit at `i` of a frame is set: bits go out most significant
/// first.
pub open spec fn frame_bit(c: Rgb8, i: int) -> bool {
    (frame_byte(c, i) >> ((7 - i % 8) as u8)) & 1u8 == 1u8
}

/// The compare values that send colour `c` to the LED: 24 bits, green, red,
/// blue, most significant bit first, then 0 to end the frame.
pub open spec fn spec_pixel_duties(c: Rgb8) -> Seq<u16> {
    Seq::new(24, |i: int| if frame_bit(c, i) { WS_HIGH } else { WS_LOW }).push(0u16)
}

/// The sequence of compare values that writes one pixel of colour `c`.
pub fn pixel_duties(c: Rgb8) -> (d: Vec<u16>)
    ensures
        d@ == spec_pixel_duties(c),
        d@.len() == 25,
        d@[24] == 0,
        forall|i: int| 0 <= i < 24 ==> (d@[i] == WS_HIGH || d@[i] == WS_LOW),
        forall|i: int| 0 <= i < 24 ==> (#[trigger] d@[i] == WS_HIGH <==> frame_bit(c, i)),
{
    let mut d: Vec<u16> = Vec::new();
    let mut i: usize = 0;
    while i < 24
        invariant
            0 <= i <= 24,
            d@.len() == i,
            forall|k: int| 0 <= k < i ==> d@[k] == (if frame_bit(c, k) { WS_HIGH } else { WS_LOW }),
        decreases 24 - i,
    {
        let byte: u8 = if i < 8 {
            c.g
        } else if i < 16 {
            c.r
        } else {
            c.b
        };
        let shift: u8 = (7 - i % 8) as u8;
        let duty: u16 = if (byte >> shift) & 1 == 1 {
            WS_HIGH
        } else {
            WS_LOW
        };
        d.push(duty);
        i = i + 1;
    }
    d.push(0);
    proof {
        assert(d@ =~= spec_pixel_duties(c));
    }
    d
}

/// A pixel frame is 24 pulses and a closing 0: each pulse is `WS_HIGH` for a
/// set bit and `WS_LOW` for a clear one, nothing else, so every bit of the
/// colour is sent as a pulse.
pub proof fn lemma_pixel_frame_values(c: Rgb8)
    ensures
        spec_pixel_duties(c).len() == 25,
        spec_pixel_duties(c)[24] == 0,
        forall|i: int| 0 <= i < 24 ==> (#[trigger] spec_pixel_duties(c)[i] == WS_HIGH || spec_pixel_duties(c)[i] == WS_LOW),
        forall|i: int| 0 <= i < 24 ==> (#[trigger] spec_pixel_duties(c)[i] == WS_HIGH <==> frame_bit(c, i)),
        forall|i: int| 0 <= i < 24 ==> (#[trigger] spec_pixel_duties(c)[i] == WS_LOW <==> !frame_bit(c, i)),
        forall|i: int| 0 <= i < 24 ==> #[trigger] spec_pixel_duties(c)[i] != 0,
{
}

/// The value that the LED reads from the eight compare values of `f` that
/// start at `start`: a `WS_HIGH` is a 1 bit, most significant bit first.
pub open spec fn read_byte(f: Seq<u16>, start: int) -> int {
    (if f[start] == WS_HIGH { 128int } else { 0 }) + (if f[start + 1] == WS_HIGH { 64int } else { 0 })
        + (if f[start + 2] == WS_HIGH { 32int } else { 0 }) + (if f[start + 3] == WS_HIGH { 16int } else { 0 })
        + (if f[start + 4] == WS_HIGH { 8int } else { 0 }) + (if f[start + 5] == WS_HIGH { 4int } else { 0 })
        + (if f[start + 6] == WS_HIGH { 2int } else { 0 }) + (if f[start + 7] == WS_HIGH { 1int } else { 0 })
}

/// The colour that the LED takes from a frame: green, red, blue.
pub open spec fn read_frame(f: Seq<u16>) -> Rgb8 {
    Rgb8 { r: read_byte(f, 8) as u8, g: read_byte(f, 0) as u8, b: read_byte(f, 16) as u8 }
}

proof fn lemma_byte_from_bits(b: u8)
    ensures
        b == (if (b >> 7u8) & 1u8 == 1u8 { 128int } else { 0 }) + (if (b >> 6u8) & 1u8 == 1u8 { 64int } else { 0 })
            + (if (b >> 5u8) & 1u8 == 1u8 { 32int } else { 0 }) + (if (b >> 4u8) & 1u8 == 1u8 { 16int } else { 0 })
            + (if (b >> 3u8) & 1u8 == 1u8 { 8int } else { 0 }) + (if (b >> 2u8) & 1u8 == 1u8 { 4int } else { 0 })
            + (if (b >> 1u8) & 1u8 == 1u8 { 2int } else { 0 }) + (if (b >> 0u8) & 1u8 == 1u8 { 1int } else { 0 }),
{
    assert(b == (if (b >> 7u8) & 1u8 == 1u8 { 128u8 } else { 0u8 }) + (if (b >> 6u8) & 1u8 == 1u8 { 64u8 } else { 0u8 })
        + (if (b >> 5u8) & 1u8 == 1u8 { 32u8 } else { 0u8 }) + (if (b >> 4u8) & 1u8 == 1u8 { 16u8 } else { 0u8 })
        + (if (b >> 3u8) & 1u8 == 1u8 { 8u8 } else { 0u8 }) + (if (b >> 2u8) & 1u8 == 1u8 { 4u8 } else { 0u8 })
        + (if (b >> 1u8) & 1u8 == 1u8 { 2u8 } else { 0u8 }) + (if (b >> 0u8) & 1u8 == 1u8 { 1u8 } else { 0u8 })) by (bit_vector);
}

proof fn lemma_frame_entry(c: Rgb8, start: int, k: int)
    requires
        start == 0 || start == 8 || start == 16,
        0 <= k < 8,
    ensures
        (spec_pixel_duties(c)[start + k] == WS_HIGH) == ((frame_byte(c, start) >> ((7 - k) as u8)) & 1u8 == 1u8),
{
    assert(frame_byte(c, start + k) == frame_byte(c, start));
    assert((start + k) % 8 == k);
}

proof fn lemma_read_channel(c: Rgb8, start: int)
    requires
        start == 0 || start == 8 || start == 16,
    ensures
        read_byte(spec_pixel_duties(c), start) == frame_byte(c, start),
{
    let f = spec_pixel_duties(c);
    let b = frame_byte(c, start);
    lemma_byte_from_bits(b);
    lemma_frame_entry(c, start, 0);
    lemma_frame_entry(c, start, 1);
    lemma_frame_entry(c, start, 2);
    lemma_frame_entry(c, start, 3);
    lemma_frame_entry(c, start, 4);
    lemma_frame_entry(c, start, 5);
    lemma_frame_entry(c, start, 6);
    lemma_frame_entry(c, start, 7);
    assert(f[start] == WS_HIGH <==> (b >> 7u8) & 1u8 == 1u8);
    assert(f[start + 1] == WS_HIGH <==> (b >> 6u8) & 1u8 == 1u8);
    assert(f[start + 2] == WS_HIGH <==> (b >> 5u8) & 1u8 == 1u8);
    assert(f[start + 3] == WS_HIGH <==> (b >> 4u8) & 1u8 == 1u8);
    assert(f[start + 4] == WS_HIGH <==> (b >> 3u8) & 1u8 == 1u8);
    assert(f[start + 5] == WS_HIGH <==> (b >> 2u8) & 1u8 == 1u8);
    assert(f[start + 6] == WS_HIGH <==> (b >> 1u8) & 1u8 == 1u8);
    assert(f[start + 7] == WS_HIGH <==> (b >> 0u8) & 1u8 == 1u8);
}

/// The frame of a pixel carries its colour: an LED that reads the frame back
/// takes exactly colour `c`.
pub proof fn lemma_pixel_frame_round_trip(c: Rgb8)
    ensures
        read_frame(spec_pixel_duties(c)) == c,
        spec_pixel_duties(c).len() == 25,
        spec_pixel_duties(c).last() == 0,
{
    lemma_read_channel(c, 0);
    lemma_read_channel(c, 8);
    lemma_read_channel(c, 16);
}

} // verus!
