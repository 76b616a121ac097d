use vstd::prelude::*;

use crate::usb::{spec_pack_report, GamepadReport};

verus! {

/// Rust's `/` on integers: the quotient rounded toward zero.
pub open spec fn trunc_div(a: int, b: int) -> int {
    if a >= 0 && b > 0 {
        a / b
    } else if a < 0 && b < 0 {
        (-a) / (-b)
    } else if a < 0 {
        -((-a) / b)
    } else {
        -(a / (-b))
    }
}

/// Linear re-mapping of `x` from `[in_min, in_max]` onto `[out_min, out_max]`.
pub open spec fn spec_map(x: int, in_min: int, in_max: int, out_min: int, out_max: int) -> int {
    trunc_div((x - in_min) * (out_max - out_min), in_max - in_min) + out_min
}

/// Dividing by a negative number negates the quotient of the division by
/// its absolute value, for Euclidean and for truncating division alike.
proof fn lemma_trunc_div_neg_divisor(a: int, b: int)
    requires
        b < 0,
    ensures
        a >= 0 ==> a / b == -(a / (-b)),
        a >= 0 ==> trunc_div(a, b) == a / b,
{
    if a >= 0 {
        assert(a / b == -(a / (-b))) by (nonlinear_arith)
            requires
                b < 0,
                a >= 0,
        ;
    }
}

/// Re-maps `x` linearly from `[in_min, in_max]` onto `[out_min, out_max]`,
/// rounding the quotient toward zero. The inputs must keep every step of the
/// computation inside `i32`.
pub fn map(x: i32, in_min: i32, in_max: i32, out_min: i32, out_max: i32) -> (r: i32)
    requires
        in_max != in_min,
        i32::MIN <= x - in_min <= i32::MAX,
        i32::MIN <= out_max - out_min <= i32::MAX,
        i32::MIN <= in_max - in_min <= i32::MAX,
        i32::MIN <= (x - in_min) * (out_max - out_min) <= i32::MAX,
        i32::MIN <= trunc_div((x - in_min) * (out_max - out_min), in_max - in_min) <= i32::MAX,
        i32::MIN <= spec_map(x as int, in_min as int, in_max as int, out_min as int, out_max as int) <= i32::MAX,
    ensures
        r == spec_map(x as int, in_min as int, in_max as int, out_min as int, out_max as int),
{
    let num: i32 = (x - in_min) * (out_max - out_min);
    let den: i32 = in_max - in_min;
    proof {
        if num == i32::MIN && den == -1 {
            assert(trunc_div(num as int, den as int) == 0x8000_0000);
        }
        if den < 0 {
            lemma_trunc_div_neg_divisor(num as int, den as int);
            lemma_trunc_div_neg_divisor(-num, den as int);
        }
    }
    let q: i32 = num / den;
    q + out_min
}

/// Lowest ADC reading of the X axis.
pub const AD_XMIN: i32 = 0;
/// Highest ADC reading of the X axis.
pub const AD_XMAX: i32 = 0xfc1;
/// Lowest ADC reading of the Y axis.
pub const AD_YMIN: i32 = 0;
/// Highest ADC reading of the Y axis.
pub const AD_YMAX: i32 = 0xfc1;

/// Hat released.
pub const HAT_N: u8 = 0x00;
/// Hat direction 1, in bits 2 to 5 of the hat byte.
pub const HAT_1: u8 = 0x04;
/// Hat direction 2, in bits 2 to 5 of the hat byte.
pub const HAT_2: u8 = 0x08;
/// Hat direction 3, in bits 2 to 5 of the hat byte.
pub const HAT_3: u8 = 0x0C;
/// Hat direction 4, in bits 2 to 5 of the hat byte.
pub const HAT_4: u8 = 0x10;
/// Hat direction 5, in bits 2 to 5 of the hat byte.
pub const HAT_5: u8 = 0x14;
/// Hat direction 6, in bits 2 to 5 of the hat byte.
pub const HAT_6: u8 = 0x18;
/// Hat direction 7, in bits 2 to 5 of the hat byte.
pub const HAT_7: u8 = 0x1C;
/// Hat direction 8, in bits 2 to 5 of the hat byte.
pub const HAT_8: u8 = 0x20;

/// The hat table for the four direction keys (`true` = pressed). It is a
/// deliberately irregular mapping: Up alone is direction 2, Right alone reads
/// as released, and combinations map as listed.
pub open spec fn spec_hat_lookup(up: bool, dn: bool, lf: bool, rg: bool) -> u8 {
    match (up, dn, lf, rg) {
        (true, true, true, false) => HAT_7,
        (true, true, false, true) => HAT_3,
        (true, false, true, false) => HAT_1,
        (true, false, true, true) => HAT_8,
        (true, false, false, false) => HAT_2,
        (true, false, false, true) => HAT_1,
        (false, true, true, false) => HAT_5,
        (false, true, true, true) => HAT_6,
        (false, true, false, false) => HAT_4,
        (false, true, false, true) => HAT_5,
        (false, false, true, true) => HAT_7,
        (false, false, true, false) => HAT_3,
        _ => HAT_N,
    }
}

/// Maps the pressed direction keys to a hat code.
pub fn hat_lookup(up: bool, dn: bool, lf: bool, rg: bool) -> (h: u8)
    ensures
        h == spec_hat_lookup(up, dn, lf, rg),
        h % 4 == 0 && h <= HAT_8,
        !up && !dn && !lf && !rg ==> h == HAT_N,
{
    match (up, dn, lf, rg) {
        (true, true, true, false) => HAT_7,
        (true, true, false, true) => HAT_3,
        (true, false, true, false) => HAT_1,
        (true, false, true, true) => HAT_8,
        (true, false, false, false) => HAT_2,
        (true, false, false, true) => HAT_1,
        (false, true, true, false) => HAT_5,
        (false, true, true, true) => HAT_6,
        (false, true, false, false) => HAT_4,
        (false, true, false, true) => HAT_5,
        (false, false, true, true) => HAT_7,
        (false, false, true, false) => HAT_3,
        _ => HAT_N,
    }
}

/// An empty function; calling it has no effect.
pub fn _unused() {
}

/// Sum of a run of ADC samples.
pub open spec fn sample_sum(s: Seq<u16>) -> int
    decreases s.len(),
{
    if s.len() == 0 {
        0
    } else {
        sample_sum(s.drop_last()) + s.last()
    }
}

/// Mean of the ten readings taken of one stick axis, rounded down.
pub fn sample_mean(samples: &[u16; 10]) -> (m: i32)
    ensures
        m == sample_sum(samples@) / 10,
        0 <= m <= 0xffff,
{
    let mut sum: u32 = 0;
    let mut i: usize = 0;
    while i < 10
        invariant
            0 <= i <= 10,
            samples@.len() == 10,
            sum == sample_sum(samples@.take(i as int)),
            sum <= 0xffff * i,
        decreases 10 - i,
    {
        proof {
            assert(samples@.take(i as int + 1).drop_last() =~= samples@.take(i as int));
        }
        sum = sum + samples[i] as u32;
        i = i + 1;
    }
    proof {
        assert(samples@.take(10) =~= samples@);
    }
    (sum / 10) as i32
}

/// `v` held inside `[lo, hi]`.
pub open spec fn spec_clamp(v: int, lo: int, hi: int) -> int {
    if v < lo {
        lo
    } else if v > hi {
        hi
    } else {
        v
    }
}

/// The axis byte of a mean ADC reading: the reading is held 10 counts inside
/// `[ad_min, ad_max]` and that span is mapped onto `0..=255`.
pub open spec fn spec_scale_axis(mean: int, ad_min: int, ad_max: int) -> int {
    let lo = ad_min + 10;
    let hi = ad_max - 10;
    spec_map(spec_clamp(mean, lo, hi), lo, hi, 0, 255)
}

/// On `[lo, hi]`, mapping onto `0..=255` stays in that range and keeps order.
proof fn lemma_map_byte(a: int, b: int, lo: int, hi: int)
    requires
        lo < hi,
        lo <= a <= b <= hi,
    ensures
        0 <= spec_map(a, lo, hi, 0, 255) <= spec_map(b, lo, hi, 0, 255) <= 255,
        spec_map(lo, lo, hi, 0, 255) == 0,
        spec_map(hi, lo, hi, 0, 255) == 255,
{
    let d = hi - lo;
    assert(0 <= (a - lo) * 255 <= (b - lo) * 255 <= d * 255) by (nonlinear_arith)
        requires
            lo <= a <= b <= hi,
            d == hi - lo,
    ;
    vstd::arithmetic::div_mod::lemma_div_is_ordered((a - lo) * 255, (b - lo) * 255, d);
    vstd::arithmetic::div_mod::lemma_div_is_ordered((b - lo) * 255, d * 255, d);
    vstd::arithmetic::div_mod::lemma_div_is_ordered(0, (a - lo) * 255, d);
    vstd::arithmetic::div_mod::lemma_div_by_multiple(255, d);
    assert(d * 255 == 255 * d) by (nonlinear_arith);
    assert(0int / d == 0) by (nonlinear_arith)
        requires
            d > 0,
    ;
    assert((lo - lo) * 255 == 0);
}

/// Scales the mean reading of one stick axis to its report byte.
pub fn scale_axis(mean: i32, ad_min: i32, ad_max: i32) -> (v: u8)
    requires
        ad_min + 10 < ad_max - 10,
        (ad_max - ad_min - 20) * 255 <= i32::MAX,
    ensures
        v == spec_scale_axis(mean as int, ad_min as int, ad_max as int),
{
    let lo: i32 = ad_min + 10;
    let hi: i32 = ad_max - 10;
    let held: i32 = if mean < lo {
        lo
    } else if mean > hi {
        hi
    } else {
        mean
    };
    proof {
        lemma_map_byte(held as int, held as int, lo as int, hi as int);
        assert(0 <= (held - lo) * 255 <= (hi - lo) * 255) by (nonlinear_arith)
            requires
                lo <= held <= hi,
        ;
        assert(0 <= trunc_div((held - lo) * (255 - 0), hi - lo) <= 255);
    }
    let m: i32 = map(held, lo, hi, 0, 255);
    m as u8
}

/// Stick scaling keeps the order of readings, stays within a byte, and sends
/// every reading at or below the lower margin to 0 and every one at or above
/// the upper margin to 255.
pub proof fn lemma_scale_axis_monotone(m1: int, m2: int, ad_min: int, ad_max: int)
    requires
        ad_min + 10 < ad_max - 10,
        m1 <= m2,
    ensures
        0 <= spec_scale_axis(m1, ad_min, ad_max) <= spec_scale_axis(m2, ad_min, ad_max) <= 255,
        m1 <= ad_min + 10 ==> spec_scale_axis(m1, ad_min, ad_max) == 0,
        m2 >= ad_max - 10 ==> spec_scale_axis(m2, ad_min, ad_max) == 255,
{
    let lo = ad_min + 10;
    let hi = ad_max - 10;
    lemma_map_byte(spec_clamp(m1, lo, hi), spec_clamp(m2, lo, hi), lo, hi);
}

/// `1` for a pressed button, `0` for a released one.
pub open spec fn bit(b: bool) -> int {
    if b {
        1
    } else {
        0
    }
}

/// The button bits of a report: Start, Mode, Back and Turbo in bits 0 to 3.
pub open spec fn spec_pack_buttons(st: bool, md: bool, bk: bool, tb: bool) -> int {
    bit(st) + 2 * bit(md) + 4 * bit(bk) + 8 * bit(tb)
}

/// Packs the four face buttons into the report's button bits.
pub fn pack_buttons(st: bool, md: bool, bk: bool, tb: bool) -> (b: u16)
    ensures
        b == spec_pack_buttons(st, md, bk, tb),
        b < 16,
        (b >> 0u16) & 1 == 1 <==> st,
        (b >> 1u16) & 1 == 1 <==> md,
        (b >> 2u16) & 1 == 1 <==> bk,
        (b >> 3u16) & 1 == 1 <==> tb,
{
    let mut b: u16 = 0;
    if st {
        b = b + 1;
    }
    if md {
        b = b + 2;
    }
    if bk {
        b = b + 4;
    }
    if tb {
        b = b + 8;
    }
    proof {
        lemma_low_bits(b);
    }
    b
}

/// The bits of a number below 16, read by shifting.
proof fn lemma_low_bits(b: u16)
    requires
        b < 16,
    ensures
        (b >> 0u16) & 1 == b % 2,
        (b >> 1u16) & 1 == (b / 2) % 2,
        (b >> 2u16) & 1 == (b / 4) % 2,
        (b >> 3u16) & 1 == (b / 8) % 2,
{
    assert((b >> 0u16) & 1 == b % 2) by (bit_vector);
    assert((b >> 1u16) & 1 == (b / 2) % 2) by (bit_vector);
    assert((b >> 2u16) & 1 == (b / 4) % 2) by (bit_vector);
    assert((b >> 3u16) & 1 == (b / 8) % 2) by (bit_vector);
}

/// Each face button owns one bit of the button word, whatever the others
/// do: Start bit 0, Mode bit 1, Back bit 2, Turbo bit 3. Pressing one button
/// adds exactly its own bit.
pub proof fn lemma_button_bits(st: bool, md: bool, bk: bool, tb: bool)
    ensures
        spec_pack_buttons(st, md, bk, tb) % 2 == 1 <==> st,
        (spec_pack_buttons(st, md, bk, tb) / 2) % 2 == 1 <==> md,
        (spec_pack_buttons(st, md, bk, tb) / 4) % 2 == 1 <==> bk,
        (spec_pack_buttons(st, md, bk, tb) / 8) % 2 == 1 <==> tb,
        0 <= spec_pack_buttons(st, md, bk, tb) < 16,
        spec_pack_buttons(true, md, bk, tb) == spec_pack_buttons(false, md, bk, tb) + 1,
        spec_pack_buttons(st, true, bk, tb) == spec_pack_buttons(st, false, bk, tb) + 2,
        spec_pack_buttons(st, md, true, tb) == spec_pack_buttons(st, md, false, tb) + 4,
        spec_pack_buttons(st, md, bk, true) == spec_pack_buttons(st, md, bk, false) + 8,
        spec_pack_buttons(false, false, false, false) == 0,
{
}

/// What one scan of the board reads: ten ADC readings per stick axis and the
/// eight keys (`true` = pressed, the pin reads low).
#[derive(Clone, Copy, Debug)]
pub struct GamepadInputs {
    pub x_samples: [u16; 10],
    pub y_samples: [u16; 10],
    pub up: bool,
    pub dn: bool,
    pub lf: bool,
    pub rg: bool,
    pub bk: bool,
    pub md: bool,
    pub st: bool,
    pub tb: bool,
}

/// The report that one scan gives.
pub open spec fn spec_build_report(i: GamepadInputs) -> GamepadReport {
    GamepadReport {
        x: spec_scale_axis(sample_sum(i.x_samples@) / 10, AD_XMIN as int, AD_XMAX as int) as u8,
        y: spec_scale_axis(sample_sum(i.y_samples@) / 10, AD_YMIN as int, AD_YMAX as int) as u8,
        rx: 128,
        ry: 128,
        z: 128,
        buttons: spec_pack_buttons(i.st, i.md, i.bk, i.tb) as u16,
        hat: spec_hat_lookup(i.up, i.dn, i.lf, i.rg),
    }
}

/// Builds the report of one scan: averaged and scaled stick, centred
/// Rx/Ry/Z, the four face buttons and the hat of the direction keys.
pub fn build_report(inputs: &GamepadInputs) -> (r: GamepadReport)
    ensures
        r == spec_build_report(*inputs),
        r.hat == spec_hat_lookup(inputs.up, inputs.dn, inputs.lf, inputs.rg),
        r.buttons == spec_pack_buttons(inputs.st, inputs.md, inputs.bk, inputs.tb),
        r.x == spec_scale_axis(sample_sum(inputs.x_samples@) / 10, AD_XMIN as int, AD_XMAX as int),
        r.y == spec_scale_axis(sample_sum(inputs.y_samples@) / 10, AD_YMIN as int, AD_YMAX as int),
        r.rx == 128 && r.ry == 128 && r.z == 128,
{
    let xm = sample_mean(&inputs.x_samples);
    let ym = sample_mean(&inputs.y_samples);
    let x = scale_axis(xm, AD_XMIN, AD_XMAX);
    let y = scale_axis(ym, AD_YMIN, AD_YMAX);
    let hat = hat_lookup(inputs.up, inputs.dn, inputs.lf, inputs.rg);
    let buttons = pack_buttons(inputs.st, inputs.md, inputs.bk, inputs.tb);
    GamepadReport { x, y, rx: 128, ry: 128, z: 128, buttons, hat }
}

/// One poll: the report to remember and the report to send, if any. A report
/// goes out only when it differs from the last one.
pub open spec fn spec_poll(last: GamepadReport, now: GamepadReport) -> (GamepadReport, Option<GamepadReport>) {
    if now != last {
        (now, Some(now))
    } else {
        (last, None)
    }
}

/// The report-on-change state of the gamepad task: the last report handed
/// to the USB side.
pub struct GamepadPoller {
    last: GamepadReport,
}

impl GamepadPoller {
    /// The last report handed to the USB side.
    pub closed spec fn last_sent(&self) -> GamepadReport {
        self.last
    }

    /// A poller that starts from the neutral report.
    pub fn new() -> (p: GamepadPoller)
        ensures
            p.last_sent() == GamepadReport::spec_neutral(),
    {
        GamepadPoller { last: GamepadReport::neutral() }
    }

    /// Turns one scan into a report, and returns it when it differs from the
    /// last report sent.
    pub fn poll(&mut self, inputs: &GamepadInputs) -> (sent: Option<GamepadReport>)
        ensures
            (final(self).last_sent(), sent) == spec_poll(old(self).last_sent(), spec_build_report(*inputs)),
            final(self).last_sent() == spec_build_report(*inputs),
            sent matches Some(r) ==> r == spec_build_report(*inputs),
            sent is None <==> spec_build_report(*inputs) == old(self).last_sent(),
    {
        let now = build_report(inputs);
        if now != self.last {
            self.last = now;
            Some(now)
        } else {
            None
        }
    }
}

/// After a poll the remembered report is the report just built, whether it
/// was sent or not; a report goes out exactly when it differs from the last
/// one, and what goes out is the report just built, unchanged.
pub proof fn lemma_poll_remembers(last: GamepadReport, now: GamepadReport)
    ensures
        spec_poll(last, now).0 == now,
        spec_poll(last, now).1 is None <==> now == last,
        spec_poll(last, now).1 matches Some(r) ==> r == now && r != last,
        now != last ==> spec_poll(last, now).1 == Some(now),
{
}

/// The hat of a scan's report comes from the direction keys alone, read as
/// (Up, Down, Left, Right) by the hat table, whatever the stick and the face
/// buttons do. A single key held alone gives: Up direction 2, Down 4, Left 3,
/// and Right reads as released, as does no key at all.
pub proof fn lemma_report_hat(i: GamepadInputs)
    ensures
        spec_build_report(i).hat == spec_hat_lookup(i.up, i.dn, i.lf, i.rg),
        i.up && !i.dn && !i.lf && !i.rg ==> spec_build_report(i).hat == HAT_2,
        !i.up && i.dn && !i.lf && !i.rg ==> spec_build_report(i).hat == HAT_4,
        !i.up && !i.dn && i.lf && !i.rg ==> spec_build_report(i).hat == HAT_3,
        !i.up && !i.dn && !i.lf && i.rg ==> spec_build_report(i).hat == HAT_N,
        !i.up && !i.dn && !i.lf && !i.rg ==> spec_build_report(i).hat == HAT_N,
        i.up && !i.dn && i.lf && !i.rg ==> spec_build_report(i).hat == HAT_1,
        !i.up && i.dn && i.lf && !i.rg ==> spec_build_report(i).hat == HAT_5,
        i.up && i.dn && i.lf && !i.rg ==> spec_build_report(i).hat == HAT_7,
        i.up && i.dn && !i.lf && i.rg ==> spec_build_report(i).hat == HAT_3,
        i.up && !i.dn && i.lf && i.rg ==> spec_build_report(i).hat == HAT_8,
        i.up && !i.dn && !i.lf && i.rg ==> spec_build_report(i).hat == HAT_1,
        !i.up && i.dn && i.lf && i.rg ==> spec_build_report(i).hat == HAT_6,
        !i.up && i.dn && !i.lf && i.rg ==> spec_build_report(i).hat == HAT_5,
        !i.up && !i.dn && i.lf && i.rg ==> spec_build_report(i).hat == HAT_7,
        i.up && i.dn && !i.lf && !i.rg ==> spec_build_report(i).hat == HAT_N,
        i.up && i.dn && i.lf && i.rg ==> spec_build_report(i).hat == HAT_N,
{
}

/// Re-mapping sends the ends of the input range to the ends of the output
/// range.
pub proof fn lemma_map_ends(in_min: int, in_max: int, out_min: int, out_max: int)
    requires
        in_min != in_max,
    ensures
        spec_map(in_min, in_min, in_max, out_min, out_max) == out_min,
        spec_map(in_max, in_min, in_max, out_min, out_max) == out_max,
{
    let n = out_max - out_min;
    let d = in_max - in_min;
    assert(0int * n == 0);
    assert(trunc_div(0, d) == 0) by {
        if d < 0 {
            assert(0int / (-d) == 0) by (nonlinear_arith)
                requires
                    d < 0,
            ;
        } else {
            assert(0int / d == 0) by (nonlinear_arith)
                requires
                    d > 0,
            ;
        }
    }
    assert(trunc_div(d * n, d) == n) by {
        if d > 0 && n >= 0 {
            vstd::arithmetic::div_mod::lemma_div_by_multiple(n, d);
            assert(d * n == n * d) by (nonlinear_arith);
        } else if d > 0 {
            assert(d * n < 0) by (nonlinear_arith)
                requires
                    d > 0,
                    n < 0,
            ;
            vstd::arithmetic::div_mod::lemma_div_by_multiple(-n, d);
            assert(-(d * n) == (-n) * d) by (nonlinear_arith);
        } else if n > 0 {
            assert(d * n < 0) by (nonlinear_arith)
                requires
                    d < 0,
                    n > 0,
            ;
            vstd::arithmetic::div_mod::lemma_div_by_multiple(n, -d);
            assert(-(d * n) == n * (-d)) by (nonlinear_arith);
        } else if n == 0 {
            assert(d * n == 0) by (nonlinear_arith)
                requires
                    n == 0,
            ;
            assert(0int / (-d) == 0) by (nonlinear_arith)
                requires
                    d < 0,
            ;
        } else {
            assert(d * n > 0) by (nonlinear_arith)
                requires
                    d < 0,
                    n < 0,
            ;
            vstd::arithmetic::div_mod::lemma_div_by_multiple(-n, -d);
            assert(d * n == (-n) * (-d)) by (nonlinear_arith);
        }
    }
}

/// Ten equal readings average to that reading.
pub proof fn lemma_mean_of_equal_samples(s: Seq<u16>, v: u16)
    requires
        s.len() == 10,
        forall|k: int| 0 <= k < 10 ==> s[k] == v,
    ensures
        sample_sum(s) / 10 == v,
{
    lemma_sum_of_equal(s, v);
}

proof fn lemma_sum_of_equal(s: Seq<u16>, v: u16)
    requires
        forall|k: int| 0 <= k < s.len() ==> s[k] == v,
    ensures
        sample_sum(s) == s.len() * v,
    decreases s.len(),
{
    if s.len() > 0 {
        lemma_sum_of_equal(s.drop_last(), v);
        assert(s.len() * v == (s.len() - 1) * v + v) by (nonlinear_arith);
    }
}

/// The buttons of a scan's report are its face buttons, each in its own bit,
/// and Rx, Ry and Z stay centred.
pub proof fn lemma_report_buttons(i: GamepadInputs)
    ensures
        spec_build_report(i).buttons % 2 == 1 <==> i.st,
        (spec_build_report(i).buttons / 2) % 2 == 1 <==> i.md,
        (spec_build_report(i).buttons / 4) % 2 == 1 <==> i.bk,
        (spec_build_report(i).buttons / 8) % 2 == 1 <==> i.tb,
        spec_build_report(i).buttons < 16,
        spec_build_report(i).rx == 128 && spec_build_report(i).ry == 128 && spec_build_report(i).z == 128,
{
}

/// Polling twice with the same scan sends at most one report: the second
/// poll is silent and changes nothing.
pub proof fn lemma_poll_idempotent(last: GamepadReport, now: GamepadReport)
    ensures
        spec_poll(spec_poll(last, now).0, now).1 is None,
        spec_poll(spec_poll(last, now).0, now).0 == spec_poll(last, now).0,
{
}

/// Period of the scan loop, in ms.
pub const POLL_PERIOD_MS: u64 = 5;

/// The packed report of a scan carries what was scanned: the four buttons
/// whole in byte 5, and in byte 6 a hat code whose direction (the byte over
/// 4) is 0 for released or 1 to 8, with the two button bits below it clear.
pub proof fn lemma_packed_scan(i: GamepadInputs)
    ensures
        spec_pack_report(spec_build_report(i))[5] == spec_pack_buttons(i.st, i.md, i.bk, i.tb),
        spec_pack_report(spec_build_report(i))[6] % 4 == 0,
        spec_pack_report(spec_build_report(i))[6] / 4 <= 8,
        spec_pack_report(spec_build_report(i))[1] == spec_scale_axis(
            sample_sum(i.x_samples@) / 10,
            AD_XMIN as int,
            AD_XMAX as int,
        ),
        spec_pack_report(spec_build_report(i))[0] == spec_scale_axis(
            sample_sum(i.y_samples@) / 10,
            AD_YMIN as int,
            AD_YMAX as int,
        ),
{
    lemma_scale_axis_monotone(sample_sum(i.x_samples@) / 10, sample_sum(i.x_samples@) / 10, AD_XMIN as int, AD_XMAX as int);
    lemma_scale_axis_monotone(sample_sum(i.y_samples@) / 10, sample_sum(i.y_samples@) / 10, AD_YMIN as int, AD_YMAX as int);
}

} // verus!
