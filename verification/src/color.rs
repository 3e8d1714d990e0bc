//! From a finished colour to the bytes of an image.
//!
//! A colour arrives here averaged over its samples and gamma-corrected. Each
//! channel is clamped to `[0, 0.999]`, scaled by 256 and cut off to a whole
//! number, which gives a level from 0 to 255. The levels are written in the
//! portable pixmap format, as decimal text or as raw bytes.
use vstd::prelude::*;
use vstd::arithmetic::power2::pow2;
use vstd::arithmetic::power2::lemma_pow2_pos;
use vstd::arithmetic::power2::lemma_pow2_adds;
use vstd::arithmetic::power2::lemma_pow2_strictly_increases;
use vstd::arithmetic::power2::lemma2_to64_rest;
use vstd::arithmetic::div_mod::lemma_basic_div;
use vstd::arithmetic::div_mod::lemma_div_is_ordered;
use vstd::arithmetic::div_mod::lemma_fundamental_div_mod;
use vstd::arithmetic::div_mod::lemma_mod_bound;
use vstd::arithmetic::div_mod::lemma_div_multiples_vanish_quotient;
use vstd::bits::lemma_u64_shr_is_div;
use crate::scalar::clamp;
use crate::scalar::lemma_rank_orders_values;
use crate::scalar::Scalar;
use crate::scalar::FRACTION_SPAN;
use crate::vec3::Vec3;

verus! {

/// The encoding of `0.999`, the largest channel value that is kept.
pub const CEILING_BITS: u64 = 0x3fef_f7ce_d916_872b;

/// The level of a channel: 256 times the value clamped to `[0, 0.999]`,
/// without its fractional part. A NaN has level 0.
///
/// A value is `quanta * 2^-1074`, so 256 times the value is
/// `quanta / 2^1066`.
pub open spec fn quantize_spec(channel: Scalar) -> int {
    if channel.nan() {
        0
    } else {
        channel.clamp_spec(Scalar { bits: 0 }, Scalar { bits: CEILING_BITS }).quanta() / (pow2(
            1066,
        ) as int)
    }
}

/// The ceiling is the binary64 number nearest to `999 / 1000`: numbers of its
/// size are `2^1021` units apart (a unit being `2^-1074`), and it misses
/// `999 / 1000` by eight thousandths of that.
pub proof fn lemma_ceiling_is_nearest()
    ensures
        (Scalar { bits: CEILING_BITS }).shift() == 1021,
        1000 * (Scalar { bits: CEILING_BITS }).quanta() - 999 * pow2(1074) == -8 * pow2(1021),
{
    let c = Scalar { bits: CEILING_BITS };
    let gap = pow2(1021) as int;
    assert(c.exponent() == 1022 && c.significand() == 0x1f_f7ce_d916_872b);
    lemma_pow2_adds(53, 1021);
    lemma2_to64_rest();
    assert(pow2(1074) == 0x20_0000_0000_0000 * gap);
    assert(1000 * (0x1f_f7ce_d916_872b * gap) - 999 * (0x20_0000_0000_0000 * gap) == -8 * gap)
        by (nonlinear_arith);
}

proof fn lemma_pow2_of_45()
    ensures
        pow2(45) == 0x2000_0000_0000,
{
    lemma_pow2_adds(32, 13);
    vstd::arithmetic::power2::lemma2_to64();
    lemma2_to64_rest();
}

/// The level of a number between zero and `0.999`, read off its encoding:
/// below `2^-8` it is zero, and from there on it is the significand without
/// its lowest `1067 - exponent` bits.
proof fn lemma_level_of_clamped(c: Scalar)
    requires
        c.magnitude() <= CEILING_BITS,
        c.sign_negative() ==> c.magnitude() == 0,
    ensures
        c.exponent() < 1015 ==> c.quanta() / (pow2(1066) as int) == 0,
        1015 <= c.exponent() ==> c.exponent() <= 1022 && c.quanta() / (pow2(1066) as int)
            == c.significand() / (pow2((1067 - c.exponent()) as nat) as int),
        0 <= c.quanta() / (pow2(1066) as int) <= 255,
{
    let e = c.exponent();
    let f = c.fraction();
    let sig = c.significand();
    lemma2_to64_rest();
    lemma_pow2_pos(1066);
    assert(0 <= e <= 1022 && 0 <= f < FRACTION_SPAN);
    if e == 0 {
        assert(c.quanta() == sig * pow2(0) || c.quanta() == -(sig * pow2(0)));
        assert(pow2(0) == 1) by {
            vstd::arithmetic::power2::lemma2_to64();
        }
        assert(sig * pow2(0) == sig) by (nonlinear_arith)
            requires
                pow2(0) == 1,
        ;
        assert(c.quanta() == f);
        lemma_pow2_strictly_increases(52, 1066);
        lemma_basic_div(f, pow2(1066) as int);
    } else {
        let low = (e - 1) as nat;
        let high = (1067 - e) as nat;
        let p = pow2(low) as int;
        let q = pow2(high) as int;
        lemma_pow2_pos(low);
        lemma_pow2_pos(high);
        lemma_pow2_adds(low, high);
        assert(pow2(1066) == p * q);
        assert(c.quanta() == sig * p);
        assert(sig * p == p * sig) by (nonlinear_arith);
        lemma_div_multiples_vanish_quotient(p, sig, q);
        assert(c.quanta() / (pow2(1066) as int) == sig / q);
        if e < 1015 {
            if high > 53 {
                lemma_pow2_strictly_increases(53, high);
            }
            assert(sig < pow2(53));
            lemma_basic_div(sig, q);
        } else {
            if high > 45 {
                lemma_pow2_strictly_increases(45, high);
            }
            lemma_pow2_of_45();
            assert(0 <= sig / q < 256) by (nonlinear_arith)
                requires
                    0 <= sig < 0x20_0000_0000_0000,
                    q >= 0x2000_0000_0000,
            ;
        }
    }
}

/// Levels stay between 0 and 255 and saturate at both ends: every channel at
/// or below zero, and a NaN, has level 0, and every channel from `0.999`
/// upwards, so also `1.0` and infinity, has level 255.
pub proof fn lemma_quantize_saturates(channel: Scalar)
    ensures
        0 <= quantize_spec(channel) <= 255,
        channel.nan() || channel.le_spec(Scalar { bits: 0 }) ==> quantize_spec(channel) == 0,
        (Scalar { bits: CEILING_BITS }).le_spec(channel) ==> quantize_spec(channel) == 255,
{
    if !channel.nan() {
        let c = channel.clamp_spec(Scalar { bits: 0 }, Scalar { bits: CEILING_BITS });
        lemma_level_of_clamped(c);
        if (Scalar { bits: CEILING_BITS }).le_spec(channel) {
            assert(c.magnitude() == CEILING_BITS);
            assert(c.exponent() == 1022);
            assert(c.significand() == 0x1f_f7ce_d916_872b);
            lemma_pow2_of_45();
            assert(pow2((1067 - c.exponent()) as nat) == pow2(45));
            assert(0x1f_f7ce_d916_872bint / 0x2000_0000_0000int == 255);
            assert(c.quanta() / (pow2(1066) as int) == 255);
        }
        if channel.le_spec(Scalar { bits: 0 }) {
            assert(c.magnitude() == 0);
        }
    }
}

/// What a level means: a channel of level `n` has, once clamped, a value of
/// at least `n / 256` and less than `(n + 1) / 256`. With the value counted
/// in units of `2^-1074`, `1 / 256` is `2^1066` units.
pub proof fn lemma_quantize_brackets_value(channel: Scalar)
    requires
        !channel.nan(),
    ensures
        ({
            let clamped = channel.clamp_spec(Scalar { bits: 0 }, Scalar { bits: CEILING_BITS });
            let level = quantize_spec(channel);
            level * pow2(1066) <= clamped.quanta() < (level + 1) * pow2(1066)
        }),
{
    let clamped = channel.clamp_spec(Scalar { bits: 0 }, Scalar { bits: CEILING_BITS });
    let step = pow2(1066) as int;
    lemma_pow2_pos(1066);
    lemma_fundamental_div_mod(clamped.quanta(), step);
    lemma_mod_bound(clamped.quanta(), step);
    assert(quantize_spec(channel) * step == step * quantize_spec(channel)) by (nonlinear_arith);
    assert((quantize_spec(channel) + 1) * step == step * quantize_spec(channel) + step)
        by (nonlinear_arith);
}

/// A brighter channel never gets a lower level.
pub proof fn lemma_quantize_monotone(dim: Scalar, bright: Scalar)
    requires
        dim.le_spec(bright),
    ensures
        quantize_spec(dim) <= quantize_spec(bright),
{
    let low = Scalar { bits: 0 };
    let high = Scalar { bits: CEILING_BITS };
    let a = dim.clamp_spec(low, high);
    let b = bright.clamp_spec(low, high);
    assert(a.le_spec(b));
    lemma_rank_orders_values(a, b);
    lemma_pow2_pos(1066);
    lemma_div_is_ordered(a.quanta(), b.quanta(), pow2(1066) as int);
}

/// Turns a gamma-corrected channel into a level from 0 to 255.
pub fn quantize(channel: Scalar) -> (level: u8)
    ensures
        level == quantize_spec(channel),
{
    if channel.is_nan() {
        return 0;
    }
    let c = clamp(channel, Scalar::zero(), Scalar::from_bits(CEILING_BITS));
    let m = c.abs().to_bits();
    let e = m / FRACTION_SPAN;
    let f = m % FRACTION_SPAN;
    proof {
        lemma_level_of_clamped(c);
    }
    if e < 1015 {
        return 0;
    }
    let sig: u64 = FRACTION_SPAN + f;
    let shift: u64 = 1067 - e;
    let level: u64 = sig >> shift;
    proof {
        lemma_u64_shr_is_div(sig, shift);
    }
    level as u8
}

/// The ASCII code of a decimal digit.
pub open spec fn digit(d: nat) -> u8 {
    (48 + d) as u8
}

/// A number in decimal, without leading zeros, as ASCII text.
pub open spec fn decimal(n: nat) -> Seq<u8>
    decreases n,
{
    if n < 10 {
        seq![digit(n)]
    } else {
        decimal(n / 10).push(digit(n % 10))
    }
}

/// The number that a string of decimal digits denotes.
pub open spec fn denoted(text: Seq<u8>) -> nat
    decreases text.len(),
{
    if text.len() == 0 {
        0
    } else {
        (10 * denoted(text.drop_last()) + (text.last() - 48)) as nat
    }
}

/// The decimal text of a number consists of digits, has no leading zero
/// unless the number is zero, and denotes the number: so a reader gets back
/// exactly the number that was written.
pub proof fn lemma_decimal_denotes(n: nat)
    ensures
        decimal(n).len() >= 1,
        forall|i: int| 0 <= i < decimal(n).len() ==> 48 <= #[trigger] decimal(n)[i] <= 57,
        decimal(n)[0] == 48 ==> n == 0,
        denoted(decimal(n)) == n,
    decreases n,
{
    if n < 10 {
        let text = decimal(n);
        assert(text.drop_last().len() == 0);
        assert(denoted(text.drop_last()) == 0);
    } else {
        lemma_decimal_denotes(n / 10);
        let text = decimal(n);
        let front = decimal(n / 10);
        assert(text.drop_last() == front);
        assert(text.last() == digit(n % 10));
        assert(text[0] == front[0]);
        assert forall|i: int| 0 <= i < text.len() implies 48 <= #[trigger] text[i] <= 57 by {
            if i < front.len() {
                assert(text[i] == front[i]);
            }
        }
    }
}

/// Appends `n` in decimal to `out`.
pub fn write_decimal(out: &mut Vec<u8>, n: u32)
    ensures
        final(out)@ == old(out)@ + decimal(n as nat),
    decreases n,
{
    if n >= 10 {
        write_decimal(out, n / 10);
    }
    let d: u8 = (n % 10) as u8;
    out.push(48 + d);
    proof {
        if n >= 10 {
            assert(out@ == old(out)@ + decimal(n as nat / 10).push(digit(n as nat % 10)));
        } else {
            assert(out@ == old(out)@ + seq![digit(n as nat)]);
        }
    }
}

/// One pixel as a line of text: the three levels in decimal, separated by
/// spaces.
pub open spec fn pixel_line(red: int, green: int, blue: int) -> Seq<u8> {
    decimal(red as nat) + seq![32u8] + decimal(green as nat) + seq![32u8] + decimal(blue as nat)
        + seq![10u8]
}

/// Appends a pixel to a text image: a line with the levels of the red, green
/// and blue channel of `shade`, which is the pixel's colour after averaging
/// and gamma correction.
pub fn write_color(out: &mut Vec<u8>, shade: Vec3)
    ensures
        final(out)@ == old(out)@ + pixel_line(
            quantize_spec(shade.x),
            quantize_spec(shade.y),
            quantize_spec(shade.z),
        ),
{
    write_decimal(out, quantize(shade.x) as u32);
    out.push(32);
    write_decimal(out, quantize(shade.y) as u32);
    out.push(32);
    write_decimal(out, quantize(shade.z) as u32);
    out.push(10);
    proof {
        assert(out@ =~= old(out)@ + pixel_line(
            quantize_spec(shade.x),
            quantize_spec(shade.y),
            quantize_spec(shade.z),
        ));
    }
}

/// Appends a pixel to a binary image: the three levels of `shade`, one byte
/// each. The levels are those that [`write_color`] writes as text.
pub fn write_color_raw(out: &mut Vec<u8>, shade: Vec3)
    ensures
        final(out)@ == old(out)@ + seq![
            quantize_spec(shade.x) as u8,
            quantize_spec(shade.y) as u8,
            quantize_spec(shade.z) as u8,
        ],
{
    out.push(quantize(shade.x));
    out.push(quantize(shade.y));
    out.push(quantize(shade.z));
    proof {
        assert(out@ =~= old(out)@ + seq![
            quantize_spec(shade.x) as u8,
            quantize_spec(shade.y) as u8,
            quantize_spec(shade.z) as u8,
        ]);
    }
}

/// The pixels of an image one after the other, each as a line of text or as
/// three raw bytes.
pub open spec fn pixels(shades: Seq<Vec3>, raw: bool) -> Seq<u8>
    decreases shades.len(),
{
    if shades.len() == 0 {
        Seq::<u8>::empty()
    } else {
        let shade = shades.last();
        let levels = (quantize_spec(shade.x), quantize_spec(shade.y), quantize_spec(shade.z));
        pixels(shades.drop_last(), raw) + (if raw {
            seq![levels.0 as u8, levels.1 as u8, levels.2 as u8]
        } else {
            pixel_line(levels.0, levels.1, levels.2)
        })
    }
}

/// Appends the pixels `shades` in their order, as text or as raw bytes.
pub fn write_pixels(out: &mut Vec<u8>, shades: &Vec<Vec3>, raw: bool)
    ensures
        final(out)@ == old(out)@ + pixels(shades@, raw),
{
    let mut i: usize = 0;
    while i < shades.len()
        invariant
            i <= shades.len(),
            out@ == old(out)@ + pixels(shades@.take(i as int), raw),
        decreases shades.len() - i,
    {
        proof {
            let next = shades@.take(i + 1);
            assert(next.drop_last() == shades@.take(i as int));
            assert(next.last() == shades@[i as int]);
        }
        let ghost before = out@;
        if raw {
            write_color_raw(out, shades[i]);
        } else {
            write_color(out, shades[i]);
        }
        proof {
            let shade = shades@[i as int];
            let added = out@.subrange(before.len() as int, out@.len() as int);
            assert(out@ =~= old(out)@ + (pixels(shades@.take(i as int), raw) + added));
            assert(out@ =~= old(out)@ + pixels(shades@.take(i + 1), raw));
        }
        i += 1;
    }
    proof {
        assert(shades@.take(i as int) == shades@);
    }
}

/// A raw image takes three bytes for every pixel.
pub proof fn lemma_raw_pixels_len(shades: Seq<Vec3>)
    ensures
        pixels(shades, true).len() == 3 * shades.len(),
    decreases shades.len(),
{
    if shades.len() > 0 {
        lemma_raw_pixels_len(shades.drop_last());
    }
}

/// The header of a pixmap: the magic number (the letter P and the digit 3
/// for text, 6 for raw bytes), the width and height, and the largest level,
/// 255.
pub open spec fn header(width: nat, height: nat, raw: bool) -> Seq<u8> {
    seq![80u8, if raw { 54u8 } else { 51u8 }, 10u8] + decimal(width) + seq![32u8] + decimal(height)
        + seq![10u8, 50u8, 53u8, 53u8, 10u8]
}

/// Appends the header of an image of `width` by `height` pixels.
pub fn write_header(out: &mut Vec<u8>, width: u32, height: u32, raw: bool)
    ensures
        final(out)@ == old(out)@ + header(width as nat, height as nat, raw),
{
    out.push(80);
    out.push(if raw { 54 } else { 51 });
    out.push(10);
    write_decimal(out, width);
    out.push(32);
    write_decimal(out, height);
    out.push(10);
    out.push(50);
    out.push(53);
    out.push(53);
    out.push(10);
    proof {
        assert(out@ =~= old(out)@ + header(width as nat, height as nat, raw));
    }
}

} // verus!
