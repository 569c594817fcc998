//! The gradients: which one is meant, and the linear blend between two
//! colours at an exact position.

use crate::colors::RGB;
use crate::text::{eq_ignoring_case, same_ignoring_case, to_chars};
use vstd::prelude::*;

verus! {

/// The modes of gradient colours.
#[derive(Debug, Clone, Copy, PartialEq, Eq)]
pub enum GradientMode {
    /// Hues that cycle along a sine wave.
    Rainbow,
    /// A straight blend from one colour to another.
    Linear,
}

impl Default for GradientMode {
    /// The rainbow.
    fn default() -> (out: GradientMode)
        ensures
            out == GradientMode::Rainbow,
    {
        GradientMode::Rainbow
    }
}

/// The mode that a name asks for: `linear` in any case is the linear
/// gradient, and every other name is the rainbow.
pub open spec fn mode_named(name: Seq<char>) -> GradientMode {
    if same_ignoring_case(name, "linear"@) {
        GradientMode::Linear
    } else {
        GradientMode::Rainbow
    }
}

impl From<&String> for GradientMode {
    /// The mode that a name asks for.
    fn from(value: &String) -> (out: GradientMode) {
        let name = to_chars(value.as_str());
        let linear = to_chars("linear");
        if eq_ignoring_case(&name, &linear) {
            GradientMode::Linear
        } else {
            GradientMode::Rainbow
        }
    }
}

impl vstd::std_specs::convert::FromSpecImpl<&String> for GradientMode {
    open spec fn obeys_from_spec() -> bool {
        true
    }

    open spec fn from_spec(value: &String) -> GradientMode {
        mode_named(value@)
    }
}

/// The step from each channel of `start` to the same channel of `end`.
pub open spec fn delta(start: RGB<u8>, end: RGB<u8>) -> RGB<i16> {
    RGB((end.0 - start.0) as i16, (end.1 - start.1) as i16, (end.2 - start.2) as i16)
}

/// The delta between the two colours, channel by channel.
pub fn calculate_delta(start: &RGB<u8>, end: &RGB<u8>) -> (out: RGB<i16>)
    ensures
        out == delta(*start, *end),
{
    RGB(
        end.0 as i16 - start.0 as i16,
        end.1 as i16 - start.1 as i16,
        end.2 as i16 - start.2 as i16,
    )
}

/// The integer nearest to `n / d`, for a positive `d`; a tie goes away
/// from zero.
pub open spec fn round_ratio(n: int, d: int) -> int
    recommends
        d > 0,
{
    if n >= 0 {
        (2 * n + d) / (2 * d)
    } else {
        -((2 * (-n) + d) / (2 * d))
    }
}

/// `v` brought into the range of a channel.
pub open spec fn clamp_channel(v: int) -> u8 {
    if v < 0 {
        0
    } else if v > 255 {
        255
    } else {
        v as u8
    }
}

/// One channel of the blend at the factor `numer / denom`: the start plus
/// the factor's share of the step, rounded and clamped. Without a
/// denominator the factor is zero.
pub open spec fn blend(start: u8, step: int, numer: nat, denom: nat) -> u8 {
    if denom == 0 {
        start
    } else {
        clamp_channel(round_ratio(start * denom + step * numer, denom as int))
    }
}

/// The colour at the factor `numer / denom` on the way from `start` to
/// `end`.
pub open spec fn linear_gradient(start: RGB<u8>, end: RGB<u8>, numer: nat, denom: nat) -> RGB<u8> {
    RGB(
        blend(start.0, delta(start, end).0 as int, numer, denom),
        blend(start.1, delta(start, end).1 as int, numer, denom),
        blend(start.2, delta(start, end).2 as int, numer, denom),
    )
}

/// One channel of the blend.
fn blend_channel(start: u8, step: i16, numer: usize, denom: usize) -> (out: u8)
    requires
        -255 <= step <= 255,
    ensures
        out == blend(start, step as int, numer as nat, denom as nat),
{
    if denom == 0 {
        return start;
    }
    let d: i128 = denom as i128;
    assert(0 <= start * d <= 255 * d) by (nonlinear_arith)
        requires
            0 <= start <= 255,
            0 < d,
    ;
    assert(-255 * numer <= step * numer <= 255 * numer) by (nonlinear_arith)
        requires
            -255 <= step <= 255,
            0 <= numer,
    ;
    let scaled: i128 = (start as i128) * d + (step as i128) * (numer as i128);
    if scaled < 0 {
        // Any negative value rounds to zero or below it.
        assert((2 * (-scaled) + d) / (2 * d) >= 0) by (nonlinear_arith)
            requires
                scaled < 0,
                d > 0,
        ;
        return 0;
    }
    let rounded: i128 = (2 * scaled + d) / (2 * d);
    assert(rounded >= 0) by (nonlinear_arith)
        requires
            rounded == (2 * scaled + d) / (2 * d),
            scaled >= 0,
            d > 0,
    ;
    if rounded > 255 {
        255
    } else {
        rounded as u8
    }
}

/// Interpolates between two colours: the colour at the factor
/// `numer / denom` on the way from `start` to `end`, each channel rounded to
/// the nearest value and kept within 0 to 255. A `denom` of zero stands for
/// a gradient without extent, whose one colour is `start`.
pub fn interpolate_linear_gradient(
    start: &RGB<u8>,
    end: &RGB<u8>,
    numer: usize,
    denom: usize,
) -> (out: RGB<u8>)
    ensures
        out == linear_gradient(*start, *end, numer as nat, denom as nat),
{
    let step = calculate_delta(start, end);
    RGB(
        blend_channel(start.0, step.0, numer, denom),
        blend_channel(start.1, step.1, numer, denom),
        blend_channel(start.2, step.2, numer, denom),
    )
}

/// Rounding a ratio that lies between two whole numbers stays between
/// them.
proof fn lemma_round_ratio_within(n: int, d: int, low: int, high: int)
    requires
        d > 0,
        0 <= low,
        low * d <= n <= high * d,
    ensures
        low <= round_ratio(n, d) <= high,
{
    let r = (2 * n + d) / (2 * d);
    assert(n >= 0) by (nonlinear_arith)
        requires
            d > 0,
            0 <= low,
            low * d <= n,
    ;
    assert(low <= r <= high) by (nonlinear_arith)
        requires
            d > 0,
            low * d <= n <= high * d,
            r == (2 * n + d) / (2 * d),
    ;
}

/// What is blended, before rounding, lies between the two channels times
/// the denominator.
proof fn lemma_scaled_within(start: u8, end: u8, numer: nat, denom: nat)
    requires
        numer <= denom,
    ensures
        start <= end ==> start * denom <= start * denom + (end - start) * numer <= end * denom,
        end <= start ==> end * denom <= start * denom + (end - start) * numer <= start * denom,
{
    let step = end - start;
    assert(step >= 0 ==> 0 <= step * numer <= step * denom) by (nonlinear_arith)
        requires
            numer <= denom,
    ;
    assert(step <= 0 ==> step * denom <= step * numer <= 0) by (nonlinear_arith)
        requires
            numer <= denom,
    ;
    assert(start * denom + step * denom == end * denom) by (nonlinear_arith)
        requires
            step == end - start,
    ;
}

/// For a factor from 0 to 1, a blended channel lies between the two
/// channels that it blends.
proof fn lemma_blend_within(start: u8, end: u8, numer: nat, denom: nat)
    requires
        numer <= denom,
    ensures
        start <= end ==> start <= blend(start, end - start, numer, denom) <= end,
        end <= start ==> end <= blend(start, end - start, numer, denom) <= start,
{
    if denom > 0 {
        lemma_scaled_within(start, end, numer, denom);
        let scaled = start * denom + (end - start) * numer;
        if start <= end {
            lemma_round_ratio_within(scaled, denom as int, start as int, end as int);
        } else {
            lemma_round_ratio_within(scaled, denom as int, end as int, start as int);
        }
    }
}

/// A gradient from a colour to itself has that colour at every factor.
pub proof fn lemma_gradient_of_one_colour(c: RGB<u8>, numer: nat, denom: nat)
    ensures
        linear_gradient(c, c, numer, denom) == c,
{
    if denom > 0 {
        assert(c.0 * denom + 0 * numer == c.0 * denom) by (nonlinear_arith);
        assert(c.1 * denom + 0 * numer == c.1 * denom) by (nonlinear_arith);
        assert(c.2 * denom + 0 * numer == c.2 * denom) by (nonlinear_arith);
        lemma_round_ratio_within(c.0 * denom, denom as int, c.0 as int, c.0 as int);
        lemma_round_ratio_within(c.1 * denom, denom as int, c.1 as int, c.1 as int);
        lemma_round_ratio_within(c.2 * denom, denom as int, c.2 as int, c.2 as int);
    }
}

/// Whether `v` lies between `a` and `b`, whichever of the two is larger.
pub open spec fn between(v: u8, a: u8, b: u8) -> bool {
    (a <= v <= b) || (b <= v <= a)
}

/// For every factor from 0 to 1, each channel of the gradient lies between
/// the same channel of the two colours, and so within 0 to 255 with nothing
/// for the clamp to do.
pub proof fn lemma_gradient_within_endpoints(
    start: RGB<u8>,
    end: RGB<u8>,
    numer: nat,
    denom: nat,
)
    requires
        numer <= denom,
    ensures
        between(linear_gradient(start, end, numer, denom).0, start.0, end.0),
        between(linear_gradient(start, end, numer, denom).1, start.1, end.1),
        between(linear_gradient(start, end, numer, denom).2, start.2, end.2),
{
    lemma_blend_within(start.0, end.0, numer, denom);
    lemma_blend_within(start.1, end.1, numer, denom);
    lemma_blend_within(start.2, end.2, numer, denom);
}

/// A gradient starts at its first colour and, where it has any extent,
/// ends at its second.
pub proof fn lemma_gradient_ends(start: RGB<u8>, end: RGB<u8>, denom: nat)
    ensures
        linear_gradient(start, end, 0, denom) == start,
        denom > 0 ==> linear_gradient(start, end, denom, denom) == end,
{
    if denom > 0 {
        lemma_gradient_end(start.0, end.0, denom);
        lemma_gradient_end(start.1, end.1, denom);
        lemma_gradient_end(start.2, end.2, denom);
    }
}

/// One channel of a gradient at its two ends.
proof fn lemma_gradient_end(start: u8, end: u8, denom: nat)
    requires
        denom > 0,
    ensures
        blend(start, end - start, 0, denom) == start,
        blend(start, end - start, denom, denom) == end,
{
    let step = end - start;
    assert(start * denom + step * 0 == start * denom) by (nonlinear_arith);
    assert(start * denom + step * denom == end * denom) by (nonlinear_arith)
        requires
            step == end - start,
    ;
    lemma_round_ratio_within(start * denom, denom as int, start as int, start as int);
    lemma_round_ratio_within(end * denom, denom as int, end as int, end as int);
}

/// Rounding gives a nearest integer: it is at most one half away from the
/// ratio.
pub proof fn lemma_round_ratio_is_nearest(n: int, d: int)
    requires
        d > 0,
    ensures
        2 * round_ratio(n, d) * d - d <= 2 * n <= 2 * round_ratio(n, d) * d + d,
{
    if n >= 0 {
        let r = (2 * n + d) / (2 * d);
        assert(2 * r * d - d <= 2 * n <= 2 * r * d + d) by (nonlinear_arith)
            requires
                d > 0,
                r == (2 * n + d) / (2 * d),
        ;
    } else {
        let q = (2 * (-n) + d) / (2 * d);
        assert(2 * (-q) * d - d <= 2 * n <= 2 * (-q) * d + d) by (nonlinear_arith)
            requires
                d > 0,
                q == (2 * (-n) + d) / (2 * d),
        ;
    }
}

/// For every factor from 0 to 1, a blended channel is an integer nearest to
/// the exact blend `start + (end - start) * numer / denom`: the two differ
/// by one half at most.
pub proof fn lemma_blend_is_nearest(start: u8, end: u8, numer: nat, denom: nat)
    requires
        0 < denom,
        numer <= denom,
    ensures
        ({
            let exact = start * denom + (end - start) * numer;
            let got = blend(start, end - start, numer, denom);
            2 * got * denom - denom <= 2 * exact <= 2 * got * denom + denom
        }),
{
    let exact = start * denom + (end - start) * numer;
    lemma_scaled_within(start, end, numer, denom);
    if start <= end {
        lemma_round_ratio_within(exact, denom as int, start as int, end as int);
    } else {
        lemma_round_ratio_within(exact, denom as int, end as int, start as int);
    }
    lemma_round_ratio_is_nearest(exact, denom as int);
}

} // verus!
