//! The byte that the LED bar's I/O expander receives for a percentage.
//!
//! The bar has eight LEDs, one per bit of the expander's output port. An LED
//! is lit when its bit is 0 (the expander sinks the LED current). Every 13
//! percent light one more LED, starting from the first LED at 0 %.

use vstd::prelude::*;
use vstd::arithmetic::power2::{pow2, lemma2_to64, lemma_pow2_unfold};
use vstd::bits::{lemma_u32_shl_is_mul, lemma_u32_pow2_no_overflow};

verus! {

/// Number of LEDs on the bar.
pub const LED_COUNT: u8 = 8;

/// Percentage points per additional lit LED.
pub const PERCENT_PER_LED: u8 = 13;

/// How many LEDs the bar shows for `percentage`: one more for every full
/// 13 percent, at least one and at most all eight.
pub open spec fn lit_count(percentage: u8) -> nat {
    let n = percentage as nat / 13 + 1;
    if n > 8 { 8 } else { n }
}

/// LED `led` is lit in the output byte `pattern` (active low).
pub open spec fn led_lit(pattern: u8, led: u8) -> bool {
    (pattern >> led) & 1u8 == 0u8
}

/// The output byte that shows `percentage`: every bit set except the lowest
/// `lit_count(percentage)` ones, that is 256 - 2^lit (0 when all are lit).
pub open spec fn bar_pattern(percentage: u8) -> u8 {
    (256 - pow2(lit_count(percentage))) as u8
}

/// The expression that computes the pattern, read for a step count
/// `step = percentage / 13`.
spec fn shifted_pattern(step: u32) -> u8 {
    (!(((1u32 << step) * 2 - 1) as u32)) as u8
}

proof fn lemma_shifted_pattern(step: u32)
    requires
        step <= 19,
    ensures
        1 <= (1u32 << step) <= 0x80000,
        shifted_pattern(step) as int == (if step >= 7 { 0 } else { 256 - pow2(step as nat + 1) }),
        forall|led: u8| led < 8 ==> (#[trigger] led_lit(shifted_pattern(step), led) <==> led <= step),
{
    assert(1u32 <= (1u32 << step) <= 0x80000u32) by (bit_vector)
        requires
            step <= 19,
    ;
    let pattern = shifted_pattern(step);
    assert(pattern as int == (if step >= 7 { 0 } else { 256 - 2 * (1u32 << step) })) by (bit_vector)
        requires
            step <= 19,
            pattern == (!(((1u32 << step) * 2 - 1) as u32)) as u8,
    ;
    assert(forall|led: u8| led < 8 ==> (#[trigger] led_lit(pattern, led) <==> led <= step)) by (bit_vector)
        requires
            step <= 19,
            pattern == (!(((1u32 << step) * 2 - 1) as u32)) as u8,
    ;
    if step < 7 {
        lemma_u32_pow2_no_overflow(step as nat);
        lemma_u32_shl_is_mul(1u32, step);
        lemma_pow2_unfold(step as nat + 1);
    }
}

proof fn lemma_shifted_is_bar_pattern(percentage: u8)
    ensures
        shifted_pattern(percentage as u32 / 13) == bar_pattern(percentage),
{
    let step = percentage as u32 / 13;
    lemma_shifted_pattern(step);
    lemma2_to64();
}

/// The LEDs that `bar_pattern(percentage)` lights are exactly the lowest
/// `lit_count(percentage)` ones, and the byte needs no truncation.
pub proof fn lemma_bar_pattern_leds(percentage: u8)
    ensures
        bar_pattern(percentage) as int == 256 - pow2(lit_count(percentage)),
        forall|led: u8| led < LED_COUNT ==> (#[trigger] led_lit(bar_pattern(percentage), led) <==> led < lit_count(percentage)),
{
    let step = percentage as u32 / 13;
    lemma_shifted_pattern(step);
    lemma_shifted_is_bar_pattern(percentage);
    lemma2_to64();
}

/// The byte that shows `percentage` on the bar.
pub fn percentage_to_pattern(percentage: u8) -> (pattern: u8)
    ensures
        pattern == bar_pattern(percentage),
        forall|led: u8| led < LED_COUNT ==> (#[trigger] led_lit(pattern, led) <==> led < lit_count(percentage)),
        forall|led: u8| led < LED_COUNT ==> (#[trigger] ((pattern >> led) & 1u8) == 0u8 <==> 13 * led <= percentage),
{
    let step: u32 = (percentage as u32) / 13;
    proof {
        lemma_shifted_pattern(step);
        lemma_shifted_is_bar_pattern(percentage);
        lemma_bar_pattern_leds(percentage);
        lemma_led_threshold(percentage);
    }
    let mask: u32 = (1u32 << step) * 2 - 1;
    let pattern: u8 = (!mask) as u8;
    pattern
}

/// LED `led` of the bar (bit `led` of the byte, 0 = lit) is lit exactly when
/// the percentage reaches `13 * led`.
pub proof fn lemma_led_threshold(percentage: u8)
    ensures
        forall|led: u8| led < LED_COUNT ==> (#[trigger] ((bar_pattern(percentage) >> led) & 1u8) == 0u8 <==> 13 * led <= percentage),
{
    lemma_bar_pattern_leds(percentage);
    assert forall|led: u8| led < LED_COUNT implies (#[trigger] ((bar_pattern(percentage) >> led) & 1u8) == 0u8 <==> 13 * led <= percentage) by {
        assert(led_lit(bar_pattern(percentage), led) <==> led < lit_count(percentage));
        assert(led < lit_count(percentage) <==> 13 * led <= percentage);
    }
}

/// Raising the percentage never turns an LED of the bar off.
pub proof fn lemma_bar_monotone(lower: u8, higher: u8)
    requires
        lower <= higher,
    ensures
        lit_count(lower) <= lit_count(higher),
        forall|led: u8| led < LED_COUNT && #[trigger] led_lit(bar_pattern(lower), led) ==> led_lit(bar_pattern(higher), led),
{
    lemma_bar_pattern_leds(lower);
    lemma_bar_pattern_leds(higher);
    assert(lower as nat / 13 <= higher as nat / 13) by (nonlinear_arith)
        requires
            lower <= higher,
    ;
}

/// The first LED is lit for every percentage, and all eight are lit exactly
/// from 91 percent on.
pub proof fn lemma_bar_ends(percentage: u8)
    ensures
        led_lit(bar_pattern(percentage), 0),
        bar_pattern(percentage) == 0 <==> percentage >= 91,
{
    lemma_bar_pattern_leds(percentage);
    lemma2_to64();
    if lit_count(percentage) < 8 {
        assert(!led_lit(bar_pattern(percentage), 7));
    }
}

} // verus!
