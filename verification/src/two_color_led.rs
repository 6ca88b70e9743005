//! Duty cycles of the two-colour LED, whose two dies hang on channels 1 and 2
//! of the same PWM timer. A percentage gives the share of the first colour;
//! the second colour gets the rest.

use vstd::prelude::*;

verus! {

/// Timer period in counts (the largest duty value of a channel).
pub const PWM_RESOLUTION: u16 = 1280;

/// PWM frequency in Hz.
pub const PWM_FREQUENCY_HZ: u32 = 50;

/// Duty value for `percent` of a channel whose largest duty is `max_duty`:
/// one hundredth of the largest duty, rounded down, times the percentage.
pub open spec fn duty_value(max_duty: u16, percent: int) -> int {
    (max_duty / 100) as int * percent
}

/// The duty value of a channel for `percent` percent.
pub fn duty_for_percent(max_duty: u16, percent: u16) -> (duty: u16)
    requires
        percent <= 100,
    ensures
        duty == duty_value(max_duty, percent as int),
        duty as int == (max_duty as int / 100) * percent as int,
        duty <= max_duty,
{
    let step: u16 = max_duty / 100;
    assert(step * percent <= step * 100) by (nonlinear_arith)
        requires
            percent <= 100,
    ;
    step * percent
}

/// Duty values of the two channels when the first colour has `percentage`
/// percent and the second colour `100 - percentage` percent.
pub fn two_color_duties(max_duty1: u16, max_duty2: u16, percentage: u8) -> (duties: (u16, u16))
    requires
        percentage <= 100,
    ensures
        duties.0 == duty_value(max_duty1, percentage as int),
        duties.1 == duty_value(max_duty2, 100 - percentage),
        duties.0 as int == (max_duty1 as int / 100) * percentage as int,
        duties.1 as int == (max_duty2 as int / 100) * (100 - percentage as int),
        duties.0 <= max_duty1,
        duties.1 <= max_duty2,
{
    let percentage1: u16 = percentage as u16;
    let percentage2: u16 = 100 - percentage1;
    (duty_for_percent(max_duty1, percentage1), duty_for_percent(max_duty2, percentage2))
}

/// A channel gets `percent` times the whole number of hundredths in its
/// largest duty: for any `hundredths` with
/// `100 * hundredths <= max_duty < 100 * hundredths + 100`, the duty is
/// `hundredths * percent`.
pub proof fn lemma_duty_is_whole_hundredths(max_duty: u16, percent: int, hundredths: int)
    requires
        0 <= percent <= 100,
        100 * hundredths <= max_duty < 100 * hundredths + 100,
    ensures
        duty_value(max_duty, percent) == hundredths * percent,
{
    assert(max_duty as int / 100 == hundredths) by (nonlinear_arith)
        requires
            100 * hundredths <= max_duty < 100 * hundredths + 100,
    ;
}

/// Full duty (100 percent) loses less than 100 counts of the largest duty, so
/// it is positive whenever the largest duty is at least 100; and any positive
/// percentage then gives at least that many counts.
pub proof fn lemma_full_duty(max_duty: u16, percent: int)
    requires
        0 < percent <= 100,
    ensures
        max_duty - 100 < duty_value(max_duty, 100) <= max_duty,
        max_duty >= 100 ==> duty_value(max_duty, 100) > 0,
        max_duty >= 100 ==> duty_value(max_duty, percent) >= percent,
{
    let step = max_duty as int / 100;
    assert(max_duty - 100 < step * 100 <= max_duty) by (nonlinear_arith)
        requires
            step == max_duty as int / 100,
            max_duty >= 0,
    ;
    if max_duty >= 100 {
        assert(step >= 1);
        assert(step * percent >= percent) by (nonlinear_arith)
            requires
                step >= 1,
                percent > 0,
        ;
    }
}

/// Duties add up with percentages: the duty for `a + b` percent is the duty
/// for `a` percent plus the duty for `b` percent.
pub proof fn lemma_duty_additive(max_duty: u16, a: int, b: int)
    requires
        0 <= a,
        0 <= b,
        a + b <= 100,
    ensures
        duty_value(max_duty, a) + duty_value(max_duty, b) == duty_value(max_duty, a + b),
{
    let step = max_duty as int / 100;
    assert(step * a + step * b == step * (a + b)) by (nonlinear_arith);
}

/// On one timer the two colours always add up to the same duty: one hundred
/// hundredths of the largest duty, whatever the percentage.
pub proof fn lemma_duties_complementary(max_duty: u16, percentage: int)
    requires
        0 <= percentage <= 100,
    ensures
        duty_value(max_duty, percentage) + duty_value(max_duty, 100 - percentage) == duty_value(max_duty, 100),
{
    let step = (max_duty / 100) as int;
    assert(step * percentage + step * (100 - percentage) == step * 100) by (nonlinear_arith);
}

/// A larger percentage never gives the first colour less duty, nor the second
/// colour more.
pub proof fn lemma_duty_monotone(max_duty: u16, lower: int, higher: int)
    requires
        0 <= lower <= higher <= 100,
    ensures
        duty_value(max_duty, lower) <= duty_value(max_duty, higher),
        duty_value(max_duty, 100 - higher) <= duty_value(max_duty, 100 - lower),
{
    let step = (max_duty / 100) as int;
    assert(step * lower <= step * higher) by (nonlinear_arith)
        requires
            0 <= step,
            lower <= higher,
    ;
    assert(step * (100 - higher) <= step * (100 - lower)) by (nonlinear_arith)
        requires
            0 <= step,
            lower <= higher,
    ;
}

} // verus!
