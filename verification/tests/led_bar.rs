use nucleo_peripherals::led_bar::{percentage_to_pattern, LED_COUNT, PERCENT_PER_LED};

fn lit_leds(pattern: u8) -> u32 {
    (0..LED_COUNT).filter(|led| (pattern >> led) & 1 == 0).count() as u32
}

#[test]
fn zero_percent_lights_first_led() {
    assert_eq!(percentage_to_pattern(0), 0xFE);
    assert_eq!(percentage_to_pattern(12), 0xFE);
}

#[test]
fn each_step_lights_one_more_led() {
    assert_eq!(percentage_to_pattern(13), 0xFC);
    assert_eq!(percentage_to_pattern(26), 0xF8);
    assert_eq!(percentage_to_pattern(39), 0xF0);
    assert_eq!(percentage_to_pattern(50), 0xF0);
    assert_eq!(percentage_to_pattern(52), 0xE0);
    assert_eq!(percentage_to_pattern(65), 0xC0);
    assert_eq!(percentage_to_pattern(78), 0x80);
    assert_eq!(percentage_to_pattern(90), 0x80);
}

#[test]
fn full_bar_from_91_percent() {
    assert_eq!(percentage_to_pattern(91), 0x00);
    assert_eq!(percentage_to_pattern(100), 0x00);
    assert_eq!(percentage_to_pattern(255), 0x00);
}

#[test]
fn lit_leds_follow_the_percentage() {
    for p in 0..=255u8 {
        let expected = ((p / PERCENT_PER_LED) as u32 + 1).min(8);
        let pattern = percentage_to_pattern(p);
        assert_eq!(lit_leds(pattern), expected);
        // the lit LEDs are the lowest ones
        assert_eq!(pattern as u32, 256 - (1u32 << expected));
    }
}

#[test]
fn raising_the_percentage_keeps_leds_lit() {
    for lower in 0..=255u8 {
        for higher in lower..=255u8 {
            let a = percentage_to_pattern(lower);
            let b = percentage_to_pattern(higher);
            // every LED lit (bit 0) at `lower` is lit at `higher`
            assert_eq!(b & !a, 0);
        }
    }
}

#[test]
fn pattern_matches_the_shift_expression() {
    for p in 0..=255u8 {
        let expected = !((0x01i32 << (p as u16 / 13)) * 2 - 1) as u8;
        assert_eq!(percentage_to_pattern(p), expected);
    }
}
