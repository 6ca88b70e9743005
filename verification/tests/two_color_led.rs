use nucleo_peripherals::two_color_led::{duty_for_percent, two_color_duties, PWM_RESOLUTION};

#[test]
fn duty_is_hundredths_times_percent() {
    assert_eq!(duty_for_percent(1280, 60), 720);
    assert_eq!(duty_for_percent(1280, 0), 0);
    assert_eq!(duty_for_percent(1280, 100), 1200);
    assert_eq!(duty_for_percent(9000, 33), 2970);
    assert_eq!(duty_for_percent(99, 100), 0);
    assert_eq!(duty_for_percent(u16::MAX, 100), 65500);
}

#[test]
fn split_between_the_two_colours() {
    assert_eq!(two_color_duties(PWM_RESOLUTION, PWM_RESOLUTION, 60), (720, 480));
    assert_eq!(two_color_duties(PWM_RESOLUTION, PWM_RESOLUTION, 50), (600, 600));
    assert_eq!(two_color_duties(PWM_RESOLUTION, PWM_RESOLUTION, 0), (0, 1200));
    assert_eq!(two_color_duties(PWM_RESOLUTION, PWM_RESOLUTION, 100), (1200, 0));
    assert_eq!(two_color_duties(1280, 9000, 25), (300, 6750));
}

#[test]
fn colours_add_up_on_one_timer() {
    for max in [0u16, 99, 100, 1280, 9000, u16::MAX] {
        for p in 0..=100u8 {
            let (d1, d2) = two_color_duties(max, max, p);
            assert_eq!(d1 as u32 + d2 as u32, (max / 100) as u32 * 100);
            assert!(d1 <= max && d2 <= max);
        }
    }
}

#[test]
fn more_percent_moves_duty_to_the_first_colour() {
    for p in 0..100u8 {
        let (a1, a2) = two_color_duties(PWM_RESOLUTION, PWM_RESOLUTION, p);
        let (b1, b2) = two_color_duties(PWM_RESOLUTION, PWM_RESOLUTION, p + 1);
        assert!(a1 <= b1);
        assert!(b2 <= a2);
    }
}
