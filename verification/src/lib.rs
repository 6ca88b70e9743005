//! Verified logic of a small STM32F303 peripheral board: the LED bar that is
//! driven over I2C and the two-colour LED that is driven by two PWM channels.
//! The hardware access itself lives in the application around this library.

pub mod led_bar;
pub mod two_color_led;
