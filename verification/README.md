# nucleo_peripherals

Peripheral drivers for an STM32F303 Nucleo-64 board (stm32f3xx-hal): an
eight-LED bar behind a PCF8574 I/O expander on I2C, a two-colour LED on two
PWM channels of TIM3, a potentiometer on the ADC and an SSD1306 OLED display
on SPI.

- `src/` is the verified library (Verus): the byte that the LED bar shows for
  a percentage, and the duty cycles of the two-colour LED, with their laws.
- `app/` is the board program and the drivers that talk to the hardware; they
  call the library for every computation except the floating-point scaling of
  the ADC reading.
- `tests/` exercises the library on concrete values.
