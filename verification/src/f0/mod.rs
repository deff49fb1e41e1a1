//! The touchpad board: frames, the matrix scan, the ADC and the USB reporter.
pub mod touch_data;
pub mod adc;
pub mod pwm;
pub mod touchpad;
pub mod reporter;
