//! Touchpad firmware logic: the scan of a capacitive touch matrix, the frames it
//! produces, the ADC bring-up protocol and the USB reporting of frames.
pub mod payload;
pub mod f0;
pub mod f103;
pub mod serial;
pub mod usb;
