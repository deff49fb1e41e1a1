//! The blue-pill prototype board: a smaller frame, a reporter that sends it whole,
//! and a counting test class.
pub mod counter;
pub mod reporter;
pub mod touch_data;
