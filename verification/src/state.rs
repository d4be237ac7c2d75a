//! What a value must offer to be kept across the calls of a driver.

pub mod persist;
