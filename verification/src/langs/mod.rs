//! The languages that projects can be created for.
pub mod python;
pub mod rust;
