//! The registry interface.

pub mod error_util;
