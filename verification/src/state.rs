//! The state message's R/C input: the same type as that of `msg`.
pub use crate::msg::RcInput;
