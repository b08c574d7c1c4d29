//! Subset matching of JSON values: does an actual value hold everything an
//! expected value asks for?

pub mod json;
pub mod matcher;
pub mod number;
pub mod value;

pub use crate::json::{Json, Num};
pub use crate::matcher::cmp_expected;
pub use crate::number::Number;
pub use crate::value::{Object, Value};
