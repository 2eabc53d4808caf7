//! Parser-combinator core: the result and error model, the capabilities of
//! byte-slice input, and the complete-input primitive combinators.
pub mod internal;
pub mod error;
pub mod traits;
pub mod bytes;
