//! A small symbolic-term engine: arithmetic and trigonometric expressions are
//! modelled as trees of [`Term`], combined with a flattening sum operator, and
//! evaluated against an optional table of variable bindings.
//!
//! Numeric values travel through the library as IEEE-754 double-precision bit
//! patterns held in `u64`, so that the tree logic, the evaluation order, and
//! the error rules are all verified; the arithmetic itself is performed by the
//! caller, one operation at a time, through the resumable [`eval::Evaluation`]
//! machine.

pub mod bindings;
pub mod errors;
pub mod eval;
pub mod laws;
pub mod term;
pub mod variable;

pub use bindings::Bindings;
pub use errors::EvalError;
pub use errors::InvalidLength;
pub use eval::Evaluation;
pub use eval::Status;
pub use term::Term;
pub use variable::Variable;
