//! Runtime value model for `.sb3` project data: a dynamic value that is a
//! double, a text, or a boolean, with the coercion, comparison and
//! list-indexing rules of the source runtime.
//!
//! A double is carried as its IEEE 754 binary64 bit pattern (`u64`), so that
//! every rule on it is stated and checked over plain integers; callers that
//! hold an `f64` convert with `f64::to_bits` / `f64::from_bits`, which lose
//! nothing.

pub mod num;
pub mod text;

mod index;
mod value;

pub use index::Index;
pub use value::Value;
pub use value::ValueView;
