//! Expansion of `seq`-style templates over token trees: a loop variable, a
//! half-open integer range and a braced body, repeated once per value.
//!
//! - `token`: token trees and their model.
//! - `expand`: substitution of one value of the loop variable.
//! - `scan`: the repeat marker `#( ... )*`, the range and the whole expansion.
//! - `header`: the grammar `var in start..end { body }`.
//! - `driver`: parsing and expansion together.
//! - `laws`: properties that relate the functions above.
pub mod token;
pub mod expand;
pub mod scan;
pub mod header;
pub mod driver;
pub mod laws;
pub mod lifetimes;

pub use token::{Delim, Loc, Span, TokenTree};
pub use header::{ExpansionRequest, Expected, MalformedHeader, parse_header};
