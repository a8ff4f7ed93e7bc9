//! Parsing of knitting charts: a header of named attributes followed by a
//! grid of stitch symbols, read into a validated in-memory model.

pub mod attributes;
pub mod chart;
pub mod color;
pub mod errors;
pub mod header;
pub mod laws;
pub mod lexer;
pub mod number;
pub mod text;

pub use attributes::Attributes;
pub use chart::{Chart, Stitch};
pub use header::{Header, Line};
pub use lexer::{Lexer, Token};
