//! Text primitives: everything the renderers and parsers of this crate need
//! from strings, stated over `Seq<char>`.

pub mod chars;
pub mod number;
pub mod order;
pub mod scan;
