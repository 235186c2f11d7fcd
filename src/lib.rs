//! Lays out columns of text side by side, padding each entry so that the
//! columns line up when printed in a monospaced font.
use vstd::prelude::*;

pub mod laws;
pub mod model;
pub mod table;

verus! {

pub use table::{spaces, Columns, ColumnsError};

} // verus!
