//! Tables of named columns: building them from text and from database
//! rows, rendering them as text rows, CSV and SQL, and the decisions of the
//! query and plot windows that show them.
use vstd::prelude::*;

pub mod column;
pub mod columns;
pub mod csv;
pub mod layout;
pub mod numeric;
pub mod queries;
pub mod sqlite;
pub mod table;
pub mod text;

verus! {
} // verus!
