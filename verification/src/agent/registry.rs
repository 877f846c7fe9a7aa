//! The tool registry: tools by name, a later registration of a name
//! replacing an earlier one.

use vstd::prelude::*;
pub use crate::names::NameMap;

verus! {

/// Tools by name.
pub type ToolRegistry<T> = NameMap<T>;

} // verus!
