//! Front end of the nyan compiler: a compilation database that turns source
//! files into memoized, identity-stable syntax trees, interns strings and
//! resolves module paths to loaded files.
pub mod context;
pub mod interner;
pub mod modules;
pub mod source;

use vstd::prelude::*;

verus! {

/// Identity of a loaded source file: its position in load order.
pub type FileId = usize;

} // verus!
