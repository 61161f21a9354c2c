//! The name and the version of the program.

use vstd::prelude::*;

verus! {

/// The name of the language and of its tool.
pub const NAME: &'static str = "Ktnack";

/// The version of the tool.
pub const VERSION: &'static str = "0.1.0";

} // verus!
