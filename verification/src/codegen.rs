//! What the layer's macros generate: from the OpenXR registry and the user's hooks to the names
//! and parts of the functions to be written out.

use vstd::prelude::*;

pub mod closure;
pub mod model;
pub mod parsed;
pub mod plan;
pub mod spec;
pub mod table;
pub mod tokens;

verus! {

} // verus!
