//! Project scaffolding core: a catalog of text templates grouped by artifact
//! kind and runtime, and a render step that turns a resolved group into the
//! files of a new project.
use vstd::prelude::*;

pub mod catalog;
pub mod error;
pub mod lambda;
pub mod render;
pub mod runtime;
pub mod template;

verus! {

} // verus!
