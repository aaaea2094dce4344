//! Builds merged vertex/index buffers and an override configuration for a
//! model-injection runtime, and drives rebuilds while a mod is being edited.
use vstd::prelude::*;

pub mod assemble;
pub mod buffers;
pub mod convert;
pub mod package;
pub mod ini;
pub mod menu;
pub mod model;
pub mod parse;
pub mod schedule;
pub mod settings;
pub mod text;
pub mod watch;

verus! {

} // verus!
