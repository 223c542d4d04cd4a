use vstd::prelude::*;

pub mod app;
pub mod executor;
pub mod ids;
pub mod input;
pub mod model;
pub mod screen;
pub mod text;

verus! {

} // verus!
