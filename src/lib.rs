use vstd::prelude::*;

pub mod font;
pub mod laws;
pub mod model;
pub mod processor;

verus! {

} // verus!
