use vstd::prelude::*;

pub mod model;
pub mod pool;
pub mod request;

verus! {

} // verus!
