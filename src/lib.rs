use vstd::prelude::*;

pub mod digest;
pub mod icons;
pub mod matcher;
pub mod pipeline;
pub mod record;

verus! {

} // verus!
