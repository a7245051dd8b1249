use vstd::prelude::*;

pub mod text;
pub mod thinking;
pub mod prompt;
pub mod brains;
pub mod status;
pub mod capture;
pub mod driver;

verus! {

} // verus!
