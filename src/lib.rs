use vstd::prelude::*;

pub mod text;
pub mod gateway;
pub mod tool;
pub mod protocol;
pub mod worker;
pub mod ids;
pub mod session;
pub mod catalog;

verus! {

} // verus!
