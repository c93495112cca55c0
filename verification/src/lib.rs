use vstd::prelude::*;

pub mod backend;
pub mod features;
pub mod lto;
pub mod module;
pub mod options;
pub mod output;
pub mod selection;
pub mod target;
pub mod text;
pub mod unit;

verus! {

} // verus!
