use vstd::prelude::*;

pub mod application;
pub mod ray;
pub mod rendering;
pub mod utils;
pub mod vector;

verus! {
} // verus!
