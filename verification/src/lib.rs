use vstd::prelude::*;

pub mod text;
pub mod types;
pub mod config;
pub mod app;
pub mod keys;
pub mod laws;
pub mod ui;
pub mod order;
pub mod collectors;

verus! {

} // verus!
