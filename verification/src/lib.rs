use vstd::prelude::*;

pub mod text;
pub mod args;
pub mod tmux;
pub mod listing;
pub mod client;
pub mod discovery;
pub mod load;
pub mod tree;
pub mod rows;
pub mod controller;
pub mod favorites;
pub mod layout;
pub mod laws;
pub mod process;

verus! {
} // verus!
