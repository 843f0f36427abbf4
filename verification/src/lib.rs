use vstd::prelude::*;

pub mod config;
pub mod copying;
pub mod git;
pub mod listing;
pub mod loader;
pub mod path_laws;
pub mod paths;
pub mod porcelain;
pub mod ports;
pub mod select;
pub mod text;
pub mod usecase;
pub mod worktree;

verus! {
} // verus!
