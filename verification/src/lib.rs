use vstd::prelude::*;

pub mod cache;
pub mod client;
pub mod debootstrap;
pub mod dsl;
pub mod envmap;
pub mod error;
pub mod escape;
pub mod executor;
pub mod image;
pub mod jinja;
pub mod jobs;
pub mod layer;
pub mod loader;
pub mod make;
pub mod mounts;
pub mod names;
pub mod nspawn;
pub mod paths;
pub mod planner;
pub mod program;
pub mod resolver;
pub mod runner;
pub mod sandbox;
pub mod span;
pub mod stats;
pub mod syntax;
pub mod text;

verus! {

} // verus!
