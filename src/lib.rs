use vstd::prelude::*;

pub mod barrier;
pub mod boot;
pub mod copy;
pub mod loader;
pub mod protocol;
pub mod region;
pub mod sanity;
pub mod translation;
