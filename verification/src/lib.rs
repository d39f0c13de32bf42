use vstd::prelude::*;

pub mod ttl;
pub mod contract;
pub mod backend;
