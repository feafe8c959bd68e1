use vstd::prelude::*;

pub mod bundle;
pub mod config;
pub mod encoding;
pub mod install;
pub mod nodeprobe;
pub mod number;
pub mod procinfo;
pub mod proxy;
pub mod service;
pub mod terminal;
pub mod text;
pub mod version;

verus! {

} // verus!
