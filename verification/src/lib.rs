use vstd::prelude::*;

pub mod camera;
pub mod camera_setup;
pub mod codegen;
pub mod config;
pub mod device;
pub mod extensions;
pub mod geometry;
pub mod install;
pub mod instance;
pub mod lists;
pub mod loader;
pub mod passthrough;
pub mod pipeline;
pub mod registry;
pub mod session;
pub mod store;
pub mod text;
pub mod textmap;
pub mod types;
pub mod version;
pub mod viewer;
pub mod xr;
pub mod xr_result;

verus! {

} // verus!
