//! A local command runner core: platform-specific runtime resolution,
//! idempotent runtime provisioning, archive installation, and sandboxed
//! execution of small scripts with a host-controlled capability surface.

pub mod archive;
pub mod fetch;
pub mod install;
pub mod paths;
pub mod provision;
pub mod sandbox;
pub mod script;
pub mod platform;
pub mod util;
