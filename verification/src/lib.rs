//! `gv`: the verified core of a Go version and toolchain manager.

pub mod cli;
pub mod constraint;
pub mod digest;
pub mod install;
pub mod laws;
pub mod lock;
pub mod manifest;
pub mod paths;
pub mod platform;
pub mod project;
pub mod proxy;
pub mod registry;
pub mod release;
pub mod resolve;
pub mod search;
pub mod shim;
pub mod store;
pub mod text;
pub mod tool;
pub mod workspace;
