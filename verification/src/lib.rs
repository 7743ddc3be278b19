use vstd::prelude::*;

pub mod config;
pub mod constants;
pub mod download;
pub mod extension;
pub mod installer;
pub mod jar;
pub mod launch;
pub mod java;
pub mod paths;
pub mod settings;
pub mod shell_env;
pub mod text;
pub mod version;
pub mod zip;
