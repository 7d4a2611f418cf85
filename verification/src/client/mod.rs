//! The container engines and the logic of talking to them.
//!
//! [`Docker`] and [`Podman`] name the engine's program; [`shared`] builds
//! the command lines, [`outcome`] reads the engines' answers and [`wait`]
//! decides how to wait for a container.

pub mod shared;
pub mod outcome;
pub mod wait;

use vstd::prelude::*;

verus! {

/// The docker engine, reached through its command line program.
#[derive(Debug, Clone)]
pub struct Docker {
    pub host: Option<String>,
}

impl Docker {
    pub fn new() -> (r: Self)
        ensures
            r.host is None,
    {
        Docker { host: None }
    }

    /// The program that runs docker's commands.
    pub fn program(&self) -> (r: String)
        ensures
            r@ == "docker"@,
    {
        String::from_str("docker")
    }
}

impl Default for Docker {
    fn default() -> (r: Self)
        ensures
            r.host is None,
    {
        Docker::new()
    }
}

/// The podman engine, reached through its command line program.
#[derive(Debug, Clone)]
pub struct Podman {
    pub host: Option<String>,
}

impl Podman {
    pub fn new() -> (r: Self)
        ensures
            r.host is None,
    {
        Podman { host: None }
    }

    /// The program that runs podman's commands.
    pub fn program(&self) -> (r: String)
        ensures
            r@ == "podman"@,
    {
        String::from_str("podman")
    }
}

impl Default for Podman {
    fn default() -> (r: Self)
        ensures
            r.host is None,
    {
        Podman::new()
    }
}

} // verus!
pub mod handle;
