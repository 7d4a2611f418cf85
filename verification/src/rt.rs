//! What the engines report about containers.

use vstd::prelude::*;

verus! {

/// Health status of a container.
#[derive(Debug, PartialEq, Eq, Structural)]
pub enum ContainerStatus {
    Empty,
    Starting,
    Exited,
    Healthy,
    Unhealthy,
}

/// The health part of a container's state.
#[derive(Debug)]
pub struct HealthCheck {
    pub status: ContainerStatus,
}

/// The state part of an inspected container.
#[derive(Debug)]
pub struct ContainerState {
    pub running: bool,
    pub health: Option<HealthCheck>,
}

/// What `inspect` reports about a container.
#[derive(Debug)]
pub struct DetailedContainerInfo {
    pub id: String,
    pub state: ContainerState,
}

/// What a process listing reports about a container.
#[derive(Debug)]
pub struct ContainerInfo {
    pub id: String,
    pub state: ContainerState,
}

} // verus!
