//! Errors of the library.

use vstd::prelude::*;
use crate::container::WaitStrategy;
use crate::rt::ContainerStatus;

verus! {

/// What a finished engine command left behind.
#[derive(Debug)]
pub struct CommandOutput {
    pub code: Option<i32>,
    pub stdout: Vec<u8>,
    pub stderr: Vec<u8>,
}

/// The errors of container operations.
#[derive(Debug)]
pub enum ContainersError {
    /// Talking to the engine process failed; `message` describes how.
    IOError { message: String },
    /// The engine command exited with a code other than zero.
    CommandError(CommandOutput),
    /// The engine's answer was not the JSON that was expected.
    JsonError { message: String },
    /// The container reported a health status that will not become healthy.
    ContainerStatusError { status: ContainerStatus },
    /// The container is unknown to the engine.
    ContainerNotExists { container_name: String },
    /// The wait strategy gave up before the container was ready.
    ContainerWaitFailed { container_name: String, wait_strategy: WaitStrategy },
    /// The text is not an image reference.
    InvalidImageName { name: String },
}

/// Coarse kinds of failure, each with a short description.
#[derive(Debug, PartialEq, Eq, Structural)]
pub enum ErrorType {
    Unrecoverable,
    ContainerStateError,
    CommandError,
    LogError,
    WaitError,
    PsError,
}

impl ErrorType {
    /// The text that describes the kind of failure.
    pub fn message(&self) -> (r: String)
        ensures
            r@ == match self {
                ErrorType::Unrecoverable => "Unrecoverable Error"@,
                ErrorType::ContainerStateError => "Container Is Not Running"@,
                ErrorType::CommandError => "Command Error"@,
                ErrorType::LogError => "Log Error"@,
                ErrorType::WaitError => "Wait Error"@,
                ErrorType::PsError => "Ps Error"@,
            },
    {
        match self {
            ErrorType::Unrecoverable => String::from_str("Unrecoverable Error"),
            ErrorType::ContainerStateError => String::from_str("Container Is Not Running"),
            ErrorType::CommandError => String::from_str("Command Error"),
            ErrorType::LogError => String::from_str("Log Error"),
            ErrorType::WaitError => String::from_str("Wait Error"),
            ErrorType::PsError => String::from_str("Ps Error"),
        }
    }
}

/// The result of container operations.
pub type ContainerResult<T> = Result<T, ContainersError>;

} // verus!
