//! What the answers of the engines mean.
//!
//! The clients run the engine commands; these functions decide, from what
//! a command left behind, what the operation yields.

use vstd::prelude::*;
use vstd::utf8::{decode_utf8, valid_utf8};
use crate::container::{Container, ContainerView, WaitStrategy, WaitStrategyView};
use crate::error::{CommandOutput, ContainersError};
use crate::rt::{ContainerStatus, DetailedContainerInfo};
use crate::text::{contains_text, contains_str};

verus! {

/// `String::from_utf8`: the text the bytes encode, `None` where they are
/// not valid UTF-8 (as std documents).
#[verifier::external_body]
fn utf8_text(bytes: &Vec<u8>) -> (r: Option<String>)
    ensures
        r is Some <==> valid_utf8(bytes@),
        r matches Some(s) ==> s@ == decode_utf8(bytes@),
{
    String::from_utf8(bytes.clone()).ok()
}

/// The text that a command wrote to its output.
pub fn output_text(bytes: &Vec<u8>) -> (r: String)
    requires
        valid_utf8(bytes@),
    ensures
        r@ == decode_utf8(bytes@),
{
    match utf8_text(bytes) {
        Some(s) => s,
        None => {
            assert(false);
            String::new()
        },
    }
}

/// What a command yields: its output if it exited with code zero, the
/// whole command output as error otherwise.
pub fn command_result(output: CommandOutput) -> (r: Result<String, ContainersError>)
    requires
        output.code == Some(0i32) ==> valid_utf8(output.stdout@),
    ensures
        output.code == Some(0i32) ==> (r matches Ok(s) && s@ == decode_utf8(output.stdout@)),
        output.code != Some(0i32) ==> (r matches Err(ContainersError::CommandError(o)) && o == output),
{
    match output.code {
        Some(0) => Ok(output_text(&output.stdout)),
        _ => Err(ContainersError::CommandError(output)),
    }
}

// ------------------------------------------------------------------ inspect

/// `str::to_uppercase`: the text with every character mapped to its
/// upper case by the Unicode tables of std.
pub uninterp spec fn uppercase(s: Seq<char>) -> Seq<char>;

/// `str::to_uppercase` of std.
#[verifier::external_body]
fn to_uppercase(s: &str) -> (r: String)
    ensures
        r@ == uppercase(s@),
{
    s.to_uppercase()
}

/// What an `inspect` command's outcome asks for next.
#[derive(Debug)]
pub enum InspectStep {
    /// The command succeeded: its output (JSON) describes the containers.
    Parse(String),
    /// The engine does not know the container.
    NotFound,
    /// The command failed for another reason.
    Failed(ContainersError),
}

/// The text by which the engines report an unknown container.
pub open spec fn no_such_object() -> Seq<char> {
    "NO SUCH OBJECT"@
}

/// What an `inspect` outcome means, given its error output already in
/// upper case.
pub fn inspect_step_upper(output: CommandOutput, upper_stderr: &str) -> (r: InspectStep)
    requires
        valid_utf8(output.stdout@),
    ensures
        output.code == Some(0i32) ==> (r matches InspectStep::Parse(s) && s@ == decode_utf8(output.stdout@)),
        output.code != Some(0i32) && contains_text(upper_stderr@, no_such_object()) ==> r is NotFound,
        output.code != Some(0i32) && !contains_text(upper_stderr@, no_such_object())
            ==> (r matches InspectStep::Failed(ContainersError::CommandError(o)) && o == output),
{
    match output.code {
        Some(0) => InspectStep::Parse(output_text(&output.stdout)),
        _ => {
            if contains_str(upper_stderr, "NO SUCH OBJECT") {
                InspectStep::NotFound
            } else {
                InspectStep::Failed(ContainersError::CommandError(output))
            }
        },
    }
}

/// What an `inspect` outcome means: success asks to read the output;
/// otherwise an error output that mentions `no such object` (in any case)
/// means the container is unknown, and anything else is a failure.
pub fn inspect_step(output: CommandOutput) -> (r: InspectStep)
    requires
        valid_utf8(output.stdout@),
        valid_utf8(output.stderr@),
    ensures
        output.code == Some(0i32) ==> (r matches InspectStep::Parse(s) && s@ == decode_utf8(output.stdout@)),
        output.code != Some(0i32) && contains_text(uppercase(decode_utf8(output.stderr@)), no_such_object())
            ==> r is NotFound,
        output.code != Some(0i32) && !contains_text(uppercase(decode_utf8(output.stderr@)), no_such_object())
            ==> (r matches InspectStep::Failed(ContainersError::CommandError(o)) && o == output),
{
    let stderr = output_text(&output.stderr);
    let upper = to_uppercase(stderr.as_str());
    inspect_step_upper(output, upper.as_str())
}

/// The container an `inspect` answer describes: the first one listed.
pub fn select_inspected(infos: Vec<DetailedContainerInfo>) -> (r: Option<DetailedContainerInfo>)
    ensures
        infos.len() == 0 ==> r is None,
        infos.len() > 0 ==> r == Some(infos[0]),
{
    let mut infos = infos;
    if infos.len() == 0 {
        None
    } else {
        Some(infos.remove(0))
    }
}

/// Whether an inspected container exists.
pub fn exists_from_inspect(info: &Option<DetailedContainerInfo>) -> (r: bool)
    ensures
        r == info is Some,
{
    info.is_some()
}

/// Whether an inspected container runs: an unknown one does not.
pub fn runs_from_inspect(info: &Option<DetailedContainerInfo>) -> (r: bool)
    ensures
        r == (info matches Some(i) && i.state.running),
{
    match info {
        Some(detail) => detail.state.running,
        None => false,
    }
}

/// What podman's `container exists` outcome means: code 0 for yes, 1 for
/// no, any other code is a failure.
pub fn exists_from_code(output: CommandOutput) -> (r: Result<bool, ContainersError>)
    requires
        output.code is Some,
    ensures
        output.code == Some(0i32) ==> r == Ok::<bool, ContainersError>(true),
        output.code == Some(1i32) ==> r == Ok::<bool, ContainersError>(false),
        output.code != Some(0i32) && output.code != Some(1i32)
            ==> (r matches Err(ContainersError::CommandError(o)) && o == output),
{
    match output.code {
        Some(0) => Ok(true),
        Some(1) => Ok(false),
        _ => Err(ContainersError::CommandError(output)),
    }
}

// ------------------------------------------------------------------ health

/// What one look at an inspected container means while waiting for it to
/// become healthy.
#[derive(Debug)]
pub enum HealthPoll {
    /// The container is healthy.
    Healthy,
    /// The health check is still starting: look again after a pause.
    Starting,
    /// The container reports no health yet: look again.
    Unreported,
    /// Waiting failed.
    Failed(ContainersError),
}

/// One look at an inspected container while waiting for it to become
/// healthy: healthy ends the wait, starting goes on, any other status
/// fails with that status, and an unknown container fails.
pub fn health_poll(container: &Container, info: Option<DetailedContainerInfo>) -> (r: HealthPoll)
    ensures
        match info {
            None => r matches HealthPoll::Failed(ContainersError::ContainerNotExists { container_name })
                && container_name@ == container@.name,
            Some(i) => match i.state.health {
                None => r is Unreported,
                Some(h) => if h.status == ContainerStatus::Healthy {
                    r is Healthy
                } else if h.status == ContainerStatus::Starting {
                    r is Starting
                } else {
                    r matches HealthPoll::Failed(ContainersError::ContainerStatusError { status }) && status == h.status
                },
            },
        },
{
    match info {
        None => HealthPoll::Failed(ContainersError::ContainerNotExists { container_name: container.name.clone() }),
        Some(i) => match i.state.health {
            None => HealthPoll::Unreported,
            Some(h) => match h.status {
                ContainerStatus::Healthy => HealthPoll::Healthy,
                ContainerStatus::Starting => HealthPoll::Starting,
                status => HealthPoll::Failed(ContainersError::ContainerStatusError { status }),
            },
        },
    }
}

} // verus!
