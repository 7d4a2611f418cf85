use contain_rs::client::handle::{next_request, HandleEvent, HandleOp, HandleRequest};
use contain_rs::client::outcome::{
    command_result, exists_from_code, exists_from_inspect, health_poll, inspect_step, runs_from_inspect,
    select_inspected, HealthPoll, InspectStep,
};
use contain_rs::client::wait::{log_step, scan_log, wait_action, watch_log, LogStep, WaitAction};
use contain_rs::client::{Docker, Podman};
use contain_rs::container::{Container, Image, WaitStrategy};
use contain_rs::error::{CommandOutput, ContainersError};
use contain_rs::rt::{ContainerState, ContainerStatus, DetailedContainerInfo, HealthCheck};

fn output(code: Option<i32>, stdout: &str, stderr: &str) -> CommandOutput {
    CommandOutput { code, stdout: stdout.as_bytes().to_vec(), stderr: stderr.as_bytes().to_vec() }
}

fn info(running: bool, health: Option<ContainerStatus>) -> DetailedContainerInfo {
    DetailedContainerInfo {
        id: "abc".to_string(),
        state: ContainerState { running, health: health.map(|status| HealthCheck { status }) },
    }
}

fn web() -> Container {
    let mut c = Container::from_image(Image::from_name("nginx"));
    c.name("web");
    c
}

#[test]
fn clients_name_their_programs() {
    assert_eq!(Docker::new().program(), "docker");
    assert_eq!(Podman::new().program(), "podman");
    assert!(Docker::default().host.is_none());
    assert!(Podman::default().host.is_none());
}

#[test]
fn command_result_by_exit_code() {
    assert_eq!(command_result(output(Some(0), "out", "")).unwrap(), "out");
    match command_result(output(Some(125), "", "boom")) {
        Err(ContainersError::CommandError(o)) => {
            assert_eq!(o.code, Some(125));
            assert_eq!(o.stderr, b"boom".to_vec());
        },
        _ => panic!("expected a command error"),
    }
    assert!(matches!(command_result(output(None, "", "")), Err(ContainersError::CommandError(_))));
}

#[test]
fn inspect_step_by_outcome() {
    assert!(matches!(inspect_step(output(Some(0), "[]", "")), InspectStep::Parse(s) if s == "[]"));
    assert!(matches!(
        inspect_step(output(Some(1), "", "Error: no such object: \"web\"")),
        InspectStep::NotFound
    ));
    assert!(matches!(inspect_step(output(Some(125), "", "Error: No Such Object")), InspectStep::NotFound));
    assert!(matches!(
        inspect_step(output(Some(125), "", "permission denied")),
        InspectStep::Failed(ContainersError::CommandError(_))
    ));
}

#[test]
fn inspected_container_state() {
    assert!(select_inspected(vec![]).is_none());
    let first = select_inspected(vec![info(true, None), info(false, None)]).unwrap();
    assert!(first.state.running);
    assert!(!exists_from_inspect(&None));
    assert!(exists_from_inspect(&Some(info(false, None))));
    assert!(!runs_from_inspect(&None));
    assert!(!runs_from_inspect(&Some(info(false, None))));
    assert!(runs_from_inspect(&Some(info(true, None))));
}

#[test]
fn podman_exists_by_exit_code() {
    assert!(exists_from_code(output(Some(0), "", "")).unwrap());
    assert!(!exists_from_code(output(Some(1), "", "")).unwrap());
    assert!(matches!(exists_from_code(output(Some(2), "", "x")), Err(ContainersError::CommandError(_))));
}

#[test]
fn health_poll_by_status() {
    let c = web();
    assert!(matches!(health_poll(&c, Some(info(true, Some(ContainerStatus::Healthy)))), HealthPoll::Healthy));
    assert!(matches!(health_poll(&c, Some(info(true, Some(ContainerStatus::Starting)))), HealthPoll::Starting));
    assert!(matches!(health_poll(&c, Some(info(true, None))), HealthPoll::Unreported));
    assert!(matches!(
        health_poll(&c, Some(info(true, Some(ContainerStatus::Unhealthy)))),
        HealthPoll::Failed(ContainersError::ContainerStatusError { status: ContainerStatus::Unhealthy })
    ));
    assert!(matches!(
        health_poll(&c, Some(info(false, Some(ContainerStatus::Exited)))),
        HealthPoll::Failed(ContainersError::ContainerStatusError { status: ContainerStatus::Exited })
    ));
    match health_poll(&c, None) {
        HealthPoll::Failed(ContainersError::ContainerNotExists { container_name }) => assert_eq!(container_name, "web"),
        _ => panic!("expected a missing container"),
    }
}

#[test]
fn wait_action_by_strategy() {
    let mut c = web();
    assert!(matches!(wait_action(&c), WaitAction::Ready));
    c.wait_for(WaitStrategy::HealthCheck);
    assert!(matches!(wait_action(&c), WaitAction::PollHealth));
    c.wait_for(WaitStrategy::WaitTime { duration: 1500 });
    assert!(matches!(wait_action(&c), WaitAction::Sleep { millis: 1500 }));
    c.wait_for(WaitStrategy::LogMessage { pattern: "ready for start up".to_string() });
    assert!(matches!(wait_action(&c), WaitAction::WatchLog { ref pattern } if pattern == "ready for start up"));
    c.wait_for(WaitStrategy::LogMessage { pattern: "(unclosed".to_string() });
    assert!(matches!(wait_action(&c), WaitAction::Fail(ContainersError::ContainerWaitFailed { .. })));
}

#[test]
fn log_wait_finds_first_match() {
    let c = web();
    let lines = vec![Ok("starting".to_string()), Ok("ready for start up".to_string()), Err("broken".to_string())];
    assert!(scan_log("ready for start up", &c, &lines).is_ok());
    assert!(scan_log(".*start.*", &c, &lines).is_ok());
}

#[test]
fn log_wait_stops_at_read_error() {
    let c = web();
    let lines = vec![Ok("starting".to_string()), Err("broken pipe".to_string()), Ok("ready".to_string())];
    match scan_log("ready", &c, &lines) {
        Err(ContainersError::IOError { message }) => assert_eq!(message, "broken pipe"),
        _ => panic!("expected a read error"),
    }
}

#[test]
fn log_wait_fails_when_log_closes() {
    let c = web();
    let lines = vec![Ok("starting".to_string())];
    match scan_log("ready", &c, &lines) {
        Err(ContainersError::ContainerWaitFailed { container_name, wait_strategy }) => {
            assert_eq!(container_name, "web");
            assert!(matches!(wait_strategy, WaitStrategy::LogMessage { pattern } if pattern == "ready"));
        },
        _ => panic!("expected a failed wait"),
    }
    assert!(matches!(watch_log("(", &c, &lines), Err(ContainersError::ContainerWaitFailed { .. })));
}

#[test]
fn log_step_per_line() {
    let c = web();
    assert!(matches!(log_step("x", &c, Some(&Ok("axb".to_string()))), LogStep::Done(Ok(()))));
    assert!(matches!(log_step("x", &c, Some(&Ok("abc".to_string()))), LogStep::Continue));
    assert!(matches!(log_step("x", &c, None), LogStep::Done(Err(ContainersError::ContainerWaitFailed { .. }))));
}

fn drive(op: HandleOp, exists: bool, runs: bool) -> (Vec<HandleRequest>, HandleRequest) {
    let mut history = Vec::new();
    let mut calls = Vec::new();
    loop {
        let request = next_request(op, &history);
        match request {
            HandleRequest::AskExists => history.push(HandleEvent::Answer(exists)),
            HandleRequest::AskRuns => history.push(HandleEvent::Answer(runs)),
            HandleRequest::Finish(_) | HandleRequest::Invalid => return (calls, request),
            other => {
                calls.push(other);
                history.push(HandleEvent::Completed);
            },
        }
    }
}

#[test]
fn handle_run_only_when_not_running() {
    let (calls, end) = drive(HandleOp::Run, true, true);
    assert!(calls.is_empty());
    assert!(end == HandleRequest::Finish(None));
    let (calls, _) = drive(HandleOp::Run, true, false);
    assert!(calls == vec![HandleRequest::Run]);
    let (calls, _) = drive(HandleOp::Run, false, false);
    assert!(calls == vec![HandleRequest::Run]);
}

#[test]
fn handle_run_and_wait() {
    let (calls, _) = drive(HandleOp::RunAndWait, false, false);
    assert!(calls == vec![HandleRequest::Run, HandleRequest::Wait]);
    let (calls, _) = drive(HandleOp::RunAndWait, true, true);
    assert!(calls.is_empty());
}

#[test]
fn handle_rm_stops_then_removes() {
    let (calls, _) = drive(HandleOp::Rm, true, true);
    assert!(calls == vec![HandleRequest::Stop, HandleRequest::Remove]);
    let (calls, _) = drive(HandleOp::Rm, true, false);
    assert!(calls == vec![HandleRequest::Remove]);
    let (calls, _) = drive(HandleOp::Rm, false, false);
    assert!(calls.is_empty());
}

#[test]
fn handle_queries() {
    let (_, end) = drive(HandleOp::IsRunning, true, true);
    assert!(end == HandleRequest::Finish(Some(true)));
    let (_, end) = drive(HandleOp::IsRunning, false, true);
    assert!(end == HandleRequest::Finish(Some(false)));
    let (_, end) = drive(HandleOp::Exists, true, false);
    assert!(end == HandleRequest::Finish(Some(true)));
    let (calls, end) = drive(HandleOp::Log, true, true);
    assert!(calls == vec![HandleRequest::Log]);
    assert!(end == HandleRequest::Finish(Some(true)));
    let (calls, end) = drive(HandleOp::Log, true, false);
    assert!(calls.is_empty());
    assert!(end == HandleRequest::Finish(Some(false)));
    let (calls, _) = drive(HandleOp::Stop, true, true);
    assert!(calls == vec![HandleRequest::Stop]);
    let (calls, _) = drive(HandleOp::Wait, false, false);
    assert!(calls == vec![HandleRequest::Wait]);
}

#[test]
fn handle_refuses_events_that_do_not_fit() {
    assert!(next_request(HandleOp::Exists, &vec![HandleEvent::Completed]) == HandleRequest::Invalid);
    assert!(
        next_request(HandleOp::Exists, &vec![HandleEvent::Answer(true), HandleEvent::Answer(true)])
            == HandleRequest::Invalid
    );
}
