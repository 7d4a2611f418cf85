//! What a container handle asks of its client.
//!
//! A handle operation interleaves questions to the client (does the
//! container exist, does it run) with commands (run, wait, stop, remove,
//! follow the log). [`next_request`] decides, from the answers and
//! completions so far, what the operation asks next; the caller performs
//! it, records the event and asks again until the operation finishes. A
//! failed client call ends the operation with that failure.
//!
//! The operations: `exists` asks whether the container exists;
//! `is_running` asks whether it exists and, if so, whether it runs; `run`
//! runs it unless it is running; `wait` waits for it; `run_and_wait` does
//! `run` and then `wait` unless it is running; `stop` stops it if it is
//! running; `rm` does `stop` and then removes it if it exists; `log`
//! follows its log if it is running.

use vstd::prelude::*;

verus! {

/// The operations of a container handle.
#[derive(Debug, Clone, Copy, PartialEq, Eq, Structural)]
pub enum HandleOp {
    Exists,
    IsRunning,
    Run,
    Wait,
    RunAndWait,
    Stop,
    Rm,
    Log,
}

/// What happened after a request: the answer to a question, or the
/// completion of a command.
#[derive(Debug, PartialEq, Eq, Structural)]
pub enum HandleEvent {
    Answer(bool),
    Completed,
}

/// What an operation asks next.
#[derive(Debug, PartialEq, Eq, Structural)]
pub enum HandleRequest {
    /// Ask whether the container exists.
    AskExists,
    /// Ask whether the container runs.
    AskRuns,
    Run,
    Wait,
    Stop,
    Remove,
    /// Follow the log.
    Log,
    /// The operation is over; `Some(b)` is its yes-or-no result (for
    /// `exists` and `is_running`, and for `log` whether the log is
    /// followed).
    Finish(Option<bool>),
    /// The events do not fit the operation.
    Invalid,
}

/// How far a part of an operation got.
pub enum Progress {
    /// It asks this next.
    Asks(HandleRequest),
    /// It is over with this result; the next part starts at `next`.
    Known(bool, int),
    /// The events do not fit.
    Invalid,
}

/// The question whether the container exists, at `k`.
pub open spec fn probe_exists(h: Seq<HandleEvent>, k: int) -> Progress {
    if k >= h.len() {
        Progress::Asks(HandleRequest::AskExists)
    } else {
        match h[k] {
            HandleEvent::Answer(b) => Progress::Known(b, k + 1),
            HandleEvent::Completed => Progress::Invalid,
        }
    }
}

/// The question whether the container runs, at `k`: it runs if it exists
/// and the client says it runs.
pub open spec fn probe_running(h: Seq<HandleEvent>, k: int) -> Progress {
    match probe_exists(h, k) {
        Progress::Known(false, j) => Progress::Known(false, j),
        Progress::Known(true, j) => if j >= h.len() {
            Progress::Asks(HandleRequest::AskRuns)
        } else {
            match h[j] {
                HandleEvent::Answer(b) => Progress::Known(b, j + 1),
                HandleEvent::Completed => Progress::Invalid,
            }
        },
        other => other,
    }
}

/// The command `c` at `k`, done if `when` holds.
pub open spec fn command_if(h: Seq<HandleEvent>, k: int, when: bool, c: HandleRequest) -> Progress {
    if !when {
        Progress::Known(false, k)
    } else if k >= h.len() {
        Progress::Asks(c)
    } else if h[k] == HandleEvent::Completed {
        Progress::Known(true, k + 1)
    } else {
        Progress::Invalid
    }
}

/// `run` from `k`: the command `run` unless the container runs.
pub open spec fn run_part(h: Seq<HandleEvent>, k: int) -> Progress {
    match probe_running(h, k) {
        Progress::Known(running, j) => command_if(h, j, !running, HandleRequest::Run),
        other => other,
    }
}

/// `stop` from `k`: the command `stop` if the container runs.
pub open spec fn stop_part(h: Seq<HandleEvent>, k: int) -> Progress {
    match probe_running(h, k) {
        Progress::Known(running, j) => command_if(h, j, running, HandleRequest::Stop),
        other => other,
    }
}

/// The request that ends an operation whose last part ended at `j` with
/// result `result`.
pub open spec fn finish(h: Seq<HandleEvent>, j: int, result: Option<bool>) -> HandleRequest {
    if j == h.len() {
        HandleRequest::Finish(result)
    } else {
        HandleRequest::Invalid
    }
}

pub open spec fn progress_request(p: Progress, result: spec_fn(bool, int) -> HandleRequest) -> HandleRequest {
    match p {
        Progress::Asks(r) => r,
        Progress::Known(b, j) => result(b, j),
        Progress::Invalid => HandleRequest::Invalid,
    }
}

/// What operation `op` asks next, after the events `h`.
pub open spec fn next_request_spec(op: HandleOp, h: Seq<HandleEvent>) -> HandleRequest {
    match op {
        HandleOp::Exists => progress_request(probe_exists(h, 0), |b: bool, j: int| finish(h, j, Some(b))),
        HandleOp::IsRunning => progress_request(probe_running(h, 0), |b: bool, j: int| finish(h, j, Some(b))),
        HandleOp::Run => progress_request(run_part(h, 0), |b: bool, j: int| finish(h, j, None)),
        HandleOp::Wait => progress_request(
            command_if(h, 0, true, HandleRequest::Wait),
            |b: bool, j: int| finish(h, j, None),
        ),
        HandleOp::RunAndWait => progress_request(
            probe_running(h, 0),
            |running: bool, j: int| if running {
                finish(h, j, None)
            } else {
                progress_request(
                    run_part(h, j),
                    |b: bool, j2: int| progress_request(
                        command_if(h, j2, true, HandleRequest::Wait),
                        |b2: bool, j3: int| finish(h, j3, None),
                    ),
                )
            },
        ),
        HandleOp::Stop => progress_request(stop_part(h, 0), |b: bool, j: int| finish(h, j, None)),
        HandleOp::Rm => progress_request(
            stop_part(h, 0),
            |b: bool, j: int| progress_request(
                probe_exists(h, j),
                |exists: bool, j2: int| progress_request(
                    command_if(h, j2, exists, HandleRequest::Remove),
                    |b2: bool, j3: int| finish(h, j3, None),
                ),
            ),
        ),
        HandleOp::Log => progress_request(
            probe_running(h, 0),
            |running: bool, j: int| progress_request(
                command_if(h, j, running, HandleRequest::Log),
                |logged: bool, j2: int| finish(h, j2, Some(logged)),
            ),
        ),
    }
}

// ------------------------------------------------------------------ exec

/// How far a part of an operation got, at run time.
enum Step {
    Asks(HandleRequest),
    Known(bool, usize),
    Invalid,
}

spec fn step_view(s: Step) -> Progress {
    match s {
        Step::Asks(r) => Progress::Asks(r),
        Step::Known(b, j) => Progress::Known(b, j as int),
        Step::Invalid => Progress::Invalid,
    }
}

fn exists_step(h: &Vec<HandleEvent>, k: usize) -> (r: Step)
    requires
        k <= h.len(),
    ensures
        step_view(r) == probe_exists(h@, k as int),
        r matches Step::Known(_, j) ==> j <= h.len(),
{
    if k >= h.len() {
        Step::Asks(HandleRequest::AskExists)
    } else {
        match h[k] {
            HandleEvent::Answer(b) => Step::Known(b, k + 1),
            HandleEvent::Completed => Step::Invalid,
        }
    }
}

fn running_step(h: &Vec<HandleEvent>, k: usize) -> (r: Step)
    requires
        k <= h.len(),
    ensures
        step_view(r) == probe_running(h@, k as int),
        r matches Step::Known(_, j) ==> j <= h.len(),
{
    match exists_step(h, k) {
        Step::Known(false, j) => Step::Known(false, j),
        Step::Known(true, j) => {
            if j >= h.len() {
                Step::Asks(HandleRequest::AskRuns)
            } else {
                match h[j] {
                    HandleEvent::Answer(b) => Step::Known(b, j + 1),
                    HandleEvent::Completed => Step::Invalid,
                }
            }
        },
        other => other,
    }
}

fn command_step(h: &Vec<HandleEvent>, k: usize, when: bool, c: HandleRequest) -> (r: Step)
    requires
        k <= h.len(),
    ensures
        step_view(r) == command_if(h@, k as int, when, c),
        r matches Step::Known(_, j) ==> j <= h.len(),
{
    if !when {
        Step::Known(false, k)
    } else if k >= h.len() {
        Step::Asks(c)
    } else if h[k] == HandleEvent::Completed {
        Step::Known(true, k + 1)
    } else {
        Step::Invalid
    }
}

fn finish_exec(h: &Vec<HandleEvent>, j: usize, result: Option<bool>) -> (r: HandleRequest)
    ensures
        r == finish(h@, j as int, result),
{
    if j == h.len() {
        HandleRequest::Finish(result)
    } else {
        HandleRequest::Invalid
    }
}

fn run_step(h: &Vec<HandleEvent>, k: usize) -> (r: Step)
    requires
        k <= h.len(),
    ensures
        step_view(r) == run_part(h@, k as int),
        r matches Step::Known(_, j) ==> j <= h.len(),
{
    match running_step(h, k) {
        Step::Known(running, j) => command_step(h, j, !running, HandleRequest::Run),
        other => other,
    }
}

fn stop_step(h: &Vec<HandleEvent>, k: usize) -> (r: Step)
    requires
        k <= h.len(),
    ensures
        step_view(r) == stop_part(h@, k as int),
        r matches Step::Known(_, j) ==> j <= h.len(),
{
    match running_step(h, k) {
        Step::Known(running, j) => command_step(h, j, running, HandleRequest::Stop),
        other => other,
    }
}

/// What operation `op` asks next, after the events `history`.
pub fn next_request(op: HandleOp, history: &Vec<HandleEvent>) -> (r: HandleRequest)
    ensures
        r == next_request_spec(op, history@),
{
    let h = history;
    match op {
        HandleOp::Exists => match exists_step(h, 0) {
            Step::Asks(r) => r,
            Step::Known(b, j) => finish_exec(h, j, Some(b)),
            Step::Invalid => HandleRequest::Invalid,
        },
        HandleOp::IsRunning => match running_step(h, 0) {
            Step::Asks(r) => r,
            Step::Known(b, j) => finish_exec(h, j, Some(b)),
            Step::Invalid => HandleRequest::Invalid,
        },
        HandleOp::Run => match run_step(h, 0) {
            Step::Asks(r) => r,
            Step::Known(_, j) => finish_exec(h, j, None),
            Step::Invalid => HandleRequest::Invalid,
        },
        HandleOp::Wait => match command_step(h, 0, true, HandleRequest::Wait) {
            Step::Asks(r) => r,
            Step::Known(_, j) => finish_exec(h, j, None),
            Step::Invalid => HandleRequest::Invalid,
        },
        HandleOp::RunAndWait => match running_step(h, 0) {
            Step::Asks(r) => r,
            Step::Invalid => HandleRequest::Invalid,
            Step::Known(running, j) => {
                if running {
                    finish_exec(h, j, None)
                } else {
                    match run_step(h, j) {
                        Step::Asks(r) => r,
                        Step::Invalid => HandleRequest::Invalid,
                        Step::Known(_, j2) => match command_step(h, j2, true, HandleRequest::Wait) {
                            Step::Asks(r) => r,
                            Step::Known(_, j3) => finish_exec(h, j3, None),
                            Step::Invalid => HandleRequest::Invalid,
                        },
                    }
                }
            },
        },
        HandleOp::Stop => match stop_step(h, 0) {
            Step::Asks(r) => r,
            Step::Known(_, j) => finish_exec(h, j, None),
            Step::Invalid => HandleRequest::Invalid,
        },
        HandleOp::Rm => match stop_step(h, 0) {
            Step::Asks(r) => r,
            Step::Invalid => HandleRequest::Invalid,
            Step::Known(_, j) => match exists_step(h, j) {
                Step::Asks(r) => r,
                Step::Invalid => HandleRequest::Invalid,
                Step::Known(exists, j2) => match command_step(h, j2, exists, HandleRequest::Remove) {
                    Step::Asks(r) => r,
                    Step::Known(_, j3) => finish_exec(h, j3, None),
                    Step::Invalid => HandleRequest::Invalid,
                },
            },
        },
        HandleOp::Log => match running_step(h, 0) {
            Step::Asks(r) => r,
            Step::Invalid => HandleRequest::Invalid,
            Step::Known(running, j) => match command_step(h, j, running, HandleRequest::Log) {
                Step::Asks(r) => r,
                Step::Known(logged, j2) => finish_exec(h, j2, Some(logged)),
                Step::Invalid => HandleRequest::Invalid,
            },
        },
    }
}

// ------------------------------------------------------------------ laws

/// A handle reports its container running only after the client said
/// that it exists and that it runs.
pub proof fn lemma_running_confirmed(h: Seq<HandleEvent>)
    requires
        next_request_spec(HandleOp::IsRunning, h) == HandleRequest::Finish(Some(true)),
    ensures
        h == seq![HandleEvent::Answer(true), HandleEvent::Answer(true)],
{
    assert(h.len() == 2);
    assert(h =~= seq![HandleEvent::Answer(true), HandleEvent::Answer(true)]);
}

/// `run` runs the container only when the last answer was that it does
/// not exist or does not run.
pub proof fn lemma_run_only_when_stopped(h: Seq<HandleEvent>)
    requires
        next_request_spec(HandleOp::Run, h) == HandleRequest::Run,
    ensures
        h.len() > 0,
        h.last() == HandleEvent::Answer(false),
{
}

/// `rm` removes the container only right after the client said that it
/// still exists.
pub proof fn lemma_rm_removes_existing(h: Seq<HandleEvent>)
    requires
        next_request_spec(HandleOp::Rm, h) == HandleRequest::Remove,
    ensures
        h.len() > 0,
        h.last() == HandleEvent::Answer(true),
{
}

/// `stop` stops the container only right after the client said that it
/// runs.
pub proof fn lemma_stop_only_running(h: Seq<HandleEvent>)
    requires
        next_request_spec(HandleOp::Stop, h) == HandleRequest::Stop,
    ensures
        h == seq![HandleEvent::Answer(true), HandleEvent::Answer(true)],
{
    assert(h =~= seq![HandleEvent::Answer(true), HandleEvent::Answer(true)]);
}

// Short names for the events in the laws below.

pub open spec fn yes() -> HandleEvent {
    HandleEvent::Answer(true)
}

pub open spec fn no() -> HandleEvent {
    HandleEvent::Answer(false)
}

pub open spec fn done() -> HandleEvent {
    HandleEvent::Completed
}

/// `exists` asks the client once and answers what the client said.
pub proof fn lemma_exists_answers_client(h: Seq<HandleEvent>, b: bool)
    ensures
        next_request_spec(HandleOp::Exists, h) == HandleRequest::Finish(Some(b)) <==> h == seq![HandleEvent::Answer(b)],
        next_request_spec(HandleOp::Exists, h) == HandleRequest::AskExists <==> h.len() == 0,
{
    if h == seq![HandleEvent::Answer(b)] {
        assert(h[0] == HandleEvent::Answer(b));
    }
    if next_request_spec(HandleOp::Exists, h) == HandleRequest::Finish(Some(b)) {
        assert(h =~= seq![HandleEvent::Answer(b)]);
    }
}

/// `is_running` is false when the client says the container does not
/// exist (without asking whether it runs), and otherwise what the client
/// says about running.
pub proof fn lemma_is_running_answers_client(h: Seq<HandleEvent>, b: bool)
    ensures
        next_request_spec(HandleOp::IsRunning, h) == HandleRequest::Finish(Some(b)) <==> (
            (h == seq![no()] && !b) || h == seq![yes(), HandleEvent::Answer(b)]),
        next_request_spec(HandleOp::IsRunning, h) == HandleRequest::AskRuns <==> h == seq![yes()],
{
    if h == seq![no()] {
        assert(h[0] == no());
    }
    if h == seq![yes(), HandleEvent::Answer(b)] {
        assert(h[0] == yes() && h[1] == HandleEvent::Answer(b));
    }
    if h == seq![yes()] {
        assert(h[0] == yes());
    }
    if next_request_spec(HandleOp::IsRunning, h) == HandleRequest::Finish(Some(b)) {
        if h[0] == no() {
            assert(h =~= seq![no()]);
        } else {
            assert(h =~= seq![yes(), HandleEvent::Answer(b)]);
        }
    }
    if next_request_spec(HandleOp::IsRunning, h) == HandleRequest::AskRuns {
        assert(h =~= seq![yes()]);
    }
}

/// `run_and_wait` on a container that is not running (the client says it
/// does not exist, or exists and does not run) runs it (unless `run`'s own
/// check finds it running by then) and then waits for it; on a running
/// container it does nothing. These are all the ways it runs, waits and
/// finishes.
pub proof fn lemma_run_and_wait_starts_stopped(h: Seq<HandleEvent>)
    ensures
        next_request_spec(HandleOp::RunAndWait, h) == HandleRequest::Run <==> (
            h == seq![no(), no()] || h == seq![no(), yes(), no()] || h == seq![yes(), no(), no()]
            || h == seq![yes(), no(), yes(), no()]),
        next_request_spec(HandleOp::RunAndWait, h) == HandleRequest::Wait <==> (
            h == seq![no(), no(), done()] || h == seq![no(), yes(), no(), done()] || h == seq![no(), yes(), yes()]
            || h == seq![yes(), no(), no(), done()] || h == seq![yes(), no(), yes(), no(), done()]
            || h == seq![yes(), no(), yes(), yes()]),
        next_request_spec(HandleOp::RunAndWait, h) == HandleRequest::Finish(None) <==> (
            h == seq![yes(), yes()] || h == seq![no(), no(), done(), done()]
            || h == seq![no(), yes(), no(), done(), done()] || h == seq![no(), yes(), yes(), done()]
            || h == seq![yes(), no(), no(), done(), done()] || h == seq![yes(), no(), yes(), no(), done(), done()]
            || h == seq![yes(), no(), yes(), yes(), done()]),
{
    lemma_run_and_wait_cases(h);
}

proof fn lemma_run_and_wait_cases(h: Seq<HandleEvent>)
    ensures
        next_request_spec(HandleOp::RunAndWait, h) == HandleRequest::Run ==> (
            h =~= seq![no(), no()] || h =~= seq![no(), yes(), no()] || h =~= seq![yes(), no(), no()]
            || h =~= seq![yes(), no(), yes(), no()]),
        next_request_spec(HandleOp::RunAndWait, h) == HandleRequest::Wait ==> (
            h =~= seq![no(), no(), done()] || h =~= seq![no(), yes(), no(), done()] || h =~= seq![no(), yes(), yes()]
            || h =~= seq![yes(), no(), no(), done()] || h =~= seq![yes(), no(), yes(), no(), done()]
            || h =~= seq![yes(), no(), yes(), yes()]),
        next_request_spec(HandleOp::RunAndWait, h) == HandleRequest::Finish(None) ==> (
            h =~= seq![yes(), yes()] || h =~= seq![no(), no(), done(), done()]
            || h =~= seq![no(), yes(), no(), done(), done()] || h =~= seq![no(), yes(), yes(), done()]
            || h =~= seq![yes(), no(), no(), done(), done()] || h =~= seq![yes(), no(), yes(), no(), done(), done()]
            || h =~= seq![yes(), no(), yes(), yes(), done()]),
        (h == seq![no(), no()] || h == seq![no(), yes(), no()] || h == seq![yes(), no(), no()]
            || h == seq![yes(), no(), yes(), no()]) ==> next_request_spec(HandleOp::RunAndWait, h) == HandleRequest::Run,
        (h == seq![no(), no(), done()] || h == seq![no(), yes(), no(), done()] || h == seq![no(), yes(), yes()]
            || h == seq![yes(), no(), no(), done()] || h == seq![yes(), no(), yes(), no(), done()]
            || h == seq![yes(), no(), yes(), yes()]) ==> next_request_spec(HandleOp::RunAndWait, h) == HandleRequest::Wait,
        (h == seq![yes(), yes()] || h == seq![no(), no(), done(), done()]
            || h == seq![no(), yes(), no(), done(), done()] || h == seq![no(), yes(), yes(), done()]
            || h == seq![yes(), no(), no(), done(), done()] || h == seq![yes(), no(), yes(), no(), done(), done()]
            || h == seq![yes(), no(), yes(), yes(), done()])
            ==> next_request_spec(HandleOp::RunAndWait, h) == HandleRequest::Finish(None),
{
}

/// `run` asks whether the container exists and, if so, whether it runs,
/// and runs it exactly when it is not running.
pub proof fn lemma_run_starts_stopped(h: Seq<HandleEvent>)
    ensures
        next_request_spec(HandleOp::Run, h) == HandleRequest::AskExists <==> (h.len() == 0),
        next_request_spec(HandleOp::Run, h) == HandleRequest::AskRuns <==> (h == seq![yes()]),
        next_request_spec(HandleOp::Run, h) == HandleRequest::Run <==> (h == seq![no()] || h == seq![yes(), no()]),
        next_request_spec(HandleOp::Run, h) == HandleRequest::Finish(None) <==> (h == seq![yes(), yes()] || h == seq![no(), done()] || h == seq![yes(), no(), done()]),
{
    lemma_run_cases(h);
}

proof fn lemma_run_cases(h: Seq<HandleEvent>)
    ensures
        next_request_spec(HandleOp::Run, h) == HandleRequest::AskExists ==> (h.len() == 0),
        next_request_spec(HandleOp::Run, h) == HandleRequest::AskRuns ==> (h =~= seq![yes()]),
        next_request_spec(HandleOp::Run, h) == HandleRequest::Run ==> (h =~= seq![no()] || h =~= seq![yes(), no()]),
        next_request_spec(HandleOp::Run, h) == HandleRequest::Finish(None) ==> (h =~= seq![yes(), yes()] || h =~= seq![no(), done()] || h =~= seq![yes(), no(), done()]),
        (h.len() == 0) ==> next_request_spec(HandleOp::Run, h) == HandleRequest::AskExists,
        (h == seq![yes()]) ==> next_request_spec(HandleOp::Run, h) == HandleRequest::AskRuns,
        (h == seq![no()] || h == seq![yes(), no()]) ==> next_request_spec(HandleOp::Run, h) == HandleRequest::Run,
        (h == seq![yes(), yes()] || h == seq![no(), done()] || h == seq![yes(), no(), done()]) ==> next_request_spec(HandleOp::Run, h) == HandleRequest::Finish(None),
{
}

/// `wait` waits for the container at once and finishes when that is done.
pub proof fn lemma_wait_waits(h: Seq<HandleEvent>)
    ensures
        next_request_spec(HandleOp::Wait, h) == HandleRequest::Wait <==> (h.len() == 0),
        next_request_spec(HandleOp::Wait, h) == HandleRequest::Finish(None) <==> (h == seq![done()]),
{
    lemma_wait_cases(h);
}

proof fn lemma_wait_cases(h: Seq<HandleEvent>)
    ensures
        next_request_spec(HandleOp::Wait, h) == HandleRequest::Wait ==> (h.len() == 0),
        next_request_spec(HandleOp::Wait, h) == HandleRequest::Finish(None) ==> (h =~= seq![done()]),
        (h.len() == 0) ==> next_request_spec(HandleOp::Wait, h) == HandleRequest::Wait,
        (h == seq![done()]) ==> next_request_spec(HandleOp::Wait, h) == HandleRequest::Finish(None),
{
}

/// `stop` stops the container exactly when the client says that it
/// exists and runs.
pub proof fn lemma_stop_stops_running(h: Seq<HandleEvent>)
    ensures
        next_request_spec(HandleOp::Stop, h) == HandleRequest::AskExists <==> (h.len() == 0),
        next_request_spec(HandleOp::Stop, h) == HandleRequest::AskRuns <==> (h == seq![yes()]),
        next_request_spec(HandleOp::Stop, h) == HandleRequest::Stop <==> (h == seq![yes(), yes()]),
        next_request_spec(HandleOp::Stop, h) == HandleRequest::Finish(None) <==> (h == seq![no()] || h == seq![yes(), no()] || h == seq![yes(), yes(), done()]),
{
    lemma_stop_cases(h);
}

proof fn lemma_stop_cases(h: Seq<HandleEvent>)
    ensures
        next_request_spec(HandleOp::Stop, h) == HandleRequest::AskExists ==> (h.len() == 0),
        next_request_spec(HandleOp::Stop, h) == HandleRequest::AskRuns ==> (h =~= seq![yes()]),
        next_request_spec(HandleOp::Stop, h) == HandleRequest::Stop ==> (h =~= seq![yes(), yes()]),
        next_request_spec(HandleOp::Stop, h) == HandleRequest::Finish(None) ==> (h =~= seq![no()] || h =~= seq![yes(), no()] || h =~= seq![yes(), yes(), done()]),
        (h.len() == 0) ==> next_request_spec(HandleOp::Stop, h) == HandleRequest::AskExists,
        (h == seq![yes()]) ==> next_request_spec(HandleOp::Stop, h) == HandleRequest::AskRuns,
        (h == seq![yes(), yes()]) ==> next_request_spec(HandleOp::Stop, h) == HandleRequest::Stop,
        (h == seq![no()] || h == seq![yes(), no()] || h == seq![yes(), yes(), done()]) ==> next_request_spec(HandleOp::Stop, h) == HandleRequest::Finish(None),
{
}

/// `rm` first does what `stop` does, then asks again whether the
/// container exists and removes it exactly when it does.
pub proof fn lemma_rm_stops_then_removes(h: Seq<HandleEvent>)
    ensures
        next_request_spec(HandleOp::Rm, h) == HandleRequest::AskRuns <==> (h == seq![yes()]),
        next_request_spec(HandleOp::Rm, h) == HandleRequest::Stop <==> (h == seq![yes(), yes()]),
        next_request_spec(HandleOp::Rm, h) == HandleRequest::Remove <==> (h == seq![no(), yes()] || h == seq![yes(), no(), yes()] || h == seq![yes(), yes(), done(), yes()]),
        next_request_spec(HandleOp::Rm, h) == HandleRequest::Finish(None) <==> (h == seq![no(), no()] || h == seq![yes(), no(), no()] || h == seq![yes(), yes(), done(), no()] || h == seq![no(), yes(), done()] || h == seq![yes(), no(), yes(), done()] || h == seq![yes(), yes(), done(), yes(), done()]),
{
    lemma_rm_cases(h);
}

proof fn lemma_rm_cases(h: Seq<HandleEvent>)
    ensures
        next_request_spec(HandleOp::Rm, h) == HandleRequest::AskRuns ==> (h =~= seq![yes()]),
        next_request_spec(HandleOp::Rm, h) == HandleRequest::Stop ==> (h =~= seq![yes(), yes()]),
        next_request_spec(HandleOp::Rm, h) == HandleRequest::Remove ==> (h =~= seq![no(), yes()] || h =~= seq![yes(), no(), yes()] || h =~= seq![yes(), yes(), done(), yes()]),
        next_request_spec(HandleOp::Rm, h) == HandleRequest::Finish(None) ==> (h =~= seq![no(), no()] || h =~= seq![yes(), no(), no()] || h =~= seq![yes(), yes(), done(), no()] || h =~= seq![no(), yes(), done()] || h =~= seq![yes(), no(), yes(), done()] || h =~= seq![yes(), yes(), done(), yes(), done()]),
        (h == seq![yes()]) ==> next_request_spec(HandleOp::Rm, h) == HandleRequest::AskRuns,
        (h == seq![yes(), yes()]) ==> next_request_spec(HandleOp::Rm, h) == HandleRequest::Stop,
        (h == seq![no(), yes()] || h == seq![yes(), no(), yes()] || h == seq![yes(), yes(), done(), yes()]) ==> next_request_spec(HandleOp::Rm, h) == HandleRequest::Remove,
        (h == seq![no(), no()] || h == seq![yes(), no(), no()] || h == seq![yes(), yes(), done(), no()] || h == seq![no(), yes(), done()] || h == seq![yes(), no(), yes(), done()] || h == seq![yes(), yes(), done(), yes(), done()]) ==> next_request_spec(HandleOp::Rm, h) == HandleRequest::Finish(None),
{
}

/// `log` follows the log exactly when the client says that the
/// container exists and runs, and reports whether it did.
pub proof fn lemma_log_follows_running(h: Seq<HandleEvent>)
    ensures
        next_request_spec(HandleOp::Log, h) == HandleRequest::AskExists <==> (h.len() == 0),
        next_request_spec(HandleOp::Log, h) == HandleRequest::AskRuns <==> (h == seq![yes()]),
        next_request_spec(HandleOp::Log, h) == HandleRequest::Log <==> (h == seq![yes(), yes()]),
        next_request_spec(HandleOp::Log, h) == HandleRequest::Finish(Some(true)) <==> (h == seq![yes(), yes(), done()]),
        next_request_spec(HandleOp::Log, h) == HandleRequest::Finish(Some(false)) <==> (h == seq![no()] || h == seq![yes(), no()]),
{
    lemma_log_cases(h);
}

proof fn lemma_log_cases(h: Seq<HandleEvent>)
    ensures
        next_request_spec(HandleOp::Log, h) == HandleRequest::AskExists ==> (h.len() == 0),
        next_request_spec(HandleOp::Log, h) == HandleRequest::AskRuns ==> (h =~= seq![yes()]),
        next_request_spec(HandleOp::Log, h) == HandleRequest::Log ==> (h =~= seq![yes(), yes()]),
        next_request_spec(HandleOp::Log, h) == HandleRequest::Finish(Some(true)) ==> (h =~= seq![yes(), yes(), done()]),
        next_request_spec(HandleOp::Log, h) == HandleRequest::Finish(Some(false)) ==> (h =~= seq![no()] || h =~= seq![yes(), no()]),
        (h.len() == 0) ==> next_request_spec(HandleOp::Log, h) == HandleRequest::AskExists,
        (h == seq![yes()]) ==> next_request_spec(HandleOp::Log, h) == HandleRequest::AskRuns,
        (h == seq![yes(), yes()]) ==> next_request_spec(HandleOp::Log, h) == HandleRequest::Log,
        (h == seq![yes(), yes(), done()]) ==> next_request_spec(HandleOp::Log, h) == HandleRequest::Finish(Some(true)),
        (h == seq![no()] || h == seq![yes(), no()]) ==> next_request_spec(HandleOp::Log, h) == HandleRequest::Finish(Some(false)),
{
}

/// `run_and_wait` asks whether the container exists at the start and
/// again when `run` checks, and whether it runs right after each yes.
pub proof fn lemma_run_and_wait_asks(h: Seq<HandleEvent>)
    ensures
        next_request_spec(HandleOp::RunAndWait, h) == HandleRequest::AskExists <==> (h.len() == 0 || h == seq![no()] || h == seq![yes(), no()]),
        next_request_spec(HandleOp::RunAndWait, h) == HandleRequest::AskRuns <==> (h == seq![yes()] || h == seq![no(), yes()] || h == seq![yes(), no(), yes()]),
{
    lemma_run_and_wait_ask_cases(h);
}

proof fn lemma_run_and_wait_ask_cases(h: Seq<HandleEvent>)
    ensures
        next_request_spec(HandleOp::RunAndWait, h) == HandleRequest::AskExists ==> (h.len() == 0 || h =~= seq![no()] || h =~= seq![yes(), no()]),
        next_request_spec(HandleOp::RunAndWait, h) == HandleRequest::AskRuns ==> (h =~= seq![yes()] || h =~= seq![no(), yes()] || h =~= seq![yes(), no(), yes()]),
        (h.len() == 0 || h == seq![no()] || h == seq![yes(), no()]) ==> next_request_spec(HandleOp::RunAndWait, h) == HandleRequest::AskExists,
        (h == seq![yes()] || h == seq![no(), yes()] || h == seq![yes(), no(), yes()]) ==> next_request_spec(HandleOp::RunAndWait, h) == HandleRequest::AskRuns,
{
}

/// `rm` asks whether the container exists at the start and again once
/// the stop part is over.
pub proof fn lemma_rm_asks(h: Seq<HandleEvent>)
    ensures
        next_request_spec(HandleOp::Rm, h) == HandleRequest::AskExists <==> (h.len() == 0 || h == seq![no()] || h == seq![yes(), no()] || h == seq![yes(), yes(), done()]),
{
    lemma_rm_ask_cases(h);
}

proof fn lemma_rm_ask_cases(h: Seq<HandleEvent>)
    ensures
        next_request_spec(HandleOp::Rm, h) == HandleRequest::AskExists ==> (h.len() == 0 || h =~= seq![no()] || h =~= seq![yes(), no()] || h =~= seq![yes(), yes(), done()]),
        (h.len() == 0 || h == seq![no()] || h == seq![yes(), no()] || h == seq![yes(), yes(), done()]) ==> next_request_spec(HandleOp::Rm, h) == HandleRequest::AskExists,
{
}

} // verus!
