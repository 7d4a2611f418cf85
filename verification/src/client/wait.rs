//! Waiting for a started container to be ready.

use vstd::prelude::*;
use crate::container::{Container, WaitStrategy, WaitStrategyView};
use crate::error::ContainersError;

verus! {

/// `regex::Regex::new(p).is_ok()`: whether `p` is a regular expression
/// the regex crate accepts.
pub uninterp spec fn pattern_is_valid(p: Seq<char>) -> bool;

/// `regex::Regex::is_match`: whether the regular expression `p` matches
/// somewhere in `line`.
pub uninterp spec fn pattern_matches(p: Seq<char>, line: Seq<char>) -> bool;

/// `regex::Regex::new` of the regex crate, telling whether it accepts `p`.
#[verifier::external_body]
fn regex_is_valid(p: &str) -> (r: bool)
    ensures
        r == pattern_is_valid(p@),
{
    regex::Regex::new(p).is_ok()
}

/// `regex::Regex::is_match` of the regex crate, on the expression `p`
/// (which `Regex::new` accepts).
#[verifier::external_body]
fn regex_is_match(p: &str, line: &str) -> (r: bool)
    requires
        pattern_is_valid(p@),
    ensures
        r == pattern_matches(p@, line@),
{
    regex::Regex::new(p).unwrap().is_match(line)
}

/// The error of a wait that gave up.
pub open spec fn wait_failed(container: &Container, strategy: WaitStrategyView, e: ContainersError) -> bool {
    e matches ContainersError::ContainerWaitFailed { container_name, wait_strategy }
        && container_name@ == container@.name && wait_strategy@ == strategy
}

// ------------------------------------------------------------------ plan

/// What waiting for a container takes.
#[derive(Debug)]
pub enum WaitAction {
    /// Follow the log until a line matches the pattern.
    WatchLog { pattern: String },
    /// Inspect the container until it is healthy.
    PollHealth,
    /// Sleep for this many milliseconds.
    Sleep { millis: u64 },
    /// The container is ready at once.
    Ready,
    /// Waiting cannot succeed.
    Fail(ContainersError),
}

/// What waiting for a container takes, by its wait strategy. A log pattern
/// that is no valid regular expression can never be found.
pub fn wait_action(container: &Container) -> (r: WaitAction)
    ensures
        match container@.wait_strategy {
            None => r is Ready,
            Some(WaitStrategyView::HealthCheck) => r is PollHealth,
            Some(WaitStrategyView::WaitTime { duration }) => r == (WaitAction::Sleep { millis: duration }),
            Some(WaitStrategyView::LogMessage { pattern }) => if pattern_is_valid(pattern) {
                r matches WaitAction::WatchLog { pattern: p } && p@ == pattern
            } else {
                r matches WaitAction::Fail(e) && wait_failed(container, WaitStrategyView::LogMessage { pattern }, e)
            },
        },
{
    match &container.wait_strategy {
        None => WaitAction::Ready,
        Some(WaitStrategy::HealthCheck) => WaitAction::PollHealth,
        Some(WaitStrategy::WaitTime { duration }) => WaitAction::Sleep { millis: *duration },
        Some(WaitStrategy::LogMessage { pattern }) => {
            if regex_is_valid(pattern.as_str()) {
                WaitAction::WatchLog { pattern: pattern.clone() }
            } else {
                WaitAction::Fail(ContainersError::ContainerWaitFailed {
                    container_name: container.name.clone(),
                    wait_strategy: WaitStrategy::LogMessage { pattern: pattern.clone() },
                })
            }
        },
    }
}

// ------------------------------------------------------------------ log

/// A line read from the log, or the message of the error that reading it
/// raised.
pub type LogLine = Result<String, String>;

pub open spec fn log_lines_view(lines: Seq<LogLine>) -> Seq<Result<Seq<char>, Seq<char>>> {
    lines.map_values(|l: LogLine| match l {
        Ok(s) => Ok(s@),
        Err(m) => Err(m@),
    })
}

/// How a log ends a wait.
pub enum LogVerdict {
    Found,
    ReadError(Seq<char>),
    Closed,
}

/// The verdict on a log: the first line that matches or fails to read
/// decides; a log that closes before decides nothing.
pub open spec fn log_verdict(p: Seq<char>, lines: Seq<Result<Seq<char>, Seq<char>>>) -> LogVerdict
    decreases lines.len(),
{
    if lines.len() == 0 {
        LogVerdict::Closed
    } else {
        match lines[0] {
            Err(m) => LogVerdict::ReadError(m),
            Ok(l) => if pattern_matches(p, l) {
                LogVerdict::Found
            } else {
                log_verdict(p, lines.drop_first())
            },
        }
    }
}

/// What one event of a followed log means.
#[derive(Debug)]
pub enum LogStep {
    /// Read on.
    Continue,
    /// The wait is over, with this outcome.
    Done(Result<(), ContainersError>),
}

/// One event of a followed log: a line, a read error, or (`None`) the end
/// of the log. A matching line ends the wait successfully, a read error
/// and the end of the log end it with an error.
pub fn log_step(pattern: &str, container: &Container, line: Option<&LogLine>) -> (r: LogStep)
    requires
        pattern_is_valid(pattern@),
    ensures
        match line {
            None => r matches LogStep::Done(Err(e))
                && wait_failed(container, WaitStrategyView::LogMessage { pattern: pattern@ }, e),
            Some(Err(m)) => r matches LogStep::Done(Err(ContainersError::IOError { message })) && message@ == m@,
            Some(Ok(l)) => if pattern_matches(pattern@, l@) {
                r matches LogStep::Done(Ok(()))
            } else {
                r is Continue
            },
        },
{
    match line {
        None => LogStep::Done(Err(ContainersError::ContainerWaitFailed {
            container_name: container.name.clone(),
            wait_strategy: WaitStrategy::LogMessage { pattern: String::from_str(pattern) },
        })),
        Some(Err(m)) => LogStep::Done(Err(ContainersError::IOError { message: m.clone() })),
        Some(Ok(l)) => if regex_is_match(pattern, l.as_str()) {
            LogStep::Done(Ok(()))
        } else {
            LogStep::Continue
        },
    }
}

/// Waits on a log that holds `lines` and then closes: succeeds at the
/// first matching line, fails at a read error before it, and fails when
/// the log closes without one.
pub fn scan_log(pattern: &str, container: &Container, lines: &Vec<LogLine>) -> (r: Result<(), ContainersError>)
    requires
        pattern_is_valid(pattern@),
    ensures
        match log_verdict(pattern@, log_lines_view(lines@)) {
            LogVerdict::Found => r is Ok,
            LogVerdict::ReadError(m) => r matches Err(ContainersError::IOError { message }) && message@ == m,
            LogVerdict::Closed => r matches Err(e)
                && wait_failed(container, WaitStrategyView::LogMessage { pattern: pattern@ }, e),
        },
{
    let ghost all = log_lines_view(lines@);
    let mut i: usize = 0;
    assert(all.skip(0) =~= all);
    while i < lines.len()
        invariant
            i <= lines.len(),
            all == log_lines_view(lines@),
            pattern_is_valid(pattern@),
            log_verdict(pattern@, all) == log_verdict(pattern@, all.skip(i as int)),
        decreases lines.len() - i,
    {
        assert(all.skip(i as int)[0] == all[i as int]);
        match log_step(pattern, container, Some(&lines[i])) {
            LogStep::Done(r) => {
                return r;
            },
            LogStep::Continue => {},
        }
        assert(all.skip(i as int).drop_first() =~= all.skip(i + 1));
        i = i + 1;
    }
    assert(all.skip(i as int).len() == 0);
    match log_step(pattern, container, None) {
        LogStep::Done(r) => r,
        LogStep::Continue => {
            assert(false);
            Ok(())
        },
    }
}

/// Waits on a log that holds `lines` and then closes, for a pattern that
/// may be invalid: an invalid pattern fails the wait.
pub fn watch_log(pattern: &str, container: &Container, lines: &Vec<LogLine>) -> (r: Result<(), ContainersError>)
    ensures
        !pattern_is_valid(pattern@) ==> (r matches Err(e)
            && wait_failed(container, WaitStrategyView::LogMessage { pattern: pattern@ }, e)),
        pattern_is_valid(pattern@) ==> match log_verdict(pattern@, log_lines_view(lines@)) {
            LogVerdict::Found => r is Ok,
            LogVerdict::ReadError(m) => r matches Err(ContainersError::IOError { message }) && message@ == m,
            LogVerdict::Closed => r matches Err(e)
                && wait_failed(container, WaitStrategyView::LogMessage { pattern: pattern@ }, e),
        },
{
    if regex_is_valid(pattern) {
        scan_log(pattern, container, lines)
    } else {
        Err(ContainersError::ContainerWaitFailed {
            container_name: container.name.clone(),
            wait_strategy: WaitStrategy::LogMessage { pattern: String::from_str(pattern) },
        })
    }
}

// ------------------------------------------------------------------ laws

/// A log line that matches the pattern.
pub open spec fn line_found(p: Seq<char>, x: Result<Seq<char>, Seq<char>>) -> bool {
    x matches Ok(l) && pattern_matches(p, l)
}

/// A log line that was read and does not match the pattern.
pub open spec fn line_passes(p: Seq<char>, x: Result<Seq<char>, Seq<char>>) -> bool {
    x matches Ok(l) && !pattern_matches(p, l)
}

/// Line `i` matches and every line before it was read and does not match.
pub open spec fn found_at(p: Seq<char>, lines: Seq<Result<Seq<char>, Seq<char>>>, i: int) -> bool {
    0 <= i < lines.len() && line_found(p, lines[i])
        && forall|j: int| 0 <= j < i ==> line_passes(p, #[trigger] lines[j])
}

/// A log wait succeeds exactly when some line matches the pattern and
/// every line before it was read and does not match.
pub proof fn lemma_log_wait_succeeds(p: Seq<char>, lines: Seq<Result<Seq<char>, Seq<char>>>)
    ensures
        log_verdict(p, lines) is Found <==> exists|i: int| found_at(p, lines, i),
    decreases lines.len(),
{
    if lines.len() > 0 {
        let rest = lines.drop_first();
        lemma_log_wait_succeeds(p, rest);
        if exists|i: int| found_at(p, lines, i) {
            let i = choose|i: int| found_at(p, lines, i);
            if i > 0 {
                assert(line_passes(p, lines[0]));
                assert(found_at(p, rest, i - 1)) by {
                    assert(rest[i - 1] == lines[i]);
                    assert forall|j: int| 0 <= j < i - 1 implies line_passes(p, #[trigger] rest[j]) by {
                        assert(rest[j] == lines[j + 1]);
                    }
                }
            }
        }
        if log_verdict(p, lines) is Found {
            if line_found(p, lines[0]) {
                assert(found_at(p, lines, 0));
            } else {
                let i = choose|i: int| found_at(p, rest, i);
                assert(found_at(p, lines, i + 1)) by {
                    assert(lines[i + 1] == rest[i]);
                    assert forall|j: int| 0 <= j < i + 1 implies line_passes(p, #[trigger] lines[j]) by {
                        if j > 0 {
                            assert(lines[j] == rest[j - 1]);
                        }
                    }
                }
            }
        }
    }
}

} // verus!
