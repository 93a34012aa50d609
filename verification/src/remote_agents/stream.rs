//! The decisions of a snapshot stream: which lines to look at, when to give up, and what to
//! report at the end. Times are in nanoseconds since the stream was started.

use std::sync::atomic::AtomicBool;
use std::sync::Arc;

use vstd::prelude::*;
use vstd::string::*;

use crate::events::{can_become, offer_update, AppEvent, Delivery};
use crate::remote_agents::host::{RemoteAgentUpdateKind, RemoteHostKey};
use crate::remote_agents::presentation::RemoteAgentSnapshot;
use crate::remote_agents::sanitize::{
    clean_text, sanitize_remote_text, sanitized, sanitized_text_is_showable, MAX_REMOTE_TEXT_CHARS,
};

verus! {

/// A stream that brought no snapshot for this long is given up.
pub const SNAPSHOT_STALL_TIMEOUT: u64 = 12_000_000_000;

/// How often a stream or a sleeping watcher looks up.
pub const WATCHER_POLL_INTERVAL: u64 = 100_000_000;

/// Lines that follow the last parsed one sooner than this are skipped.
pub const MIN_SNAPSHOT_PROCESS_INTERVAL: u64 = 500_000_000;

/// How long the readers of a stream are waited for when it ends.
pub const READER_SHUTDOWN_TIMEOUT: u64 = 1_000_000_000;

/// How often the readers of a stream are looked at when it ends.
pub const READER_POLL_INTERVAL: u64 = 10_000_000;

/// How a stream ended, for its watcher.
#[derive(Debug, PartialEq, Eq)]
pub struct StreamOutcome {
    pub cancelled: bool,
    pub received_snapshot: bool,
    pub error: String,
}

/// Why a stream could not be started.
#[derive(Debug, PartialEq, Eq)]
pub enum StartFailure {
    Ssh { error: String },
    NoStdout,
    NoStderr,
    StdoutReader { error: String },
    StderrReader { error: String },
}

pub open spec fn start_failure_text(failure: StartFailure) -> Seq<char> {
    match failure {
        StartFailure::Ssh { error } => "failed to start ssh: "@ + error@,
        StartFailure::NoStdout => "ssh stdout was unavailable"@,
        StartFailure::NoStderr => "ssh stderr was unavailable"@,
        StartFailure::StdoutReader { error } => "failed to start ssh stdout reader: "@ + error@,
        StartFailure::StderrReader { error } => "failed to start ssh stderr reader: "@ + error@,
    }
}

/// The outcome of a stream that could not be started.
pub fn start_failed(failure: &StartFailure) -> (outcome: StreamOutcome)
    ensures
        !outcome.cancelled,
        !outcome.received_snapshot,
        outcome.error@ == start_failure_text(*failure),
{
    let error = match failure {
        StartFailure::Ssh { error } => {
            let mut text = "failed to start ssh: ".to_owned();
            text.append(error.as_str());
            text
        },
        StartFailure::NoStdout => "ssh stdout was unavailable".to_owned(),
        StartFailure::NoStderr => "ssh stderr was unavailable".to_owned(),
        StartFailure::StdoutReader { error } => {
            let mut text = "failed to start ssh stdout reader: ".to_owned();
            text.append(error.as_str());
            text
        },
        StartFailure::StderrReader { error } => {
            let mut text = "failed to start ssh stderr reader: ".to_owned();
            text.append(error.as_str());
            text
        },
    };
    StreamOutcome { cancelled: false, received_snapshot: false, error }
}

/// What happened to a stream that was waiting for a line.
#[derive(Debug, PartialEq, Eq)]
pub enum StreamEvent {
    /// The watcher is to stop.
    Cancelled,
    /// A line came in.
    Line,
    /// The line could not be read.
    Failed { error: String },
    /// The output of the stream is at its end.
    Disconnected,
    /// No line came in for a while.
    Quiet,
}

/// Why a stream ends.
#[derive(Debug, PartialEq, Eq)]
pub enum StreamEnd {
    Cancelled,
    Failed { error: String },
    Disconnected,
}

/// What a stream does next.
#[derive(Debug)]
pub enum StreamStep {
    /// Wait for the next line.
    Wait,
    /// Parse the line that came in.
    Parse,
    /// Offer a snapshot to the app, unless an update for the host is still pending there.
    Offer { snapshot: RemoteAgentSnapshot },
    /// Kill the child and report the outcome.
    Stop { end: StreamEnd },
}

/// How much time has passed, where the clock may also read less than before.
pub open spec fn elapsed(now: u64, since: u64) -> int {
    if now >= since {
        now - since
    } else {
        0
    }
}

/// Lines that came in one after the other without a pause.
#[derive(Debug, Clone, Copy, PartialEq, Eq, Structural)]
pub struct LineRun {
    /// When the first of them came in.
    pub started: u64,
    /// When the last of them came in.
    pub last: u64,
}

/// A stream that is being read.
#[derive(Debug, PartialEq, Eq)]
pub struct SnapshotStream {
    /// When the last snapshot came in, or the stream was started.
    pub last_output: u64,
    /// When the last line was parsed.
    pub last_processed: Option<u64>,
    /// The lines since the last pause, whether they were parsed or skipped.
    pub line_run: Option<LineRun>,
    pub received_snapshot: bool,
}

/// Whether a line comes too soon after the last one that was parsed to be parsed too.
pub open spec fn line_too_soon(stream: SnapshotStream, now: u64) -> bool {
    stream.last_processed matches Some(last) && elapsed(now, last) < MIN_SNAPSHOT_PROCESS_INTERVAL
}

/// Whether a stream has brought no snapshot for too long.
pub open spec fn stalled(stream: SnapshotStream, now: u64) -> bool {
    elapsed(now, stream.last_output) >= SNAPSHOT_STALL_TIMEOUT
}

/// The lines without a pause, once one more has come in. A pause is a time in which no line comes
/// that is long enough for the next one to be parsed.
pub open spec fn longer_run(run: Option<LineRun>, now: u64) -> LineRun {
    match run {
        Some(run) => if elapsed(now, run.last) < MIN_SNAPSHOT_PROCESS_INTERVAL {
            LineRun { started: run.started, last: now }
        } else {
            LineRun { started: now, last: now }
        },
        None => LineRun { started: now, last: now },
    }
}

/// Whether lines have come without a pause for as long as the stall timeout.
pub open spec fn never_slows_down(stream: SnapshotStream, now: u64) -> bool {
    elapsed(now, longer_run(stream.line_run, now).started) >= SNAPSHOT_STALL_TIMEOUT
}

/// What a stream does about a line that comes in.
pub enum LineStep {
    Parse,
    Skip,
    /// The remote never slows down.
    GiveUp,
}

/// What a stream does about a line: it is parsed unless it comes too soon, and the stream is given
/// up once lines have come without a pause for as long as the stall timeout.
pub open spec fn step_for_line(stream: SnapshotStream, now: u64) -> LineStep {
    if never_slows_down(stream, now) {
        LineStep::GiveUp
    } else if line_too_soon(stream, now) {
        LineStep::Skip
    } else {
        LineStep::Parse
    }
}

/// A stream after a line has come in, before what it does about it.
pub open spec fn after_line(stream: SnapshotStream, now: u64) -> SnapshotStream {
    SnapshotStream {
        last_processed: if step_for_line(stream, now) is Parse {
            Some(now)
        } else {
            stream.last_processed
        },
        line_run: Some(longer_run(stream.line_run, now)),
        ..stream
    }
}

/// The times that a stream holds are in order: a line that was parsed is among the lines that came
/// in, and none of them came after the last.
pub open spec fn in_order(stream: SnapshotStream) -> bool {
    &&& stream.last_processed matches Some(parsed) ==> stream.line_run matches Some(run) && parsed
        <= run.last
    &&& stream.line_run matches Some(run) ==> run.started <= run.last
}

/// A line comes in no earlier than those before it.
pub open spec fn comes_after_the_lines(stream: SnapshotStream, now: u64) -> bool {
    stream.line_run matches Some(run) ==> run.last <= now
}

/// A stream ends because it has brought no snapshot for too long.
pub open spec fn timed_out(step: StreamStep) -> bool {
    step matches StreamStep::Stop { end } && end matches StreamEnd::Failed { error } && error@
        == "remote snapshot stream timed out"@
}

/// Whether a stream is given up while valid lines come in at the given times. The line at a
/// position, where it is parsed, counts as output at the time that `parsed` gives for it.
pub open spec fn given_up(stream: SnapshotStream, times: Seq<u64>, parsed: Seq<u64>) -> bool
    decreases times.len(),
{
    if times.len() == 0 {
        false
    } else {
        let next = after_line(stream, times[0]);
        match step_for_line(stream, times[0]) {
            LineStep::GiveUp => true,
            LineStep::Skip => given_up(next, times.drop_first(), parsed.drop_first()),
            LineStep::Parse => given_up(
                SnapshotStream { last_output: parsed[0], received_snapshot: true, ..next },
                times.drop_first(),
                parsed.drop_first(),
            ),
        }
    }
}

/// Lines come in without a pause.
pub open spec fn without_pause(times: Seq<u64>) -> bool {
    forall|i: int|
        0 < i < times.len() ==> elapsed(#[trigger] times[i], times[i - 1])
            < MIN_SNAPSHOT_PROCESS_INTERVAL
}

/// Lines that go on without a pause end the stream once the stall timeout has passed since the
/// first of them.
proof fn lemma_run_ends(
    stream: SnapshotStream,
    run: LineRun,
    times: Seq<u64>,
    parsed: Seq<u64>,
)
    requires
        times.len() > 0,
        without_pause(times),
        longer_run(stream.line_run, times[0]) == run,
        elapsed(times.last(), run.started) >= SNAPSHOT_STALL_TIMEOUT,
    ensures
        given_up(stream, times, parsed),
    decreases times.len(),
{
    if times.len() > 1 && !never_slows_down(stream, times[0]) {
        let rest = times.drop_first();
        assert(elapsed(times[1], times[0]) < MIN_SNAPSHOT_PROCESS_INTERVAL);
        assert(rest[0] == times[1]);
        assert(rest.last() == times.last());
        assert forall|i: int| 0 < i < rest.len() implies elapsed(#[trigger] rest[i], rest[i - 1])
            < MIN_SNAPSHOT_PROCESS_INTERVAL by {
            assert(rest[i] == times[i + 1]);
            assert(rest[i - 1] == times[i]);
        }
        let next = after_line(stream, times[0]);
        let renewed = SnapshotStream { last_output: parsed[0], received_snapshot: true, ..next };
        let longer = LineRun { started: run.started, last: times[1] };
        lemma_run_ends(next, longer, rest, parsed.drop_first());
        lemma_run_ends(renewed, longer, rest, parsed.drop_first());
    }
}

/// A remote that never slows down is given up: whatever came before, valid lines that never pause
/// end a stream once the stall timeout has passed since the first of them, whatever snapshots they
/// bring.
pub proof fn remote_that_never_slows_down_is_given_up(
    stream: SnapshotStream,
    times: Seq<u64>,
    parsed: Seq<u64>,
)
    requires
        times.len() > 0,
        parsed.len() == times.len(),
        without_pause(times),
        elapsed(times.last(), times[0]) >= SNAPSHOT_STALL_TIMEOUT,
        in_order(stream),
        comes_after_the_lines(stream, times[0]),
    ensures
        given_up(stream, times, parsed),
{
    lemma_run_ends(stream, longer_run(stream.line_run, times[0]), times, parsed);
}

/// The times of a stream stay in order while its lines come in one after the other.
pub proof fn lines_keep_the_times_in_order(stream: SnapshotStream, now: u64)
    requires
        in_order(stream),
        comes_after_the_lines(stream, now),
    ensures
        in_order(after_line(stream, now)),
{
}

/// A line that comes after a pause is parsed, and the time until the stream is given up for its
/// lines starts anew.
pub proof fn pause_starts_the_run_anew(stream: SnapshotStream, now: u64)
    requires
        stream.line_run matches Some(run) ==> elapsed(now, run.last)
            >= MIN_SNAPSHOT_PROCESS_INTERVAL,
        in_order(stream),
    ensures
        step_for_line(stream, now) is Parse,
        after_line(stream, now).line_run == Some(LineRun { started: now, last: now }),
{
}

/// What a stream does after a snapshot was offered: only an app that is gone ends it.
pub open spec fn step_after_offer(delivery: Delivery) -> StreamStep {
    match delivery {
        Delivery::Closed => StreamStep::Stop { end: StreamEnd::Cancelled },
        Delivery::Held | Delivery::Sent | Delivery::Full => StreamStep::Wait,
    }
}

/// The text of the error with which a stream ends.
pub open spec fn end_text(end: StreamEnd, stderr: Seq<char>) -> Seq<char> {
    match end {
        StreamEnd::Cancelled => Seq::empty(),
        StreamEnd::Failed { error } => sanitized(error@, MAX_REMOTE_TEXT_CHARS as nat),
        StreamEnd::Disconnected => if stderr.len() == 0 {
            sanitized("ssh snapshot stream disconnected"@, MAX_REMOTE_TEXT_CHARS as nat)
        } else {
            sanitized(
                "ssh snapshot stream disconnected: "@ + stderr,
                MAX_REMOTE_TEXT_CHARS as nat,
            )
        },
    }
}

impl SnapshotStream {
    pub fn start(now: u64) -> (stream: Self)
        ensures
            stream.last_output == now,
            stream.last_processed is None,
            stream.line_run is None,
            !stream.received_snapshot,
            in_order(stream),
    {
        SnapshotStream {
            last_output: now,
            last_processed: None,
            line_run: None,
            received_snapshot: false,
        }
    }

    /// Goes on after something happened. A line is parsed unless it comes too soon: a short stall
    /// of the network can bring several lines at once, and the extra ones are skipped instead of
    /// ending the stream. They do not count as output. A remote that never slows down still hits
    /// the stall timeout.
    pub fn on_event(&mut self, event: StreamEvent, now: u64) -> (step: StreamStep)
        ensures
            *final(self) == (if event is Line {
                after_line(*old(self), now)
            } else {
                *old(self)
            }),
            match event {
                StreamEvent::Cancelled => step matches StreamStep::Stop { end } && end is Cancelled,
                StreamEvent::Line => match step_for_line(*old(self), now) {
                    LineStep::Parse => step is Parse,
                    LineStep::Skip => step is Wait,
                    LineStep::GiveUp => timed_out(step),
                },
                StreamEvent::Failed { error } => step matches StreamStep::Stop { end } && end
                    == (StreamEnd::Failed { error }),
                StreamEvent::Disconnected => step matches StreamStep::Stop { end } && end
                    is Disconnected,
                StreamEvent::Quiet => if stalled(*old(self), now) {
                    timed_out(step)
                } else {
                    step is Wait
                },
            },
    {
        match event {
            StreamEvent::Cancelled => StreamStep::Stop { end: StreamEnd::Cancelled },
            StreamEvent::Line => {
                let run = match self.line_run {
                    Some(run) => if now.saturating_sub(run.last) < MIN_SNAPSHOT_PROCESS_INTERVAL {
                        LineRun { started: run.started, last: now }
                    } else {
                        LineRun { started: now, last: now }
                    },
                    None => LineRun { started: now, last: now },
                };
                self.line_run = Some(run);
                if now.saturating_sub(run.started) >= SNAPSHOT_STALL_TIMEOUT {
                    return Self::time_out();
                }
                if let Some(last) = self.last_processed {
                    if now.saturating_sub(last) < MIN_SNAPSHOT_PROCESS_INTERVAL {
                        return StreamStep::Wait;
                    }
                }
                self.last_processed = Some(now);
                StreamStep::Parse
            },
            StreamEvent::Failed { error } => StreamStep::Stop { end: StreamEnd::Failed { error } },
            StreamEvent::Disconnected => StreamStep::Stop { end: StreamEnd::Disconnected },
            StreamEvent::Quiet => {
                if now.saturating_sub(self.last_output) >= SNAPSHOT_STALL_TIMEOUT {
                    Self::time_out()
                } else {
                    StreamStep::Wait
                }
            },
        }
    }

    fn time_out() -> (step: StreamStep)
        ensures
            timed_out(step),
    {
        StreamStep::Stop {
            end: StreamEnd::Failed { error: "remote snapshot stream timed out".to_owned() },
        }
    }

    /// Goes on after a line was parsed.
    pub fn on_parsed(&mut self, parsed: Result<RemoteAgentSnapshot, String>, now: u64) -> (step:
        StreamStep)
        ensures
            match parsed {
                Ok(snapshot) => {
                    &&& step == (StreamStep::Offer { snapshot })
                    &&& *final(self) == (SnapshotStream {
                        last_output: now,
                        received_snapshot: true,
                        ..*old(self)
                    })
                },
                Err(error) => {
                    &&& step == (StreamStep::Stop { end: StreamEnd::Failed { error } })
                    &&& *final(self) == *old(self)
                },
            },
    {
        match parsed {
            Ok(snapshot) => {
                self.last_output = now;
                self.received_snapshot = true;
                StreamStep::Offer { snapshot }
            },
            Err(error) => StreamStep::Stop { end: StreamEnd::Failed { error } },
        }
    }

    /// Goes on after a snapshot was offered. Only an app that is gone ends the stream.
    pub fn on_offered(&self, delivery: Delivery) -> (step: StreamStep)
        ensures
            step == step_after_offer(delivery),
    {
        match delivery {
            Delivery::Closed => StreamStep::Stop { end: StreamEnd::Cancelled },
            Delivery::Held | Delivery::Sent | Delivery::Full => StreamStep::Wait,
        }
    }

    /// Offers a snapshot to the app as an update for the host, and goes on by what became of it.
    pub fn offer_snapshot(
        &self,
        snapshot: RemoteAgentSnapshot,
        host: &RemoteHostKey,
        generation: u64,
        pending: &Arc<AtomicBool>,
        event_tx: &tokio::sync::mpsc::Sender<AppEvent>,
    ) -> (step: StreamStep)
        ensures
            exists|delivery: Delivery| #[trigger]
                can_become(
                    *host,
                    generation,
                    RemoteAgentUpdateKind::Snapshot(snapshot),
                    *pending,
                    *event_tx,
                    delivery,
                ) && step == step_after_offer(delivery),
    {
        let kind = RemoteAgentUpdateKind::Snapshot(snapshot);
        self.on_offered(offer_update(host, generation, kind, pending, event_tx))
    }

    /// The outcome of a stream that has ended, given what its child wrote as errors.
    pub fn outcome(&self, end: StreamEnd, stderr: &str) -> (outcome: StreamOutcome)
        ensures
            outcome.cancelled == (end is Cancelled),
            outcome.received_snapshot == self.received_snapshot,
            outcome.error@ == end_text(end, stderr@),
            clean_text(outcome.error@, MAX_REMOTE_TEXT_CHARS as nat),
    {
        let error = match end {
            StreamEnd::Cancelled => {
                return StreamOutcome {
                    cancelled: true,
                    received_snapshot: self.received_snapshot,
                    error: String::new(),
                };
            },
            StreamEnd::Failed { error } => error,
            StreamEnd::Disconnected => {
                if stderr.unicode_len() == 0 {
                    "ssh snapshot stream disconnected".to_owned()
                } else {
                    let mut text = "ssh snapshot stream disconnected: ".to_owned();
                    text.append(stderr);
                    text
                }
            },
        };
        proof {
            sanitized_text_is_showable(error@, MAX_REMOTE_TEXT_CHARS as nat);
        }
        StreamOutcome {
            cancelled: false,
            received_snapshot: self.received_snapshot,
            error: sanitize_remote_text(error.as_str(), MAX_REMOTE_TEXT_CHARS),
        }
    }
}

/// What to do about a reader thread when its stream has ended.
#[derive(Debug, PartialEq, Eq)]
pub enum JoinStep {
    /// It has finished: take its result.
    Join,
    /// Look again after the given time.
    Wait { pause: u64 },
    /// It is stuck: leave it alone.
    Detach,
}

/// What to do about a reader: it is waited for until it has finished or the deadline has passed.
pub open spec fn join_step(finished: bool, now: u64, deadline: u64) -> JoinStep {
    if finished {
        JoinStep::Join
    } else if now < deadline {
        JoinStep::Wait { pause: READER_POLL_INTERVAL }
    } else {
        JoinStep::Detach
    }
}

/// A reader is waited for until it has finished or the deadline has passed.
pub fn join_reader(finished: bool, now: u64, deadline: u64) -> (step: JoinStep)
    ensures
        step == join_step(finished, now, deadline),
        step == (if finished {
            JoinStep::Join
        } else if now < deadline {
            JoinStep::Wait { pause: READER_POLL_INTERVAL }
        } else {
            JoinStep::Detach
        }),
{
    if finished {
        JoinStep::Join
    } else if now < deadline {
        JoinStep::Wait { pause: READER_POLL_INTERVAL }
    } else {
        JoinStep::Detach
    }
}

} // verus!
