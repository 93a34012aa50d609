//! When a stream parses, skips or gives up, what it ends with, and how its watcher goes on, all in
//! nanoseconds.

use vstd::prelude::*;
use vstd::string::*;

use crate::events::Delivery;
use crate::remote_agents::sanitize::sanitized;
use crate::remote_agents::stream::{
    after_line, end_text, join_step, stalled, start_failure_text, step_after_offer, step_for_line,
    timed_out, JoinStep, READER_SHUTDOWN_TIMEOUT, SnapshotStream, StartFailure, StreamEnd,
    StreamStep,
};
use crate::remote_agents::watcher::{
    delay_after, error_is_news, longer_delay, sleep_step, sound_delay, step_after_report,
    ReportStep, SleepStep, Watcher,
};

verus! {

/// A line is parsed only where half a second has passed since the last one that was parsed, and a
/// stream without such a line parses the first that comes.
pub proof fn lines_are_parsed_half_a_second_apart(stream: SnapshotStream, last: u64, now: u64)
    ensures
        stream.last_processed == Some(last) && now < last + 500_000_000 ==> !(step_for_line(
            stream,
            now,
        ) is Parse),
        stream.last_processed == Some(last) && now >= last + 500_000_000 ==> !(step_for_line(
            stream,
            now,
        ) is Skip),
        stream.last_processed is None ==> !(step_for_line(stream, now) is Skip),
{
}

/// A stream is given up over a line exactly where lines have come for twelve seconds, none of them
/// half a second after the one before it.
pub proof fn lines_without_a_pause_end_the_stream(stream: SnapshotStream, now: u64)
    ensures
        stream.line_run is None ==> !(step_for_line(stream, now) is GiveUp),
        stream.line_run matches Some(run) ==> (step_for_line(stream, now) is GiveUp <==> now
            < run.last + 500_000_000 && now >= run.started + 12_000_000_000),
{
}

/// A line that comes in is the last of its run, which goes on from the lines before it unless half
/// a second has passed since; only a line that is parsed counts as parsed, and none counts as
/// output.
pub proof fn lines_are_taken_down(stream: SnapshotStream, now: u64)
    ensures
        ({
            let after = after_line(stream, now);
            &&& after.last_output == stream.last_output
            &&& after.received_snapshot == stream.received_snapshot
            &&& step_for_line(stream, now) is Parse ==> after.last_processed == Some(now)
            &&& !(step_for_line(stream, now) is Parse) ==> after.last_processed
                == stream.last_processed
            &&& after.line_run is Some
            &&& after.line_run->0.last == now
            &&& stream.line_run is None ==> after.line_run->0.started == now
            &&& stream.line_run matches Some(run) ==> after.line_run->0.started == (if now
                < run.last + 500_000_000 {
                run.started
            } else {
                now
            })
        }),
{
}

/// A stream has stalled once twelve seconds have passed since its last snapshot.
pub proof fn streams_stall_after_twelve_seconds(stream: SnapshotStream, now: u64)
    ensures
        stalled(stream, now) <==> now >= stream.last_output + 12_000_000_000,
{
}

/// A stream that timed out has failed, with that as its error; one that was cancelled or
/// disconnected has not timed out.
pub proof fn timeouts_are_failures(step: StreamStep)
    requires
        timed_out(step),
    ensures
        step matches StreamStep::Stop { end: StreamEnd::Failed { error } } && error@
            == "remote snapshot stream timed out"@,
{
}

/// A stream goes on after an offer, whatever became of it, while there is an app; without one it
/// ends as cancelled.
pub proof fn offers_do_not_end_the_stream(delivery: Delivery)
    ensures
        delivery is Closed ==> step_after_offer(delivery) == (StreamStep::Stop {
            end: StreamEnd::Cancelled,
        }),
        !(delivery is Closed) ==> step_after_offer(delivery) is Wait,
{
}

/// A stream that was cancelled ends without an error, one that failed with its own error, and one
/// that was disconnected with what its child wrote, where it wrote anything; errors are shown in at
/// most 256 characters.
pub proof fn ends_say_why(error: String, stderr: Seq<char>)
    ensures
        end_text(StreamEnd::Cancelled, stderr).len() == 0,
        end_text(StreamEnd::Failed { error }, stderr) == sanitized(error@, 256),
        stderr.len() == 0 ==> end_text(StreamEnd::Disconnected, stderr) == sanitized(
            "ssh snapshot stream disconnected"@,
            256,
        ),
        stderr.len() > 0 ==> end_text(StreamEnd::Disconnected, stderr) == sanitized(
            "ssh snapshot stream disconnected: "@ + stderr,
            256,
        ),
{
}

/// A stream that could not be started says what failed, and with which error.
pub proof fn failed_starts_say_why(error: String)
    ensures
        start_failure_text(StartFailure::Ssh { error }) == "failed to start ssh: "@ + error@,
        start_failure_text(StartFailure::NoStdout) == "ssh stdout was unavailable"@,
        start_failure_text(StartFailure::NoStderr) == "ssh stderr was unavailable"@,
        start_failure_text(StartFailure::StdoutReader { error })
            == "failed to start ssh stdout reader: "@ + error@,
        start_failure_text(StartFailure::StderrReader { error })
            == "failed to start ssh stderr reader: "@ + error@,
{
}

/// A reader that has finished is joined; one that has not is looked at every ten milliseconds, for
/// one second from the end of its stream, and is then left alone.
pub proof fn readers_are_waited_for_a_second(ended: u64, now: u64)
    requires
        ended + 1_000_000_000 <= u64::MAX,
    ensures
        ({
            let deadline = (ended + READER_SHUTDOWN_TIMEOUT) as u64;
            &&& join_step(true, now, deadline) is Join
            &&& now < ended + 1_000_000_000 ==> join_step(false, now, deadline)
                == (JoinStep::Wait { pause: 10_000_000 })
            &&& now >= ended + 1_000_000_000 ==> join_step(false, now, deadline) is Detach
        }),
{
}

/// An error is logged unless it was logged last, less than five minutes ago.
pub proof fn errors_are_logged_once_in_five_minutes(watcher: Watcher, error: Seq<char>, now: u64)
    ensures
        watcher.last_logged_error is None ==> error_is_news(watcher, error, now),
        watcher.last_error_log_at is None ==> error_is_news(watcher, error, now),
        watcher.last_logged_error matches Some(last) ==> (last@ != error ==> error_is_news(
            watcher,
            error,
            now,
        )),
        watcher.last_error_log_at matches Some(at) ==> (now >= at + 300_000_000_000
            ==> error_is_news(watcher, error, now)),
        (watcher.last_logged_error matches Some(last) && last@ == error) && (
        watcher.last_error_log_at matches Some(at) && now < at + 300_000_000_000)
            ==> !error_is_news(watcher, error, now),
{
}

/// A report that another update holds back is offered again after a tenth of a second, the watcher
/// stops where the app is gone, and it rests for its delay otherwise.
pub proof fn reports_are_never_dropped(watcher: Watcher, delivery: Delivery)
    ensures
        delivery is Held <==> step_after_report(watcher, delivery) is Retry,
        delivery is Held ==> step_after_report(watcher, delivery) == (ReportStep::Retry {
            pause: 100_000_000,
        }),
        delivery is Closed <==> step_after_report(watcher, delivery) is Stop,
        delivery is Sent || delivery is Full ==> step_after_report(watcher, delivery) == (
        ReportStep::Rest { pause: watcher.reconnect_delay }),
{
}

/// A watcher waits for one second at first, twice as long each time, and never longer than thirty
/// seconds.
pub proof fn delays_double_up_to_half_a_minute(watcher: Watcher, delay: int, failures: nat)
    ensures
        sound_delay(watcher) <==> 1_000_000_000 <= watcher.reconnect_delay <= 30_000_000_000,
        delay_after(0) == 1_000_000_000,
        delay_after(failures + 1) == longer_delay(delay_after(failures)),
        delay <= 15_000_000_000 ==> longer_delay(delay) == 2 * delay,
        delay >= 15_000_000_000 ==> longer_delay(delay) == 30_000_000_000,
{
}

/// A watcher that is cancelled wakes up as cancelled, even past its deadline; one that is not
/// sleeps on to its deadline, for no longer than a tenth of a second at a time.
pub proof fn sleeps_end_at_their_deadline(cancel: bool, now: u64, deadline: u64)
    ensures
        cancel ==> sleep_step(cancel, now, deadline) == (SleepStep::Done { cancelled: true }),
        !cancel && now >= deadline ==> sleep_step(cancel, now, deadline) == (SleepStep::Done {
            cancelled: false,
        }),
        !cancel && now < deadline ==> (sleep_step(cancel, now, deadline) matches SleepStep::Sleep {
            pause,
        } && 0 < pause <= 100_000_000 && now + pause <= deadline && (pause == 100_000_000 || now
            + pause == deadline)),
{
}

} // verus!
