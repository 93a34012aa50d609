use std::sync::atomic::{AtomicBool, Ordering};
use std::sync::Arc;

use herdr::config::RemoteAgentSourceConfig;
use herdr::events::{AppEvent, Delivery};
use herdr::protocol::PROTOCOL_VERSION;
use herdr::remote_agents::command::{
    kill_order, remote_snapshot_script, shell_quote, snapshot_stream_command,
};
use herdr::remote_agents::host::{RemoteAgentUpdateKind, RemoteHostKey};
use herdr::remote_agents::input::{
    read_bounded_line, read_capped_stderr, stderr_text, LineRead, MAX_STDERR_BYTES,
};
use herdr::remote_agents::presentation::RemoteAgentSnapshot;
use herdr::remote_agents::stream::{
    join_reader, start_failed, JoinStep, LineRun, SnapshotStream, StartFailure, StreamEnd,
    StreamEvent, StreamOutcome, StreamStep,
};
use herdr::remote_agents::watcher::{
    cancelable_sleep, ReportStep, SleepStep, WatchStep, Watcher,
};

const MILLIS: u64 = 1_000_000;
const SECOND: u64 = 1_000_000_000;

fn empty_snapshot() -> RemoteAgentSnapshot {
    RemoteAgentSnapshot {
        version: "0.8.0".into(),
        protocol: PROTOCOL_VERSION,
        agents: Vec::new(),
    }
}

fn failure(error: &str) -> StreamOutcome {
    StreamOutcome {
        cancelled: false,
        received_snapshot: false,
        error: error.into(),
    }
}

fn read_all(pieces: &[&[u8]], max_bytes: usize) -> Result<Vec<Vec<u8>>, String> {
    let mut lines = Vec::new();
    let mut line = Vec::new();
    for piece in pieces {
        let mut rest = *piece;
        while !rest.is_empty() {
            match read_bounded_line(&mut line, rest, max_bytes)? {
                LineRead::More => rest = &[],
                LineRead::Line { consumed, line } => {
                    lines.push(line);
                    rest = &rest[consumed..];
                }
                LineRead::End => unreachable!(),
            }
        }
    }
    match read_bounded_line(&mut line, &[], max_bytes)? {
        LineRead::End => {}
        LineRead::Line { consumed, line } => {
            assert_eq!(consumed, 0);
            lines.push(line);
        }
        LineRead::More => unreachable!(),
    }
    Ok(lines)
}

#[test]
fn lines_do_not_depend_on_the_pieces_they_come_in() {
    let expected = Ok(vec![b"ab".to_vec(), Vec::new(), b"cd\r".to_vec()]);
    assert_eq!(read_all(&[b"ab\r\n\ncd\r"], 16), expected);
    assert_eq!(read_all(&[b"a", b"b\r", b"\n\nc", b"d\r"], 16), expected);
    assert_eq!(read_all(&[], 16), Ok(Vec::new()));
}

#[test]
fn line_limit_counts_the_newline() {
    assert_eq!(read_all(&[b"abc\n"], 4), Ok(vec![b"abc".to_vec()]));
    let error = Err("remote snapshot exceeds 3 bytes".to_string());
    assert_eq!(read_all(&[b"abc\n"], 3), error);
    assert_eq!(read_all(&[b"ab", b"c\n"], 3), error);
    assert_eq!(read_all(&[b"abcd"], 3), error);
}

#[test]
fn stderr_is_kept_up_to_its_limit() {
    let mut stored = Vec::new();
    assert!(read_capped_stderr(&mut stored, b"abc"));
    assert_eq!(stored, b"abc");
    let chunk = vec![b'x'; MAX_STDERR_BYTES];
    assert!(!read_capped_stderr(&mut stored, &chunk));
    assert_eq!(stored.len(), MAX_STDERR_BYTES);
    assert!(!read_capped_stderr(&mut stored, b"more"));
    assert_eq!(stored.len(), MAX_STDERR_BYTES);
}

#[test]
fn stderr_text_is_decoded_and_sanitized() {
    assert_eq!(stderr_text("gr\u{fc}n\n\u{1b}[0m".as_bytes()), "gr\u{fc}n[0m");
    assert_eq!(stderr_text(b"a\xffb"), "a\u{fffd}b");
    assert_eq!(stderr_text(&[b'y'; 300]).len(), 256);
}

#[test]
fn shell_quoting_wraps_single_quotes() {
    assert_eq!(shell_quote("work"), "'work'");
    assert_eq!(shell_quote(""), "''");
    assert_eq!(shell_quote("it's $HOME"), "'it'\"'\"'s $HOME'");
}

#[test]
fn snapshot_script_is_exact() {
    let script = remote_snapshot_script("it's");
    let expected_start = "fleet_session='it'\"'\"'s'\nfleet_bin=\ntry_herdr() {\n    candidate=$1\n";
    assert!(script.starts_with(expected_start));
    assert!(script.contains("        *'\"protocol\": 20,'*) ;;\n        *) return 1 ;;\n    esac\n"));
    assert!(script.contains(
        "try_herdr \"$HOME/.local/share/mise/installs/herdr/0.8.0/bin/herdr\" ||\ntry_herdr \"$HOME/.local/share/mise/installs/herdr/0.8.0/herdr\" ||\n"
    ));
    assert!(script.contains(
        "try_herdr \"$HOME/.local/share/mise/installs/github-ogulcancelik-herdr/0.8.0/herdr\" ||\n"
    ));
    assert!(script.contains("    printf '%s\\n' 'no compatible remote herdr binary found' >&2\n    exit 127\n}\n"));
    assert!(script.contains("\nwhile sleep 2; do\n"));
    assert!(script.ends_with(
        "\"$fleet_bin\" --session \"$fleet_session\" api snapshot || exit $?\ndone\n"
    ));
}

#[test]
fn target_stands_behind_the_end_of_options() {
    let command = snapshot_stream_command(&RemoteAgentSourceConfig {
        target: "-oProxyCommand=x".into(),
        label: None,
        session: "default".into(),
    });
    assert_eq!(command.args.len(), 38);
    assert_eq!(
        &command.args[35..],
        &["--".to_string(), "-oProxyCommand=x".to_string(), "/bin/sh -s".to_string()]
    );
}

#[test]
fn processes_are_killed_from_the_highest_id_down() {
    assert_eq!(kill_order(&vec![3, 9, 3, 5, 9], 7), vec![9, 5, 3]);
    assert_eq!(kill_order(&Vec::new(), 7), vec![7]);
}

#[test]
fn streams_that_do_not_start_say_why() {
    let cases = [
        (
            StartFailure::Ssh { error: "denied".into() },
            "failed to start ssh: denied",
        ),
        (StartFailure::NoStdout, "ssh stdout was unavailable"),
        (StartFailure::NoStderr, "ssh stderr was unavailable"),
        (
            StartFailure::StdoutReader { error: "limit".into() },
            "failed to start ssh stdout reader: limit",
        ),
        (
            StartFailure::StderrReader { error: "limit".into() },
            "failed to start ssh stderr reader: limit",
        ),
    ];
    for (reason, expected) in cases {
        assert_eq!(start_failed(&reason), failure(expected));
    }
}

#[test]
fn stream_skips_lines_that_come_too_soon() {
    let mut stream = SnapshotStream::start(0);
    assert!(matches!(stream.on_event(StreamEvent::Line, 10), StreamStep::Parse));
    assert!(matches!(
        stream.on_event(StreamEvent::Line, 9 + 500 * MILLIS),
        StreamStep::Wait
    ));
    assert_eq!(
        stream,
        SnapshotStream {
            last_output: 0,
            last_processed: Some(10),
            line_run: Some(LineRun {
                started: 10,
                last: 9 + 500 * MILLIS,
            }),
            received_snapshot: false,
        }
    );
    assert!(matches!(
        stream.on_event(StreamEvent::Line, 10 + 500 * MILLIS),
        StreamStep::Parse
    ));
    assert_eq!(stream.last_processed, Some(10 + 500 * MILLIS));
}

#[test]
fn stream_parses_again_while_lines_go_on() {
    let mut stream = SnapshotStream::start(0);
    assert!(matches!(stream.on_event(StreamEvent::Line, 0), StreamStep::Parse));
    assert!(matches!(
        stream.on_event(StreamEvent::Line, 300 * MILLIS),
        StreamStep::Wait
    ));
    assert!(matches!(
        stream.on_event(StreamEvent::Line, 600 * MILLIS),
        StreamStep::Parse
    ));
}

#[test]
fn remote_that_never_slows_down_is_given_up() {
    let mut stream = SnapshotStream::start(0);
    let mut now = 0;
    let mut offered = 0;
    let end = loop {
        now += 10 * MILLIS;
        let mut step = stream.on_event(StreamEvent::Line, now);
        if matches!(step, StreamStep::Parse) {
            step = stream.on_parsed(Ok(empty_snapshot()), now);
        }
        match step {
            StreamStep::Offer { .. } => offered += 1,
            StreamStep::Stop { end } => break end,
            _ => {}
        }
        assert!(now < 20 * SECOND);
    };
    assert_eq!(offered, 24);
    assert_eq!(now, 12 * SECOND + 10 * MILLIS);
    let outcome = stream.outcome(end, "");
    assert!(!outcome.cancelled);
    assert!(outcome.received_snapshot);
    assert_eq!(outcome.error, "remote snapshot stream timed out");
}

#[test]
fn remote_that_slows_down_is_kept() {
    let mut stream = SnapshotStream::start(0);
    let mut now = 0;
    for _ in 0..10 {
        for _ in 0..500 {
            now += 10 * MILLIS;
            let step = stream.on_event(StreamEvent::Line, now);
            assert!(!matches!(step, StreamStep::Stop { .. }));
            if matches!(step, StreamStep::Parse) {
                stream.on_parsed(Ok(empty_snapshot()), now);
            }
        }
        now += 500 * MILLIS;
    }
    assert!(now > 50 * SECOND);
}

#[test]
fn burst_after_a_pause_does_not_end_the_stream() {
    let mut stream = SnapshotStream::start(0);
    let mut now = 11 * SECOND;
    assert!(matches!(stream.on_event(StreamEvent::Line, now), StreamStep::Parse));
    stream.on_parsed(Ok(empty_snapshot()), now);
    for _ in 0..20 {
        now += MILLIS;
        assert!(matches!(stream.on_event(StreamEvent::Line, now), StreamStep::Wait));
    }
    assert_eq!(stream.last_output, 11 * SECOND);
    now += 2 * SECOND;
    assert!(matches!(stream.on_event(StreamEvent::Line, now), StreamStep::Parse));
}

#[test]
fn stream_is_given_up_when_it_brings_nothing() {
    let mut stream = SnapshotStream::start(5);
    assert!(matches!(
        stream.on_event(StreamEvent::Quiet, 4 + 12 * SECOND),
        StreamStep::Wait
    ));
    let step = stream.on_event(StreamEvent::Quiet, 5 + 12 * SECOND);
    let StreamStep::Stop { end } = step else {
        panic!("expected the stream to stop");
    };
    let outcome = stream.outcome(end, "ignored");
    assert_eq!(outcome, failure("remote snapshot stream timed out"));
}

#[test]
fn stream_offers_snapshots_and_goes_on() {
    let mut stream = SnapshotStream::start(0);
    let step = stream.on_parsed(Ok(empty_snapshot()), 7);
    assert!(matches!(step, StreamStep::Offer { .. }));
    assert_eq!(stream.last_output, 7);
    assert!(stream.received_snapshot);
    for delivery in [Delivery::Held, Delivery::Sent, Delivery::Full] {
        assert!(matches!(stream.on_offered(delivery), StreamStep::Wait));
    }
    let StreamStep::Stop { end } = stream.on_offered(Delivery::Closed) else {
        panic!("expected the stream to stop");
    };
    assert_eq!(
        stream.outcome(end, "ignored"),
        StreamOutcome {
            cancelled: true,
            received_snapshot: true,
            error: String::new(),
        }
    );
}

#[test]
fn stream_ends_with_a_clean_error() {
    let mut stream = SnapshotStream::start(0);
    let StreamStep::Stop { end } = stream.on_parsed(Err("bad\u{1b}[1m line".into()), 3) else {
        panic!("expected the stream to stop");
    };
    assert_eq!(stream.outcome(end, ""), failure("bad[1m line"));
    assert_eq!(
        stream.outcome(StreamEnd::Disconnected, ""),
        failure("ssh snapshot stream disconnected")
    );
    assert_eq!(
        stream.outcome(StreamEnd::Disconnected, "no route\u{202e}"),
        failure("ssh snapshot stream disconnected: no route")
    );
    let StreamStep::Stop { end } = stream.on_event(
        StreamEvent::Failed { error: "remote snapshot exceeds 4 bytes".into() },
        4,
    ) else {
        panic!("expected the stream to stop");
    };
    assert_eq!(
        stream.outcome(end, ""),
        failure("remote snapshot exceeds 4 bytes")
    );
    assert!(matches!(
        stream.on_event(StreamEvent::Disconnected, 5),
        StreamStep::Stop { end: StreamEnd::Disconnected }
    ));
    assert!(matches!(
        stream.on_event(StreamEvent::Cancelled, 5),
        StreamStep::Stop { end: StreamEnd::Cancelled }
    ));
}

#[test]
fn readers_are_waited_for_until_the_deadline() {
    assert_eq!(join_reader(true, 9, 5), JoinStep::Join);
    assert_eq!(join_reader(false, 4, 5), JoinStep::Wait { pause: 10 * MILLIS });
    assert_eq!(join_reader(false, 5, 5), JoinStep::Detach);
}

#[test]
fn watcher_waits_longer_after_each_failure() {
    let mut watcher = Watcher::new();
    let mut delays = Vec::new();
    for _ in 0..7 {
        let step = watcher.after_stream(&failure("down"), false, 0);
        assert!(matches!(step, WatchStep::Report { .. }));
        let ReportStep::Rest { pause } = watcher.after_offer(Delivery::Sent) else {
            panic!("expected the watcher to rest");
        };
        delays.push(pause / SECOND);
        watcher.after_rest();
    }
    assert_eq!(delays, vec![1, 2, 4, 8, 16, 30, 30]);

    let mut recovered = failure("down");
    recovered.received_snapshot = true;
    watcher.after_stream(&recovered, false, 0);
    assert_eq!(
        watcher.after_offer(Delivery::Full),
        ReportStep::Rest { pause: SECOND }
    );
    assert_eq!(watcher.after_offer(Delivery::Closed), ReportStep::Stop);
}

#[test]
fn watcher_logs_an_error_once_in_a_while() {
    let mut watcher = Watcher::new();
    let log = |watcher: &mut Watcher, error: &str, now: u64| {
        watcher.after_stream(&failure(error), false, now)
    };
    assert_eq!(log(&mut watcher, "a", 0), WatchStep::Report { log: true });
    assert_eq!(log(&mut watcher, "a", 1), WatchStep::Report { log: false });
    assert_eq!(log(&mut watcher, "b", 2), WatchStep::Report { log: true });
    assert_eq!(
        log(&mut watcher, "b", 1 + 300 * SECOND),
        WatchStep::Report { log: false }
    );
    assert_eq!(
        log(&mut watcher, "b", 2 + 300 * SECOND),
        WatchStep::Report { log: true }
    );
}

#[test]
fn watcher_stops_when_cancelled() {
    let mut watcher = Watcher::new();
    assert_eq!(watcher.after_stream(&failure("a"), true, 0), WatchStep::Stop);
    let cancelled = StreamOutcome {
        cancelled: true,
        received_snapshot: true,
        error: String::new(),
    };
    assert_eq!(watcher.after_stream(&cancelled, false, 0), WatchStep::Stop);
    assert_eq!(watcher, Watcher::new());
    assert_eq!(
        watcher.after_offer(Delivery::Held),
        ReportStep::Retry { pause: 100 * MILLIS }
    );
}

#[test]
fn updates_reach_the_app_one_at_a_time() {
    let (event_tx, mut event_rx) = tokio::sync::mpsc::channel(1);
    let pending = Arc::new(AtomicBool::new(false));
    let host = RemoteHostKey("box\u{1f}default".into());
    let stream = SnapshotStream::start(0);
    let watcher = Watcher::new();
    let offer = |stream: &SnapshotStream| {
        stream.offer_snapshot(empty_snapshot(), &host, 3, &pending, &event_tx)
    };

    assert!(matches!(offer(&stream), StreamStep::Wait));
    assert!(matches!(offer(&stream), StreamStep::Wait));
    assert_eq!(
        watcher.report_offline("down", &host, 3, &pending, &event_tx),
        ReportStep::Retry { pause: 100 * MILLIS }
    );
    let AppEvent::RemoteAgentsUpdated(update) = event_rx.try_recv().unwrap();
    assert_eq!(update.host, host);
    assert_eq!(update.generation, 3);
    assert!(matches!(update.kind, RemoteAgentUpdateKind::Snapshot(_)));
    assert!(event_rx.try_recv().is_err());
    drop(update);

    assert_eq!(
        watcher.report_offline("down", &host, 3, &pending, &event_tx),
        ReportStep::Rest { pause: SECOND }
    );
    pending.store(false, Ordering::Release);
    assert_eq!(
        watcher.report_offline("down", &host, 3, &pending, &event_tx),
        ReportStep::Rest { pause: SECOND }
    );
    assert!(!pending.load(Ordering::Acquire));
    let AppEvent::RemoteAgentsUpdated(update) = event_rx.try_recv().unwrap();
    assert!(matches!(
        &update.kind,
        RemoteAgentUpdateKind::Offline { error } if error == "down"
    ));
    drop(update);

    drop(event_rx);
    assert!(matches!(
        offer(&stream),
        StreamStep::Stop { end: StreamEnd::Cancelled }
    ));
    assert_eq!(
        watcher.report_offline("down", &host, 3, &pending, &event_tx),
        ReportStep::Stop
    );
}

#[test]
fn sleep_goes_on_in_short_steps() {
    let deadline = SECOND;
    assert_eq!(
        cancelable_sleep(false, 0, deadline),
        SleepStep::Sleep { pause: 100 * MILLIS }
    );
    assert_eq!(
        cancelable_sleep(false, deadline - 7, deadline),
        SleepStep::Sleep { pause: 7 }
    );
    assert_eq!(
        cancelable_sleep(false, deadline, deadline),
        SleepStep::Done { cancelled: false }
    );
    assert_eq!(
        cancelable_sleep(true, 0, deadline),
        SleepStep::Done { cancelled: true }
    );
    assert_eq!(
        cancelable_sleep(true, deadline, deadline),
        SleepStep::Done { cancelled: true }
    );
}
