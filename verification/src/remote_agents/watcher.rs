//! The decisions of a watcher: when to log an error, when to report a host as offline, and how
//! long to wait before it connects again. Times are in nanoseconds since the watcher was started.

use std::sync::atomic::AtomicBool;
use std::sync::Arc;

use vstd::prelude::*;
use vstd::string::*;

use crate::events::{can_become, offer_update, AppEvent, Delivery};
use crate::remote_agents::host::{RemoteAgentUpdateKind, RemoteHostKey};
use crate::remote_agents::stream::{elapsed, StreamOutcome, WATCHER_POLL_INTERVAL};

verus! {

/// How long a watcher waits at first before it connects again.
pub const RECONNECT_MIN_DELAY: u64 = 1_000_000_000;

/// How long a watcher waits at most before it connects again.
pub const RECONNECT_MAX_DELAY: u64 = 30_000_000_000;

/// How long the same error is not logged again.
pub const ERROR_LOG_INTERVAL: u64 = 300_000_000_000;

/// What a watcher does after a stream has ended.
#[derive(Debug, PartialEq, Eq)]
pub enum WatchStep {
    /// Nothing more.
    Stop,
    /// Log the error if so told, then report the host as offline.
    Report { log: bool },
}

/// What a watcher does after it has offered the report that its host is offline.
#[derive(Debug, PartialEq, Eq)]
pub enum ReportStep {
    /// The app is gone: nothing more.
    Stop,
    /// Another update is still pending: sleep for the given time and offer it again, so that the
    /// report is never dropped.
    Retry { pause: u64 },
    /// Sleep for the given time, then connect again.
    Rest { pause: u64 },
}

/// What a sleeping watcher does next.
#[derive(Debug, PartialEq, Eq)]
pub enum SleepStep {
    /// The sleep is over; it may have been cancelled.
    Done { cancelled: bool },
    /// Sleep for the given time, then look again.
    Sleep { pause: u64 },
}

/// A watcher between two streams.
#[derive(Debug, PartialEq, Eq)]
pub struct Watcher {
    pub reconnect_delay: u64,
    pub last_logged_error: Option<String>,
    pub last_error_log_at: Option<u64>,
}

pub open spec fn sound_delay(watcher: Watcher) -> bool {
    RECONNECT_MIN_DELAY <= watcher.reconnect_delay <= RECONNECT_MAX_DELAY
}

/// Whether an error is to be logged: it is not the one that was logged last, or that was long
/// ago.
pub open spec fn error_is_news(watcher: Watcher, error: Seq<char>, now: u64) -> bool {
    ||| !(watcher.last_logged_error matches Some(last) && last@ == error)
    ||| !(watcher.last_error_log_at matches Some(at) && elapsed(now, at) < ERROR_LOG_INTERVAL)
}

/// What a watcher does after the report that its host is offline was offered: it offers it again
/// while another update is pending, and rests once it was sent or the channel was full.
pub open spec fn step_after_report(watcher: Watcher, delivery: Delivery) -> ReportStep {
    match delivery {
        Delivery::Held => ReportStep::Retry { pause: WATCHER_POLL_INTERVAL },
        Delivery::Closed => ReportStep::Stop,
        Delivery::Sent | Delivery::Full => ReportStep::Rest { pause: watcher.reconnect_delay },
    }
}

/// The delay that follows a delay: twice as long, up to the limit.
pub open spec fn longer_delay(delay: int) -> int {
    if 2 * delay < RECONNECT_MAX_DELAY {
        2 * delay
    } else {
        RECONNECT_MAX_DELAY as int
    }
}

/// The delay after a number of streams in a row that brought no snapshot.
pub open spec fn delay_after(failures: nat) -> int
    decreases failures,
{
    if failures == 0 {
        RECONNECT_MIN_DELAY as int
    } else {
        longer_delay(delay_after((failures - 1) as nat))
    }
}

/// The delay never leaves its bounds, never gets shorter as streams go on failing, and is at its
/// limit from the fifth failure on.
pub proof fn delay_grows_to_its_limit(failures: nat)
    ensures
        RECONNECT_MIN_DELAY <= delay_after(failures) <= RECONNECT_MAX_DELAY,
        delay_after(failures) <= delay_after(failures + 1),
        failures >= 5 ==> delay_after(failures) == RECONNECT_MAX_DELAY,
    decreases failures,
{
    if failures > 0 {
        delay_grows_to_its_limit((failures - 1) as nat);
        if failures == 5 {
            reveal_with_fuel(delay_after, 6);
        }
    }
    assert(delay_after(failures + 1) == longer_delay(delay_after(failures)));
}

impl Watcher {
    pub fn new() -> (watcher: Self)
        ensures
            watcher.reconnect_delay == delay_after(0),
            watcher.last_logged_error is None,
            watcher.last_error_log_at is None,
            sound_delay(watcher),
    {
        Watcher {
            reconnect_delay: RECONNECT_MIN_DELAY,
            last_logged_error: None,
            last_error_log_at: None,
        }
    }

    /// Goes on after a stream has ended. One that brought a snapshot starts the delays anew.
    pub fn after_stream(&mut self, outcome: &StreamOutcome, cancel: bool, now: u64) -> (step:
        WatchStep)
        ensures
            step == (if cancel || outcome.cancelled {
                WatchStep::Stop
            } else {
                WatchStep::Report { log: error_is_news(*old(self), outcome.error@, now) }
            }),
            step is Stop ==> *final(self) == *old(self),
            step is Report ==> final(self).reconnect_delay == (if outcome.received_snapshot {
                RECONNECT_MIN_DELAY
            } else {
                old(self).reconnect_delay
            }),
            step matches WatchStep::Report { log } ==> if log {
                &&& final(self).last_logged_error matches Some(last) && last@ == outcome.error@
                &&& final(self).last_error_log_at == Some(now)
            } else {
                &&& final(self).last_logged_error == old(self).last_logged_error
                &&& final(self).last_error_log_at == old(self).last_error_log_at
            },
            sound_delay(*old(self)) ==> sound_delay(*final(self)),
    {
        if cancel || outcome.cancelled {
            return WatchStep::Stop;
        }
        let known = match &self.last_logged_error {
            Some(last) => *last == outcome.error,
            None => false,
        };
        let recent = match self.last_error_log_at {
            Some(at) => now.saturating_sub(at) < ERROR_LOG_INTERVAL,
            None => false,
        };
        let log = !known || !recent;
        if log {
            self.last_logged_error = Some(outcome.error.clone());
            self.last_error_log_at = Some(now);
        }
        if outcome.received_snapshot {
            self.reconnect_delay = RECONNECT_MIN_DELAY;
        }
        WatchStep::Report { log }
    }

    /// Goes on after the report that the host is offline was offered. A full channel is no reason
    /// to offer it again.
    pub fn after_offer(&self, delivery: Delivery) -> (step: ReportStep)
        ensures
            step == step_after_report(*self, delivery),
    {
        match delivery {
            Delivery::Held => ReportStep::Retry { pause: WATCHER_POLL_INTERVAL },
            Delivery::Closed => ReportStep::Stop,
            Delivery::Sent | Delivery::Full => ReportStep::Rest { pause: self.reconnect_delay },
        }
    }

    /// Offers the report that the host is offline to the app, with the given error, and goes on by
    /// what became of it.
    pub fn report_offline(
        &self,
        error: &str,
        host: &RemoteHostKey,
        generation: u64,
        pending: &Arc<AtomicBool>,
        event_tx: &tokio::sync::mpsc::Sender<AppEvent>,
    ) -> (step: ReportStep)
        ensures
            exists|text: String, delivery: Delivery|
                {
                    &&& text@ == error@
                    &&& #[trigger] can_become(
                        *host,
                        generation,
                        RemoteAgentUpdateKind::Offline { error: text },
                        *pending,
                        *event_tx,
                        delivery,
                    )
                    &&& step == step_after_report(*self, delivery)
                },
    {
        let kind = RemoteAgentUpdateKind::Offline { error: error.to_owned() };
        self.after_offer(offer_update(host, generation, kind, pending, event_tx))
    }

    /// Goes on after the watcher has slept out the delay.
    pub fn after_rest(&mut self)
        ensures
            final(self).reconnect_delay == longer_delay(old(self).reconnect_delay as int),
            final(self).last_logged_error == old(self).last_logged_error,
            final(self).last_error_log_at == old(self).last_error_log_at,
            sound_delay(*old(self)) ==> sound_delay(*final(self)),
            forall|n: nat|
                old(self).reconnect_delay == #[trigger] delay_after(n)
                    ==> final(self).reconnect_delay == delay_after(n + 1),
    {
        let ghost before = self.reconnect_delay;
        if self.reconnect_delay < RECONNECT_MAX_DELAY / 2 {
            self.reconnect_delay = self.reconnect_delay * 2;
        } else {
            self.reconnect_delay = RECONNECT_MAX_DELAY;
        }
        proof {
            assert forall|n: nat| before == #[trigger] delay_after(n) implies longer_delay(
                before as int,
            ) == delay_after(n + 1) by {
                assert((n + 1 - 1) as nat == n);
            }
        }
    }
}

/// What a sleeping watcher does next: it sleeps until its deadline in short steps, so that it can
/// be cancelled.
pub open spec fn sleep_step(cancel: bool, now: u64, deadline: u64) -> SleepStep {
    if cancel || now >= deadline {
        SleepStep::Done { cancelled: cancel }
    } else if deadline - now < WATCHER_POLL_INTERVAL {
        SleepStep::Sleep { pause: (deadline - now) as u64 }
    } else {
        SleepStep::Sleep { pause: WATCHER_POLL_INTERVAL }
    }
}

/// A watcher sleeps until its deadline in short steps, so that it can be cancelled.
pub fn cancelable_sleep(cancel: bool, now: u64, deadline: u64) -> (step: SleepStep)
    ensures
        step == sleep_step(cancel, now, deadline),
        step == (if cancel {
            SleepStep::Done { cancelled: true }
        } else if now >= deadline {
            SleepStep::Done { cancelled: false }
        } else if deadline - now < WATCHER_POLL_INTERVAL {
            SleepStep::Sleep { pause: (deadline - now) as u64 }
        } else {
            SleepStep::Sleep { pause: WATCHER_POLL_INTERVAL }
        }),
{
    if cancel {
        SleepStep::Done { cancelled: true }
    } else if now >= deadline {
        SleepStep::Done { cancelled: false }
    } else if deadline - now < WATCHER_POLL_INTERVAL {
        SleepStep::Sleep { pause: deadline - now }
    } else {
        SleepStep::Sleep { pause: WATCHER_POLL_INTERVAL }
    }
}

} // verus!
