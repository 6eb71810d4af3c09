//! The startup-notification state machine. Once per tick it decides, from the
//! in-memory state and the heartbeat read from disk, whether a reboot
//! announcement is still owed, and how the outcome of a webhook send moves the
//! state on. The state lives only in process memory and restarts at
//! `NotAttempted` with every process.

use vstd::prelude::*;

verus! {

/// Whether the startup notification has been delivered in this process
/// lifetime.
#[derive(Clone, Copy, Debug, PartialEq, Eq, Structural)]
pub enum NotificationState {
    /// No attempt has been made yet.
    NotAttempted,
    /// An attempt was made and the send failed; it is retried next tick.
    Failed,
    /// The matter is settled: either the message was sent, or there was
    /// nothing to send.
    Notified,
}

/// The single mutable object the main loop owns.
#[derive(Clone, Copy, Debug, PartialEq, Eq, Structural)]
pub struct MonitorState {
    /// Where the startup notification stands.
    pub notification: NotificationState,
    /// The last heartbeat read before the first (failed) attempt. Meaningful
    /// only while `notification` is `Failed`: the heartbeat file has been
    /// overwritten with this cycle's timestamp by the time a retry runs, so
    /// the retry must reuse this value instead of re-reading the file.
    pub cached_heartbeat: i64,
}

/// What a tick asks of the caller.
#[derive(Clone, Copy, Debug, PartialEq, Eq, Structural)]
pub enum TickPlan {
    /// Nothing to announce: the notification is already settled, or there was
    /// no prior heartbeat to report.
    Quiet,
    /// Announce a reboot whose last heartbeat was `timestamp`. The message is
    /// logged in any case; it is sent to the webhook only when `send` holds
    /// (a webhook URL is configured).
    Announce { timestamp: i64, send: bool },
}

impl MonitorState {
    /// The state at process start: nothing attempted, no cached heartbeat.
    pub open spec fn initial_spec() -> MonitorState {
        MonitorState { notification: NotificationState::NotAttempted, cached_heartbeat: 0 }
    }

    /// What a tick plans, given the heartbeat read from the file (nothing when
    /// the file is absent or unreadable) and whether a webhook URL is
    /// configured:
    /// - already `Notified`: nothing;
    /// - `Failed`: announce again, reusing the cached heartbeat and ignoring
    ///   the file;
    /// - `NotAttempted` with no readable heartbeat: nothing — a boot with no
    ///   prior heartbeat is deliberately not announced;
    /// - `NotAttempted` with a heartbeat: announce it.
    pub open spec fn plan_spec(self, file_heartbeat: Option<i64>, webhook_configured: bool) -> TickPlan {
        match self.notification {
            NotificationState::Notified => TickPlan::Quiet,
            NotificationState::Failed => TickPlan::Announce {
                timestamp: self.cached_heartbeat,
                send: webhook_configured,
            },
            NotificationState::NotAttempted => match file_heartbeat {
                None => TickPlan::Quiet,
                Some(t) => TickPlan::Announce { timestamp: t, send: webhook_configured },
            },
        }
    }

    /// Where a tick leaves the state once its plan ran: everything settles to
    /// `Notified`, except a send that failed, which moves to `Failed` and
    /// caches the announced heartbeat for the retry.
    pub open spec fn settle_spec(self, plan: TickPlan, send_ok: bool) -> MonitorState {
        match plan {
            TickPlan::Quiet => MonitorState {
                notification: NotificationState::Notified,
                cached_heartbeat: self.cached_heartbeat,
            },
            TickPlan::Announce { timestamp, send } => if !send || send_ok {
                MonitorState {
                    notification: NotificationState::Notified,
                    cached_heartbeat: self.cached_heartbeat,
                }
            } else {
                MonitorState { notification: NotificationState::Failed, cached_heartbeat: timestamp }
            },
        }
    }

    /// The state a freshly started process begins with.
    pub fn initial() -> (s: MonitorState)
        ensures
            s == MonitorState::initial_spec(),
    {
        MonitorState { notification: NotificationState::NotAttempted, cached_heartbeat: 0 }
    }

    /// Decides what this tick has to do. `file_heartbeat` is what the
    /// heartbeat store read this tick; `webhook_configured` says whether a
    /// webhook URL is set.
    pub fn plan_tick(&self, file_heartbeat: Option<i64>, webhook_configured: bool) -> (p: TickPlan)
        ensures
            p == self.plan_spec(file_heartbeat, webhook_configured),
    {
        match self.notification {
            NotificationState::Notified => TickPlan::Quiet,
            NotificationState::Failed => TickPlan::Announce {
                timestamp: self.cached_heartbeat,
                send: webhook_configured,
            },
            NotificationState::NotAttempted => match file_heartbeat {
                None => TickPlan::Quiet,
                Some(t) => TickPlan::Announce { timestamp: t, send: webhook_configured },
            },
        }
    }

    /// Records how the tick's plan went. `send_ok` reports the webhook send;
    /// it is ignored unless the plan asked for one.
    pub fn settle(&self, plan: TickPlan, send_ok: bool) -> (s: MonitorState)
        ensures
            s == self.settle_spec(plan, send_ok),
    {
        match plan {
            TickPlan::Quiet => MonitorState {
                notification: NotificationState::Notified,
                cached_heartbeat: self.cached_heartbeat,
            },
            TickPlan::Announce { timestamp, send } => if !send || send_ok {
                MonitorState {
                    notification: NotificationState::Notified,
                    cached_heartbeat: self.cached_heartbeat,
                }
            } else {
                MonitorState { notification: NotificationState::Failed, cached_heartbeat: timestamp }
            },
        }
    }
}

/// Once settled, the machine stays settled: a `Notified` state plans nothing
/// and remains `Notified` through any further tick.
pub proof fn lemma_notified_is_absorbing(
    s: MonitorState,
    file_heartbeat: Option<i64>,
    webhook_configured: bool,
    send_ok: bool,
)
    requires
        s.notification == NotificationState::Notified,
    ensures
        s.plan_spec(file_heartbeat, webhook_configured) == TickPlan::Quiet,
        s.settle_spec(s.plan_spec(file_heartbeat, webhook_configured), send_ok).notification
            == NotificationState::Notified,
{
}

/// With no webhook URL configured, no tick ever asks for a send, and every
/// tick leaves the machine `Notified`.
pub proof fn lemma_no_webhook_never_sends(
    s: MonitorState,
    file_heartbeat: Option<i64>,
    send_ok: bool,
)
    ensures
        !(s.plan_spec(file_heartbeat, false) matches TickPlan::Announce { send: true, .. }),
        s.settle_spec(s.plan_spec(file_heartbeat, false), send_ok).notification
            == NotificationState::Notified,
{
}

/// A boot with no readable prior heartbeat is suppressed: from `NotAttempted`,
/// a tick that read nothing plans no announcement and settles to `Notified`,
/// whether or not a webhook is configured.
pub proof fn lemma_missing_heartbeat_suppresses(
    s: MonitorState,
    webhook_configured: bool,
    send_ok: bool,
)
    requires
        s.notification == NotificationState::NotAttempted,
    ensures
        s.plan_spec(None, webhook_configured) == TickPlan::Quiet,
        s.settle_spec(s.plan_spec(None, webhook_configured), send_ok).notification
            == NotificationState::Notified,
{
}

/// From `NotAttempted` with a heartbeat on file and a webhook configured, the
/// tick announces exactly that heartbeat with a send; a successful send
/// settles to `Notified`, a failed one to `Failed` with the heartbeat cached.
pub proof fn lemma_announce_outcome(s: MonitorState, t: i64)
    requires
        s.notification == NotificationState::NotAttempted,
    ensures
        s.plan_spec(Some(t), true) == (TickPlan::Announce { timestamp: t, send: true }),
        s.settle_spec(s.plan_spec(Some(t), true), true).notification
            == NotificationState::Notified,
        s.settle_spec(s.plan_spec(Some(t), true), false) == (MonitorState {
            notification: NotificationState::Failed,
            cached_heartbeat: t,
        }),
{
}

/// A failed attempt is retried from the cache: from `Failed`, the tick's plan
/// announces the cached heartbeat whatever the file now holds — in
/// particular, the same plan comes out for any two reads of the
/// (since overwritten) file.
pub proof fn lemma_failed_reuses_cache(
    s: MonitorState,
    file_heartbeat: Option<i64>,
    other_read: Option<i64>,
    webhook_configured: bool,
)
    requires
        s.notification == NotificationState::Failed,
    ensures
        s.plan_spec(file_heartbeat, webhook_configured) == (TickPlan::Announce {
            timestamp: s.cached_heartbeat,
            send: webhook_configured,
        }),
        s.plan_spec(file_heartbeat, webhook_configured) == s.plan_spec(
            other_read,
            webhook_configured,
        ),
{
}

/// No tick ever settles back to `NotAttempted`: once an attempt was made, the
/// machine only moves between `Failed` and `Notified`.
pub proof fn lemma_attempt_is_never_forgotten(s: MonitorState, plan: TickPlan, send_ok: bool)
    ensures
        s.settle_spec(plan, send_ok).notification != NotificationState::NotAttempted,
{
}

} // verus!
