//! Cooldown gate that prevents a flood of notifications: the first alert
//! is always allowed, and inside the cooldown after an alert no other is.

use crate::notify::DecisionKind;
use vstd::prelude::*;

verus! {

/// The milliseconds of one second.
pub const MILLIS_PER_SEC: i128 = 1_000;

/// The cooldown: its length in seconds, and when the last alert was sent
/// and for which kind, times being milliseconds since the epoch.
#[derive(Debug, Clone)]
pub struct AntiFlutter {
    pub cooldown_secs: i64,
    pub last_alert_ts: Option<i64>,
    pub last_kind: Option<DecisionKind>,
}

/// An alert may be sent at `now`: none was sent before, or the cooldown
/// since the last one is over.
pub open spec fn may_alert(last: Option<i64>, cooldown_secs: i64, now: i64) -> bool {
    match last {
        None => true,
        Some(ts) => now - ts >= cooldown_secs * MILLIS_PER_SEC,
    }
}

impl AntiFlutter {
    /// A cooldown of the given length. A negative cooldown is no
    /// cooldown.
    pub fn new(cooldown_secs: i64) -> (g: AntiFlutter)
        ensures
            g.cooldown_secs == if cooldown_secs < 0 {
                0
            } else {
                cooldown_secs
            },
            g.last_alert_ts is None,
            g.last_kind is None,
    {
        let secs = if cooldown_secs < 0 {
            0
        } else {
            cooldown_secs
        };
        AntiFlutter { cooldown_secs: secs, last_alert_ts: None, last_kind: None }
    }

    /// Checks whether an alert may be sent at `now`. The state is not
    /// changed.
    pub fn should_alert(&self, kind: DecisionKind, now: i64) -> (r: bool)
        ensures
            r == may_alert(self.last_alert_ts, self.cooldown_secs, now),
    {
        match self.last_alert_ts {
            None => true,
            Some(ts) => {
                (now as i128) - (ts as i128) >= (self.cooldown_secs as i128) * MILLIS_PER_SEC
            },
        }
    }

    /// Records that an alert was sent at `now` for `kind`.
    pub fn record_alert(&mut self, kind: DecisionKind, now: i64)
        ensures
            final(self).cooldown_secs == old(self).cooldown_secs,
            final(self).last_alert_ts == Some(now),
            final(self).last_kind == Some(kind),
    {
        self.last_alert_ts = Some(now);
        self.last_kind = Some(kind);
    }

    /// The kind of the last alert.
    pub fn last_kind(&self) -> (k: Option<DecisionKind>)
        ensures
            k == self.last_kind,
    {
        self.last_kind
    }
}

} // verus!
