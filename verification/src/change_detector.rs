//! The decisions of the change detector: when a decision that was fetched
//! differs from the last one, and whether the change is notified.

use crate::notify::antiflutter::{may_alert, AntiFlutter};
use crate::notify::DecisionKind;
use vstd::prelude::*;

verus! {

/// The seconds between two checks when the environment gives none.
pub const DEFAULT_CHECK_INTERVAL_SECS: u64 = 60;

/// The cooldown in seconds when the environment gives none: three hours.
pub const DEFAULT_COOLDOWN_SECS: i64 = 10_800;

/// What the detector does with a decision that it fetched.
#[derive(Debug, Clone, Copy, PartialEq, Eq, Structural)]
pub enum TickAction {
    /// The decision is the one that was seen last: nothing is done.
    NoChange,
    /// The decision changed and the change is notified.
    Notify,
    /// The decision changed inside the cooldown: the change is stored
    /// without a notification.
    Suppressed,
}

/// What the detector remembers: the kind of the last decision, and the
/// cooldown gate.
#[derive(Debug, Clone)]
pub struct ChangeDetector {
    pub last: Option<DecisionKind>,
    pub flutter: AntiFlutter,
}

impl ChangeDetector {
    /// A detector that starts from the kind that was stored last, if any.
    pub fn new(last: Option<DecisionKind>, cooldown_secs: i64) -> (d: ChangeDetector)
        ensures
            d.last == last,
            d.flutter.last_alert_ts is None,
            d.flutter.cooldown_secs == if cooldown_secs < 0 {
                0
            } else {
                cooldown_secs
            },
    {
        ChangeDetector { last, flutter: AntiFlutter::new(cooldown_secs) }
    }

    /// One tick with the decision that was fetched at `now`. A decision
    /// of the kind that was seen last changes nothing. Any other is
    /// remembered; it is notified, and the alert recorded, if the cooldown
    /// gate allows an alert at `now`.
    pub fn on_decision(&mut self, kind: DecisionKind, now: i64) -> (action: TickAction)
        ensures
            action == if old(self).last == Some(kind) {
                TickAction::NoChange
            } else if may_alert(
                old(self).flutter.last_alert_ts,
                old(self).flutter.cooldown_secs,
                now,
            ) {
                TickAction::Notify
            } else {
                TickAction::Suppressed
            },
            final(self).flutter.cooldown_secs == old(self).flutter.cooldown_secs,
            action == TickAction::NoChange ==> *final(self) == *old(self),
            action != TickAction::NoChange ==> final(self).last == Some(kind),
            action == TickAction::Notify ==> final(self).flutter.last_alert_ts == Some(now)
                && final(self).flutter.last_kind == Some(kind),
            action == TickAction::Suppressed ==> final(self).flutter == old(self).flutter,
    {
        let same = match self.last {
            Some(k) => k == kind,
            None => false,
        };
        if same {
            return TickAction::NoChange;
        }
        let action = if self.flutter.should_alert(kind, now) {
            self.flutter.record_alert(kind, now);
            TickAction::Notify
        } else {
            TickAction::Suppressed
        };
        self.last = Some(kind);
        action
    }
}

} // verus!
