//! Coalescing of daemon signals (`blocked_apps_changed`,
//! `daily_usage_changed`, `policy_mutated`) into dirty flags that the
//! refresh loop drains.

use vstd::prelude::*;

verus! {

/// Which daemon signal arrived.
#[derive(Debug, Clone, Copy, PartialEq, Eq)]
pub enum SignalKind {
    BlockedAppsChanged,
    DailyUsageChanged,
    PolicyMutated,
}

/// Dirty flags returned by [`SignalCoalescer::drain`].
#[derive(Debug, Clone, Copy, PartialEq, Eq)]
pub struct CoalescedNotifications {
    pub blocked: bool,
    pub usage: bool,
    pub policy: bool,
}

impl CoalescedNotifications {
    /// Whether any flag is set.
    pub fn any(&self) -> (r: bool)
        ensures
            r == (self.blocked || self.usage || self.policy),
    {
        self.blocked || self.usage || self.policy
    }

    /// The notification carrying only the flag of `kind`.
    pub fn for_signal(kind: SignalKind) -> (r: CoalescedNotifications)
        ensures
            r.blocked == (kind == SignalKind::BlockedAppsChanged),
            r.usage == (kind == SignalKind::DailyUsageChanged),
            r.policy == (kind == SignalKind::PolicyMutated),
    {
        match kind {
            SignalKind::BlockedAppsChanged => CoalescedNotifications {
                blocked: true,
                usage: false,
                policy: false,
            },
            SignalKind::DailyUsageChanged => CoalescedNotifications {
                blocked: false,
                usage: true,
                policy: false,
            },
            SignalKind::PolicyMutated => CoalescedNotifications {
                blocked: false,
                usage: false,
                policy: true,
            },
        }
    }
}

impl Default for CoalescedNotifications {
    fn default() -> (r: Self)
        ensures
            !r.blocked && !r.usage && !r.policy,
    {
        CoalescedNotifications { blocked: false, usage: false, policy: false }
    }
}

/// Coalesces rapid-fire daemon signals into dirty flags.
#[derive(Debug)]
pub struct SignalCoalescer {
    blocked_dirty: bool,
    usage_dirty: bool,
    policy_dirty: bool,
}

impl View for SignalCoalescer {
    /// The blocked, usage and policy dirty flags.
    type V = (bool, bool, bool);

    closed spec fn view(&self) -> (bool, bool, bool) {
        (self.blocked_dirty, self.usage_dirty, self.policy_dirty)
    }
}

/// The flags after marking `kind` dirty.
pub open spec fn marked(flags: (bool, bool, bool), kind: SignalKind) -> (bool, bool, bool) {
    match kind {
        SignalKind::BlockedAppsChanged => (true, flags.1, flags.2),
        SignalKind::DailyUsageChanged => (flags.0, true, flags.2),
        SignalKind::PolicyMutated => (flags.0, flags.1, true),
    }
}

pub open spec fn notifications_of(flags: (bool, bool, bool)) -> CoalescedNotifications {
    CoalescedNotifications { blocked: flags.0, usage: flags.1, policy: flags.2 }
}

impl SignalCoalescer {
    /// A coalescer with no flag set.
    pub fn new() -> (r: Self)
        ensures
            r@ == (false, false, false),
    {
        SignalCoalescer { blocked_dirty: false, usage_dirty: false, policy_dirty: false }
    }

    pub fn mark_blocked_dirty(&mut self)
        ensures
            final(self)@ == marked(old(self)@, SignalKind::BlockedAppsChanged),
    {
        self.blocked_dirty = true;
    }

    pub fn mark_daily_usage_dirty(&mut self)
        ensures
            final(self)@ == marked(old(self)@, SignalKind::DailyUsageChanged),
    {
        self.usage_dirty = true;
    }

    pub fn mark_policy_dirty(&mut self)
        ensures
            final(self)@ == marked(old(self)@, SignalKind::PolicyMutated),
    {
        self.policy_dirty = true;
    }

    /// Returns the flags set since the last drain and clears them.
    pub fn drain(&mut self) -> (r: CoalescedNotifications)
        ensures
            r == notifications_of(old(self)@),
            final(self)@ == (false, false, false),
    {
        let r = CoalescedNotifications {
            blocked: self.blocked_dirty,
            usage: self.usage_dirty,
            policy: self.policy_dirty,
        };
        self.blocked_dirty = false;
        self.usage_dirty = false;
        self.policy_dirty = false;
        r
    }

    /// Handles one incoming signal: marks its flag dirty and returns the
    /// notification to forward to the refresh loop (only that flag set).
    pub fn record_signal(&mut self, kind: SignalKind) -> (r: CoalescedNotifications)
        ensures
            final(self)@ == marked(old(self)@, kind),
            r == notifications_of(marked((false, false, false), kind)),
    {
        match kind {
            SignalKind::BlockedAppsChanged => self.mark_blocked_dirty(),
            SignalKind::DailyUsageChanged => self.mark_daily_usage_dirty(),
            SignalKind::PolicyMutated => self.mark_policy_dirty(),
        }
        CoalescedNotifications::for_signal(kind)
    }
}

impl Default for SignalCoalescer {
    fn default() -> (r: Self)
        ensures
            r@ == (false, false, false),
    {
        Self::new()
    }
}

/// Marking the same signal twice has the effect of marking it once, and
/// marks of different signals commute.
pub proof fn law_marks_coalesce(flags: (bool, bool, bool), a: SignalKind, b: SignalKind)
    ensures
        marked(marked(flags, a), a) == marked(flags, a),
        marked(marked(flags, a), b) == marked(marked(flags, b), a),
{
}

/// A drain reports every signal marked since the previous drain, and a drain
/// right after a drain reports nothing.
pub proof fn law_drain_reports_marks(flags: (bool, bool, bool), kind: SignalKind)
    ensures
        notifications_of(marked(flags, kind)).blocked == (flags.0 || kind == SignalKind::BlockedAppsChanged),
        notifications_of(marked(flags, kind)).usage == (flags.1 || kind == SignalKind::DailyUsageChanged),
        notifications_of(marked(flags, kind)).policy == (flags.2 || kind == SignalKind::PolicyMutated),
        !notifications_of((false, false, false)).blocked,
        !notifications_of((false, false, false)).usage,
        !notifications_of((false, false, false)).policy,
{
}

/// The flags after marking each signal of `marks` in turn.
pub open spec fn marked_all(flags: (bool, bool, bool), marks: Seq<SignalKind>) -> (bool, bool, bool)
    decreases marks.len(),
{
    if marks.len() == 0 {
        flags
    } else {
        marked(marked_all(flags, marks.drop_last()), marks.last())
    }
}

/// Starting from a fresh coalescer or from one just drained, a drain after
/// any sequence of marks reports a signal exactly when it was marked at
/// least once, and the drain that follows it reports nothing.
pub proof fn law_drain_reports_history(marks: Seq<SignalKind>)
    ensures
        notifications_of(marked_all((false, false, false), marks)).blocked == marks.contains(
            SignalKind::BlockedAppsChanged,
        ),
        notifications_of(marked_all((false, false, false), marks)).usage == marks.contains(
            SignalKind::DailyUsageChanged,
        ),
        notifications_of(marked_all((false, false, false), marks)).policy == marks.contains(
            SignalKind::PolicyMutated,
        ),
        notifications_of((false, false, false)) == (CoalescedNotifications {
            blocked: false,
            usage: false,
            policy: false,
        }),
    decreases marks.len(),
{
    if marks.len() > 0 {
        let d = marks.drop_last();
        law_drain_reports_history(d);
        assert(marks == d.push(marks.last()));
        assert forall|k: SignalKind| marks.contains(k) <==> (d.contains(k) || k == marks.last()) by {
            if marks.contains(k) {
                let i = choose|i: int| 0 <= i < marks.len() && marks[i] == k;
                if i < d.len() {
                    assert(d[i] == k);
                }
            }
            if d.contains(k) {
                let i = choose|i: int| 0 <= i < d.len() && d[i] == k;
                assert(marks[i] == k);
            }
            if k == marks.last() {
                assert(marks[marks.len() - 1] == k);
            }
        }
    }
}

} // verus!
