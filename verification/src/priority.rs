//! Announcement priorities.
use vstd::prelude::*;

verus! {

/// How insistently a screen reader should deliver an announcement.
///
/// macOS VoiceOver takes the level as the announcement's priority; on Windows it
/// picks how the notification is fitted around speech already under way
/// (see [`crate::uia::processing`]). VoiceOver's own queueing is erratic: an
/// incoming announcement of the same priority, or of priority high, interrupts
/// the current one, and the queue is flushed only when both are high.
#[derive(Clone, Copy, Debug, PartialEq, Eq, Structural)]
#[non_exhaustive]
pub enum Priority {
    /// macOS `NSAccessibilityPriorityLow`. Lowest urgency.
    Low,
    /// macOS `NSAccessibilityPriorityMedium`.
    Medium,
    /// macOS `NSAccessibilityPriorityHigh`. The level used by a plain announcement.
    High,
}

impl Priority {
    /// The number macOS uses for this level.
    pub open spec fn level(self) -> int {
        match self {
            Priority::Low => 10,
            Priority::Medium => 50,
            Priority::High => 90,
        }
    }

    /// The number macOS uses for this level (`NSAccessibilityPriorityLevel`).
    pub fn value(self) -> (v: isize)
        ensures
            v == self.level(),
    {
        match self {
            Priority::Low => 10,
            Priority::Medium => 50,
            Priority::High => 90,
        }
    }

    /// The level an announcement gets when none is given.
    pub fn default_level() -> (p: Priority)
        ensures
            p == Priority::High,
    {
        Priority::High
    }
}

/// Law: distinct priorities have distinct macOS levels, and the levels grow with urgency.
pub proof fn lemma_priority_levels(p: Priority, q: Priority)
    ensures
        p != q ==> p.level() != q.level(),
        Priority::Low.level() < Priority::Medium.level() < Priority::High.level(),
{
}

} // verus!
