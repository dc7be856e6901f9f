//! UI Automation notification settings used on Windows.
use vstd::prelude::*;
use crate::priority::Priority;

verus! {

/// How a screen reader should fit a UI Automation notification around what it
/// is already saying (UIA's `NotificationProcessing`).
#[derive(Clone, Copy, Debug, PartialEq, Eq, Structural)]
pub enum NotificationProcessing {
    /// `NotificationProcessing_ImportantAll`.
    ImportantAll,
    /// `NotificationProcessing_ImportantMostRecent`: cut off what is being spoken and say this.
    ImportantMostRecent,
    /// `NotificationProcessing_All`: queue behind everything pending, in order.
    All,
    /// `NotificationProcessing_MostRecent`.
    MostRecent,
    /// `NotificationProcessing_CurrentThenMostRecent`: finish the current utterance,
    /// then say this and drop anything staler.
    CurrentThenMostRecent,
}

impl NotificationProcessing {
    /// The number UI Automation gives this mode.
    pub open spec fn code(self) -> int {
        match self {
            NotificationProcessing::ImportantAll => 0,
            NotificationProcessing::ImportantMostRecent => 1,
            NotificationProcessing::All => 2,
            NotificationProcessing::MostRecent => 3,
            NotificationProcessing::CurrentThenMostRecent => 4,
        }
    }

    /// The number UI Automation gives this mode.
    pub fn value(self) -> (v: i32)
        ensures
            v == self.code(),
    {
        match self {
            NotificationProcessing::ImportantAll => 0,
            NotificationProcessing::ImportantMostRecent => 1,
            NotificationProcessing::All => 2,
            NotificationProcessing::MostRecent => 3,
            NotificationProcessing::CurrentThenMostRecent => 4,
        }
    }
}

/// The processing mode a notification at `priority` is raised with.
pub open spec fn processing_for(priority: Priority) -> NotificationProcessing {
    match priority {
        Priority::Low => NotificationProcessing::All,
        Priority::Medium => NotificationProcessing::CurrentThenMostRecent,
        Priority::High => NotificationProcessing::ImportantMostRecent,
    }
}

/// How a screen reader should fit an announcement around whatever it is already saying.
///
/// The three levels map to genuinely different behaviour rather than collapsing into
/// two, which is why [`Priority::Medium`] uses `CurrentThenMostRecent` rather than `All`.
pub fn processing(priority: Priority) -> (r: NotificationProcessing)
    ensures
        r == processing_for(priority),
{
    match priority {
        // Queue behind everything already pending, preserving order.
        Priority::Low => NotificationProcessing::All,
        // Let the current utterance finish, then speak this and drop anything staler.
        Priority::Medium => NotificationProcessing::CurrentThenMostRecent,
        // Cut off whatever is being spoken and say this instead.
        Priority::High => NotificationProcessing::ImportantMostRecent,
    }
}

/// Law: the three priorities map to three different processing modes.
pub proof fn lemma_processing_distinct(p: Priority, q: Priority)
    ensures
        p != q ==> processing_for(p) != processing_for(q),
{
}

/// UIA `ProviderOptions_ServerSideProvider`.
pub const SERVER_SIDE_PROVIDER: i32 = 0x2;

/// UIA `ProviderOptions_UseComThreading`.
pub const USE_COM_THREADING: i32 = 0x20;

/// The options the announcer's provider reports: a server-side provider that uses COM threading.
pub fn announcer_provider_options() -> (r: i32)
    ensures
        r == 0x22,
        r & SERVER_SIDE_PROVIDER == SERVER_SIDE_PROVIDER,
        r & USE_COM_THREADING == USE_COM_THREADING,
{
    let r = SERVER_SIDE_PROVIDER | USE_COM_THREADING;
    assert(0x2i32 | 0x20i32 == 0x22i32) by (bit_vector);
    assert(0x22i32 & 0x2i32 == 0x2i32) by (bit_vector);
    assert(0x22i32 & 0x20i32 == 0x20i32) by (bit_vector);
    r
}

} // verus!
