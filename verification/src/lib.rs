//! Screen reader speech output through a live region: the text an announcement
//! carries, the priority it is spoken at, and the bookkeeping of the UI
//! Automation providers that raise announcements on Windows.
pub mod announce;
pub mod priority;
pub mod providers;
pub mod text;
pub mod uia;

pub use announce::{announce, announce_with_priority, Announcement};
pub use priority::Priority;
pub use text::sanitize_message;

