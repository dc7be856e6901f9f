//! What an announcement says, and whether there is one to make.
use vstd::prelude::*;
use crate::priority::Priority;
use crate::text::{lemma_sanitized_empty, printable, sanitize_message, sanitized};

verus! {

/// An announcement ready to hand to the platform: its cleaned text and its priority.
pub struct Announcement {
    /// The text to speak; never empty when made by [`announce`] or [`announce_with_priority`].
    pub text: String,
    /// How insistently to speak it.
    pub priority: Priority,
}

impl View for Announcement {
    type V = (Seq<char>, Priority);

    open spec fn view(&self) -> (Seq<char>, Priority) {
        (self.text@, self.priority)
    }
}

/// The announcement made for `message` at `priority`: none when the cleaned text is empty.
pub open spec fn announcement_for(message: Seq<char>, priority: Priority) -> Option<(Seq<char>, Priority)> {
    if sanitized(message).len() == 0 {
        None
    } else {
        Some((sanitized(message), priority))
    }
}

/// Cleans `message` and pairs it with `priority`; `None` when nothing is left to say.
pub fn announce_with_priority(message: &str, priority: Priority) -> (r: Option<Announcement>)
    ensures
        match r {
            Some(a) => announcement_for(message@, priority) == Some(a@),
            None => announcement_for(message@, priority) is None,
        },
        r matches Some(a) ==> a.priority == priority && a.text@ == sanitized(message@)
            && a.text@.len() > 0,
        r is None <==> forall|i: int| 0 <= i < message@.len() ==> !printable(#[trigger] message@[i]),
{
    proof {
        lemma_sanitized_empty(message@);
    }
    let text = sanitize_message(message);
    if text.as_str().is_empty() {
        None
    } else {
        Some(Announcement { text, priority })
    }
}

/// Cleans `message` for an announcement at the default priority ([`Priority::High`]).
pub fn announce(message: &str) -> (r: Option<Announcement>)
    ensures
        match r {
            Some(a) => announcement_for(message@, Priority::High) == Some(a@),
            None => announcement_for(message@, Priority::High) is None,
        },
        r matches Some(a) ==> a.priority == Priority::High && a.text@ == sanitized(message@)
            && a.text@.len() > 0,
        r is None <==> forall|i: int| 0 <= i < message@.len() ==> !printable(#[trigger] message@[i]),
{
    announce_with_priority(message, Priority::default_level())
}

/// Law: an announcement, whatever its priority, says the cleaned message and carries
/// exactly the priority it was asked for; there is one exactly when the cleaned
/// message is not empty, and the priority has no say in that.
pub proof fn lemma_announcement_text_and_priority(message: Seq<char>, priority: Priority, other: Priority)
    ensures
        announcement_for(message, priority) is Some <==> sanitized(message).len() > 0,
        announcement_for(message, priority) matches Some(x) ==> x.0 == sanitized(message) && x.1
            == priority,
        announcement_for(message, priority) is Some <==> announcement_for(message, other) is Some,
        announcement_for(message, priority) is Some ==> (announcement_for(message, priority)->0).0
            == (announcement_for(message, other)->0).0,
{
}

} // verus!
