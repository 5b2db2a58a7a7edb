//! Reactions and the events they are about.
use vstd::prelude::*;

verus! {

/// A reaction to an event.
#[derive(Debug)]
pub struct Reaction {
    /// The event id, or the transaction id, of the reaction itself.
    pub reaction_id: String,
    /// The event that is reacted to.
    pub event_id: String,
    /// The user who reacted.
    pub sender: String,
    /// What they reacted with.
    pub key: String,
}

impl Clone for Reaction {
    fn clone(&self) -> (copy: Self)
        ensures
            copy == *self,
    {
        Reaction {
            reaction_id: self.reaction_id.clone(),
            event_id: self.event_id.clone(),
            sender: self.sender.clone(),
            key: self.key.clone(),
        }
    }
}

/// State helping matching reactions to their associated events, and stashing pending reactions.
#[derive(Debug)]
pub struct Reactions {
    /// The reactions to events in the timeline.
    pub known: Vec<Reaction>,
    /// The reactions whose event is not in the timeline.
    pub pending: Vec<Reaction>,
}

/// The reactions as values to reason about.
pub struct ReactionsView {
    pub known: Seq<Reaction>,
    pub pending: Seq<Reaction>,
}

impl ReactionsView {
    /// No reaction is known.
    pub open spec fn empty() -> Self {
        ReactionsView { known: Seq::empty(), pending: Seq::empty() }
    }
}

impl View for Reactions {
    type V = ReactionsView;

    open spec fn view(&self) -> ReactionsView {
        ReactionsView { known: self.known@, pending: self.pending@ }
    }
}

impl Clone for Reactions {
    fn clone(&self) -> (copy: Self)
        ensures
            copy@ == self@,
    {
        let known = self.known.clone();
        let pending = self.pending.clone();
        assert(known@ == self.known@);
        assert(pending@ == self.pending@);
        Reactions { known, pending }
    }
}

impl Default for Reactions {
    fn default() -> (reactions: Self)
        ensures
            reactions@ == ReactionsView::empty(),
    {
        Reactions { known: Vec::new(), pending: Vec::new() }
    }
}

impl Reactions {
    /// Forgets all reactions.
    pub fn clear(&mut self)
        ensures
            final(self)@ == ReactionsView::empty(),
    {
        self.known.clear();
        self.pending.clear();
    }
}

} // verus!
