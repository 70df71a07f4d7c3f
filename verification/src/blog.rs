//! Blog-post review workflow in the state-pattern style.
//!
//! Behaviourally this is the same workflow as [`crate::blog_enum`], but the
//! review state owns its data: the approval count lives inside the
//! pending-review state and is discarded — not reset — when the state is
//! left. A fresh review therefore always starts from zero approvals.

use vstd::prelude::*;

verus! {

/// The review state of a post; a pending review carries the approvals it
/// has collected so far.
#[derive(Debug, Clone, Copy, PartialEq, Eq, Structural)]
enum State {
    Draft,
    PendingReview { approve_counter: u8 },
    Published,
}

/// A blog post together with its review state.
pub struct Post {
    state: State,
    content: String,
}

impl Post {
    /// The text entered so far, whether or not it is visible yet.
    pub closed spec fn text(&self) -> Seq<char> {
        self.content@
    }

    /// Whether the post is still an editable draft.
    pub closed spec fn is_draft(&self) -> bool {
        self.state is Draft
    }

    /// Whether the post is waiting for review.
    pub closed spec fn is_pending(&self) -> bool {
        self.state is PendingReview
    }

    /// Whether the post has been published.
    pub closed spec fn is_published(&self) -> bool {
        self.state is Published
    }

    /// How many approvals the current review has collected; zero outside a
    /// review.
    pub closed spec fn approvals(&self) -> nat {
        match self.state {
            State::PendingReview { approve_counter } => approve_counter as nat,
            _ => 0,
        }
    }

    /// The state machine's invariant: an ongoing review has collected at
    /// most one approval — the second one publishes.
    pub open spec fn wf(&self) -> bool {
        self.is_pending() ==> self.approvals() <= 1
    }

    /// A new post: an empty draft.
    pub fn new() -> (p: Post)
        ensures
            p.wf(),
            p.is_draft(),
            p.text() == Seq::<char>::empty(),
    {
        Post { state: State::Draft, content: String::new() }
    }

    /// Appends text, but only while the post is a draft; in any other state
    /// the call does nothing.
    pub fn add_text(&mut self, text: &str)
        ensures
            final(self).wf() == old(self).wf(),
            old(self).is_draft() ==> final(self).text() == old(self).text() + text@,
            !old(self).is_draft() ==> *final(self) == *old(self),
            final(self).is_draft() == old(self).is_draft(),
            final(self).is_pending() == old(self).is_pending(),
            final(self).is_published() == old(self).is_published(),
            final(self).approvals() == old(self).approvals(),
    {
        if self.state == State::Draft {
            self.content.append(text);
        }
    }

    /// The visible content: the text once published, and nothing before.
    pub fn content(&self) -> (r: &str)
        ensures
            self.is_published() ==> r@ == self.text(),
            !self.is_published() ==> r@ == Seq::<char>::empty(),
    {
        proof {
            reveal_strlit("");
        }
        match self.state {
            State::Published => self.content.as_str(),
            _ => "",
        }
    }

    /// Sends a draft for review, starting from zero approvals; in any other
    /// state the call does nothing.
    pub fn request_review(&mut self)
        ensures
            old(self).wf() ==> final(self).wf(),
            final(self).text() == old(self).text(),
            old(self).is_draft() ==> final(self).is_pending() && final(self).approvals() == 0,
            !old(self).is_draft() ==> *final(self) == *old(self),
    {
        if self.state == State::Draft {
            self.state = State::PendingReview { approve_counter: 0 };
        }
    }

    /// Rejects a post under review, sending it back to a draft; in any
    /// other state the call does nothing.
    pub fn reject(&mut self)
        ensures
            old(self).wf() ==> final(self).wf(),
            final(self).text() == old(self).text(),
            old(self).is_pending() ==> final(self).is_draft(),
            !old(self).is_pending() ==> *final(self) == *old(self),
    {
        if let State::PendingReview { approve_counter: _ } = self.state {
            self.state = State::Draft;
        }
    }

    /// Records one approval of a post under review; the second approval
    /// publishes it. In any other state the call does nothing.
    pub fn approve(&mut self)
        requires
            old(self).wf(),
        ensures
            final(self).wf(),
            final(self).text() == old(self).text(),
            old(self).is_pending() && old(self).approvals() == 1 ==> final(self).is_published(),
            old(self).is_pending() && old(self).approvals() == 0 ==> final(self).is_pending()
                && final(self).approvals() == 1,
            !old(self).is_pending() ==> *final(self) == *old(self),
    {
        if let State::PendingReview { approve_counter } = self.state {
            let next = approve_counter + 1;
            if next == 2 {
                self.state = State::Published;
            } else {
                self.state = State::PendingReview { approve_counter: next };
            }
        }
    }
}

} // verus!
