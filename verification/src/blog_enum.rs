//! Blog-post review workflow with the state held as an explicit enum.
//!
//! A post starts as a draft, whose text can be edited; a draft sent for
//! review needs two approvals to be published; a rejection during review
//! sends it back to the draft state and resets the approval count. Only a
//! published post exposes its content.

use vstd::prelude::*;

verus! {

/// The review state of a post.
#[derive(Debug, Clone, Copy, PartialEq, Eq, Structural)]
enum State {
    Draft,
    PendingReview,
    Published,
}

/// A blog post together with its review state and approval count.
pub struct Post {
    state: State,
    content: String,
    approve_counter: u8,
}

impl Post {
    /// The text entered so far, whether or not it is visible yet.
    pub closed spec fn text(&self) -> Seq<char> {
        self.content@
    }

    /// Whether the post is still an editable draft.
    pub closed spec fn is_draft(&self) -> bool {
        self.state is Draft
    }

    /// Whether the post is waiting for review.
    pub closed spec fn is_pending(&self) -> bool {
        self.state is PendingReview
    }

    /// Whether the post has been published.
    pub closed spec fn is_published(&self) -> bool {
        self.state is Published
    }

    /// How many approvals the current review has collected.
    pub closed spec fn approvals(&self) -> nat {
        self.approve_counter as nat
    }

    /// The state machine's invariant: a draft has no approvals, a pending
    /// post has collected at most one so far, and a published post exactly
    /// the two it needed.
    pub open spec fn wf(&self) -> bool {
        &&& self.is_draft() ==> self.approvals() == 0
        &&& self.is_pending() ==> self.approvals() <= 1
        &&& self.is_published() ==> self.approvals() == 2
    }

    /// A new post: an empty draft.
    pub fn new() -> (p: Post)
        ensures
            p.wf(),
            p.is_draft(),
            p.text() == Seq::<char>::empty(),
    {
        Post { state: State::Draft, content: String::new(), approve_counter: 0 }
    }

    /// Appends text, but only while the post is a draft; in any other state
    /// the call does nothing.
    pub fn add_text(&mut self, text: &str)
        ensures
            final(self).wf() == old(self).wf(),
            old(self).is_draft() ==> final(self).text() == old(self).text() + text@,
            !old(self).is_draft() ==> *final(self) == *old(self),
            final(self).is_draft() == old(self).is_draft(),
            final(self).is_pending() == old(self).is_pending(),
            final(self).is_published() == old(self).is_published(),
            final(self).approvals() == old(self).approvals(),
    {
        if self.state == State::Draft {
            self.content.append(text);
        }
    }

    /// The visible content: the text once published, and nothing before.
    pub fn content(&self) -> (r: &str)
        ensures
            self.is_published() ==> r@ == self.text(),
            !self.is_published() ==> r@ == Seq::<char>::empty(),
    {
        proof {
            reveal_strlit("");
        }
        match self.state {
            State::Published => self.content.as_str(),
            _ => "",
        }
    }

    /// Sends a draft for review; in any other state the call does nothing.
    pub fn request_review(&mut self)
        ensures
            old(self).wf() ==> final(self).wf(),
            final(self).text() == old(self).text(),
            final(self).approvals() == old(self).approvals(),
            old(self).is_draft() ==> final(self).is_pending(),
            !old(self).is_draft() ==> *final(self) == *old(self),
    {
        if self.state == State::Draft {
            self.state = State::PendingReview;
        }
    }

    /// Rejects a post under review, sending it back to a draft with its
    /// approvals cleared; in any other state the call does nothing.
    pub fn reject(&mut self)
        ensures
            old(self).wf() ==> final(self).wf(),
            final(self).text() == old(self).text(),
            old(self).is_pending() ==> final(self).is_draft() && final(self).approvals() == 0,
            !old(self).is_pending() ==> *final(self) == *old(self),
    {
        if self.state == State::PendingReview {
            self.approve_counter = 0;
            self.state = State::Draft;
        }
    }

    /// Records one approval of a post under review; the second approval
    /// publishes it. In any other state the call does nothing.
    pub fn approve(&mut self)
        requires
            old(self).wf(),
        ensures
            final(self).wf(),
            final(self).text() == old(self).text(),
            old(self).is_pending() ==> final(self).approvals() == old(self).approvals() + 1,
            old(self).is_pending() && old(self).approvals() == 1 ==> final(self).is_published(),
            old(self).is_pending() && old(self).approvals() == 0 ==> final(self).is_pending(),
            !old(self).is_pending() ==> *final(self) == *old(self),
    {
        if self.state == State::PendingReview {
            self.approve_counter = self.approve_counter + 1;
            if self.approve_counter == 2 {
                self.state = State::Published;
            }
        }
    }
}

} // verus!
