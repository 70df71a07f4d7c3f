//! Blog-post review workflow encoded in the type system.
//!
//! Each review stage is its own type, so an operation that is meaningless
//! in a stage simply does not exist there: only a draft can be edited, a
//! post needs two approvals — one per pending-review stage — to be
//! published, and only a published [`Post`] exposes its content.

use vstd::prelude::*;

verus! {

/// A published post; the only stage whose content is readable.
pub struct Post {
    content: String,
}

/// An editable draft.
pub struct DraftPost {
    content: String,
}

/// A post that has been sent for review and has no approvals yet.
pub struct PendingReviewPostV1 {
    content: String,
}

/// A post under review that has collected its first approval.
pub struct PendingReviewPostV2 {
    content: String,
}

impl Post {
    /// The published text.
    pub closed spec fn text(&self) -> Seq<char> {
        self.content@
    }

    /// Starts a new, empty draft.
    pub fn new() -> (p: DraftPost)
        ensures
            p.text() == Seq::<char>::empty(),
    {
        DraftPost { content: String::new() }
    }

    /// The published content.
    pub fn content(&self) -> (r: &str)
        ensures
            r@ == self.text(),
    {
        self.content.as_str()
    }
}

impl DraftPost {
    /// The text entered so far.
    pub closed spec fn text(&self) -> Seq<char> {
        self.content@
    }

    /// Appends text to the draft.
    pub fn add_text(&mut self, text: &str)
        ensures
            final(self).text() == old(self).text() + text@,
    {
        self.content.append(text);
    }

    /// Sends the draft for review, keeping its text.
    pub fn request_review(self) -> (p: PendingReviewPostV1)
        ensures
            p.text() == self.text(),
    {
        PendingReviewPostV1 { content: self.content }
    }
}

impl PendingReviewPostV1 {
    /// The text under review.
    pub closed spec fn text(&self) -> Seq<char> {
        self.content@
    }

    /// Records the first approval, keeping the text.
    pub fn approve(self) -> (p: PendingReviewPostV2)
        ensures
            p.text() == self.text(),
    {
        PendingReviewPostV2 { content: self.content }
    }

    /// Rejects the post, sending it back to an editable draft.
    pub fn reject(self) -> (p: DraftPost)
        ensures
            p.text() == self.text(),
    {
        DraftPost { content: self.content }
    }
}

impl PendingReviewPostV2 {
    /// The text under review.
    pub closed spec fn text(&self) -> Seq<char> {
        self.content@
    }

    /// Records the second approval, publishing the post.
    pub fn approve(self) -> (p: Post)
        ensures
            p.text() == self.text(),
    {
        Post { content: self.content }
    }

    /// Rejects the post, sending it back to an editable draft.
    pub fn reject(self) -> (p: DraftPost)
        ensures
            p.text() == self.text(),
    {
        DraftPost { content: self.content }
    }
}

} // verus!
