//! What a panel hands to the application shell once it has acted.

use vstd::prelude::*;

verus! {

/// What the application shell is to do once a panel has acted.
pub struct Feedback {
    /// The text for the status line, if there is one.
    pub message: Option<String>,
    /// Whether the list of devices is to be fetched anew.
    pub refresh: bool,
}

/// The feedback as plain values.
pub struct FeedbackView {
    pub message: Option<Seq<char>>,
    pub refresh: bool,
}

impl View for Feedback {
    type V = FeedbackView;

    open spec fn view(&self) -> FeedbackView {
        FeedbackView { message: self.message.deep_view(), refresh: self.refresh }
    }
}

} // verus!
