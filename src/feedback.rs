use vstd::prelude::*;

use crate::message::{Message, MessageView};
use crate::same::{vec_same, views, SameView};

verus! {

/// The mathematical value of a [`Feedback`].
pub struct FeedbackView {
    pub field: Seq<char>,
    pub messages: Seq<MessageView>,
}

impl FeedbackView {
    /// Negative feedback holds at least one failure message.
    pub open spec fn negative(self) -> bool {
        self.messages.len() > 0
    }
}

/// The outcome of validating one field: its name and the messages of its
/// failing validators, in the order the validators ran.
#[derive(Clone, Debug)]
pub struct Feedback {
    pub field: String,
    pub messages: Vec<Message>,
}

impl View for Feedback {
    type V = FeedbackView;

    open spec fn view(&self) -> FeedbackView {
        FeedbackView { field: self.field@, messages: self.messages@.map_values(|m: Message| m@) }
    }
}

impl Feedback {
    /// Whether some validator of the field failed.
    pub fn is_negative(&self) -> (r: bool)
        ensures
            r == (self.messages@.len() > 0),
            r == self@.negative(),
    {
        self.messages.len() > 0
    }
}

impl SameView for Feedback {
    fn same(&self, other: &Feedback) -> (r: bool) {
        proof {
            assert(views(self.messages@) == self@.messages);
            assert(views(other.messages@) == other@.messages);
        }
        self.field.same(&other.field) && vec_same(&self.messages, &other.messages)
    }
}

impl PartialEq for Feedback {
    fn eq(&self, other: &Feedback) -> (r: bool)
        ensures
            r == (self@ == other@),
    {
        self.same(other)
    }
}

impl vstd::std_specs::cmp::PartialEqSpecImpl for Feedback {
    open spec fn obeys_eq_spec() -> bool {
        true
    }

    open spec fn eq_spec(&self, other: &Feedback) -> bool {
        self@ == other@
    }
}

} // verus!
