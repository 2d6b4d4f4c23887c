use vstd::prelude::*;

use crate::feedback::{Feedback, FeedbackView};
use crate::same::{vec_same, views};

verus! {

/// The outcome of a failed validation: the negative feedback of each field
/// that had a failure, in the order the fields were declared.
#[derive(Clone, Debug)]
pub struct Error(pub Vec<Feedback>);

impl View for Error {
    type V = Seq<FeedbackView>;

    open spec fn view(&self) -> Seq<FeedbackView> {
        self.0@.map_values(|f: Feedback| f@)
    }
}

impl PartialEq for Error {
    /// Positional comparison; errors of different lengths are not equal.
    fn eq(&self, other: &Error) -> (r: bool)
        ensures
            r == (self@ == other@),
    {
        proof {
            assert(views(self.0@) == self@);
            assert(views(other.0@) == other@);
        }
        vec_same(&self.0, &other.0)
    }
}

impl vstd::std_specs::cmp::PartialEqSpecImpl for Error {
    open spec fn obeys_eq_spec() -> bool {
        true
    }

    open spec fn eq_spec(&self, other: &Error) -> bool {
        self@ == other@
    }
}

} // verus!
