use vstd::prelude::*;

use crate::validation::{
    contains_if_given_outcome, contains_outcome, not_contain_if_given_outcome, OptionalValidator,
    Validate, Validator,
};

verus! {

/// The text given, or the empty text where none is.
pub open spec fn given(part: Option<&str>) -> Seq<char> {
    match part {
        Some(p) => p@,
        None => Seq::empty(),
    }
}

/// Fails on a string that does not contain `part`.
pub fn contains(part: &str) -> (r: Validator)
    ensures
        r matches Validator::Contains(p) && p@ == part@,
        forall|s: Seq<char>| #[trigger] r.outcome(s) == contains_outcome(part@, s),
{
    Validator::Contains(part.to_owned())
}

/// Fails on a string that does not contain `part`, where `part` is given and
/// not empty.
pub fn contains_if_given(part: Option<&str>) -> (r: Validator)
    ensures
        r matches Validator::ContainsIfGiven(p) && p@ == given(part),
        forall|s: Seq<char>| #[trigger] r.outcome(s) == contains_if_given_outcome(given(part), s),
{
    let p = match part {
        Some(p) => p.to_owned(),
        None => String::new(),
    };
    Validator::ContainsIfGiven(p)
}

/// Fails on a string that contains `part`, where `part` is given and not
/// empty.
pub fn not_contain_if_given(part: Option<&str>) -> (r: Validator)
    ensures
        r matches Validator::NotContainIfGiven(p) && p@ == given(part),
        forall|s: Seq<char>| #[trigger] r.outcome(s) == not_contain_if_given_outcome(
            given(part),
            s,
        ),
{
    let p = match part {
        Some(p) => p.to_owned(),
        None => String::new(),
    };
    Validator::NotContainIfGiven(p)
}

/// Fails on a present string that does not contain `part`; an absent one
/// passes.
pub fn contains_if_present(part: &str) -> (r: OptionalValidator)
    ensures
        r.0 matches Validator::Contains(p) && p@ == part@,
        r.outcome(None) == Ok::<(), crate::message::MessageView>(()),
        forall|s: Seq<char>| #[trigger] r.outcome(Some(s)) == contains_outcome(part@, s),
{
    OptionalValidator(contains(part))
}

} // verus!
