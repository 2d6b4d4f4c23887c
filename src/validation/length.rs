use vstd::prelude::*;

use crate::validation::{max_outcome, min_outcome, within_outcome, OptionalValidator, Validate, Validator};

verus! {

/// Fails on a string longer than `size` bytes.
pub fn max(size: usize) -> (r: Validator)
    ensures
        r == Validator::Max(size),
        forall|s: Seq<char>| #[trigger] r.outcome(s) == max_outcome(size as nat, s),
{
    Validator::Max(size)
}

/// Fails on a present string longer than `size` bytes; an absent one passes.
pub fn max_if_present(size: usize) -> (r: OptionalValidator)
    ensures
        r == OptionalValidator(Validator::Max(size)),
        r.outcome(None) == Ok::<(), crate::message::MessageView>(()),
        forall|s: Seq<char>| #[trigger] r.outcome(Some(s)) == max_outcome(size as nat, s),
{
    OptionalValidator(max(size))
}

/// Fails on a string shorter than `size` bytes.
pub fn min(size: usize) -> (r: Validator)
    ensures
        r == Validator::Min(size),
        forall|s: Seq<char>| #[trigger] r.outcome(s) == min_outcome(size as nat, s),
{
    Validator::Min(size)
}

/// Fails on a present string shorter than `size` bytes; an absent one passes.
pub fn min_if_present(size: usize) -> (r: OptionalValidator)
    ensures
        r == OptionalValidator(Validator::Min(size)),
        r.outcome(None) == Ok::<(), crate::message::MessageView>(()),
        forall|s: Seq<char>| #[trigger] r.outcome(Some(s)) == min_outcome(size as nat, s),
{
    OptionalValidator(min(size))
}

/// Fails on a string whose length in bytes lies outside `r.start`
/// (included) to `r.end` (excluded). The message names the least and the
/// greatest length allowed.
pub fn within(r: std::ops::Range<usize>) -> (v: Validator)
    requires
        r.end > 0,
    ensures
        v == Validator::Within(r.start, (r.end - 1) as usize),
        forall|s: Seq<char>| #[trigger] v.outcome(s) == within_outcome(
            r.start as nat,
            (r.end - 1) as nat,
            s,
        ),
{
    Validator::Within(r.start, r.end - 1)
}

} // verus!
