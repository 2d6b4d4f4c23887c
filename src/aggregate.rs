use vstd::prelude::*;

use crate::error::Error;
use crate::feedback::{Feedback, FeedbackView};
use crate::message::{Message, MessageView};
use crate::validation::{outcome_view, Validate};

verus! {

/// The failure messages among the outcomes, in order.
pub open spec fn failures(outs: Seq<Result<(), MessageView>>) -> Seq<MessageView>
    decreases outs.len(),
{
    if outs.len() == 0 {
        Seq::empty()
    } else {
        let pre = failures(outs.drop_last());
        match outs.last() {
            Ok(_) => pre,
            Err(m) => pre.push(m),
        }
    }
}

/// The negative feedback among `fbs`, in order.
pub open spec fn negatives(fbs: Seq<FeedbackView>) -> Seq<FeedbackView>
    decreases fbs.len(),
{
    if fbs.len() == 0 {
        Seq::empty()
    } else {
        let pre = negatives(fbs.drop_last());
        if fbs.last().negative() {
            pre.push(fbs.last())
        } else {
            pre
        }
    }
}

/// The result of a validation whose fields gave the feedback `fbs`: success
/// where none is negative, else the negative ones.
pub open spec fn verdict(fbs: Seq<FeedbackView>) -> Result<(), Seq<FeedbackView>> {
    if negatives(fbs).len() == 0 {
        Ok(())
    } else {
        Err(negatives(fbs))
    }
}

/// A validation result, over feedback values.
pub open spec fn verdict_view(r: Result<(), Error>) -> Result<(), Seq<FeedbackView>> {
    match r {
        Ok(_) => Ok(()),
        Err(e) => Err(e@),
    }
}

/// Validator outcomes, over message values.
pub open spec fn outcomes_view(outs: Seq<Result<(), Message>>) -> Seq<Result<(), MessageView>> {
    outs.map_values(|r: Result<(), Message>| outcome_view(r))
}

/// Feedback, over feedback values.
pub open spec fn feedbacks_view(fs: Seq<Feedback>) -> Seq<FeedbackView> {
    fs.map_values(|f: Feedback| f@)
}

/// The feedback of a field named `name` whose validators had the outcomes
/// `outs`.
pub open spec fn feedback_of(name: Seq<char>, outs: Seq<Result<(), MessageView>>) -> FeedbackView {
    FeedbackView { field: name, messages: failures(outs) }
}

/// The outcomes of the validators `vs` on the value `value`, in order.
pub open spec fn run_all<V: Validate>(vs: Seq<V>, value: Seq<char>) -> Seq<Result<(), MessageView>> {
    vs.map_values(|v: V| v.outcome(value))
}

/// The feedback of one declared field: its name, value and validators.
pub open spec fn field_feedback<V: Validate>(f: (String, String, Vec<V>)) -> FeedbackView {
    feedback_of(f.0@, run_all(f.2@, f.1@))
}

/// The feedback of each declared field, in order.
pub open spec fn fields_feedback<V: Validate>(fs: Seq<(String, String, Vec<V>)>) -> Seq<FeedbackView> {
    fs.map_values(|f: (String, String, Vec<V>)| field_feedback(f))
}

/// The feedback of each field given with the outcomes of its validators.
pub open spec fn outcome_fields_feedback(fs: Seq<(String, Vec<Result<(), Message>>)>) -> Seq<FeedbackView> {
    fs.map_values(|f: (String, Vec<Result<(), Message>>)| feedback_of(f.0@, outcomes_view(f.1@)))
}

/// One step of a loop that takes the first element off `rest`, where `rest`
/// mapped by `f` is what is left of `all` from `k` on: the element maps to
/// `all[k]`, what remains maps to the part from `k + 1` on, and the part of
/// `all` before `k + 1` ends in `all[k]`.
proof fn lemma_take_first<A, B>(rest: Seq<A>, f: spec_fn(A) -> B, all: Seq<B>, k: int)
    requires
        0 <= k < all.len(),
        rest.map_values(f) == all.subrange(k, all.len() as int),
    ensures
        f(rest[0]) == all[k],
        rest.subrange(1, rest.len() as int).map_values(f) == all.subrange(k + 1, all.len() as int),
        all.subrange(0, k + 1).drop_last() == all.subrange(0, k),
        all.subrange(0, k + 1).last() == all[k],
{
    let n = all.len() as int;
    let tail = rest.subrange(1, rest.len() as int);
    assert(rest.map_values(f).len() == rest.len());
    assert(rest.len() == n - k);
    assert(rest.map_values(f)[0] == all.subrange(k, n)[0]);
    assert forall|j: int| 0 <= j < tail.len() implies #[trigger] tail.map_values(f)[j] == all[k + 1 + j] by {
        assert(tail[j] == rest[j + 1]);
        assert(rest.map_values(f)[j + 1] == all.subrange(k, n)[j + 1]);
    }
    assert(tail.map_values(f) =~= all.subrange(k + 1, n));
    assert(all.subrange(0, k + 1).drop_last() =~= all.subrange(0, k));
}

/// Builds the feedback of the field `field` from the outcomes of its
/// validators: every failure message, in the order of the outcomes.
pub fn feedback(field: String, outcomes: Vec<Result<(), Message>>) -> (r: Feedback)
    ensures
        r@ == feedback_of(field@, outcomes_view(outcomes@)),
{
    let ghost all = outcomes_view(outcomes@);
    let n: usize = outcomes.len();
    let mut rest = outcomes;
    let mut messages: Vec<Message> = Vec::new();
    let mut k: usize = 0;
    while rest.len() > 0
        invariant
            n == all.len(),
            k + rest@.len() == n,
            outcomes_view(rest@) == all.subrange(k as int, n as int),
            messages@.map_values(|m: Message| m@) == failures(all.subrange(0, k as int)),
        decreases rest@.len(),
    {
        let ghost before = messages@.map_values(|m: Message| m@);
        let ghost rest_before = rest@;
        let o = rest.remove(0);
        proof {
            lemma_take_first(rest_before, |r: Result<(), Message>| outcome_view(r), all, k as int);
            assert(rest@ =~= rest_before.subrange(1, rest_before.len() as int));
        }
        match o {
            Ok(_) => {},
            Err(m) => {
                messages.push(m);
                assert(messages@.map_values(|m: Message| m@) =~= before.push(m@));
            },
        }
        k = k + 1;
    }
    assert(all.subrange(0, n as int) =~= all);
    Feedback { field, messages }
}

/// Keeps the negative feedback, in order: success where there is none.
pub fn aggregate(feedbacks: Vec<Feedback>) -> (r: Result<(), Error>)
    ensures
        verdict_view(r) == verdict(feedbacks_view(feedbacks@)),
{
    let ghost all = feedbacks_view(feedbacks@);
    let n: usize = feedbacks.len();
    let mut rest = feedbacks;
    let mut kept: Vec<Feedback> = Vec::new();
    let mut k: usize = 0;
    while rest.len() > 0
        invariant
            n == all.len(),
            k + rest@.len() == n,
            feedbacks_view(rest@) == all.subrange(k as int, n as int),
            feedbacks_view(kept@) == negatives(all.subrange(0, k as int)),
        decreases rest@.len(),
    {
        let ghost before = feedbacks_view(kept@);
        let ghost rest_before = rest@;
        let f = rest.remove(0);
        proof {
            lemma_take_first(rest_before, |f: Feedback| f@, all, k as int);
            assert(rest@ =~= rest_before.subrange(1, rest_before.len() as int));
        }
        if f.is_negative() {
            kept.push(f);
            assert(feedbacks_view(kept@) =~= before.push(all[k as int]));
        }
        k = k + 1;
    }
    assert(all.subrange(0, n as int) =~= all);
    if kept.len() > 0 {
        Err(Error(kept))
    } else {
        Ok(())
    }
}

/// Runs every validator of `validators` on `value`, in order, whatever the
/// earlier ones gave.
pub fn run<V: Validate>(value: &str, validators: &Vec<V>) -> (r: Vec<Result<(), Message>>)
    ensures
        outcomes_view(r@) == run_all(validators@, value@),
{
    let mut outs: Vec<Result<(), Message>> = Vec::new();
    let mut i: usize = 0;
    while i < validators.len()
        invariant
            0 <= i <= validators@.len(),
            outcomes_view(outs@) == run_all(validators@.subrange(0, i as int), value@),
        decreases validators@.len() - i,
    {
        let ghost before = outcomes_view(outs@);
        let o = validators[i].check(value);
        outs.push(o);
        assert(outcomes_view(outs@) =~= run_all(validators@.subrange(0, i + 1), value@)) by {
            assert(outcomes_view(outs@) =~= before.push(outcome_view(o)));
        }
        i = i + 1;
    }
    assert(validators@.subrange(0, i as int) =~= validators@);
    outs
}

/// Validates a record: each field is given as its name, its value and its
/// validators, in the order of declaration. Every validator of every field
/// runs; the result is success where none failed, else the feedback of each
/// field with a failure, in declaration order.
pub fn validate<V: Validate>(fields: Vec<(String, String, Vec<V>)>) -> (r: Result<(), Error>)
    ensures
        verdict_view(r) == verdict(
            fields_feedback(fields@),
        ),
{
    let ghost all = fields_feedback(fields@);
    let n: usize = fields.len();
    let mut rest = fields;
    let mut feedbacks: Vec<Feedback> = Vec::new();
    let mut k: usize = 0;
    while rest.len() > 0
        invariant
            n == all.len(),
            k + rest@.len() == n,
            fields_feedback(rest@) == all.subrange(
                k as int,
                n as int,
            ),
            feedbacks_view(feedbacks@) == all.subrange(0, k as int),
        decreases rest@.len(),
    {
        let ghost before = feedbacks_view(feedbacks@);
        let ghost rest_before = rest@;
        let t = rest.remove(0);
        proof {
            lemma_take_first(rest_before, |f: (String, String, Vec<V>)| field_feedback(f), all, k as int);
            assert(rest@ =~= rest_before.subrange(1, rest_before.len() as int));
        }
        let (name, value, validators) = t;
        let outs = run(value.as_str(), &validators);
        let f = feedback(name, outs);
        feedbacks.push(f);
        assert(feedbacks_view(feedbacks@) =~= all.subrange(0, k + 1)) by {
            assert(feedbacks_view(feedbacks@) =~= before.push(f@));
        }
        k = k + 1;
    }
    assert(all.subrange(0, n as int) =~= all);
    aggregate(feedbacks)
}

/// Validates a record whose validators have already run: each field is given
/// as its name and the outcomes of its validators, in the order of
/// declaration. The result is success where no outcome is a failure, else the
/// feedback of each field with a failure, in declaration order.
pub fn validate_outcomes(fields: Vec<(String, Vec<Result<(), Message>>)>) -> (r: Result<(), Error>)
    ensures
        verdict_view(r) == verdict(outcome_fields_feedback(fields@)),
{
    let ghost all = outcome_fields_feedback(fields@);
    let n: usize = fields.len();
    let mut rest = fields;
    let mut feedbacks: Vec<Feedback> = Vec::new();
    let mut k: usize = 0;
    while rest.len() > 0
        invariant
            n == all.len(),
            k + rest@.len() == n,
            outcome_fields_feedback(rest@) == all.subrange(k as int, n as int),
            feedbacks_view(feedbacks@) == all.subrange(0, k as int),
        decreases rest@.len(),
    {
        let ghost before = feedbacks_view(feedbacks@);
        let ghost rest_before = rest@;
        let t = rest.remove(0);
        proof {
            lemma_take_first(
                rest_before,
                |f: (String, Vec<Result<(), Message>>)| feedback_of(f.0@, outcomes_view(f.1@)),
                all,
                k as int,
            );
            assert(rest@ =~= rest_before.subrange(1, rest_before.len() as int));
        }
        let (name, outs) = t;
        let f = feedback(name, outs);
        feedbacks.push(f);
        assert(feedbacks_view(feedbacks@) =~= all.subrange(0, k + 1)) by {
            assert(feedbacks_view(feedbacks@) =~= before.push(f@));
        }
        k = k + 1;
    }
    assert(all.subrange(0, n as int) =~= all);
    aggregate(feedbacks)
}

/// No failure is skipped: where every validator of a field fails, its
/// feedback holds one message per validator, in order.
pub proof fn lemma_every_failure_kept(outs: Seq<Result<(), MessageView>>)
    requires
        forall|i: int| 0 <= i < outs.len() ==> #[trigger] outs[i] is Err,
    ensures
        failures(outs).len() == outs.len(),
        forall|i: int| 0 <= i < outs.len() ==> outs[i] == Err::<(), MessageView>(#[trigger] failures(outs)[i]),
    decreases outs.len(),
{
    if outs.len() > 0 {
        let pre = outs.drop_last();
        assert forall|i: int| 0 <= i < pre.len() implies #[trigger] pre[i] is Err by {
            assert(pre[i] == outs[i]);
        }
        lemma_every_failure_kept(pre);
        assert(outs[outs.len() - 1] is Err);
    }
}

/// A field has no failure message exactly when all its validators passed.
pub proof fn lemma_no_failures_iff_all_pass(outs: Seq<Result<(), MessageView>>)
    ensures
        failures(outs).len() == 0 <==> forall|i: int| 0 <= i < outs.len() ==> #[trigger] outs[i] is Ok,
    decreases outs.len(),
{
    if outs.len() > 0 {
        let pre = outs.drop_last();
        lemma_no_failures_iff_all_pass(pre);
        if forall|i: int| 0 <= i < outs.len() ==> #[trigger] outs[i] is Ok {
            assert forall|i: int| 0 <= i < pre.len() implies #[trigger] pre[i] is Ok by {
                assert(pre[i] == outs[i]);
            }
        }
        if failures(outs).len() == 0 {
            assert forall|i: int| 0 <= i < outs.len() implies #[trigger] outs[i] is Ok by {
                if i < pre.len() {
                    assert(pre[i] == outs[i]);
                }
            }
        }
    }
}

/// The kept feedback is the negative feedback of `fbs`, in its order.
pub proof fn lemma_negatives_filter(fbs: Seq<FeedbackView>)
    ensures
        negatives(fbs) == fbs.filter(|f: FeedbackView| f.negative()),
    decreases fbs.len(),
{
    reveal(Seq::filter);
    if fbs.len() > 0 {
        lemma_negatives_filter(fbs.drop_last());
    }
}

/// Aggregation drops every field whose validators all passed, and keeps every
/// field with a failure, in the order of declaration.
pub proof fn lemma_keeps_exactly_failing_fields(fbs: Seq<FeedbackView>)
    ensures
        negatives(fbs) == fbs.filter(|f: FeedbackView| f.negative()),
        forall|i: int| 0 <= i < negatives(fbs).len() ==> (#[trigger] negatives(fbs)[i]).negative(),
        forall|i: int| 0 <= i < fbs.len() && fbs[i].negative() ==> negatives(fbs).contains(#[trigger] fbs[i]),
        forall|f: FeedbackView| #[trigger] negatives(fbs).contains(f) ==> fbs.contains(f),
{
    broadcast use vstd::seq_lib::group_filter_ensures;

    lemma_negatives_filter(fbs);
    let p = |f: FeedbackView| f.negative();
    assert forall|i: int| 0 <= i < negatives(fbs).len() implies (#[trigger] negatives(fbs)[i]).negative() by {
        fbs.lemma_filter_pred(p, i);
    }
    assert forall|i: int| 0 <= i < fbs.len() && fbs[i].negative() implies negatives(fbs).contains(#[trigger] fbs[i]) by {
        fbs.lemma_filter_contains(p, i);
    }
    assert forall|f: FeedbackView| #[trigger] negatives(fbs).contains(f) implies fbs.contains(f) by {
        fbs.lemma_filter_contains_rev(p, f);
    }
}

/// Aggregation has nothing to report exactly when no feedback is negative.
pub proof fn lemma_no_negatives_iff_none_negative(fbs: Seq<FeedbackView>)
    ensures
        negatives(fbs).len() == 0 <==> forall|i: int| 0 <= i < fbs.len() ==> !(#[trigger] fbs[i]).negative(),
    decreases fbs.len(),
{
    if fbs.len() > 0 {
        let pre = fbs.drop_last();
        lemma_no_negatives_iff_none_negative(pre);
        if forall|i: int| 0 <= i < fbs.len() ==> !(#[trigger] fbs[i]).negative() {
            assert forall|i: int| 0 <= i < pre.len() implies !(#[trigger] pre[i]).negative() by {
                assert(pre[i] == fbs[i]);
            }
        }
        if negatives(fbs).len() == 0 {
            assert forall|i: int| 0 <= i < fbs.len() implies !(#[trigger] fbs[i]).negative() by {
                if i < pre.len() {
                    assert(pre[i] == fbs[i]);
                }
            }
        }
    }
}

/// A validation succeeds exactly when every validator of every field passes.
pub proof fn lemma_success_iff_all_pass<V: Validate>(fields: Seq<(String, String, Vec<V>)>)
    ensures
        verdict(fields_feedback(fields)) is Ok <==> forall|i: int, j: int|
            0 <= i < fields.len() && 0 <= j < fields[i].2@.len() ==> (#[trigger] fields[i].2@[j]).outcome(
                fields[i].1@,
            ) is Ok,
{
    let fbs = fields_feedback(fields);
    lemma_no_negatives_iff_none_negative(fbs);
    assert forall|i: int| 0 <= i < fields.len() implies (!(#[trigger] fbs[i]).negative() <==> forall|j: int|
        0 <= j < fields[i].2@.len() ==> (#[trigger] fields[i].2@[j]).outcome(fields[i].1@) is Ok) by {
        let outs = run_all(fields[i].2@, fields[i].1@);
        lemma_no_failures_iff_all_pass(outs);
        if forall|j: int| 0 <= j < fields[i].2@.len() ==> (#[trigger] fields[i].2@[j]).outcome(fields[i].1@) is Ok {
            assert forall|j: int| 0 <= j < outs.len() implies #[trigger] outs[j] is Ok by {
                assert(outs[j] == fields[i].2@[j].outcome(fields[i].1@));
            }
        }
        if !fbs[i].negative() {
            assert forall|j: int| 0 <= j < fields[i].2@.len() implies (#[trigger] fields[i].2@[j]).outcome(fields[i].1@) is Ok by {
                assert(outs[j] is Ok);
            }
        }
    }
    if verdict(fbs) is Ok {
        assert forall|i: int, j: int| 0 <= i < fields.len() && 0 <= j < fields[i].2@.len() implies (#[trigger] fields[i].2@[j]).outcome(fields[i].1@) is Ok by {
            assert(!fbs[i].negative());
        }
    }
    if forall|i: int, j: int| 0 <= i < fields.len() && 0 <= j < fields[i].2@.len() ==> (#[trigger] fields[i].2@[j]).outcome(fields[i].1@) is Ok {
        assert forall|i: int| 0 <= i < fbs.len() implies !(#[trigger] fbs[i]).negative() by {
            assert(forall|j: int| 0 <= j < fields[i].2@.len() ==> (#[trigger] fields[i].2@[j]).outcome(fields[i].1@) is Ok);
        }
    }
}

} // verus!
