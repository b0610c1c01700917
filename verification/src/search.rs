//! The outcomes that a search may have, stated over sequences.
//!
//! A predicate is any function that can be called on a reference to an item
//! and hands back a [`Fallible`] truth value. Nothing is assumed of it beyond
//! its own contract: it may leave open which answer it gives, so the
//! definitions here speak of the answers it *may* give ([`may_answer`]) and of
//! those it *must* give ([`must_answer`]). Three answers are told apart:
//! `Ok(false)`, "no match"; `Ok(true)`, "match"; and `Err(e)`, a failure with
//! the error `e`.
//!
//! [`may_find`] is the heart of it: which result a search may end with, and
//! after how many items. The proof functions below it state what follows.

use crate::fallible::Fallible;
use vstd::prelude::*;

verus! {

/// Whether `f`, asked about `item`, may give an answer that stands for
/// `verdict`.
pub open spec fn may_answer<T, R, F>(f: F, item: T, verdict: Result<bool, R::Error>) -> bool where
    R: Fallible<Value = bool>,
    F: FnMut(&T) -> R,
 {
    exists|answer: R| #[trigger] call_ensures(f, (&item,), answer) && answer.as_result() == verdict
}

/// Whether every answer that `f` may give about `item` stands for `verdict`.
pub open spec fn must_answer<T, R, F>(f: F, item: T, verdict: Result<bool, R::Error>) -> bool where
    R: Fallible<Value = bool>,
    F: FnMut(&T) -> R,
 {
    forall|answer: R| #[trigger]
        call_ensures(f, (&item,), answer) ==> answer.as_result() == verdict
}

/// Whether a search over `items` may get as far as asking about `items[at]`:
/// there is such an item, and `f` may answer "no match" on each one before it.
pub open spec fn reaches<T, R, F>(f: F, items: Seq<T>, at: int) -> bool where
    R: Fallible<Value = bool>,
    F: FnMut(&T) -> R,
 {
    &&& 0 <= at < items.len()
    &&& forall|j: int| 0 <= j < at ==> #[trigger] may_answer(f, items[j], Ok(false))
}

/// Whether a search over `items` may draw exactly the first `taken` of them
/// and end with `result`.
///
/// * `Ok(None)`: every item was drawn, and each may be answered "no match".
/// * `Ok(Some(hit))`: `hit` is the last item drawn, the search may get as far
///   as it, and it may be answered "match".
/// * `Err(error)`: the search may get as far as the last item drawn, and that
///   item may be answered with the failure `error`.
pub open spec fn may_find<T, R, F>(
    f: F,
    items: Seq<T>,
    taken: int,
    result: Result<Option<T>, R::Error>,
) -> bool where R: Fallible<Value = bool>, F: FnMut(&T) -> R {
    match result {
        Ok(None) => {
            &&& taken == items.len()
            &&& forall|j: int| 0 <= j < taken ==> #[trigger] may_answer(f, items[j], Ok(false))
        },
        Ok(Some(hit)) => {
            &&& reaches(f, items, taken - 1)
            &&& hit == items[taken - 1]
            &&& may_answer(f, hit, Ok(true))
        },
        Err(error) => {
            &&& reaches(f, items, taken - 1)
            &&& may_answer(f, items[taken - 1], Err(error))
        },
    }
}

/// Whether `items[at]` is the first item on which `f` gives another answer
/// than "no match", and the answer it gives there is always `verdict`.
pub open spec fn first_stop<T, R, F>(
    f: F,
    items: Seq<T>,
    at: int,
    verdict: Result<bool, R::Error>,
) -> bool where R: Fallible<Value = bool>, F: FnMut(&T) -> R {
    &&& 0 <= at < items.len()
    &&& forall|j: int| 0 <= j < at ==> #[trigger] must_answer(f, items[j], Ok(false))
    &&& must_answer(f, items[at], verdict)
    &&& verdict != Ok::<bool, R::Error>(false)
}

/// A search over no items draws nothing and finds nothing, whatever `f` is.
pub proof fn lemma_empty_search<T, R, F>(
    f: F,
    items: Seq<T>,
    taken: int,
    result: Result<Option<T>, R::Error>,
) where R: Fallible<Value = bool>, F: FnMut(&T) -> R
    requires
        items.len() == 0,
        may_find(f, items, taken, result),
    ensures
        taken == 0,
        result == Ok::<Option<T>, R::Error>(None),
{
}

/// Where `f` answers "no match" on every item, the search draws them all and
/// finds nothing.
pub proof fn lemma_search_without_stop<T, R, F>(
    f: F,
    items: Seq<T>,
    taken: int,
    result: Result<Option<T>, R::Error>,
) where R: Fallible<Value = bool>, F: FnMut(&T) -> R
    requires
        forall|i: int| 0 <= i < items.len() ==> #[trigger] must_answer(f, items[i], Ok(false)),
        may_find(f, items, taken, result),
    ensures
        taken == items.len(),
        result == Ok::<Option<T>, R::Error>(None),
{
    // A search that ended on an item had another answer than "no match" for
    // it.
    if result != Ok::<Option<T>, R::Error>(None) {
        assert(must_answer(f, items[taken - 1], Ok(false)));
    }
}

/// Where `items[at]` is the first item on which `f` does not answer "no
/// match", the search draws the items up to and with that one and no more,
/// and ends with what `f` answers there: the item itself for "match", the
/// error for a failure.
pub proof fn lemma_search_ends_at_first_stop<T, R, F>(
    f: F,
    items: Seq<T>,
    at: int,
    verdict: Result<bool, R::Error>,
    taken: int,
    result: Result<Option<T>, R::Error>,
) where R: Fallible<Value = bool>, F: FnMut(&T) -> R
    requires
        first_stop(f, items, at, verdict),
        may_find(f, items, taken, result),
    ensures
        taken == at + 1,
        result == match verdict {
            Ok(_) => Ok::<Option<T>, R::Error>(Some(items[at])),
            Err(error) => Err::<Option<T>, R::Error>(error),
        },
{
    // A search that got past `items[at]` had "no match" for it, which `f`
    // never answers there.
    if result == Ok::<Option<T>, R::Error>(None) || taken - 1 > at {
        assert(may_answer(f, items[at], Ok(false)));
    }
    // A search that ended before `items[at]` had another answer than "no
    // match" for an item on which `f` answers nothing else.
    if result != Ok::<Option<T>, R::Error>(None) && taken - 1 < at {
        assert(must_answer(f, items[taken - 1], Ok(false)));
    }
}

/// Where `f` answers "match" on `items[at]` and "no match" on every item
/// before it, the search draws the items up to and with `items[at]`, and
/// finds that item.
pub proof fn lemma_first_match_is_found<T, R, F>(
    f: F,
    items: Seq<T>,
    at: int,
    taken: int,
    result: Result<Option<T>, R::Error>,
) where R: Fallible<Value = bool>, F: FnMut(&T) -> R
    requires
        first_stop(f, items, at, Ok(true)),
        may_find(f, items, taken, result),
    ensures
        taken == at + 1,
        result == Ok::<Option<T>, R::Error>(Some(items[at])),
{
    lemma_search_ends_at_first_stop(f, items, at, Ok(true), taken, result);
}

/// Where `f` fails with `error` on `items[at]` and answers "no match" on
/// every item before it, the search draws the items up to and with
/// `items[at]`, and ends with that error.
pub proof fn lemma_first_failure_is_returned<T, R, F>(
    f: F,
    items: Seq<T>,
    at: int,
    error: R::Error,
    taken: int,
    result: Result<Option<T>, R::Error>,
) where R: Fallible<Value = bool>, F: FnMut(&T) -> R
    requires
        first_stop(f, items, at, Err(error)),
        may_find(f, items, taken, result),
    ensures
        taken == at + 1,
        result == Err::<Option<T>, R::Error>(error),
{
    lemma_search_ends_at_first_stop(f, items, at, Err(error), taken, result);
}

/// What lies behind the item that ended a search had no part in it: the
/// same search may run, with the same outcome, whatever follows that item.
pub proof fn lemma_search_ignores_what_follows<T, R, F>(
    f: F,
    items: Seq<T>,
    more: Seq<T>,
    taken: int,
    result: Result<Option<T>, R::Error>,
) where R: Fallible<Value = bool>, F: FnMut(&T) -> R
    requires
        may_find(f, items, taken, result),
        result != Ok::<Option<T>, R::Error>(None),
    ensures
        may_find(f, items.take(taken) + more, taken, result),
{
    let cut = items.take(taken) + more;
    assert forall|j: int| 0 <= j < taken implies items[j] == cut[j] by {}
}

/// A search over `head + tail`, where `f` may answer "no match" all through
/// `head`, may go on as any search over `tail` does, with `head` drawn first.
pub proof fn lemma_search_over_concatenation<T, R, F>(
    f: F,
    head: Seq<T>,
    tail: Seq<T>,
    taken: int,
    result: Result<Option<T>, R::Error>,
) where R: Fallible<Value = bool>, F: FnMut(&T) -> R
    requires
        forall|j: int| 0 <= j < head.len() ==> #[trigger] may_answer(f, head[j], Ok(false)),
        may_find(f, tail, taken, result),
    ensures
        may_find(f, head + tail, head.len() + taken, result),
{
    let whole = head + tail;
    assert forall|j: int|
        0 <= j < head.len() + taken && (result == Ok::<Option<T>, R::Error>(None) || j
            < head.len() + taken - 1) implies #[trigger] may_answer(f, whole[j], Ok(false)) by {
        if j < head.len() {
            assert(whole[j] == head[j]);
        } else {
            assert(whole[j] == tail[j - head.len()]);
        }
    }
}

/// Two searches in a row on one producer that held `items`: the second
/// begins where the first ended. The producer only ever moves forward, by
/// what each search draws; together the two draw one unbroken run of items
/// from the front; an item found by the second lies behind all that the
/// first drew; and once the first has drawn everything, the second draws
/// nothing and finds nothing.
pub proof fn lemma_second_search_resumes<T, R, F>(
    f: F,
    items: Seq<T>,
    first_taken: int,
    first: Result<Option<T>, R::Error>,
    second_taken: int,
    second: Result<Option<T>, R::Error>,
) where R: Fallible<Value = bool>, F: FnMut(&T) -> R
    requires
        may_find(f, items, first_taken, first),
        may_find(f, items.skip(first_taken), second_taken, second),
    ensures
        0 <= first_taken <= first_taken + second_taken <= items.len(),
        items.skip(first_taken).skip(second_taken) == items.skip(first_taken + second_taken),
        items.take(first_taken) + items.skip(first_taken).take(second_taken) == items.take(
            first_taken + second_taken,
        ),
        second matches Ok(Some(hit)) ==> hit == items[first_taken + second_taken - 1],
        first == Ok::<Option<T>, R::Error>(None) ==> second_taken == 0 && second == Ok::<
            Option<T>,
            R::Error,
        >(None),
{
}

} // verus!
