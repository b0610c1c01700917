//! The search itself, as a method on every iterator.

use crate::fallible::Fallible;
use crate::search::{
    first_stop, lemma_empty_search, lemma_first_failure_is_returned, lemma_first_match_is_found,
    lemma_search_without_stop, may_answer, may_find, must_answer, reaches,
};
use vstd::prelude::*;
use vstd::std_specs::iter::IteratorSpec;

verus! {

/// Adds [`try_find`](TryFindExt::try_find) to iterators: a search for the
/// first item that a predicate accepts, where the predicate may also fail and
/// thereby end the search.
///
/// `Tryable` is what the search hands back: a success that carries the item
/// found, if any, or a failure that carries the predicate's error.
pub trait TryFindExt<Tryable: Fallible<Value = Option<Self::Item>>>: Iterator {
    /// Draws items from `self` and asks `f` about each, up to and with the
    /// first item on which `f` answers something else than "no match".
    ///
    /// ```
    /// use iter_try::TryFindExt;
    ///
    /// let a = ["1", "2", "lol", "NaN", "5"];
    ///
    /// let is_my_num = |s: &str, search: i32| -> Result<bool, std::num::ParseIntError> {
    ///     Ok(s.parse::<i32>()? == search)
    /// };
    ///
    /// let result = a.iter().try_find(|&&s| is_my_num(s, 2));
    /// assert_eq!(result, Ok(Some(&"2")));
    ///
    /// let result = a.iter().try_find(|&&s| is_my_num(s, 5));
    /// assert!(result.is_err());
    /// ```
    ///
    /// # Asked of the caller
    ///
    /// * `self` keeps to the laws of iterators that end, and has a measure
    ///   that shrinks with each item drawn: this is what makes the search end.
    /// * `f` can be called on every item that the search may get to. Nothing
    ///   is asked of `f` for the items behind the one that ends the search:
    ///   they are never handed to it.
    ///
    /// # Promised
    ///
    /// With `before` and `after` the items that `self` had left to give when
    /// the search began and when it ended, and `taken` the difference of their
    /// lengths:
    ///
    /// * `after` is `before` without its first `taken` items: the items drawn
    ///   are gone from the iterator, those not drawn are all still to come, in
    ///   their order. `self` is as fit for a further search as it was for
    ///   this one.
    /// * What is handed back stands for a result that `f` accounts for
    ///   ([`may_find`]): `Ok(None)` after every item was drawn and answered
    ///   "no match"; `Ok(Some(item))` for the item drawn last, answered
    ///   "match" after "no match" on all before it; `Err(error)` for the error
    ///   with which `f` failed on the item drawn last, after "no match" on
    ///   all before it.
    /// * Where the answers of `f` leave no choice, neither does the search:
    ///   it finds nothing in an empty iterator; it draws everything and finds
    ///   nothing where `f` answers "no match" throughout; and it stops on the
    ///   first item that `f` answers otherwise, handing back that item or the
    ///   error given for it.
    fn try_find<F, R>(&mut self, f: F) -> (found: Tryable) where
        Self: Sized,
        R: Fallible<Value = bool, Error = Tryable::Error>,
        F: FnMut(&Self::Item) -> R,

        requires
            (*old(self)).obeys_prophetic_iter_laws(),
            (*old(self)).decrease() is Some,
            forall|at: int| #[trigger]
                reaches(f, (*old(self)).remaining(), at) ==> call_requires(
                    f,
                    (&(*old(self)).remaining()[at],),
                ),
        ensures
            (*final(self)).obeys_prophetic_iter_laws(),
            (*final(self)).decrease() is Some,
            ({
                let before = (*old(self)).remaining();
                let after = (*final(self)).remaining();
                let taken = before.len() - after.len();
                let result = found.as_result();
                let nothing = Ok::<Option<Self::Item>, Tryable::Error>(None);
                &&& after == before.skip(taken)
                &&& may_find(f, before, taken, result)
                &&& before.len() == 0 ==> result == nothing
                &&& (forall|i: int|
                    0 <= i < before.len() ==> #[trigger] must_answer(f, before[i], Ok(false)))
                    ==> taken == before.len() && result == nothing
                &&& forall|at: int| #[trigger]
                    first_stop(f, before, at, Ok(true)) ==> taken == at + 1 && result == Ok::<
                        Option<Self::Item>,
                        Tryable::Error,
                    >(Some(before[at]))
                &&& forall|at: int, error: Tryable::Error| #[trigger]
                    first_stop(f, before, at, Err(error)) ==> taken == at + 1 && result == Err::<
                        Option<Self::Item>,
                        Tryable::Error,
                    >(error)
            }),
    {
        let ghost before = (*self).remaining();
        let ghost mut taken: int = 0;
        let mut ask = f;
        loop
            invariant
                before == (*old(self)).remaining(),
                ask == f,
                (*self).obeys_prophetic_iter_laws(),
                (*self).decrease() is Some,
                0 <= taken <= before.len(),
                (*self).remaining() == before.skip(taken),
                forall|j: int| 0 <= j < taken ==> #[trigger] may_answer(f, before[j], Ok(false)),
                forall|at: int| #[trigger]
                    reaches(f, before, at) ==> call_requires(f, (&before[at],)),
            decreases (*self).decrease()->0,
        {
            match self.next() {
                None => {
                    let found = Tryable::from_value(None);
                    proof {
                        lemma_outcome_where_determined(f, before, taken, found.as_result());
                    }
                    return found;
                },
                Some(item) => {
                    assert(reaches(f, before, taken));
                    let answer = ask(&item);
                    match answer.into_result() {
                        Ok(false) => {
                            proof {
                                taken = taken + 1;
                            }
                        },
                        Ok(true) => {
                            let found = Tryable::from_value(Some(item));
                            proof {
                                lemma_outcome_where_determined(
                                    f,
                                    before,
                                    taken + 1,
                                    found.as_result(),
                                );
                            }
                            return found;
                        },
                        Err(error) => {
                            let found = Tryable::from_error(error);
                            proof {
                                lemma_outcome_where_determined(
                                    f,
                                    before,
                                    taken + 1,
                                    found.as_result(),
                                );
                            }
                            return found;
                        },
                    }
                },
            }
        }
    }
}

/// Every iterator can be searched, with a `Result` handed back: this one
/// choice of `Tryable` keeps a call free of type annotations, and lets its
/// value go straight into `?`.
impl<I: Iterator<Item = Item>, Item, E> TryFindExt<Result<Option<Item>, E>> for I {}

/// Gathers, for one search that may have run, what its outcome must be
/// wherever the answers of `f` leave no choice.
proof fn lemma_outcome_where_determined<T, R, F>(
    f: F,
    items: Seq<T>,
    taken: int,
    result: Result<Option<T>, R::Error>,
) where R: Fallible<Value = bool>, F: FnMut(&T) -> R
    requires
        may_find(f, items, taken, result),
    ensures
        items.len() == 0 ==> result == Ok::<Option<T>, R::Error>(None),
        (forall|i: int| 0 <= i < items.len() ==> #[trigger] must_answer(f, items[i], Ok(false)))
            ==> taken == items.len() && result == Ok::<Option<T>, R::Error>(None),
        forall|at: int| #[trigger]
            first_stop(f, items, at, Ok(true)) ==> taken == at + 1 && result == Ok::<
                Option<T>,
                R::Error,
            >(Some(items[at])),
        forall|at: int, error: R::Error| #[trigger]
            first_stop(f, items, at, Err(error)) ==> taken == at + 1 && result == Err::<
                Option<T>,
                R::Error,
            >(error),
{
    if items.len() == 0 {
        lemma_empty_search(f, items, taken, result);
    }
    if forall|i: int| 0 <= i < items.len() ==> #[trigger] must_answer(f, items[i], Ok(false)) {
        lemma_search_without_stop(f, items, taken, result);
    }
    assert forall|at: int| #[trigger] first_stop(f, items, at, Ok(true)) implies taken == at + 1
        && result == Ok::<Option<T>, R::Error>(Some(items[at])) by {
        lemma_first_match_is_found(f, items, at, taken, result);
    }
    assert forall|at: int, error: R::Error| #[trigger]
        first_stop(f, items, at, Err(error)) implies taken == at + 1 && result == Err::<
        Option<T>,
        R::Error,
    >(error) by {
        lemma_first_failure_is_returned(f, items, at, error, taken, result);
    }
}

} // verus!
