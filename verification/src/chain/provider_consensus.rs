//! Shared agreement rules for optional reads from independent providers.

use vstd::prelude::*;
use vstd::std_specs::cmp::PartialEqSpec;

verus! {

/// Failure to select one authoritative optional provider view.
#[derive(Debug, PartialEq, Eq)]
pub enum OptionalViewSelectionError<E> {
    /// Two providers returned different non-null values.
    Disagreement,
    /// No provider returned a value and at least one provider failed.
    Unavailable(E),
}

/// Selection over the views from index `from` on, given the value and the first error seen.
pub open spec fn selection_from<T: PartialEq, E>(
    views: Seq<Result<Option<T>, E>>,
    from: int,
    observed: Option<T>,
    first_error: Option<E>,
) -> Result<Option<T>, OptionalViewSelectionError<E>>
    decreases views.len() - from,
{
    if from >= views.len() {
        match (observed, first_error) {
            (None, Some(error)) => Err(OptionalViewSelectionError::Unavailable(error)),
            _ => Ok(observed),
        }
    } else {
        match views[from] {
            Ok(Some(value)) => if observed is Some && !observed->0.eq_spec(&value) {
                Err(OptionalViewSelectionError::Disagreement)
            } else {
                selection_from(views, from + 1, Some(value), first_error)
            },
            Ok(None) => selection_from(views, from + 1, observed, first_error),
            Err(error) => selection_from(
                views,
                from + 1,
                observed,
                if first_error is None {
                    Some(error)
                } else {
                    first_error
                },
            ),
        }
    }
}

/// Selects one consistent optional value while retaining configured provider error order.
///
/// A non-null value remains usable when another provider returns `None` or fails. Conflicting
/// non-null values fail closed. If no value is available, the first error in input order wins;
/// an all-null (or empty) view is a successful absence.
pub fn select_consistent_optional_view<T: PartialEq, E>(
    views: Vec<Result<Option<T>, E>>,
) -> (r: Result<Option<T>, OptionalViewSelectionError<E>>)
    requires
        T::obeys_eq_spec(),
    ensures
        r == selection_from(views@, 0, None, None),
{
    let ghost all = views@;
    let mut rest: Vec<Result<Option<T>, E>> = reversed(views);
    let mut observed: Option<T> = None;
    let mut first_error: Option<E> = None;
    let ghost mut done: int = 0;
    while rest.len() > 0
        invariant
            T::obeys_eq_spec(),
            all == views@,
            0 <= done <= all.len(),
            rest@.len() == all.len() - done,
            forall|i: int| 0 <= i < rest@.len() ==> rest@[i] == #[trigger] all[all.len() - 1 - i],
            selection_from(all, 0, None, None) == selection_from(
                all,
                done,
                observed,
                first_error,
            ),
        decreases rest.len(),
    {
        assert(rest@[rest@.len() - 1] == all[all.len() - 1 - (rest@.len() - 1)]);
        if let Some(view) = rest.pop() {
            match view {
                Ok(Some(value)) => {
                    let conflicts = match &observed {
                        Some(known) => *known != value,
                        None => false,
                    };
                    if conflicts {
                        return Err(OptionalViewSelectionError::Disagreement);
                    }
                    observed = Some(value);
                },
                Ok(None) => {},
                Err(error) => {
                    if first_error.is_none() {
                        first_error = Some(error);
                    }
                },
            }
        }
        proof {
            done = done + 1;
        }
    }
    match (observed, first_error) {
        (None, Some(error)) => Err(OptionalViewSelectionError::Unavailable(error)),
        (value, _) => Ok(value),
    }
}

/// Reverses a list.
pub(crate) fn reversed<T>(values: Vec<T>) -> (r: Vec<T>)
    ensures
        r@ == values@.reverse(),
{
    let ghost all = values@;
    let mut rest: Vec<T> = values;
    let mut out: Vec<T> = Vec::new();
    while rest.len() > 0
        invariant
            rest@.len() <= all.len(),
            rest@ == all.subrange(0, rest@.len() as int),
            out@ == all.reverse().subrange(0, all.len() - rest@.len()),
        decreases rest.len(),
    {
        if let Some(value) = rest.pop() {
            out.push(value);
        }
        assert(rest@ =~= all.subrange(0, rest@.len() as int));
        assert(out@ =~= all.reverse().subrange(0, all.len() - rest@.len()));
    }
    assert(out@ =~= all.reverse());
    out
}

proof fn lemma_selection_with_value<T: PartialEq, E>(
    views: Seq<Result<Option<T>, E>>,
    from: int,
    observed: Option<T>,
    first_error: Option<E>,
)
    requires
        0 <= from <= views.len(),
        observed is Some || exists|i: int|
            from <= i < views.len() && (#[trigger] views[i]) is Ok && views[i]->Ok_0 is Some,
    ensures
        match selection_from(views, from, observed, first_error) {
            Ok(value) => value is Some,
            Err(error) => error is Disagreement,
        },
    decreases views.len() - from,
{
    if from < views.len() {
        let next_error = if first_error is None && views[from] is Err {
            Some(views[from]->Err_0)
        } else {
            first_error
        };
        match views[from] {
            Ok(Some(value)) => {
                lemma_selection_with_value(views, from + 1, Some(value), first_error);
            },
            Ok(None) => {
                lemma_selection_with_value(views, from + 1, observed, first_error);
            },
            Err(_) => {
                lemma_selection_with_value(views, from + 1, observed, next_error);
            },
        }
    }
}

/// Wherever some provider returned a value, the selection is a value or a disagreement, never an
/// absence or a provider failure.
pub proof fn a_value_is_never_lost<T: PartialEq, E>(views: Seq<Result<Option<T>, E>>)
    requires
        exists|i: int|
            0 <= i < views.len() && (#[trigger] views[i]) is Ok && views[i]->Ok_0 is Some,
    ensures
        match selection_from(views, 0, None, None) {
            Ok(value) => value is Some,
            Err(error) => error is Disagreement,
        },
{
    lemma_selection_with_value(views, 0, None, None);
}

proof fn lemma_selection_without_value<T: PartialEq, E>(
    views: Seq<Result<Option<T>, E>>,
    from: int,
    first_error: Option<E>,
)
    requires
        0 <= from <= views.len(),
        forall|i: int|
            from <= i < views.len() ==> (#[trigger] views[i]) is Err || views[i]->Ok_0 is None,
    ensures
        first_error is Some ==> selection_from(views, from, None, first_error) == Err::<
            Option<T>,
            OptionalViewSelectionError<E>,
        >(OptionalViewSelectionError::Unavailable(first_error->0)),
    decreases views.len() - from,
{
    if from < views.len() {
        lemma_selection_without_value(views, from + 1, first_error);
    }
}

/// Without any value, the first failure in configured order is the one reported.
pub proof fn the_first_failure_is_reported<T: PartialEq, E>(
    views: Seq<Result<Option<T>, E>>,
    first: int,
)
    requires
        0 <= first < views.len(),
        views[first] is Err,
        forall|i: int| 0 <= i < first ==> (#[trigger] views[i]) is Ok,
        forall|i: int|
            0 <= i < views.len() ==> (#[trigger] views[i]) is Err || views[i]->Ok_0 is None,
    ensures
        selection_from(views, 0, None, None) == Err::<Option<T>, OptionalViewSelectionError<E>>(
            OptionalViewSelectionError::Unavailable(views[first]->Err_0),
        ),
{
    lemma_skip_absent(views, 0, first);
    lemma_selection_without_value(views, first + 1, Some(views[first]->Err_0));
}

proof fn lemma_skip_absent<T: PartialEq, E>(
    views: Seq<Result<Option<T>, E>>,
    from: int,
    to: int,
)
    requires
        0 <= from <= to <= views.len(),
        forall|i: int|
            from <= i < to ==> (#[trigger] views[i]) is Ok && views[i]->Ok_0 is None,
    ensures
        selection_from(views, from, None, None) == selection_from(views, to, None, None),
    decreases to - from,
{
    if from < to {
        lemma_skip_absent(views, from + 1, to);
    }
}

} // verus!
