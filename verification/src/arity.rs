//! The arity of a filter: how many values it extracts when it matches.

use crate::filter::{Filter, FilterModel};
use crate::request::RequestModel;
use crate::semantics::{eval, State};
use crate::value::DecodedModel;
use vstd::prelude::*;

verus! {

/// The number of values that `f` extracts whenever it matches, where that
/// number is the same for every request: a conjunction extracts what both
/// operands extract, and an alternation has an arity only where both
/// alternatives have the same.
pub open spec fn arity(f: FilterModel) -> Option<nat>
    decreases f,
{
    match f {
        FilterModel::Any => Some(0),
        FilterModel::Method(_) => Some(0),
        FilterModel::Path(_) => Some(0),
        FilterModel::Param(_) => Some(1),
        FilterModel::End => Some(0),
        FilterModel::Header { name: _, kind: _ } => Some(1),
        FilterModel::HeaderExact { name: _, expected: _, ignore_case: _ } => Some(0),
        FilterModel::HeaderValue { name: _ } => Some(1),
        FilterModel::ContentLengthLimit(_) => Some(0),
        FilterModel::BodyJson { target: _ } => Some(1),
        FilterModel::BodyBytes => Some(1),
        FilterModel::BodyAggregate => Some(1),
        FilterModel::NonZero { inner, otherwise: _ } => arity(*inner),
        FilterModel::And(first, second) => match (arity(*first), arity(*second)) {
            (Some(m), Some(n)) => Some(m + n),
            _ => None,
        },
        FilterModel::Or(first, second) => match (arity(*first), arity(*second)) {
            (Some(m), Some(n)) => if m == n {
                Some(m)
            } else {
                None
            },
            _ => None,
        },
    }
}

/// A filter that has an arity extracts exactly that many values on every
/// request that it matches; so a conjunction of filters of arities `m` and
/// `n` extracts `m + n` values.
pub proof fn law_arity(f: FilterModel, req: RequestModel, answers: Seq<DecodedModel>, st: State)
    requires
        arity(f) is Some,
        eval(f, req, answers, st) is Matched,
    ensures
        eval(f, req, answers, st)->Matched_values.len() == arity(f)->0,
    decreases f,
{
    match f {
        FilterModel::NonZero { inner, otherwise } => {
            law_arity(*inner, req, answers, st);
        },
        FilterModel::And(first, second) => {
            law_arity(*first, req, answers, st);
            law_arity(*second, req, answers, eval(*first, req, answers, st)->Matched_state);
        },
        FilterModel::Or(first, second) => {
            if eval(*first, req, answers, st) is Matched {
                law_arity(*first, req, answers, st);
            } else {
                law_arity(*second, req, answers, st);
            }
        },
        _ => {},
    }
}

impl Filter {
    /// The arity of this filter, if it has one that fits in a `usize`.
    pub fn arity(&self) -> (r: Option<usize>)
        ensures
            r matches Some(n) ==> arity(self@) == Some(n as nat),
            r is None ==> arity(self@) is None || arity(self@)->0 > usize::MAX,
        decreases self,
    {
        match self {
            Filter::Any => Some(0),
            Filter::Method(_) => Some(0),
            Filter::Path(_) => Some(0),
            Filter::Param(_) => Some(1),
            Filter::End => Some(0),
            Filter::Header { name: _, kind: _ } => Some(1),
            Filter::HeaderExact { name: _, expected: _, ignore_case: _ } => Some(0),
            Filter::HeaderValue { name: _ } => Some(1),
            Filter::ContentLengthLimit(_) => Some(0),
            Filter::BodyJson { target: _ } => Some(1),
            Filter::BodyBytes => Some(1),
            Filter::BodyAggregate => Some(1),
            Filter::NonZero { inner, otherwise: _ } => inner.arity(),
            Filter::And(first, second) => match (first.arity(), second.arity()) {
                (Some(m), Some(n)) => m.checked_add(n),
                _ => {
                    proof {
                        lemma_arity_is_sum(**first, **second);
                    }
                    None
                },
            },
            Filter::Or(first, second) => match (first.arity(), second.arity()) {
                (Some(m), Some(n)) => if m == n {
                    Some(m)
                } else {
                    None
                },
                _ => None,
            },
        }
    }
}

/// The arity of a conjunction is no less than that of either operand.
proof fn lemma_arity_is_sum(first: Filter, second: Filter)
    ensures
        arity(FilterModel::And(Box::new(first@), Box::new(second@))) matches Some(n) ==> arity(
            first@,
        ) is Some && arity(second@) is Some && n >= arity(first@)->0 && n >= arity(second@)->0,
{
}

} // verus!
