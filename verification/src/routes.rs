//! Route tables: ordered alternatives, of which the first that matches wins.

use crate::filter::{Filter, FilterModel};
use crate::laws::law_settled_outcomes_stay;
use crate::rejection::{merge, merged, Rejection, RejectionModel};
use crate::request::{Request, RequestModel};
use crate::semantics::{eval, start, Outcome, OutcomeModel};
use crate::settle::{
    askers, capped, law_answers_make_progress, law_open_asks_bounded, misanswered, open_asks,
};
use crate::text::{copy_bytes, same_bytes};
use crate::value::{decoded_models, Decoded, DecodedModel};
use vstd::prelude::*;

verus! {

/// Where routing ended. `index` is the position of the alternative that
/// matched, or at which the evaluation was left pending or cancelled; where
/// every alternative rejected it is the number of alternatives.
#[derive(Debug)]
pub struct Routed {
    pub outcome: Outcome,
    pub index: usize,
}

/// The end of routing as a mathematical value.
pub ghost struct RoutedModel {
    pub outcome: OutcomeModel,
    pub index: int,
}

impl View for Routed {
    type V = RoutedModel;

    open spec fn view(&self) -> RoutedModel {
        RoutedModel { outcome: self.outcome@, index: self.index as int }
    }
}

/// The filters that a vector of filters holds.
pub open spec fn filter_models(filters: Seq<Filter>) -> Seq<FilterModel> {
    Seq::new(filters.len(), |i: int| filters[i]@)
}

/// Routing over ordered alternatives, each evaluated from the start. With
/// none there is no route. Else the alternatives before the last are tried
/// first; only where they all reject is the last one tried, and where it
/// rejects too, its rejection is merged with theirs.
pub open spec fn routed(
    alternatives: Seq<FilterModel>,
    req: RequestModel,
    answers: Seq<DecodedModel>,
) -> RoutedModel
    decreases alternatives.len(),
{
    if alternatives.len() == 0 {
        RoutedModel { outcome: OutcomeModel::Rejected(RejectionModel::NotFound), index: 0 }
    } else {
        let before = routed(alternatives.drop_last(), req, answers);
        match before.outcome {
            OutcomeModel::Rejected(r1) => match eval(alternatives.last(), req, answers, start()) {
                OutcomeModel::Rejected(r2) => RoutedModel {
                    outcome: OutcomeModel::Rejected(merged(r1, r2)),
                    index: alternatives.len() as int,
                },
                other => RoutedModel { outcome: other, index: alternatives.len() - 1 },
            },
            _ => before,
        }
    }
}

/// The alternation of all the alternatives, nested to the left.
pub open spec fn or_chain(alternatives: Seq<FilterModel>) -> FilterModel
    recommends
        alternatives.len() > 0,
    decreases alternatives.len(),
{
    if alternatives.len() <= 1 {
        alternatives[0]
    } else {
        FilterModel::Or(Box::new(or_chain(alternatives.drop_last())), Box::new(alternatives.last()))
    }
}

/// Routing over alternatives ends as the alternation of them all does, the
/// merge rule applied pair by pair.
pub proof fn law_route_is_or_chain(
    alternatives: Seq<FilterModel>,
    req: RequestModel,
    answers: Seq<DecodedModel>,
)
    requires
        alternatives.len() > 0,
    ensures
        routed(alternatives, req, answers).outcome == eval(
            or_chain(alternatives),
            req,
            answers,
            start(),
        ),
    decreases alternatives.len(),
{
    if alternatives.len() == 1 {
        assert(alternatives.drop_last().len() == 0);
        assert(routed(alternatives.drop_last(), req, answers).outcome == OutcomeModel::Rejected(
            RejectionModel::NotFound,
        ));
    } else {
        law_route_is_or_chain(alternatives.drop_last(), req, answers);
    }
}

/// Where routing rejects, every alternative rejected; the rejection
/// returned is that of one of them, none of them ranks higher, and none
/// listed after it ranks as high.
pub proof fn law_route_rejects_with_last_highest(
    alternatives: Seq<FilterModel>,
    req: RequestModel,
    answers: Seq<DecodedModel>,
)
    requires
        alternatives.len() > 0,
        routed(alternatives, req, answers).outcome is Rejected,
    ensures
        forall|i: int|
            0 <= i < alternatives.len() ==> (#[trigger] eval(
                alternatives[i],
                req,
                answers,
                start(),
            )) is Rejected,
        forall|i: int|
            0 <= i < alternatives.len() ==> (#[trigger] eval(
                alternatives[i],
                req,
                answers,
                start(),
            ))->Rejected_0.rank() <= routed(alternatives, req, answers).outcome->Rejected_0.rank(),
        exists|j: int|
            0 <= j < alternatives.len() && #[trigger] eval(alternatives[j], req, answers, start())
                == routed(alternatives, req, answers).outcome && forall|k: int|
                j < k < alternatives.len() ==> (#[trigger] eval(
                    alternatives[k],
                    req,
                    answers,
                    start(),
                ))->Rejected_0.rank() < routed(
                    alternatives,
                    req,
                    answers,
                ).outcome->Rejected_0.rank(),
    decreases alternatives.len(),
{
    let n = alternatives.len() as int;
    let front = alternatives.drop_last();
    let last = eval(alternatives.last(), req, answers, start());
    let whole = routed(alternatives, req, answers).outcome;
    assert(alternatives[n - 1] == alternatives.last());
    if n == 1 {
        assert(routed(front, req, answers).outcome == OutcomeModel::Rejected(
            RejectionModel::NotFound,
        ));
        assert(eval(alternatives[0], req, answers, start()) == whole);
    } else {
        law_route_rejects_with_last_highest(front, req, answers);
        let before = routed(front, req, answers).outcome;
        assert forall|i: int| 0 <= i < n implies (#[trigger] eval(
            alternatives[i],
            req,
            answers,
            start(),
        )) is Rejected && eval(alternatives[i], req, answers, start())->Rejected_0.rank()
            <= whole->Rejected_0.rank() by {
            if i < n - 1 {
                assert(front[i] == alternatives[i]);
            }
        }
        if before->Rejected_0.rank() > last->Rejected_0.rank() {
            let j = choose|j: int|
                0 <= j < front.len() && #[trigger] eval(front[j], req, answers, start()) == before
                    && forall|k: int|
                    j < k < front.len() ==> (#[trigger] eval(
                        front[k],
                        req,
                        answers,
                        start(),
                    ))->Rejected_0.rank() < before->Rejected_0.rank();
            assert(front[j] == alternatives[j]);
            assert(eval(alternatives[j], req, answers, start()) == whole);
            assert forall|k: int| j < k < n implies (#[trigger] eval(
                alternatives[k],
                req,
                answers,
                start(),
            ))->Rejected_0.rank() < whole->Rejected_0.rank() by {
                if k < n - 1 {
                    assert(front[k] == alternatives[k]);
                }
            }
        } else {
            assert(eval(alternatives[n - 1], req, answers, start()) == whole);
        }
    }
}

/// Routing that has ended on some alternatives ends the same way when more
/// alternatives follow, unless it ended in a rejection.
pub proof fn lemma_route_settles(
    alternatives: Seq<FilterModel>,
    n: int,
    req: RequestModel,
    answers: Seq<DecodedModel>,
)
    requires
        0 <= n <= alternatives.len(),
        !(routed(alternatives.take(n), req, answers).outcome is Rejected),
    ensures
        routed(alternatives, req, answers) == routed(alternatives.take(n), req, answers),
    decreases alternatives.len() - n,
{
    if n == alternatives.len() {
        assert(alternatives.take(n) =~= alternatives);
    } else {
        assert(alternatives.take(n + 1).drop_last() =~= alternatives.take(n));
        lemma_route_settles(alternatives, n + 1, req, answers);
    }
}

/// Routes `req` over the alternatives, in order.
pub fn route(alternatives: &Vec<Filter>, req: &Request, answers: &Vec<Decoded>) -> (r: Routed)
    ensures
        r@ == routed(filter_models(alternatives@), req@, decoded_models(answers@)),
{
    let ghost all = filter_models(alternatives@);
    let ghost table = decoded_models(answers@);
    let mut sofar = Rejection::NotFound;
    let mut i: usize = 0;
    assert(all.take(0) =~= Seq::<FilterModel>::empty());
    while i < alternatives.len()
        invariant
            i <= alternatives.len(),
            all == filter_models(alternatives@),
            table == decoded_models(answers@),
            routed(all.take(i as int), req@, table) == (RoutedModel {
                outcome: OutcomeModel::Rejected(sofar@),
                index: i as int,
            }),
        decreases alternatives.len() - i,
    {
        assert(all.take(i + 1).drop_last() =~= all.take(i as int));
        assert(all.take(i + 1).last() == alternatives[i as int]@);
        match alternatives[i].evaluate(req, answers) {
            Outcome::Rejected(r) => {
                sofar = merge(sofar, r);
            },
            other => {
                proof {
                    lemma_route_settles(all, i + 1, req@, table);
                }
                return Routed { outcome: other, index: i };
            },
        }
        i += 1;
    }
    assert(all.take(i as int) =~= all);
    Routed { outcome: Outcome::Rejected(sofar), index: i }
}

/// The number of matchers in the alternatives that may ask the decoder.
pub open spec fn total_askers(alternatives: Seq<FilterModel>) -> nat
    decreases alternatives.len(),
{
    if alternatives.len() == 0 {
        0
    } else {
        total_askers(alternatives.drop_last()) + askers(alternatives.last())
    }
}

/// An upper bound on the number of answers that routing over the
/// alternatives still lacks.
pub open spec fn open_route_asks(
    alternatives: Seq<FilterModel>,
    req: RequestModel,
    answers: Seq<DecodedModel>,
) -> nat
    decreases alternatives.len(),
{
    if alternatives.len() == 0 {
        0
    } else {
        match routed(alternatives.drop_last(), req, answers).outcome {
            OutcomeModel::Rejected(_) => open_asks(alternatives.last(), req, answers, start()),
            OutcomeModel::Pending { target: _, input: _ } => open_route_asks(
                alternatives.drop_last(),
                req,
                answers,
            ) + askers(alternatives.last()),
            _ => 0,
        }
    }
}

/// Routing lacks no more answers than the alternatives have matchers that
/// may ask; so routing over alternatives without such matchers is never
/// left pending.
pub proof fn law_open_route_asks_bounded(
    alternatives: Seq<FilterModel>,
    req: RequestModel,
    answers: Seq<DecodedModel>,
)
    ensures
        open_route_asks(alternatives, req, answers) <= total_askers(alternatives),
        routed(alternatives, req, answers).outcome is Pending ==> open_route_asks(
            alternatives,
            req,
            answers,
        ) >= 1,
    decreases alternatives.len(),
{
    if alternatives.len() > 0 {
        law_open_route_asks_bounded(alternatives.drop_last(), req, answers);
        law_open_asks_bounded(alternatives.last(), req, answers, start());
    }
}

/// Answers given later change nothing that was settled: routing that did
/// not end pending ends the same way when more answers follow.
pub proof fn law_settled_routes_stay(
    alternatives: Seq<FilterModel>,
    req: RequestModel,
    answers: Seq<DecodedModel>,
    more: Seq<DecodedModel>,
)
    requires
        !(routed(alternatives, req, answers).outcome is Pending),
    ensures
        routed(alternatives, req, answers + more) == routed(alternatives, req, answers),
    decreases alternatives.len(),
{
    if alternatives.len() > 0 {
        law_settled_routes_stay(alternatives.drop_last(), req, answers, more);
        if routed(alternatives.drop_last(), req, answers).outcome is Rejected {
            law_settled_outcomes_stay(alternatives.last(), req, answers, more, start());
        }
    }
}

/// Each answer to what pending routing asks brings routing closer to its
/// end: with it, fewer answers are lacking.
pub proof fn law_answers_advance_routing(
    alternatives: Seq<FilterModel>,
    req: RequestModel,
    answers: Seq<DecodedModel>,
    given: DecodedModel,
)
    requires
        routed(alternatives, req, answers).outcome matches OutcomeModel::Pending { target, input }
            && given.target == target && given.input == input,
    ensures
        open_route_asks(alternatives, req, answers.push(given)) < open_route_asks(
            alternatives,
            req,
            answers,
        ),
    decreases alternatives.len(),
{
    let more = answers.push(given);
    assert(more =~= answers + seq![given]);
    if alternatives.len() > 0 {
        let front = alternatives.drop_last();
        let last = alternatives.last();
        law_open_route_asks_bounded(front, req, answers);
        match routed(front, req, answers).outcome {
            OutcomeModel::Rejected(_) => {
                law_settled_routes_stay(front, req, answers, seq![given]);
                law_answers_make_progress(last, req, answers, given, start());
            },
            OutcomeModel::Pending { target: _, input: _ } => {
                law_answers_advance_routing(front, req, answers, given);
                law_open_asks_bounded(last, req, more, start());
            },
            _ => {},
        }
    }
}

/// Routing carried through with a decoder at hand: where it ended, and the
/// answers that the decoder gave on the way, in the order given.
#[derive(Debug)]
pub struct SettledRoute {
    pub routed: Routed,
    pub answers: Vec<Decoded>,
}

/// `given` is an answer of `decode` to what routing over `alternatives`
/// asks when it has the answers `sofar`: routing is pending there, `decode`
/// may return `given` for the target and input that it asks, and `given` is
/// an answer for that target and input.
pub open spec fn route_asked<D: Fn(u64, Vec<u8>) -> Decoded>(
    alternatives: Seq<FilterModel>,
    req: RequestModel,
    sofar: Seq<DecodedModel>,
    decode: D,
    given: Decoded,
) -> bool {
    &&& routed(alternatives, req, sofar).outcome matches OutcomeModel::Pending { target, input }
    &&& given.target == target
    &&& given.input@ == input
    &&& exists|sent: Vec<u8>| sent@ == input && call_ensures(decode, (target, sent), given)
}

/// The number of matchers in the alternatives that may ask the decoder, or
/// `usize::MAX` where there are more than that.
pub fn count_askers(alternatives: &Vec<Filter>) -> (n: usize)
    ensures
        n == capped(total_askers(filter_models(alternatives@))),
{
    let ghost all = filter_models(alternatives@);
    let mut n: usize = 0;
    let mut i: usize = 0;
    assert(all.take(0) =~= Seq::<FilterModel>::empty());
    while i < alternatives.len()
        invariant
            i <= alternatives.len(),
            all == filter_models(alternatives@),
            n == capped(total_askers(all.take(i as int))),
        decreases alternatives.len() - i,
    {
        assert(all.take(i + 1).drop_last() =~= all.take(i as int));
        assert(all.take(i + 1).last() == alternatives[i as int]@);
        n = match n.checked_add(alternatives[i].askers()) {
            Some(sum) => sum,
            None => usize::MAX,
        };
        i += 1;
    }
    assert(all.take(i as int) =~= all);
    n
}

/// Routes `req` over the alternatives, asking `decode` whenever routing is
/// pending and going on with its answer.
///
/// The result is that of routing under the answers returned, each of which
/// `decode` gave for what routing asked at that point. Routing is still
/// pending only where `decode` answered for another target or input than it
/// was asked for (or where the alternatives hold more matchers that may ask
/// than a `usize` counts).
pub fn route_with<D: Fn(u64, Vec<u8>) -> Decoded>(
    alternatives: &Vec<Filter>,
    req: &Request,
    decode: D,
) -> (r: SettledRoute)
    requires
        forall|target: u64, input: Vec<u8>| call_requires(decode, (target, input)),
    ensures
        r.routed@ == routed(filter_models(alternatives@), req@, decoded_models(r.answers@)),
        forall|i: int|
            0 <= i < r.answers@.len() ==> route_asked(
                filter_models(alternatives@),
                req@,
                decoded_models(r.answers@.take(i)),
                decode,
                #[trigger] r.answers@[i],
            ),
        r.routed@.outcome matches OutcomeModel::Pending { target, input } ==> total_askers(
            filter_models(alternatives@),
        ) > usize::MAX || misanswered(decode, target, input),
{
    let ghost all = filter_models(alternatives@);
    let mut answers: Vec<Decoded> = Vec::new();
    let mut current = route(alternatives, req, &answers);
    let mut rounds: usize = count_askers(alternatives);
    proof {
        law_open_route_asks_bounded(all, req@, decoded_models(answers@));
    }
    while rounds > 0
        invariant
            all == filter_models(alternatives@),
            forall|target: u64, input: Vec<u8>| call_requires(decode, (target, input)),
            current@ == routed(all, req@, decoded_models(answers@)),
            total_askers(all) > usize::MAX || open_route_asks(all, req@, decoded_models(answers@))
                <= rounds,
            forall|i: int|
                0 <= i < answers@.len() ==> route_asked(
                    all,
                    req@,
                    decoded_models(answers@.take(i)),
                    decode,
                    #[trigger] answers@[i],
                ),
        decreases rounds,
    {
        let Routed { outcome, index } = current;
        match outcome {
            Outcome::Pending { target, input } => {
                let ghost before = answers@;
                let ghost sent = input;
                let wanted = copy_bytes(&input);
                let given = decode(target, input);
                if given.target != target || !same_bytes(&given.input, &wanted) {
                    assert(call_ensures(decode, (target, sent), given));
                    let outcome = Outcome::Pending { target, input: wanted };
                    return SettledRoute { routed: Routed { outcome, index }, answers };
                }
                proof {
                    law_answers_advance_routing(all, req@, decoded_models(before), given@);
                }
                answers.push(given);
                assert(decoded_models(answers@) =~= decoded_models(before).push(given@));
                assert(answers@.take(before.len() as int) =~= before);
                assert forall|i: int| 0 <= i < answers@.len() implies route_asked(
                    all,
                    req@,
                    decoded_models(answers@.take(i)),
                    decode,
                    #[trigger] answers@[i],
                ) by {
                    if i < before.len() {
                        assert(answers@.take(i) =~= before.take(i));
                        assert(answers@[i] == before[i]);
                    }
                }
                current = route(alternatives, req, &answers);
            },
            other => {
                return SettledRoute { routed: Routed { outcome: other, index }, answers };
            },
        }
        rounds = rounds - 1;
    }
    proof {
        law_open_route_asks_bounded(all, req@, decoded_models(answers@));
    }
    SettledRoute { routed: current, answers }
}

} // verus!
