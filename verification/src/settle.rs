//! Evaluation with a decoder at hand: the decoder is asked whenever the
//! evaluation is pending, and the evaluation goes on with its answer.

use crate::filter::{Filter, FilterModel};
use crate::laws::law_settled_outcomes_stay;
use crate::request::{Request, RequestModel};
use crate::semantics::{eval, start, Outcome, OutcomeModel, State};
use crate::text::{copy_bytes, same_bytes};
use crate::value::{answer, decoded_models, Decoded, DecodedModel, Kind};
use vstd::prelude::*;

verus! {

/// The number of matchers in `f` that may ask the decoder: the parameters
/// and headers of a foreign kind, and the matchers that decode the body.
pub open spec fn askers(f: FilterModel) -> nat
    decreases f,
{
    match f {
        FilterModel::Param(Kind::Foreign { target: _ }) => 1,
        FilterModel::Header { name: _, kind: Kind::Foreign { target: _ } } => 1,
        FilterModel::BodyJson { target: _ } => 1,
        FilterModel::NonZero { inner, otherwise: _ } => askers(*inner),
        FilterModel::And(first, second) => askers(*first) + askers(*second),
        FilterModel::Or(first, second) => askers(*first) + askers(*second),
        _ => 0,
    }
}

/// `n`, or `usize::MAX` where `n` is larger.
pub open spec fn capped(n: nat) -> usize {
    if n > usize::MAX {
        usize::MAX
    } else {
        n as usize
    }
}

/// The sum of two counts, capped at `usize::MAX`.
fn capped_sum(a: usize, b: usize) -> (n: usize)
    ensures
        n == capped((a + b) as nat),
{
    match a.checked_add(b) {
        Some(n) => n,
        None => usize::MAX,
    }
}

/// An upper bound on the number of answers that the evaluation of `f` from
/// `st` still lacks: the matchers that may ask, without those that the
/// evaluation has passed or will not reach.
pub open spec fn open_asks(
    f: FilterModel,
    req: RequestModel,
    answers: Seq<DecodedModel>,
    st: State,
) -> nat
    decreases f,
{
    match f {
        FilterModel::NonZero { inner, otherwise: _ } => open_asks(*inner, req, answers, st),
        FilterModel::And(first, second) => match eval(*first, req, answers, st) {
            OutcomeModel::Matched { state, values: _ } => open_asks(*second, req, answers, state),
            OutcomeModel::Pending { target: _, input: _ } => open_asks(*first, req, answers, st)
                + askers(*second),
            _ => 0,
        },
        FilterModel::Or(first, second) => match eval(*first, req, answers, st) {
            OutcomeModel::Rejected(_) => open_asks(*second, req, answers, st),
            OutcomeModel::Pending { target: _, input: _ } => open_asks(*first, req, answers, st)
                + askers(*second),
            _ => 0,
        },
        _ => if eval(f, req, answers, st) is Pending {
            1
        } else {
            0
        },
    }
}

/// No evaluation lacks more answers than the filter has matchers that may
/// ask; so a filter without such matchers never leaves an evaluation
/// pending.
pub proof fn law_open_asks_bounded(
    f: FilterModel,
    req: RequestModel,
    answers: Seq<DecodedModel>,
    st: State,
)
    ensures
        open_asks(f, req, answers, st) <= askers(f),
        eval(f, req, answers, st) is Pending ==> open_asks(f, req, answers, st) >= 1,
    decreases f,
{
    match f {
        FilterModel::NonZero { inner, otherwise } => {
            law_open_asks_bounded(*inner, req, answers, st);
        },
        FilterModel::And(first, second) => {
            law_open_asks_bounded(*first, req, answers, st);
            if let OutcomeModel::Matched { state, values } = eval(*first, req, answers, st) {
                law_open_asks_bounded(*second, req, answers, state);
            }
        },
        FilterModel::Or(first, second) => {
            law_open_asks_bounded(*first, req, answers, st);
            law_open_asks_bounded(*second, req, answers, st);
        },
        _ => {},
    }
}

/// An answer for a target and an input is found once it has been given.
pub proof fn lemma_answer_found(
    answers: Seq<DecodedModel>,
    given: DecodedModel,
    target: u64,
    input: Seq<u8>,
)
    requires
        given.target == target,
        given.input == input,
    ensures
        answer(answers.push(given), target, input) is Some,
    decreases answers.len(),
{
    let all = answers.push(given);
    if answers.len() == 0 {
        assert(all[0] == given);
    } else {
        assert(all[0] == answers[0]);
        if !(answers[0].target == target && answers[0].input == input) {
            lemma_answer_found(answers.skip(1), given, target, input);
            assert(all.skip(1) =~= answers.skip(1).push(given));
        }
    }
}

/// Each answer to what a pending evaluation asks brings the evaluation
/// closer to its end: with it, fewer answers are lacking.
pub proof fn law_answers_make_progress(
    f: FilterModel,
    req: RequestModel,
    answers: Seq<DecodedModel>,
    given: DecodedModel,
    st: State,
)
    requires
        eval(f, req, answers, st) matches OutcomeModel::Pending { target, input }
            && given.target == target && given.input == input,
    ensures
        open_asks(f, req, answers.push(given), st) < open_asks(f, req, answers, st),
    decreases f,
{
    let more = answers.push(given);
    assert(more =~= answers + seq![given]);
    let target = eval(f, req, answers, st)->Pending_target;
    let input = eval(f, req, answers, st)->Pending_input;
    lemma_answer_found(answers, given, target, input);
    match f {
        FilterModel::NonZero { inner, otherwise } => {
            law_answers_make_progress(*inner, req, answers, given, st);
        },
        FilterModel::And(first, second) => {
            let head = eval(*first, req, answers, st);
            law_open_asks_bounded(*first, req, answers, st);
            match head {
                OutcomeModel::Matched { state, values } => {
                    law_settled_outcomes_stay(*first, req, answers, seq![given], st);
                    law_answers_make_progress(*second, req, answers, given, state);
                },
                OutcomeModel::Pending { target: _, input: _ } => {
                    law_answers_make_progress(*first, req, answers, given, st);
                    if let OutcomeModel::Matched { state, values } = eval(*first, req, more, st) {
                        law_open_asks_bounded(*second, req, more, state);
                    }
                },
                _ => {},
            }
        },
        FilterModel::Or(first, second) => {
            let head = eval(*first, req, answers, st);
            law_open_asks_bounded(*first, req, answers, st);
            match head {
                OutcomeModel::Rejected(_) => {
                    law_settled_outcomes_stay(*first, req, answers, seq![given], st);
                    law_answers_make_progress(*second, req, answers, given, st);
                },
                OutcomeModel::Pending { target: _, input: _ } => {
                    law_answers_make_progress(*first, req, answers, given, st);
                    law_open_asks_bounded(*second, req, more, st);
                },
                _ => {},
            }
        },
        _ => {},
    }
}

/// An evaluation carried through with a decoder at hand: how it ended, and
/// the answers that the decoder gave on the way, in the order given.
#[derive(Debug)]
pub struct Settled {
    pub outcome: Outcome,
    pub answers: Vec<Decoded>,
}

impl Filter {
    /// The number of matchers in this filter that may ask the decoder, or
    /// `usize::MAX` where there are more than that.
    pub fn askers(&self) -> (n: usize)
        ensures
            n == capped(askers(self@)),
        decreases self,
    {
        match self {
            Filter::Param(Kind::Foreign { target: _ }) => 1,
            Filter::Header { name: _, kind: Kind::Foreign { target: _ } } => 1,
            Filter::BodyJson { target: _ } => 1,
            Filter::NonZero { inner, otherwise: _ } => inner.askers(),
            Filter::And(first, second) => capped_sum(first.askers(), second.askers()),
            Filter::Or(first, second) => capped_sum(first.askers(), second.askers()),
            _ => 0,
        }
    }

    /// Evaluates this filter on `req` from the start, asking `decode`
    /// whenever the evaluation is pending and going on with its answer.
    ///
    /// The outcome is that of the evaluation under the answers returned,
    /// each of which `decode` gave for what the evaluation asked at that
    /// point. The outcome is still pending only where `decode` answered for
    /// another target or input than it was asked for (or where the filter
    /// holds more matchers that may ask than a `usize` counts).
    pub fn settle<D: Fn(u64, Vec<u8>) -> Decoded>(&self, req: &Request, decode: D) -> (r: Settled)
        requires
            forall|target: u64, input: Vec<u8>| call_requires(decode, (target, input)),
        ensures
            r.outcome@ == eval(self@, req@, decoded_models(r.answers@), start()),
            forall|i: int|
                0 <= i < r.answers@.len() ==> asked(
                    self@,
                    req@,
                    decoded_models(r.answers@.take(i)),
                    decode,
                    #[trigger] r.answers@[i],
                ),
            r.outcome@ matches OutcomeModel::Pending { target, input } ==> askers(self@)
                > usize::MAX || misanswered(decode, target, input),
    {
        let mut answers: Vec<Decoded> = Vec::new();
        let mut outcome = self.evaluate(req, &answers);
        let mut rounds: usize = self.askers();
        proof {
            law_open_asks_bounded(self@, req@, decoded_models(answers@), start());
        }
        while rounds > 0
            invariant
                forall|target: u64, input: Vec<u8>| call_requires(decode, (target, input)),
                outcome@ == eval(self@, req@, decoded_models(answers@), start()),
                askers(self@) > usize::MAX || open_asks(
                    self@,
                    req@,
                    decoded_models(answers@),
                    start(),
                ) <= rounds,
                forall|i: int|
                    0 <= i < answers@.len() ==> asked(
                        self@,
                        req@,
                        decoded_models(answers@.take(i)),
                        decode,
                        #[trigger] answers@[i],
                    ),
            decreases rounds,
        {
            match outcome {
                Outcome::Pending { target, input } => {
                    let ghost before = answers@;
                    let ghost sent = input;
                    let wanted = copy_bytes(&input);
                    let given = decode(target, input);
                    if given.target != target || !same_bytes(&given.input, &wanted) {
                        assert(call_ensures(decode, (target, sent), given));
                        let outcome = Outcome::Pending { target, input: wanted };
                        return Settled { outcome, answers };
                    }
                    proof {
                        law_answers_make_progress(
                            self@,
                            req@,
                            decoded_models(before),
                            given@,
                            start(),
                        );
                    }
                    answers.push(given);
                    assert(decoded_models(answers@) =~= decoded_models(before).push(given@));
                    assert(answers@.take(before.len() as int) =~= before);
                    assert forall|i: int| 0 <= i < answers@.len() implies asked(
                        self@,
                        req@,
                        decoded_models(answers@.take(i)),
                        decode,
                        #[trigger] answers@[i],
                    ) by {
                        if i < before.len() {
                            assert(answers@.take(i) =~= before.take(i));
                            assert(answers@[i] == before[i]);
                        }
                    }
                    outcome = self.evaluate(req, &answers);
                },
                other => {
                    return Settled { outcome: other, answers };
                },
            }
            rounds = rounds - 1;
        }
        proof {
            law_open_asks_bounded(self@, req@, decoded_models(answers@), start());
        }
        Settled { outcome, answers }
    }
}

/// `decode` may answer the question for `target` and `input` with an answer
/// to another question.
pub open spec fn misanswered<D: Fn(u64, Vec<u8>) -> Decoded>(
    decode: D,
    target: u64,
    input: Seq<u8>,
) -> bool {
    exists|sent: Vec<u8>, given: Decoded|
        sent@ == input && #[trigger] call_ensures(decode, (target, sent), given) && !(given.target
            == target && given.input@ == input)
}

/// `given` is an answer of `decode` to what the evaluation of `f` on `req`
/// asks when it has the answers `sofar`: the evaluation is pending there,
/// `decode` may return `given` for the target and input that it asks, and
/// `given` is an answer for that target and input.
pub open spec fn asked<D: Fn(u64, Vec<u8>) -> Decoded>(
    f: FilterModel,
    req: RequestModel,
    sofar: Seq<DecodedModel>,
    decode: D,
    given: Decoded,
) -> bool {
    &&& eval(f, req, sofar, start()) matches OutcomeModel::Pending { target, input }
    &&& given.target == target
    &&& given.input@ == input
    &&& exists|sent: Vec<u8>| sent@ == input && call_ensures(decode, (target, sent), given)
}

} // verus!
