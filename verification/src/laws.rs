//! Laws of the combinators and of the size guard, proved of the semantics.

use crate::filter::FilterModel;
use crate::rejection::{merged, RejectionModel};
use crate::request::{header_value, RequestModel};
use crate::semantics::{
    decoded_outcome, eval, read, start, taken, typed, yields, OutcomeModel, Read, State,
};
use crate::text::joined;
use crate::value::{answer, DecodedModel, Kind, ValueModel};
use vstd::prelude::*;

verus! {

/// Conjunction has the filter that always matches as its identity, on
/// either side: `AND(f, any)` and `AND(any, f)` evaluate as `f` does, on
/// every request and from every state.
pub proof fn law_and_identity(
    f: FilterModel,
    req: RequestModel,
    answers: Seq<DecodedModel>,
    st: State,
)
    ensures
        eval(FilterModel::And(Box::new(f), Box::new(FilterModel::Any)), req, answers, st) == eval(
            f,
            req,
            answers,
            st,
        ),
        eval(FilterModel::And(Box::new(FilterModel::Any), Box::new(f)), req, answers, st) == eval(
            f,
            req,
            answers,
            st,
        ),
{
    reveal_with_fuel(eval, 3);
    let direct = eval(f, req, answers, st);
    match direct {
        OutcomeModel::Matched { state, values } => {
            assert(values + Seq::<ValueModel>::empty() =~= values);
            assert(Seq::<ValueModel>::empty() + values =~= values);
        },
        _ => {},
    }
}

/// Conjunction is associative: however a chain is bracketed, it evaluates
/// to the same outcome.
pub proof fn law_and_associative(
    a: FilterModel,
    b: FilterModel,
    c: FilterModel,
    req: RequestModel,
    answers: Seq<DecodedModel>,
    st: State,
)
    ensures
        eval(
            FilterModel::And(Box::new(FilterModel::And(Box::new(a), Box::new(b))), Box::new(c)),
            req,
            answers,
            st,
        ) == eval(
            FilterModel::And(Box::new(a), Box::new(FilterModel::And(Box::new(b), Box::new(c)))),
            req,
            answers,
            st,
        ),
{
    reveal_with_fuel(eval, 3);
    let ra = eval(a, req, answers, st);
    if let OutcomeModel::Matched { state: sa, values: va } = ra {
        let rb = eval(b, req, answers, sa);
        if let OutcomeModel::Matched { state: sb, values: vb } = rb {
            let rc = eval(c, req, answers, sb);
            if let OutcomeModel::Matched { state: sc, values: vc } = rc {
                assert((va + vb) + vc =~= va + (vb + vc));
            }
        }
    }
}

/// Conjunction short-circuits: where the first operand does not match, the
/// conjunction ends as the first operand does, whatever the second operand
/// is; the second operand has no part in the outcome.
pub proof fn law_and_short_circuits(
    first: FilterModel,
    second: FilterModel,
    req: RequestModel,
    answers: Seq<DecodedModel>,
    st: State,
)
    requires
        !(eval(first, req, answers, st) is Matched),
    ensures
        eval(FilterModel::And(Box::new(first), Box::new(second)), req, answers, st) == eval(
            first,
            req,
            answers,
            st,
        ),
{
    reveal_with_fuel(eval, 3);
}

/// Where both operands of a conjunction match, the second is evaluated in
/// the state that the first left, and the extractions are concatenated in
/// that order.
pub proof fn law_and_concatenates(
    first: FilterModel,
    second: FilterModel,
    req: RequestModel,
    answers: Seq<DecodedModel>,
    st: State,
)
    requires
        eval(first, req, answers, st) is Matched,
        eval(second, req, answers, eval(first, req, answers, st)->Matched_state) is Matched,
    ensures
        ({
            let head = eval(first, req, answers, st);
            let tail = eval(second, req, answers, head->Matched_state);
            let both = eval(
                FilterModel::And(Box::new(first), Box::new(second)),
                req,
                answers,
                st,
            );
            &&& both is Matched
            &&& both->Matched_state == tail->Matched_state
            &&& both->Matched_values == head->Matched_values + tail->Matched_values
            &&& both->Matched_values.len() == head->Matched_values.len()
                + tail->Matched_values.len()
        }),
{
    reveal_with_fuel(eval, 3);
}

/// Alternation short-circuits: where the first operand does anything but
/// reject, the alternation ends as the first operand does, whatever the
/// second operand is.
pub proof fn law_or_short_circuits(
    first: FilterModel,
    second: FilterModel,
    req: RequestModel,
    answers: Seq<DecodedModel>,
    st: State,
)
    requires
        !(eval(first, req, answers, st) is Rejected),
    ensures
        eval(FilterModel::Or(Box::new(first), Box::new(second)), req, answers, st) == eval(
            first,
            req,
            answers,
            st,
        ),
{
    reveal_with_fuel(eval, 3);
}

/// Where the first operand of an alternation rejects, the second is
/// evaluated in the state in which the first started; where it rejects too,
/// the alternation rejects with the merged rejection, and else it ends as
/// the second operand does.
pub proof fn law_or_falls_back(
    first: FilterModel,
    second: FilterModel,
    req: RequestModel,
    answers: Seq<DecodedModel>,
    st: State,
)
    requires
        eval(first, req, answers, st) is Rejected,
    ensures
        ({
            let r1 = eval(first, req, answers, st);
            let r2 = eval(second, req, answers, st);
            let either = eval(
                FilterModel::Or(Box::new(first), Box::new(second)),
                req,
                answers,
                st,
            );
            if r2 is Rejected {
                either == OutcomeModel::Rejected(merged(r1->Rejected_0, r2->Rejected_0))
            } else {
                either == r2
            }
        }),
{
    reveal_with_fuel(eval, 3);
}

/// The body matchers: the three filters that read the body.
pub open spec fn reads_body(f: FilterModel) -> bool {
    f is BodyBytes || f is BodyAggregate || f is BodyJson
}

/// A size guard of `max` bytes before a body matcher rejects every body of
/// more than `max` bytes with `PayloadTooLarge`, whatever length the request
/// declares and whether or not the stream breaks off.
pub proof fn law_guard_rejects_larger(
    max: u64,
    body: FilterModel,
    req: RequestModel,
    answers: Seq<DecodedModel>,
)
    requires
        reads_body(body),
        joined(req.chunks).len() > max,
    ensures
        eval(
            FilterModel::And(Box::new(FilterModel::ContentLengthLimit(max)), Box::new(body)),
            req,
            answers,
            start(),
        ) == OutcomeModel::Rejected(RejectionModel::PayloadTooLarge),
{
    reveal_with_fuel(eval, 3);
}

/// A size guard of `max` bytes before a body matcher accepts every complete
/// body of at most `max` bytes, one of exactly `max` bytes included, unless
/// the request declares a length over `max`: the matcher gets the whole
/// body, and the guard rejects nothing.
pub proof fn law_guard_accepts_up_to_limit(
    max: u64,
    body: FilterModel,
    req: RequestModel,
    answers: Seq<DecodedModel>,
)
    requires
        reads_body(body),
        joined(req.chunks).len() <= max,
        req.declared matches Some(d) ==> d <= max,
        !req.aborted,
    ensures
        ({
            let guarded = State { limit: Some(max), ..start() };
            let outcome = eval(
                FilterModel::And(Box::new(FilterModel::ContentLengthLimit(max)), Box::new(body)),
                req,
                answers,
                start(),
            );
            &&& read(req, guarded) == Read::Whole(req.chunks)
            &&& outcome != OutcomeModel::Rejected(RejectionModel::PayloadTooLarge)
            &&& body is BodyBytes ==> outcome == yields(
                taken(guarded),
                ValueModel::Bytes(joined(req.chunks)),
            )
            &&& body is BodyAggregate ==> outcome == yields(
                taken(guarded),
                ValueModel::Segments(req.chunks),
            )
            &&& body matches FilterModel::BodyJson { target } ==> outcome == decoded_outcome(
                target,
                joined(req.chunks),
                answer(answers, target, joined(req.chunks)),
                guarded,
            )
        }),
{
    reveal_with_fuel(eval, 3);
    assert forall|v: ValueModel| Seq::<ValueModel>::empty() + seq![v] == seq![v] by {
        assert(Seq::<ValueModel>::empty() + seq![v] =~= seq![v]);
    }
}

/// A size guard rejects a request that declares more than `max` bytes
/// without looking at the body: the outcome is the same whatever the body
/// holds and whether or not its stream breaks off.
pub proof fn law_guard_rejects_declared(
    max: u64,
    next: FilterModel,
    req: RequestModel,
    answers: Seq<DecodedModel>,
    st: State,
)
    requires
        req.declared is Some,
        req.declared->0 > max,
    ensures
        eval(
            FilterModel::And(Box::new(FilterModel::ContentLengthLimit(max)), Box::new(next)),
            req,
            answers,
            st,
        ) == OutcomeModel::Rejected(RejectionModel::PayloadTooLarge),
{
    reveal_with_fuel(eval, 3);
}

/// An answer that is there stays the first when more answers follow.
pub proof fn lemma_answer_stays(
    answers: Seq<DecodedModel>,
    more: Seq<DecodedModel>,
    target: u64,
    input: Seq<u8>,
)
    requires
        answer(answers, target, input) is Some,
    ensures
        answer(answers + more, target, input) == answer(answers, target, input),
    decreases answers.len(),
{
    if answers.len() > 0 {
        assert((answers + more)[0] == answers[0]);
        if !(answers[0].target == target && answers[0].input == input) {
            lemma_answer_stays(answers.skip(1), more, target, input);
            assert((answers + more).skip(1) =~= answers.skip(1) + more);
        }
    }
}

/// Answers given later change nothing that was settled: an evaluation that
/// did not end pending ends the same way when more answers follow those it
/// had.
pub proof fn law_settled_outcomes_stay(
    f: FilterModel,
    req: RequestModel,
    answers: Seq<DecodedModel>,
    more: Seq<DecodedModel>,
    st: State,
)
    requires
        !(eval(f, req, answers, st) is Pending),
    ensures
        eval(f, req, answers + more, st) == eval(f, req, answers, st),
    decreases f,
{
    match f {
        FilterModel::Param(kind) => {
            if st.cursor < req.segments.len() && req.segments[st.cursor as int].len() > 0 {
                lemma_typed_stays(kind, req.segments[st.cursor as int], answers, more);
            }
        },
        FilterModel::Header { name, kind } => {
            if let Some(text) = header_value(req.headers, name) {
                lemma_typed_stays(kind, text, answers, more);
            }
        },
        FilterModel::BodyJson { target } => {
            if let Read::Whole(chunks) = read(req, st) {
                if answer(answers, target, joined(chunks)) is Some {
                    lemma_answer_stays(answers, more, target, joined(chunks));
                }
            }
        },
        FilterModel::NonZero { inner, otherwise } => {
            law_settled_outcomes_stay(*inner, req, answers, more, st);
        },
        FilterModel::And(first, second) => {
            law_settled_outcomes_stay(*first, req, answers, more, st);
            if let OutcomeModel::Matched { state, values } = eval(*first, req, answers, st) {
                law_settled_outcomes_stay(*second, req, answers, more, state);
            }
        },
        FilterModel::Or(first, second) => {
            law_settled_outcomes_stay(*first, req, answers, more, st);
            if eval(*first, req, answers, st) is Rejected {
                law_settled_outcomes_stay(*second, req, answers, more, st);
            }
        },
        _ => {},
    }
}

/// A text that read as a value, or as none, of a kind reads the same when
/// more answers follow.
pub proof fn lemma_typed_stays(
    kind: Kind,
    text: Seq<u8>,
    answers: Seq<DecodedModel>,
    more: Seq<DecodedModel>,
)
    requires
        !(typed(kind, text, answers) is Unanswered),
    ensures
        typed(kind, text, answers + more) == typed(kind, text, answers),
{
    if let Kind::Foreign { target } = kind {
        lemma_answer_stays(answers, more, target, text);
    }
}

} // verus!
