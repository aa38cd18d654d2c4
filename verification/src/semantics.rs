//! What each filter means: a function from a request, the decoder's answers
//! and the state that earlier matchers left, to an outcome.

use crate::filter::FilterModel;
use crate::rejection::{merged, Rejection, RejectionModel};
use crate::request::{header_value, Method, RequestModel};
use crate::text::{decimal, joined, same_ignoring_case};
use crate::value::{answer, value_models, DecodedModel, Kind, Value, ValueModel};
use vstd::prelude::*;

verus! {

/// What the matchers evaluated so far have consumed and set up.
///
/// `cursor` counts the path segments consumed. `limit` is the size guard in
/// force, if one is. `body_taken` says that a matcher has read the body.
#[derive(Clone, Copy, Debug, PartialEq, Eq)]
pub struct State {
    pub cursor: usize,
    pub limit: Option<u64>,
    pub body_taken: bool,
}

/// How the evaluation of a filter ends.
#[derive(Debug)]
pub enum Outcome {
    /// The filter matched: the state it leaves and what it extracted.
    Matched { state: State, values: Vec<Value> },
    /// The filter did not match.
    Rejected(Rejection),
    /// The evaluation cannot go on before the decoder has said whether
    /// `input` reads as a value of the type that `target` names.
    Pending { target: u64, input: Vec<u8> },
    /// The body stream broke off while a matcher read it.
    Cancelled,
}

/// An outcome as a mathematical value.
pub ghost enum OutcomeModel {
    Matched { state: State, values: Seq<ValueModel> },
    Rejected(RejectionModel),
    Pending { target: u64, input: Seq<u8> },
    Cancelled,
}

impl View for Outcome {
    type V = OutcomeModel;

    open spec fn view(&self) -> OutcomeModel {
        match self {
            Outcome::Matched { state, values } => OutcomeModel::Matched {
                state: *state,
                values: value_models(values@),
            },
            Outcome::Rejected(r) => OutcomeModel::Rejected(r@),
            Outcome::Pending { target, input } => OutcomeModel::Pending {
                target: *target,
                input: input@,
            },
            Outcome::Cancelled => OutcomeModel::Cancelled,
        }
    }
}

/// The state in which the evaluation of a route starts: nothing consumed,
/// no size guard, the body unread.
pub open spec fn start() -> State {
    State { cursor: 0, limit: None, body_taken: false }
}

impl State {
    /// The state in which the evaluation of a route starts.
    pub fn start() -> (st: State)
        ensures
            st == start(),
    {
        State { cursor: 0, limit: None, body_taken: false }
    }
}

/// A match that leaves the state as it found it and extracts nothing.
pub open spec fn pass(st: State) -> OutcomeModel {
    OutcomeModel::Matched { state: st, values: Seq::<ValueModel>::empty() }
}

/// A match that leaves the state as it found it and extracts one value.
pub open spec fn yields(st: State, v: ValueModel) -> OutcomeModel {
    OutcomeModel::Matched { state: st, values: seq![v] }
}

/// What reading a text as a value of some kind comes to.
pub ghost enum Typed {
    /// The text reads as this value.
    Value(ValueModel),
    /// The text does not read as a value of the kind.
    Invalid,
    /// Only the decoder can tell, and it has not yet answered.
    Unanswered { target: u64 },
}

/// Reads `text` as a value of `kind`. The integers are unsigned decimal
/// numbers within the range of their type; every text is a `Text`; for a
/// foreign type the decoder's answer decides.
pub open spec fn typed(kind: Kind, text: Seq<u8>, answers: Seq<DecodedModel>) -> Typed {
    match kind {
        Kind::U16 => match decimal(text, 0xffff) {
            Some(n) => Typed::Value(ValueModel::U16(n as u16)),
            None => Typed::Invalid,
        },
        Kind::U32 => match decimal(text, 0xffff_ffff) {
            Some(n) => Typed::Value(ValueModel::U32(n as u32)),
            None => Typed::Invalid,
        },
        Kind::U64 => match decimal(text, 0xffff_ffff_ffff_ffff) {
            Some(n) => Typed::Value(ValueModel::U64(n as u64)),
            None => Typed::Invalid,
        },
        Kind::Text => Typed::Value(ValueModel::Text(text)),
        Kind::Foreign { target } => match answer(answers, target, text) {
            None => Typed::Unanswered { target },
            Some(d) => if d.failure is None {
                Typed::Value(ValueModel::Foreign { target, bytes: text })
            } else {
                Typed::Invalid
            },
        },
    }
}

/// The method matcher.
pub open spec fn eval_method(expected: Method, req: RequestModel, st: State) -> OutcomeModel {
    if req.method == expected {
        pass(st)
    } else {
        OutcomeModel::Rejected(RejectionModel::MethodNotAllowed)
    }
}

/// The state after one more path segment has been consumed.
pub open spec fn advanced(st: State) -> State {
    State { cursor: (st.cursor + 1) as usize, ..st }
}

/// The path-segment matcher: the next segment must equal the literal.
pub open spec fn eval_path(literal: Seq<u8>, req: RequestModel, st: State) -> OutcomeModel {
    if st.cursor < req.segments.len() && req.segments[st.cursor as int] == literal {
        pass(advanced(st))
    } else {
        OutcomeModel::Rejected(RejectionModel::NotFound)
    }
}

/// The path-parameter matcher: the next segment must not be empty and must
/// read as a value of the kind.
pub open spec fn eval_param(
    kind: Kind,
    req: RequestModel,
    answers: Seq<DecodedModel>,
    st: State,
) -> OutcomeModel {
    if st.cursor < req.segments.len() && req.segments[st.cursor as int].len() > 0 {
        let segment = req.segments[st.cursor as int];
        match typed(kind, segment, answers) {
            Typed::Value(v) => yields(advanced(st), v),
            Typed::Invalid => OutcomeModel::Rejected(RejectionModel::NotFound),
            Typed::Unanswered { target } => OutcomeModel::Pending { target, input: segment },
        }
    } else {
        OutcomeModel::Rejected(RejectionModel::NotFound)
    }
}

/// The path-end matcher.
pub open spec fn eval_end(req: RequestModel, st: State) -> OutcomeModel {
    if st.cursor >= req.segments.len() {
        pass(st)
    } else {
        OutcomeModel::Rejected(RejectionModel::NotFound)
    }
}

/// The typed header matcher.
pub open spec fn eval_header(
    name: Seq<u8>,
    kind: Kind,
    req: RequestModel,
    answers: Seq<DecodedModel>,
    st: State,
) -> OutcomeModel {
    match header_value(req.headers, name) {
        None => OutcomeModel::Rejected(RejectionModel::MissingHeader { name }),
        Some(text) => match typed(kind, text, answers) {
            Typed::Value(v) => yields(st, v),
            Typed::Invalid => OutcomeModel::Rejected(RejectionModel::InvalidHeader { name }),
            Typed::Unanswered { target } => OutcomeModel::Pending { target, input: text },
        },
    }
}

/// The exact header matcher.
pub open spec fn eval_header_exact(
    name: Seq<u8>,
    expected: Seq<u8>,
    ignore_case: bool,
    req: RequestModel,
    st: State,
) -> OutcomeModel {
    match header_value(req.headers, name) {
        None => OutcomeModel::Rejected(RejectionModel::MissingHeader { name }),
        Some(text) => if (ignore_case && same_ignoring_case(text, expected)) || (!ignore_case
            && text == expected) {
            pass(st)
        } else {
            OutcomeModel::Rejected(RejectionModel::InvalidHeader { name })
        },
    }
}

/// The raw header matcher.
pub open spec fn eval_header_value(name: Seq<u8>, req: RequestModel, st: State) -> OutcomeModel {
    match header_value(req.headers, name) {
        None => OutcomeModel::Rejected(RejectionModel::MissingHeader { name }),
        Some(text) => yields(st, ValueModel::Text(text)),
    }
}

/// The size guard in force once a guard of `max` bytes is added to `limit`.
pub open spec fn tightened(limit: Option<u64>, max: u64) -> Option<u64> {
    match limit {
        Some(l) => if l < max {
            Some(l)
        } else {
            Some(max)
        },
        None => Some(max),
    }
}

/// The size guard: a declared length over `max` is rejected at once; else
/// the guard is in force for the matchers that follow.
pub open spec fn eval_limit(max: u64, req: RequestModel, st: State) -> OutcomeModel {
    match req.declared {
        Some(d) => if d > max {
            OutcomeModel::Rejected(RejectionModel::PayloadTooLarge)
        } else {
            pass(State { limit: tightened(st.limit, max), ..st })
        },
        None => pass(State { limit: tightened(st.limit, max), ..st }),
    }
}

/// What reading the body comes to.
pub ghost enum Read {
    /// The body is larger than the size guard in force allows.
    TooLarge,
    /// The stream broke off before the end of the body.
    Cancelled,
    /// The whole body, in chunks.
    Whole(Seq<Seq<u8>>),
}

/// Reads the body. A body that has been taken has nothing left in it. A
/// body larger than the guard in force is refused, whether or not the stream
/// later breaks off; a stream that breaks off cancels the read.
pub open spec fn read(req: RequestModel, st: State) -> Read {
    if st.body_taken {
        Read::Whole(Seq::<Seq<u8>>::empty())
    } else if st.limit is Some && joined(req.chunks).len() > st.limit->0 {
        Read::TooLarge
    } else if req.aborted {
        Read::Cancelled
    } else {
        Read::Whole(req.chunks)
    }
}

/// The state after a matcher has read the body.
pub open spec fn taken(st: State) -> State {
    State { body_taken: true, ..st }
}

/// The matcher that extracts the body as bytes.
pub open spec fn eval_bytes(req: RequestModel, st: State) -> OutcomeModel {
    match read(req, st) {
        Read::TooLarge => OutcomeModel::Rejected(RejectionModel::PayloadTooLarge),
        Read::Cancelled => OutcomeModel::Cancelled,
        Read::Whole(chunks) => yields(taken(st), ValueModel::Bytes(joined(chunks))),
    }
}

/// The matcher that extracts the body in chunks.
pub open spec fn eval_aggregate(req: RequestModel, st: State) -> OutcomeModel {
    match read(req, st) {
        Read::TooLarge => OutcomeModel::Rejected(RejectionModel::PayloadTooLarge),
        Read::Cancelled => OutcomeModel::Cancelled,
        Read::Whole(chunks) => yields(taken(st), ValueModel::Segments(chunks)),
    }
}

/// What the decoder's answer on a body makes of the body matcher.
pub open spec fn decoded_outcome(
    target: u64,
    body: Seq<u8>,
    found: Option<DecodedModel>,
    st: State,
) -> OutcomeModel {
    match found {
        None => OutcomeModel::Pending { target, input: body },
        Some(d) => match d.failure {
            None => yields(taken(st), ValueModel::Foreign { target, bytes: body }),
            Some(cause) => OutcomeModel::Rejected(RejectionModel::BodyDeserializeError { cause }),
        },
    }
}

/// The matcher that has the body decoded.
pub open spec fn eval_json(
    target: u64,
    req: RequestModel,
    answers: Seq<DecodedModel>,
    st: State,
) -> OutcomeModel {
    match read(req, st) {
        Read::TooLarge => OutcomeModel::Rejected(RejectionModel::PayloadTooLarge),
        Read::Cancelled => OutcomeModel::Cancelled,
        Read::Whole(chunks) => decoded_outcome(
            target,
            joined(chunks),
            answer(answers, target, joined(chunks)),
            st,
        ),
    }
}

/// What the zero check makes of the outcome of the filter it guards.
pub open spec fn checked_non_zero(inner: OutcomeModel, otherwise: u64) -> OutcomeModel {
    match inner {
        OutcomeModel::Matched { state, values } => if values.len() == 1 && values[0].is_zero() {
            OutcomeModel::Rejected(RejectionModel::Custom { kind: otherwise })
        } else {
            inner
        },
        _ => inner,
    }
}

/// What a conjunction makes of the outcomes of its operands, the second
/// evaluated in the state that the first left.
pub open spec fn conjoined(first: OutcomeModel, second: OutcomeModel) -> OutcomeModel {
    match first {
        OutcomeModel::Matched { state: _, values: head } => match second {
            OutcomeModel::Matched { state, values: tail } => OutcomeModel::Matched {
                state,
                values: head + tail,
            },
            _ => second,
        },
        _ => first,
    }
}

/// What an alternation makes of the outcomes of its operands, the second
/// evaluated in the state in which the first started.
pub open spec fn alternated(first: OutcomeModel, second: OutcomeModel) -> OutcomeModel {
    match first {
        OutcomeModel::Rejected(r1) => match second {
            OutcomeModel::Rejected(r2) => OutcomeModel::Rejected(merged(r1, r2)),
            _ => second,
        },
        _ => first,
    }
}

/// The outcome of evaluating `f` on `req` from the state `st`, given the
/// answers that the decoder has given so far.
pub open spec fn eval(
    f: FilterModel,
    req: RequestModel,
    answers: Seq<DecodedModel>,
    st: State,
) -> OutcomeModel
    decreases f,
{
    match f {
        FilterModel::Any => pass(st),
        FilterModel::Method(m) => eval_method(m, req, st),
        FilterModel::Path(literal) => eval_path(literal, req, st),
        FilterModel::Param(kind) => eval_param(kind, req, answers, st),
        FilterModel::End => eval_end(req, st),
        FilterModel::Header { name, kind } => eval_header(name, kind, req, answers, st),
        FilterModel::HeaderExact { name, expected, ignore_case } => eval_header_exact(
            name,
            expected,
            ignore_case,
            req,
            st,
        ),
        FilterModel::HeaderValue { name } => eval_header_value(name, req, st),
        FilterModel::ContentLengthLimit(max) => eval_limit(max, req, st),
        FilterModel::BodyJson { target } => eval_json(target, req, answers, st),
        FilterModel::BodyBytes => eval_bytes(req, st),
        FilterModel::BodyAggregate => eval_aggregate(req, st),
        FilterModel::NonZero { inner, otherwise } => checked_non_zero(
            eval(*inner, req, answers, st),
            otherwise,
        ),
        FilterModel::And(first, second) => {
            let head = eval(*first, req, answers, st);
            match head {
                OutcomeModel::Matched { state, values: _ } => conjoined(
                    head,
                    eval(*second, req, answers, state),
                ),
                _ => head,
            }
        },
        FilterModel::Or(first, second) => {
            let head = eval(*first, req, answers, st);
            match head {
                OutcomeModel::Rejected(_) => alternated(head, eval(*second, req, answers, st)),
                _ => head,
            }
        },
    }
}

} // verus!
