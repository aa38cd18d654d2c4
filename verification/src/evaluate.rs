//! The evaluation of filters on requests.

use crate::filter::Filter;
use crate::rejection::{merge, Rejection};
use crate::request::Request;
use crate::semantics::{eval, pass, read, start, typed, yields, Outcome, Read, State, Typed};
use crate::text::{copy_bytes, eq_ignore_case, joined, parse_decimal, rows, same_bytes};
use crate::value::{
    copy_rows, decoded_models, find_answer, value_models, Decoded, Kind, Value, ValueModel,
};
use vstd::prelude::*;

verus! {

/// A text read as a value of some kind.
pub enum TypedValue {
    Value(Value),
    Invalid,
    Unanswered { target: u64 },
}

impl View for TypedValue {
    type V = Typed;

    open spec fn view(&self) -> Typed {
        match self {
            TypedValue::Value(v) => Typed::Value(v@),
            TypedValue::Invalid => Typed::Invalid,
            TypedValue::Unanswered { target } => Typed::Unanswered { target: *target },
        }
    }
}

/// The body as a matcher reads it.
pub enum BodyRead {
    TooLarge,
    Cancelled,
    Whole(Vec<Vec<u8>>),
}

impl View for BodyRead {
    type V = Read;

    open spec fn view(&self) -> Read {
        match self {
            BodyRead::TooLarge => Read::TooLarge,
            BodyRead::Cancelled => Read::Cancelled,
            BodyRead::Whole(chunks) => Read::Whole(rows(chunks@)),
        }
    }
}

/// Joining the first rows of a sequence gives no more than joining them all.
pub proof fn lemma_joined_prefix(all: Seq<Seq<u8>>, n: int)
    requires
        0 <= n <= all.len(),
    ensures
        joined(all.take(n)).len() <= joined(all).len(),
    decreases all.len() - n,
{
    if n == all.len() {
        assert(all.take(n) =~= all);
    } else {
        lemma_joined_prefix(all, n + 1);
        assert(all.take(n + 1).drop_last() =~= all.take(n));
    }
}

/// Reads `text` as a value of `kind`.
pub fn parse_typed(kind: Kind, text: &Vec<u8>, answers: &Vec<Decoded>) -> (r: TypedValue)
    ensures
        r@ == typed(kind, text@, decoded_models(answers@)),
{
    match kind {
        Kind::U16 => match parse_decimal(text, 0xffff) {
            Some(n) => TypedValue::Value(Value::U16(n as u16)),
            None => TypedValue::Invalid,
        },
        Kind::U32 => match parse_decimal(text, 0xffff_ffff) {
            Some(n) => TypedValue::Value(Value::U32(n as u32)),
            None => TypedValue::Invalid,
        },
        Kind::U64 => match parse_decimal(text, 0xffff_ffff_ffff_ffff) {
            Some(n) => TypedValue::Value(Value::U64(n)),
            None => TypedValue::Invalid,
        },
        Kind::Text => TypedValue::Value(Value::Text(copy_bytes(text))),
        Kind::Foreign { target } => match find_answer(answers, target, text) {
            None => TypedValue::Unanswered { target },
            Some(d) => if d.failure.is_none() {
                TypedValue::Value(Value::Foreign { target, bytes: copy_bytes(text) })
            } else {
                TypedValue::Invalid
            },
        },
    }
}

/// All chunks joined end to end.
pub fn join(chunks: &Vec<Vec<u8>>) -> (r: Vec<u8>)
    ensures
        r@ == joined(rows(chunks@)),
{
    let ghost all = rows(chunks@);
    let mut out: Vec<u8> = Vec::new();
    let mut i: usize = 0;
    assert(all.take(0) =~= Seq::<Seq<u8>>::empty());
    while i < chunks.len()
        invariant
            i <= chunks.len(),
            all == rows(chunks@),
            out@ == joined(all.take(i as int)),
        decreases chunks.len() - i,
    {
        let chunk = &chunks[i];
        let ghost before = out@;
        let mut j: usize = 0;
        while j < chunk.len()
            invariant
                j <= chunk.len(),
                out@ == before + chunk@.take(j as int),
            decreases chunk.len() - j,
        {
            out.push(chunk[j]);
            assert(chunk@.take(j + 1) =~= chunk@.take(j as int).push(chunk@[j as int]));
            j += 1;
        }
        assert(chunk@.take(j as int) =~= chunk@);
        assert(all.take(i + 1).drop_last() =~= all.take(i as int));
        assert(all.take(i + 1).last() == chunk@);
        i += 1;
    }
    assert(all.take(i as int) =~= all);
    out
}

/// Reads the body of `req`, chunk by chunk, under the size guard in force.
/// The read stops at the first chunk that takes the total over the guard.
pub fn read_body(req: &Request, st: State) -> (r: BodyRead)
    ensures
        r@ == read(req@, st),
{
    if st.body_taken {
        let none: Vec<Vec<u8>> = Vec::new();
        assert(rows(none@) =~= Seq::<Seq<u8>>::empty());
        return BodyRead::Whole(none);
    }
    let ghost all = rows(req.chunks@);
    if let Some(limit) = st.limit {
        let mut total: u128 = 0;
        let mut i: usize = 0;
        assert(all.take(0) =~= Seq::<Seq<u8>>::empty());
        while i < req.chunks.len()
            invariant
                i <= req.chunks.len(),
                all == rows(req.chunks@),
                !st.body_taken,
                st.limit == Some(limit),
                total == joined(all.take(i as int)).len(),
                total <= limit,
            decreases req.chunks.len() - i,
        {
            assert(all.take(i + 1).drop_last() =~= all.take(i as int));
            assert(all.take(i + 1).last() == req.chunks[i as int]@);
            total = total + req.chunks[i].len() as u128;
            if total > limit as u128 {
                proof {
                    lemma_joined_prefix(all, i + 1);
                }
                return BodyRead::TooLarge;
            }
            i += 1;
        }
        assert(all.take(i as int) =~= all);
    }
    if req.aborted {
        BodyRead::Cancelled
    } else {
        BodyRead::Whole(copy_rows(&req.chunks))
    }
}

/// A match that extracts nothing.
fn matched_none(st: State) -> (out: Outcome)
    ensures
        out@ == pass(st),
{
    let values: Vec<Value> = Vec::new();
    assert(value_models(values@) =~= Seq::<ValueModel>::empty());
    Outcome::Matched { state: st, values }
}

/// A match that extracts one value.
fn matched_one(st: State, v: Value) -> (out: Outcome)
    ensures
        out@ == yields(st, v@),
{
    let mut values: Vec<Value> = Vec::new();
    values.push(v);
    assert(value_models(values@) =~= seq![v@]);
    Outcome::Matched { state: st, values }
}

impl Filter {
    /// Evaluates this filter on `req` from the state `st`, with the answers
    /// that the decoder has given so far.
    pub fn step(&self, req: &Request, answers: &Vec<Decoded>, st: State) -> (out: Outcome)
        ensures
            out@ == eval(self@, req@, decoded_models(answers@), st),
        decreases self,
    {
        match self {
            Filter::Any => matched_none(st),
            Filter::Method(expected) => {
                if req.method == *expected {
                    matched_none(st)
                } else {
                    Outcome::Rejected(Rejection::MethodNotAllowed)
                }
            },
            Filter::Path(literal) => {
                if st.cursor < req.segments.len() && same_bytes(
                    &req.segments[st.cursor],
                    literal,
                ) {
                    matched_none(State { cursor: st.cursor + 1, ..st })
                } else {
                    Outcome::Rejected(Rejection::NotFound)
                }
            },
            Filter::Param(kind) => {
                if st.cursor < req.segments.len() && req.segments[st.cursor].len() > 0 {
                    let segment = &req.segments[st.cursor];
                    match parse_typed(*kind, segment, answers) {
                        TypedValue::Value(v) => matched_one(
                            State { cursor: st.cursor + 1, ..st },
                            v,
                        ),
                        TypedValue::Invalid => Outcome::Rejected(Rejection::NotFound),
                        TypedValue::Unanswered { target } => Outcome::Pending {
                            target,
                            input: copy_bytes(segment),
                        },
                    }
                } else {
                    Outcome::Rejected(Rejection::NotFound)
                }
            },
            Filter::End => {
                if st.cursor >= req.segments.len() {
                    matched_none(st)
                } else {
                    Outcome::Rejected(Rejection::NotFound)
                }
            },
            Filter::Header { name, kind } => {
                match req.find_header(name) {
                    None => Outcome::Rejected(Rejection::MissingHeader { name: copy_bytes(name) }),
                    Some(text) => match parse_typed(*kind, text, answers) {
                        TypedValue::Value(v) => matched_one(st, v),
                        TypedValue::Invalid => Outcome::Rejected(
                            Rejection::InvalidHeader { name: copy_bytes(name) },
                        ),
                        TypedValue::Unanswered { target } => Outcome::Pending {
                            target,
                            input: copy_bytes(text),
                        },
                    },
                }
            },
            Filter::HeaderExact { name, expected, ignore_case } => {
                match req.find_header(name) {
                    None => Outcome::Rejected(Rejection::MissingHeader { name: copy_bytes(name) }),
                    Some(text) => {
                        let equal = if *ignore_case {
                            eq_ignore_case(text, expected)
                        } else {
                            same_bytes(text, expected)
                        };
                        if equal {
                            matched_none(st)
                        } else {
                            Outcome::Rejected(Rejection::InvalidHeader { name: copy_bytes(name) })
                        }
                    },
                }
            },
            Filter::HeaderValue { name } => {
                match req.find_header(name) {
                    None => Outcome::Rejected(Rejection::MissingHeader { name: copy_bytes(name) }),
                    Some(text) => matched_one(st, Value::Text(copy_bytes(text))),
                }
            },
            Filter::ContentLengthLimit(max) => {
                let over = match req.declared {
                    Some(d) => d > *max,
                    None => false,
                };
                if over {
                    Outcome::Rejected(Rejection::PayloadTooLarge)
                } else {
                    let limit = match st.limit {
                        Some(l) => if l < *max {
                            l
                        } else {
                            *max
                        },
                        None => *max,
                    };
                    matched_none(State { limit: Some(limit), ..st })
                }
            },
            Filter::BodyJson { target } => {
                match read_body(req, st) {
                    BodyRead::TooLarge => Outcome::Rejected(Rejection::PayloadTooLarge),
                    BodyRead::Cancelled => Outcome::Cancelled,
                    BodyRead::Whole(chunks) => {
                        let body = join(&chunks);
                        match find_answer(answers, *target, &body) {
                            None => Outcome::Pending { target: *target, input: body },
                            Some(d) => match &d.failure {
                                None => matched_one(
                                    State { body_taken: true, ..st },
                                    Value::Foreign { target: *target, bytes: body },
                                ),
                                Some(cause) => Outcome::Rejected(
                                    Rejection::BodyDeserializeError { cause: copy_bytes(cause) },
                                ),
                            },
                        }
                    },
                }
            },
            Filter::BodyBytes => {
                match read_body(req, st) {
                    BodyRead::TooLarge => Outcome::Rejected(Rejection::PayloadTooLarge),
                    BodyRead::Cancelled => Outcome::Cancelled,
                    BodyRead::Whole(chunks) => matched_one(
                        State { body_taken: true, ..st },
                        Value::Bytes(join(&chunks)),
                    ),
                }
            },
            Filter::BodyAggregate => {
                match read_body(req, st) {
                    BodyRead::TooLarge => Outcome::Rejected(Rejection::PayloadTooLarge),
                    BodyRead::Cancelled => Outcome::Cancelled,
                    BodyRead::Whole(chunks) => matched_one(
                        State { body_taken: true, ..st },
                        Value::Segments(chunks),
                    ),
                }
            },
            Filter::NonZero { inner, otherwise } => {
                let found = inner.step(req, answers, st);
                match found {
                    Outcome::Matched { state, values } => {
                        if values.len() == 1 && values[0].is_zero() {
                            Outcome::Rejected(Rejection::Custom { kind: *otherwise })
                        } else {
                            Outcome::Matched { state, values }
                        }
                    },
                    other => other,
                }
            },
            Filter::And(first, second) => {
                match first.step(req, answers, st) {
                    Outcome::Matched { state: middle, values: head } => {
                        match second.step(req, answers, middle) {
                            Outcome::Matched { state, values: tail } => {
                                let mut values = head;
                                let mut rest = tail;
                                values.append(&mut rest);
                                assert(value_models(values@) =~= value_models(head@)
                                    + value_models(tail@));
                                Outcome::Matched { state, values }
                            },
                            other => other,
                        }
                    },
                    other => other,
                }
            },
            Filter::Or(first, second) => {
                match first.step(req, answers, st) {
                    Outcome::Rejected(r1) => {
                        match second.step(req, answers, st) {
                            Outcome::Rejected(r2) => Outcome::Rejected(merge(r1, r2)),
                            other => other,
                        }
                    },
                    other => other,
                }
            },
        }
    }

    /// Evaluates this filter on `req` from the start: nothing consumed, no
    /// size guard, the body unread.
    pub fn evaluate(&self, req: &Request, answers: &Vec<Decoded>) -> (out: Outcome)
        ensures
            out@ == eval(self@, req@, decoded_models(answers@), start()),
    {
        self.step(req, answers, State::start())
    }
}


} // verus!
