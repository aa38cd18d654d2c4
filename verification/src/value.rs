//! Extracted values, and the answers of the decoding collaborator.

use crate::text::{copy_bytes, rows, same_bytes};
use vstd::prelude::*;

verus! {

/// The types that a path segment or a header value can be read as.
///
/// `Foreign` names a type that only the application can read; `target` tells
/// such types apart.
#[derive(Clone, Copy, Debug, PartialEq, Eq)]
pub enum Kind {
    U16,
    U32,
    U64,
    Text,
    Foreign { target: u64 },
}

/// One extracted value.
#[derive(Debug, PartialEq, Eq)]
pub enum Value {
    U16(u16),
    U32(u32),
    U64(u64),
    /// A path segment or a header value, as it stood in the request.
    Text(Vec<u8>),
    /// Bytes that the application's decoder accepts as a value of the type
    /// that `target` names.
    Foreign { target: u64, bytes: Vec<u8> },
    /// The whole body.
    Bytes(Vec<u8>),
    /// The whole body, in the chunks in which it arrived.
    Segments(Vec<Vec<u8>>),
}

/// An extracted value as a mathematical value.
pub ghost enum ValueModel {
    U16(u16),
    U32(u32),
    U64(u64),
    Text(Seq<u8>),
    Foreign { target: u64, bytes: Seq<u8> },
    Bytes(Seq<u8>),
    Segments(Seq<Seq<u8>>),
}

impl View for Value {
    type V = ValueModel;

    open spec fn view(&self) -> ValueModel {
        match self {
            Value::U16(n) => ValueModel::U16(*n),
            Value::U32(n) => ValueModel::U32(*n),
            Value::U64(n) => ValueModel::U64(*n),
            Value::Text(t) => ValueModel::Text(t@),
            Value::Foreign { target, bytes } => ValueModel::Foreign {
                target: *target,
                bytes: bytes@,
            },
            Value::Bytes(b) => ValueModel::Bytes(b@),
            Value::Segments(s) => ValueModel::Segments(rows(s@)),
        }
    }
}

impl ValueModel {
    /// The value is an integer and that integer is zero.
    pub open spec fn is_zero(self) -> bool {
        match self {
            ValueModel::U16(n) => n == 0,
            ValueModel::U32(n) => n == 0,
            ValueModel::U64(n) => n == 0,
            _ => false,
        }
    }
}

impl Value {
    /// Whether the value is an integer equal to zero.
    pub fn is_zero(&self) -> (r: bool)
        ensures
            r == self@.is_zero(),
    {
        match self {
            Value::U16(n) => *n == 0,
            Value::U32(n) => *n == 0,
            Value::U64(n) => *n == 0,
            _ => false,
        }
    }
}

/// The extraction that a vector of values holds.
pub open spec fn value_models(values: Seq<Value>) -> Seq<ValueModel> {
    Seq::new(values.len(), |i: int| values[i]@)
}

/// One answer of the decoding collaborator: whether `input` reads as a value
/// of the type that `target` names, and if not, the decoder's diagnostic.
#[derive(Debug)]
pub struct Decoded {
    pub target: u64,
    pub input: Vec<u8>,
    pub failure: Option<Vec<u8>>,
}

/// An answer as a mathematical value.
pub ghost struct DecodedModel {
    pub target: u64,
    pub input: Seq<u8>,
    pub failure: Option<Seq<u8>>,
}

impl View for Decoded {
    type V = DecodedModel;

    open spec fn view(&self) -> DecodedModel {
        DecodedModel {
            target: self.target,
            input: self.input@,
            failure: match self.failure {
                Some(cause) => Some(cause@),
                None => None,
            },
        }
    }
}

/// The answers that a vector of answers holds.
pub open spec fn decoded_models(answers: Seq<Decoded>) -> Seq<DecodedModel> {
    Seq::new(answers.len(), |i: int| answers[i]@)
}

/// The first answer given for `target` and `input`, if there is one.
pub open spec fn answer(answers: Seq<DecodedModel>, target: u64, input: Seq<u8>) -> Option<
    DecodedModel,
>
    decreases answers.len(),
{
    if answers.len() == 0 {
        None
    } else if answers[0].target == target && answers[0].input == input {
        Some(answers[0])
    } else {
        answer(answers.skip(1), target, input)
    }
}

impl Decoded {
    /// The answer that `input` reads as a value of the type `target`.
    pub fn accepted(target: u64, input: Vec<u8>) -> (r: Decoded)
        ensures
            r@ == (DecodedModel { target, input: input@, failure: None }),
    {
        Decoded { target, input, failure: None }
    }

    /// The answer that `input` does not read as a value of the type
    /// `target`, with the decoder's diagnostic.
    pub fn refused(target: u64, input: Vec<u8>, cause: Vec<u8>) -> (r: Decoded)
        ensures
            r@ == (DecodedModel { target, input: input@, failure: Some(cause@) }),
    {
        Decoded { target, input, failure: Some(cause) }
    }
}

/// Looks up the first answer given for `target` and `input`.
pub fn find_answer<'a>(answers: &'a Vec<Decoded>, target: u64, input: &Vec<u8>) -> (r: Option<
    &'a Decoded,
>)
    ensures
        r matches Some(d) ==> answer(decoded_models(answers@), target, input@) == Some(d@),
        r is None ==> answer(decoded_models(answers@), target, input@) is None,
{
    let ghost all = decoded_models(answers@);
    let mut i: usize = 0;
    assert(all.skip(0) =~= all);
    while i < answers.len()
        invariant
            i <= answers.len(),
            all == decoded_models(answers@),
            answer(all, target, input@) == answer(all.skip(i as int), target, input@),
        decreases answers.len() - i,
    {
        let ghost rest = all.skip(i as int);
        assert(rest[0] == answers[i as int]@);
        assert(rest.skip(1) =~= all.skip(i + 1));
        if answers[i].target == target && same_bytes(&answers[i].input, input) {
            return Some(&answers[i]);
        }
        i += 1;
    }
    None
}

/// A copy of a vector of byte vectors.
pub fn copy_rows(v: &Vec<Vec<u8>>) -> (r: Vec<Vec<u8>>)
    ensures
        rows(r@) == rows(v@),
{
    let mut out: Vec<Vec<u8>> = Vec::new();
    let mut i: usize = 0;
    while i < v.len()
        invariant
            i <= v.len(),
            out.len() == i,
            forall|k: int| 0 <= k < i ==> out@[k]@ == v@[k]@,
        decreases v.len() - i,
    {
        out.push(copy_bytes(&v[i]));
        i += 1;
    }
    assert(rows(out@) =~= rows(v@));
    out
}

} // verus!
