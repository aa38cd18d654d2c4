//! Rejections: the ranked failures that matchers produce.

use crate::text::copy_bytes;
use vstd::prelude::*;

verus! {

/// Why a filter did not match a request.
#[derive(Debug, PartialEq, Eq)]
pub enum Rejection {
    /// No route matches the path.
    NotFound,
    /// A route matches the path, but not with this method.
    MethodNotAllowed,
    /// The named header is present and its value is not acceptable.
    InvalidHeader { name: Vec<u8> },
    /// The named header is absent.
    MissingHeader { name: Vec<u8> },
    /// The body's media type is not one the route takes.
    UnsupportedMediaType,
    /// The query or the path could not be read as the route asks.
    InvalidQueryOrPath,
    /// The body is larger than the route allows.
    PayloadTooLarge,
    /// The body could not be decoded; `cause` is the decoder's diagnostic.
    BodyDeserializeError { cause: Vec<u8> },
    /// A failure that the application defines, told apart by `kind`.
    Custom { kind: u64 },
}

/// A rejection as a mathematical value.
pub ghost enum RejectionModel {
    NotFound,
    MethodNotAllowed,
    InvalidHeader { name: Seq<u8> },
    MissingHeader { name: Seq<u8> },
    UnsupportedMediaType,
    InvalidQueryOrPath,
    PayloadTooLarge,
    BodyDeserializeError { cause: Seq<u8> },
    Custom { kind: u64 },
}

impl View for Rejection {
    type V = RejectionModel;

    open spec fn view(&self) -> RejectionModel {
        match self {
            Rejection::NotFound => RejectionModel::NotFound,
            Rejection::MethodNotAllowed => RejectionModel::MethodNotAllowed,
            Rejection::InvalidHeader { name } => RejectionModel::InvalidHeader { name: name@ },
            Rejection::MissingHeader { name } => RejectionModel::MissingHeader { name: name@ },
            Rejection::UnsupportedMediaType => RejectionModel::UnsupportedMediaType,
            Rejection::InvalidQueryOrPath => RejectionModel::InvalidQueryOrPath,
            Rejection::PayloadTooLarge => RejectionModel::PayloadTooLarge,
            Rejection::BodyDeserializeError { cause } => RejectionModel::BodyDeserializeError {
                cause: cause@,
            },
            Rejection::Custom { kind } => RejectionModel::Custom { kind: *kind },
        }
    }
}

impl RejectionModel {
    /// How specific the rejection is: 0 for `NotFound`, 1 for
    /// `MethodNotAllowed`, 2 for every other kind, custom kinds included.
    pub open spec fn rank(self) -> nat {
        match self {
            RejectionModel::NotFound => 0,
            RejectionModel::MethodNotAllowed => 1,
            _ => 2,
        }
    }
}

/// The rejection that survives when two alternatives both reject: the one of
/// strictly higher rank, and the later one where the ranks are equal.
pub open spec fn merged(first: RejectionModel, second: RejectionModel) -> RejectionModel {
    if first.rank() > second.rank() {
        first
    } else {
        second
    }
}

impl Rejection {
    /// The specificity rank of this rejection.
    pub fn rank(&self) -> (r: u8)
        ensures
            r == self@.rank(),
    {
        match self {
            Rejection::NotFound => 0,
            Rejection::MethodNotAllowed => 1,
            _ => 2,
        }
    }

    /// A copy of this rejection.
    pub fn duplicate(&self) -> (r: Rejection)
        ensures
            r@ == self@,
    {
        match self {
            Rejection::NotFound => Rejection::NotFound,
            Rejection::MethodNotAllowed => Rejection::MethodNotAllowed,
            Rejection::InvalidHeader { name } => Rejection::InvalidHeader {
                name: copy_bytes(name),
            },
            Rejection::MissingHeader { name } => Rejection::MissingHeader {
                name: copy_bytes(name),
            },
            Rejection::UnsupportedMediaType => Rejection::UnsupportedMediaType,
            Rejection::InvalidQueryOrPath => Rejection::InvalidQueryOrPath,
            Rejection::PayloadTooLarge => Rejection::PayloadTooLarge,
            Rejection::BodyDeserializeError { cause } => Rejection::BodyDeserializeError {
                cause: copy_bytes(cause),
            },
            Rejection::Custom { kind } => Rejection::Custom { kind: *kind },
        }
    }
}

/// Merges the rejections of two alternatives, the earlier one first.
pub fn merge(first: Rejection, second: Rejection) -> (r: Rejection)
    ensures
        r@ == merged(first@, second@),
        r == (if first@.rank() > second@.rank() {
            first
        } else {
            second
        }),
{
    if first.rank() > second.rank() {
        first
    } else {
        second
    }
}

/// Merging never discards the more specific rejection: the result is one of
/// the two, it ranks as the higher of them, and on equal ranks it is the
/// second.
pub proof fn law_merge_keeps_highest_rank(first: RejectionModel, second: RejectionModel)
    ensures
        merged(first, second).rank() >= first.rank(),
        merged(first, second).rank() >= second.rank(),
        merged(first, second) == first || merged(first, second) == second,
        first.rank() > second.rank() ==> merged(first, second) == first,
        first.rank() <= second.rank() ==> merged(first, second) == second,
{
}

} // verus!
