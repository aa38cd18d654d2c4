//! Filters: the matchers and the two combinators that compose them.

use crate::request::Method;
use crate::text::{bytes_of, copy_bytes};
use crate::value::Kind;
use vstd::prelude::*;
use vstd::string::*;

verus! {

/// A matcher, or a composition of matchers.
#[derive(Debug)]
pub enum Filter {
    /// Matches every request and extracts nothing.
    Any,
    /// Matches a request made with the given method.
    Method(Method),
    /// Matches the next path segment against a literal.
    Path(Vec<u8>),
    /// Reads the next path segment as a value of the given kind.
    Param(Kind),
    /// Matches when no path segment is left.
    End,
    /// Reads the named header as a value of the given kind.
    Header { name: Vec<u8>, kind: Kind },
    /// Matches when the named header has exactly the expected value.
    HeaderExact { name: Vec<u8>, expected: Vec<u8>, ignore_case: bool },
    /// Extracts the value of the named header as it stands.
    HeaderValue { name: Vec<u8> },
    /// Bounds the size of the body for the matchers that follow.
    ContentLengthLimit(u64),
    /// Reads the whole body and has it decoded as the type `target` names.
    BodyJson { target: u64 },
    /// Reads the whole body as bytes.
    BodyBytes,
    /// Reads the whole body as the chunks in which it arrived.
    BodyAggregate,
    /// Matches as `inner` does, unless `inner` extracts a single integer that
    /// is zero; that is rejected with the custom kind `otherwise`.
    NonZero { inner: Box<Filter>, otherwise: u64 },
    /// Both in turn; the extractions are concatenated.
    And(Box<Filter>, Box<Filter>),
    /// The first that matches.
    Or(Box<Filter>, Box<Filter>),
}

/// A filter as a mathematical value.
pub ghost enum FilterModel {
    Any,
    Method(Method),
    Path(Seq<u8>),
    Param(Kind),
    End,
    Header { name: Seq<u8>, kind: Kind },
    HeaderExact { name: Seq<u8>, expected: Seq<u8>, ignore_case: bool },
    HeaderValue { name: Seq<u8> },
    ContentLengthLimit(u64),
    BodyJson { target: u64 },
    BodyBytes,
    BodyAggregate,
    NonZero { inner: Box<FilterModel>, otherwise: u64 },
    And(Box<FilterModel>, Box<FilterModel>),
    Or(Box<FilterModel>, Box<FilterModel>),
}

/// The mathematical value of a filter.
pub open spec fn model(f: Filter) -> FilterModel
    decreases f,
{
    match f {
        Filter::Any => FilterModel::Any,
        Filter::Method(m) => FilterModel::Method(m),
        Filter::Path(literal) => FilterModel::Path(literal@),
        Filter::Param(kind) => FilterModel::Param(kind),
        Filter::End => FilterModel::End,
        Filter::Header { name, kind } => FilterModel::Header { name: name@, kind },
        Filter::HeaderExact { name, expected, ignore_case } => FilterModel::HeaderExact {
            name: name@,
            expected: expected@,
            ignore_case,
        },
        Filter::HeaderValue { name } => FilterModel::HeaderValue { name: name@ },
        Filter::ContentLengthLimit(max) => FilterModel::ContentLengthLimit(max),
        Filter::BodyJson { target } => FilterModel::BodyJson { target },
        Filter::BodyBytes => FilterModel::BodyBytes,
        Filter::BodyAggregate => FilterModel::BodyAggregate,
        Filter::NonZero { inner, otherwise } => FilterModel::NonZero {
            inner: Box::new(model(*inner)),
            otherwise,
        },
        Filter::And(first, second) => FilterModel::And(
            Box::new(model(*first)),
            Box::new(model(*second)),
        ),
        Filter::Or(first, second) => FilterModel::Or(
            Box::new(model(*first)),
            Box::new(model(*second)),
        ),
    }
}

impl View for Filter {
    type V = FilterModel;

    open spec fn view(&self) -> FilterModel {
        model(*self)
    }
}

/// The filter that matches every request and extracts nothing.
pub fn any() -> (f: Filter)
    ensures
        f@ == FilterModel::Any,
{
    Filter::Any
}

/// The filter that matches requests made with `method`.
pub fn method(expected: Method) -> (f: Filter)
    ensures
        f@ == FilterModel::Method(expected),
{
    Filter::Method(expected)
}

/// The filter that matches `GET` requests.
pub fn get() -> (f: Filter)
    ensures
        f@ == FilterModel::Method(Method::Get),
{
    Filter::Method(Method::Get)
}

/// The filter that matches `POST` requests.
pub fn post() -> (f: Filter)
    ensures
        f@ == FilterModel::Method(Method::Post),
{
    Filter::Method(Method::Post)
}

/// The filter that matches the next path segment against `literal`.
pub fn path(literal: &str) -> (f: Filter)
    ensures
        f@ == FilterModel::Path(literal.spec_bytes()),
{
    Filter::Path(bytes_of(literal))
}

/// The filter that reads the next path segment as a value of `kind`.
pub fn param(kind: Kind) -> (f: Filter)
    ensures
        f@ == FilterModel::Param(kind),
{
    Filter::Param(kind)
}

/// The filter that matches when the whole path has been consumed.
pub fn end() -> (f: Filter)
    ensures
        f@ == FilterModel::End,
{
    Filter::End
}

/// The filter that reads the header `name` as a value of `kind`.
pub fn header(name: &str, kind: Kind) -> (f: Filter)
    ensures
        f@ == (FilterModel::Header { name: name.spec_bytes(), kind }),
{
    Filter::Header { name: bytes_of(name), kind }
}

/// The filter that matches when the header `name` is exactly `expected`.
pub fn exact(name: &str, expected: &str) -> (f: Filter)
    ensures
        f@ == (FilterModel::HeaderExact {
            name: name.spec_bytes(),
            expected: expected.spec_bytes(),
            ignore_case: false,
        }),
{
    Filter::HeaderExact { name: bytes_of(name), expected: bytes_of(expected), ignore_case: false }
}

/// The filter that matches when the header `name` is `expected`, ASCII case
/// ignored.
pub fn exact_ignore_case(name: &str, expected: &str) -> (f: Filter)
    ensures
        f@ == (FilterModel::HeaderExact {
            name: name.spec_bytes(),
            expected: expected.spec_bytes(),
            ignore_case: true,
        }),
{
    Filter::HeaderExact { name: bytes_of(name), expected: bytes_of(expected), ignore_case: true }
}

/// The filter that extracts the value of the header `name` as it stands.
pub fn value(name: &str) -> (f: Filter)
    ensures
        f@ == (FilterModel::HeaderValue { name: name.spec_bytes() }),
{
    Filter::HeaderValue { name: bytes_of(name) }
}

/// The filter that lets no body larger than `max` bytes through.
pub fn content_length_limit(max: u64) -> (f: Filter)
    ensures
        f@ == FilterModel::ContentLengthLimit(max),
{
    Filter::ContentLengthLimit(max)
}

/// The filter that has the body decoded as the type that `target` names.
pub fn json(target: u64) -> (f: Filter)
    ensures
        f@ == (FilterModel::BodyJson { target }),
{
    Filter::BodyJson { target }
}

/// The filter that extracts the body as bytes.
pub fn bytes() -> (f: Filter)
    ensures
        f@ == FilterModel::BodyBytes,
{
    Filter::BodyBytes
}

/// The filter that extracts the body as the chunks in which it arrived.
pub fn aggregate() -> (f: Filter)
    ensures
        f@ == FilterModel::BodyAggregate,
{
    Filter::BodyAggregate
}

impl Filter {
    /// A copy of this filter. Composition consumes its operands; a filter
    /// that is to stand in several routes is copied first.
    pub fn duplicate(&self) -> (f: Filter)
        ensures
            f@ == self@,
        decreases self,
    {
        match self {
            Filter::Any => Filter::Any,
            Filter::Method(expected) => Filter::Method(*expected),
            Filter::Path(literal) => Filter::Path(copy_bytes(literal)),
            Filter::Param(kind) => Filter::Param(*kind),
            Filter::End => Filter::End,
            Filter::Header { name, kind } => Filter::Header { name: copy_bytes(name), kind: *kind },
            Filter::HeaderExact { name, expected, ignore_case } => Filter::HeaderExact {
                name: copy_bytes(name),
                expected: copy_bytes(expected),
                ignore_case: *ignore_case,
            },
            Filter::HeaderValue { name } => Filter::HeaderValue { name: copy_bytes(name) },
            Filter::ContentLengthLimit(max) => Filter::ContentLengthLimit(*max),
            Filter::BodyJson { target } => Filter::BodyJson { target: *target },
            Filter::BodyBytes => Filter::BodyBytes,
            Filter::BodyAggregate => Filter::BodyAggregate,
            Filter::NonZero { inner, otherwise } => Filter::NonZero {
                inner: Box::new(inner.duplicate()),
                otherwise: *otherwise,
            },
            Filter::And(first, second) => Filter::And(
                Box::new(first.duplicate()),
                Box::new(second.duplicate()),
            ),
            Filter::Or(first, second) => Filter::Or(
                Box::new(first.duplicate()),
                Box::new(second.duplicate()),
            ),
        }
    }

    /// This filter, then `next` on what this filter left unconsumed.
    pub fn and(self, next: Filter) -> (f: Filter)
        ensures
            f@ == FilterModel::And(Box::new(self@), Box::new(next@)),
    {
        Filter::And(Box::new(self), Box::new(next))
    }

    /// This filter, or else `other` on the request as this filter found it.
    pub fn or(self, other: Filter) -> (f: Filter)
        ensures
            f@ == FilterModel::Or(Box::new(self@), Box::new(other@)),
    {
        Filter::Or(Box::new(self), Box::new(other))
    }

    /// This filter, rejecting with the custom kind `otherwise` where it
    /// extracts a single integer that is zero.
    pub fn non_zero(self, otherwise: u64) -> (f: Filter)
        ensures
            f@ == (FilterModel::NonZero { inner: Box::new(self@), otherwise }),
    {
        Filter::NonZero { inner: Box::new(self), otherwise }
    }
}

} // verus!
