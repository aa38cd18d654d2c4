//! A filter-combinator engine for matching HTTP requests and recovering from
//! match failures.
//!
//! A route is a [`filter::Filter`]: a matcher on the method, the path, the
//! headers or the body of a [`request::Request`], or a composition of
//! filters by conjunction and ordered alternation. Evaluating a filter on a
//! request ([`evaluate`], [`settle`]) either extracts an ordered sequence of
//! typed values or ends in a ranked [`rejection::Rejection`]; [`routes`]
//! evaluates a table of alternatives, and the recovery stage ([`recover`])
//! turns a rejection into a status code and a message.
//!
//! What a filter means is a mathematical function, [`semantics::eval`]; the
//! executable evaluation is proved to compute it, and [`laws`] holds what is
//! proved of the function itself.

pub mod aggregate;
pub mod arity;
pub mod division;
pub mod evaluate;
pub mod filter;
pub mod laws;
pub mod recover;
pub mod rejection;
pub mod request;
pub mod routes;
pub mod semantics;
pub mod settle;
pub mod text;
pub mod value;
