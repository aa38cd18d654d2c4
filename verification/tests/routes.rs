use route_filters::aggregate::{full_body, Aggregate};
use route_filters::filter::{bytes, end, exact, get, header, json, param, path, post, Filter};
use route_filters::rejection::Rejection;
use route_filters::request::{Method, Request};
use route_filters::routes::{count_askers, route, route_with};
use route_filters::semantics::Outcome;
use route_filters::value::{Decoded, Kind, Value};

fn b(s: &str) -> Vec<u8> {
    s.as_bytes().to_vec()
}

fn table() -> Vec<Filter> {
    vec![
        get().and(path("hi")).and(end()),
        get().and(path("sum")).and(param(Kind::U32)).and(param(Kind::U32)).and(end()),
        post().and(path("hi")).and(exact("x-token", "s3")).and(end()),
    ]
}

#[test]
fn route_says_which_alternative_matched() {
    let routed = route(&table(), &Request::new(Method::Get, "/sum/1/2"), &Vec::new());
    assert_eq!(routed.index, 1);
    match routed.outcome {
        Outcome::Matched { values, .. } => assert_eq!(values, vec![Value::U32(1), Value::U32(2)]),
        other => panic!("expected a match, got {:?}", other),
    }
    let routed = route(&table(), &Request::new(Method::Get, "/hi"), &Vec::new());
    assert_eq!(routed.index, 0);
    assert!(matches!(routed.outcome, Outcome::Matched { .. }));
}

#[test]
fn route_returns_the_highest_ranked_rejection() {
    let routed = route(&table(), &Request::new(Method::Post, "/hi"), &Vec::new());
    assert_eq!(routed.index, 3);
    match routed.outcome {
        Outcome::Rejected(r) => assert_eq!(r, Rejection::MissingHeader { name: b("x-token") }),
        other => panic!("expected a rejection, got {:?}", other),
    }
    let routed = route(&table(), &Request::new(Method::Put, "/hi"), &Vec::new());
    assert!(matches!(routed.outcome, Outcome::Rejected(Rejection::MethodNotAllowed)));
    // The third alternative asks for the method first, and that outranks
    // the paths that the first two did not find.
    let routed = route(&table(), &Request::new(Method::Get, "/nowhere"), &Vec::new());
    assert!(matches!(routed.outcome, Outcome::Rejected(Rejection::MethodNotAllowed)));
    let paths_first = vec![path("hi").and(get()), path("sum").and(post())];
    let routed = route(&paths_first, &Request::new(Method::Get, "/nowhere"), &Vec::new());
    assert_eq!(routed.index, 2);
    assert!(matches!(routed.outcome, Outcome::Rejected(Rejection::NotFound)));
}

#[test]
fn route_breaks_ties_toward_the_last_alternative() {
    let alternatives = vec![exact("a", "1"), exact("b", "1"), path("x"), exact("c", "1"), get()];
    let routed = route(&alternatives, &Request::new(Method::Post, "/"), &Vec::new());
    match routed.outcome {
        Outcome::Rejected(r) => assert_eq!(r, Rejection::MissingHeader { name: b("c") }),
        other => panic!("expected a rejection, got {:?}", other),
    }
}

#[test]
fn route_agrees_with_the_alternation_of_the_alternatives() {
    let paths = ["/hi", "/sum/1/2", "/sum/1", "/nowhere"];
    let methods = [Method::Get, Method::Post, Method::Put];
    for p in paths.iter() {
        for m in methods.iter() {
            let req = Request::new(*m, p);
            let mut alternatives = table().into_iter();
            let first = alternatives.next().unwrap();
            let chain = alternatives.fold(first, |chain, next| chain.or(next));
            assert_eq!(
                format!("{:?}", route(&table(), &req, &Vec::new()).outcome),
                format!("{:?}", chain.evaluate(&req, &Vec::new()))
            );
        }
    }
}

#[test]
fn route_over_nothing_is_not_found() {
    let routed = route(&Vec::new(), &Request::new(Method::Get, "/"), &Vec::new());
    assert_eq!(routed.index, 0);
    assert!(matches!(routed.outcome, Outcome::Rejected(Rejection::NotFound)));
}

#[test]
fn route_stops_where_the_stream_breaks_off() {
    let alternatives = vec![path("x"), bytes(), get()];
    let routed = route(&alternatives, &Request::new(Method::Get, "/").abort(), &Vec::new());
    assert_eq!(routed.index, 1);
    assert!(matches!(routed.outcome, Outcome::Cancelled));
}

#[test]
fn full_body_returns_every_chunk_that_is_not_empty() {
    let body = Aggregate::new(vec![b(""), b("ab"), b(""), b("c"), b("")]);
    assert_eq!(full_body(body), vec![b("ab"), b("c")]);
    let nothing = Aggregate::new(vec![b(""), b("")]);
    assert_eq!(full_body(nothing), Vec::<Vec<u8>>::new());
}

#[test]
fn full_body_starts_where_the_cursor_stands() {
    let mut body = Aggregate::new(vec![b("abc"), b("de"), b("f")]);
    body.advance(4);
    assert_eq!(full_body(body), vec![b("e"), b("f")]);
}

#[test]
fn chunk_and_advance_walk_over_the_body() {
    let mut body = Aggregate::new(vec![b("abc"), b(""), b("de")]);
    assert!(body.has_remaining());
    assert_eq!(body.chunk(), b"abc");
    body.advance(0);
    assert_eq!(body.chunk(), b"abc");
    body.advance(1);
    assert_eq!(body.chunk(), b"bc");
    body.advance(2);
    assert_eq!(body.chunk(), b"de");
    body.advance(2);
    assert!(!body.has_remaining());
    assert_eq!(body.chunk(), b"");
    body.advance(0);
    assert!(!body.has_remaining());
}

#[test]
fn advance_may_cross_several_chunks() {
    let mut body = Aggregate::new(vec![b("a"), b("b"), b("c"), b("d")]);
    body.advance(3);
    assert_eq!(body.chunk(), b"d");
    let mut body = Aggregate::new(vec![b("a"), b("b")]);
    body.advance(2);
    assert!(!body.has_remaining());
}

const EVEN: u64 = 11;
const SHORT: u64 = 12;

/// A decoder for two foreign types: numbers that are even, and texts of at
/// most three bytes.
fn decode(target: u64, input: Vec<u8>) -> Decoded {
    let accepted = match target {
        EVEN => input.last().map_or(false, |d| d.is_ascii_digit() && (d - b'0') % 2 == 0),
        SHORT => input.len() <= 3,
        _ => false,
    };
    if accepted {
        Decoded::accepted(target, input)
    } else {
        Decoded::refused(target, input, b("not of this type"))
    }
}

fn foreign_table() -> Vec<Filter> {
    vec![
        path("n").and(param(Kind::Foreign { target: EVEN })).and(end()),
        path("n").and(param(Kind::Foreign { target: SHORT })).and(json(EVEN)),
        header("x", Kind::Foreign { target: SHORT }),
    ]
}

#[test]
fn askers_counts_the_matchers_that_may_ask() {
    assert_eq!(count_askers(&foreign_table()), 4);
    assert_eq!(count_askers(&table()), 0);
    assert_eq!(foreign_table()[1].askers(), 2);
    assert_eq!(json(1).or(json(2)).non_zero(3).askers(), 2);
    assert_eq!(param(Kind::U32).and(header("a", Kind::Text)).askers(), 0);
}

#[test]
fn route_with_asks_until_routing_is_settled() {
    let req = Request::new(Method::Get, "/n/13").body(b("8"));
    let settled = route_with(&foreign_table(), &req, decode);
    assert_eq!(settled.routed.index, 1);
    match settled.routed.outcome {
        Outcome::Matched { values, .. } => assert_eq!(
            values,
            vec![
                Value::Foreign { target: SHORT, bytes: b("13") },
                Value::Foreign { target: EVEN, bytes: b("8") },
            ]
        ),
        other => panic!("expected a match, got {:?}", other),
    }
    let asked: Vec<(u64, Vec<u8>, bool)> = settled
        .answers
        .iter()
        .map(|d| (d.target, d.input.clone(), d.failure.is_none()))
        .collect();
    assert_eq!(
        asked,
        vec![(EVEN, b("13"), false), (SHORT, b("13"), true), (EVEN, b("8"), true)]
    );
}

#[test]
fn route_with_merges_what_the_decoder_refuses() {
    let req = Request::new(Method::Get, "/n/12345").header("X", "long value");
    let settled = route_with(&foreign_table(), &req, decode);
    assert_eq!(settled.routed.index, 3);
    match settled.routed.outcome {
        Outcome::Rejected(r) => assert_eq!(r, Rejection::InvalidHeader { name: b("x") }),
        other => panic!("expected a rejection, got {:?}", other),
    }
    assert_eq!(settled.answers.len(), 3);
}

#[test]
fn route_with_asks_nothing_where_nothing_is_pending() {
    let settled = route_with(&table(), &Request::new(Method::Get, "/sum/1/2"), decode);
    assert_eq!(settled.routed.index, 1);
    assert!(settled.answers.is_empty());
}

#[test]
fn a_decoder_that_answers_another_question_leaves_routing_pending() {
    let req = Request::new(Method::Get, "/n/13");
    let deaf = |target: u64, _input: Vec<u8>| Decoded::accepted(target, b("something else"));
    let settled = route_with(&foreign_table(), &req, deaf);
    assert_eq!(settled.routed.index, 0);
    match settled.routed.outcome {
        Outcome::Pending { target, input } => {
            assert_eq!(target, EVEN);
            assert_eq!(input, b("13"));
        }
        other => panic!("expected pending routing, got {:?}", other),
    }
    assert!(settled.answers.is_empty());
}

#[test]
fn settle_agrees_with_evaluate_under_the_answers_it_returns() {
    let even = param(Kind::Foreign { target: EVEN });
    let short = param(Kind::Foreign { target: SHORT });
    let route = path("n").and(even.or(short));
    for p in ["/n/12", "/n/13", "/n/12345", "/m/1"].iter() {
        let req = Request::new(Method::Get, p);
        let settled = route.settle(&req, decode);
        assert_eq!(
            format!("{:?}", settled.outcome),
            format!("{:?}", route.evaluate(&req, &settled.answers))
        );
        assert!(!matches!(settled.outcome, Outcome::Pending { .. }));
    }
}
