use route_filters::division::{div_by, handle_rejection, DIVIDE_BY_ZERO};
use route_filters::filter::{
    any, bytes, content_length_limit, end, exact, get, json, param, path, post, Filter,
};
use route_filters::recover::{ErrorMessage, Recovery};
use route_filters::rejection::Rejection;
use route_filters::request::{Method, Request};
use route_filters::semantics::Outcome;
use route_filters::value::{Decoded, Kind, Value};

const DENOM_REQUEST: u64 = 7;

fn rejected(outcome: Outcome) -> Rejection {
    match outcome {
        Outcome::Rejected(r) => r,
        other => panic!("expected a rejection, got {:?}", other),
    }
}

fn matched(outcome: Outcome) -> Vec<Value> {
    match outcome {
        Outcome::Matched { values, .. } => values,
        other => panic!("expected a match, got {:?}", other),
    }
}

/// Decodes `{"denom": n}` with `n` a positive 16-bit number, as the decoding
/// collaborator of the division service does.
fn decode_denom(input: &[u8]) -> Decoded {
    let refuse =
        |cause: String| Decoded::refused(DENOM_REQUEST, input.to_vec(), cause.into_bytes());
    let doc: serde_json::Value = match serde_json::from_slice(input) {
        Ok(doc) => doc,
        Err(e) => return refuse(e.to_string()),
    };
    let denom = match doc.get("denom") {
        Some(d) => d,
        None => return refuse(String::from("missing field `denom`")),
    };
    match denom.as_u64() {
        Some(n) if n >= 1 && n <= 0xffff => Decoded::accepted(DENOM_REQUEST, input.to_vec()),
        _ => refuse(format!("denom: invalid value: {}, expected a nonzero u16", denom)),
    }
}

/// Evaluates `route` with the decoder of the division service at hand.
fn run(route: &Filter, req: &Request) -> Outcome {
    route
        .settle(req, |target, input: Vec<u8>| {
            assert_eq!(target, DENOM_REQUEST);
            decode_denom(&input)
        })
        .outcome
}

#[test]
fn get_hi_matches_and_extracts_nothing() {
    let route = get().and(path("hi").and(end()));
    let req = Request::new(Method::Get, "/hi");
    match route.evaluate(&req, &Vec::new()) {
        Outcome::Matched { state, values } => {
            assert_eq!(values.len(), 0);
            assert_eq!(state.cursor, 1);
        }
        other => panic!("expected a match, got {:?}", other),
    }
}

#[test]
fn get_hi_there_is_not_found() {
    let route = get().and(path("hi").and(end()));
    let req = Request::new(Method::Get, "/hi/there");
    assert_eq!(rejected(route.evaluate(&req, &Vec::new())), Rejection::NotFound);
}

#[test]
fn post_hi_is_method_not_allowed() {
    let route = get().and(path("hi").and(end()));
    let req = Request::new(Method::Post, "/hi");
    assert_eq!(rejected(route.evaluate(&req, &Vec::new())), Rejection::MethodNotAllowed);
}

#[test]
fn sum_extracts_both_numbers_in_order() {
    let route = path("sum").and(param(Kind::U32).and(param(Kind::U32)));
    let req = Request::new(Method::Get, "/sum/3/4");
    assert_eq!(matched(route.evaluate(&req, &Vec::new())), vec![Value::U32(3), Value::U32(4)]);
}

#[test]
fn sum_with_a_letter_is_not_found() {
    let route = path("sum").and(param(Kind::U32).and(param(Kind::U32)));
    let req = Request::new(Method::Get, "/sum/x/4");
    assert_eq!(rejected(route.evaluate(&req, &Vec::new())), Rejection::NotFound);
}

#[test]
fn sum_with_a_missing_number_is_not_found() {
    let route = path("sum").and(param(Kind::U32).and(param(Kind::U32)));
    let req = Request::new(Method::Get, "/sum/3");
    assert_eq!(rejected(route.evaluate(&req, &Vec::new())), Rejection::NotFound);
}

#[test]
fn missing_accept_header_recovers_to_400() {
    let route = exact("accept", "application/json").and(path("a")).or(
        exact("accept", "text/html").and(path("b")),
    );
    let req = Request::new(Method::Get, "/a");
    let rejection = rejected(route.evaluate(&req, &Vec::new()));
    assert_eq!(rejection, Rejection::MissingHeader { name: b"accept".to_vec() });

    let reply = Recovery::new().recover(&rejection);
    assert_eq!(reply, ErrorMessage { code: 400, message: String::from("MissingHeader") });

    let mut body = serde_json::Map::new();
    body.insert(String::from("code"), serde_json::Value::from(reply.code));
    body.insert(String::from("message"), serde_json::Value::from(reply.message));
    assert_eq!(
        serde_json::to_string(&serde_json::Value::Object(body)).unwrap(),
        "{\"code\":400,\"message\":\"MissingHeader\"}"
    );
}

#[test]
fn zero_denom_in_body_recovers_to_field_error() {
    let route = path("math").and(param(Kind::U16)).and(post()).and(json(DENOM_REQUEST));
    let req = Request::new(Method::Post, "/math/8").body(b"{\"denom\": 0}".to_vec());
    let rejection = rejected(run(&route, &req));
    match &rejection {
        Rejection::BodyDeserializeError { cause } => {
            assert!(String::from_utf8_lossy(cause).contains("denom"));
        }
        other => panic!("expected a decoding failure, got {:?}", other),
    }
    let reply = handle_rejection(&rejection);
    assert_eq!(reply.code, 400);
    assert_eq!(reply.message, "FIELD_ERROR: denom");
}

#[test]
fn good_denom_in_body_is_extracted_after_the_number() {
    let route = path("math").and(param(Kind::U16)).and(post()).and(json(DENOM_REQUEST));
    let req = Request::new(Method::Post, "/math/8").body(b"{\"denom\": 2}".to_vec());
    assert_eq!(
        matched(run(&route, &req)),
        vec![
            Value::U16(8),
            Value::Foreign { target: DENOM_REQUEST, bytes: b"{\"denom\": 2}".to_vec() },
        ]
    );
}

#[test]
fn undecoded_body_leaves_the_evaluation_pending() {
    let route = post().and(json(DENOM_REQUEST));
    let req = Request::new(Method::Post, "/").body(b"{}".to_vec());
    match route.evaluate(&req, &Vec::new()) {
        Outcome::Pending { target, input } => {
            assert_eq!(target, DENOM_REQUEST);
            assert_eq!(input, b"{}".to_vec());
        }
        other => panic!("expected a pending evaluation, got {:?}", other),
    }
}

#[test]
fn declared_length_over_the_guard_is_rejected_before_the_body_is_read() {
    // A body whose stream breaks off cancels whatever matcher reads it, so a
    // rejection here shows that nothing read it.
    let route = content_length_limit(16384).and(json(DENOM_REQUEST));
    let req = Request::new(Method::Post, "/").abort().declare(20000);
    assert_eq!(rejected(route.evaluate(&req, &Vec::new())), Rejection::PayloadTooLarge);

    let unguarded = json(DENOM_REQUEST);
    assert!(matches!(unguarded.evaluate(&req, &Vec::new()), Outcome::Cancelled));
}

#[test]
fn declared_length_of_20000_with_its_body_is_rejected() {
    let route = content_length_limit(16384).and(bytes());
    let req = Request::new(Method::Post, "/").body(vec![0u8; 20000]);
    assert_eq!(req.declared, Some(20000));
    assert_eq!(rejected(route.evaluate(&req, &Vec::new())), Rejection::PayloadTooLarge);
}

#[test]
fn and_does_not_evaluate_its_second_operand_after_a_rejection() {
    // The second operand would cancel the evaluation if it ran.
    let req = Request::new(Method::Get, "/elsewhere").abort();
    let probe = bytes();
    assert!(matches!(probe.evaluate(&req, &Vec::new()), Outcome::Cancelled));
    let route = path("here").and(bytes());
    assert_eq!(rejected(route.evaluate(&req, &Vec::new())), Rejection::NotFound);
}

#[test]
fn or_does_not_evaluate_its_second_operand_after_a_match() {
    let req = Request::new(Method::Get, "/here").abort();
    let route = path("here").or(bytes());
    match route.evaluate(&req, &Vec::new()) {
        Outcome::Matched { state, values } => {
            assert_eq!(state.cursor, 1);
            assert!(values.is_empty());
        }
        other => panic!("expected a match, got {:?}", other),
    }
}

#[test]
fn or_evaluates_its_second_operand_on_the_unconsumed_path() {
    let route = path("a").and(path("x")).or(path("a").and(path("b")));
    let req = Request::new(Method::Get, "/a/b");
    match route.evaluate(&req, &Vec::new()) {
        Outcome::Matched { state, .. } => assert_eq!(state.cursor, 2),
        other => panic!("expected a match, got {:?}", other),
    }
}

#[test]
fn and_with_the_identity_behaves_as_the_filter_alone() {
    let requests = [
        Request::new(Method::Get, "/sum/3"),
        Request::new(Method::Get, "/sum/x"),
        Request::new(Method::Get, "/other"),
    ];
    for req in requests.iter() {
        let alone = path("sum").and(param(Kind::U32));
        let right = alone.duplicate().and(any());
        let left = any().and(alone.duplicate());
        let alone = format!("{:?}", alone.evaluate(req, &Vec::new()));
        let right = format!("{:?}", right.evaluate(req, &Vec::new()));
        let left = format!("{:?}", left.evaluate(req, &Vec::new()));
        assert_eq!(alone, right);
        assert_eq!(alone, left);
    }
}

#[test]
fn conjunction_is_associative_on_a_request() {
    let req = Request::new(Method::Get, "/a/5/b");
    let left = path("a").and(param(Kind::U64)).and(path("b"));
    let right = path("a").and(param(Kind::U64).and(path("b")));
    assert_eq!(
        format!("{:?}", left.evaluate(&req, &Vec::new())),
        format!("{:?}", right.evaluate(&req, &Vec::new()))
    );
    assert_eq!(matched(left.evaluate(&req, &Vec::new())), vec![Value::U64(5)]);
}

#[test]
fn div_by_takes_the_divisor_from_the_header() {
    let req = Request::new(Method::Get, "/math/8").header("Div-By", "4");
    assert_eq!(matched(div_by().evaluate(&req, &Vec::new())), vec![Value::U16(4)]);
}

#[test]
fn div_by_zero_is_the_custom_rejection() {
    let req = Request::new(Method::Get, "/math/8").header("div-by", "0");
    let rejection = rejected(div_by().evaluate(&req, &Vec::new()));
    assert_eq!(rejection, Rejection::Custom { kind: DIVIDE_BY_ZERO });
    let reply = handle_rejection(&rejection);
    assert_eq!(reply, ErrorMessage { code: 400, message: String::from("DIVIDE_BY_ZERO") });
}

#[test]
fn div_by_without_the_header_or_with_a_bad_one() {
    let none = Request::new(Method::Get, "/math/8");
    assert_eq!(
        rejected(div_by().evaluate(&none, &Vec::new())),
        Rejection::MissingHeader { name: b"div-by".to_vec() }
    );
    let bad = Request::new(Method::Get, "/math/8").header("div-by", "70000");
    assert_eq!(
        rejected(div_by().evaluate(&bad, &Vec::new())),
        Rejection::InvalidHeader { name: b"div-by".to_vec() }
    );
}

/// A decoder that fails the test if anything asks it.
fn never_asked(target: u64, input: Vec<u8>) -> Decoded {
    panic!("the decoder was asked for {} on {:?}", target, input)
}

#[test]
fn and_does_not_invoke_the_matcher_of_its_second_operand() {
    let route = path("here").and(json(DENOM_REQUEST));
    let req = Request::new(Method::Post, "/elsewhere").body(b"{\"denom\": 2}".to_vec());
    let settled = route.settle(&req, never_asked);
    assert_eq!(rejected(settled.outcome), Rejection::NotFound);
    assert!(settled.answers.is_empty());
}

#[test]
fn or_does_not_invoke_the_matcher_of_its_second_operand() {
    let route = path("here").or(json(DENOM_REQUEST));
    let req = Request::new(Method::Post, "/here").body(b"{\"denom\": 2}".to_vec());
    let settled = route.settle(&req, never_asked);
    assert!(matched(settled.outcome).is_empty());
    assert!(settled.answers.is_empty());
}

#[test]
fn a_body_over_the_guard_is_never_handed_to_the_decoder() {
    let route = content_length_limit(16384).and(json(DENOM_REQUEST));
    let req = Request::new(Method::Post, "/").body(vec![b' '; 20000]);
    let settled = route.settle(&req, never_asked);
    assert_eq!(rejected(settled.outcome), Rejection::PayloadTooLarge);
}
