use route_filters::division::{handle_rejection, recovery, DIVIDE_BY_ZERO};
use route_filters::recover::{ErrorMessage, Recovery};
use route_filters::rejection::{merge, Rejection};

fn b(s: &str) -> Vec<u8> {
    s.as_bytes().to_vec()
}

fn reply(code: u16, message: &str) -> ErrorMessage {
    ErrorMessage { code, message: String::from(message) }
}

fn every_kind() -> Vec<Rejection> {
    vec![
        Rejection::NotFound,
        Rejection::MethodNotAllowed,
        Rejection::InvalidHeader { name: b("a") },
        Rejection::MissingHeader { name: b("a") },
        Rejection::UnsupportedMediaType,
        Rejection::InvalidQueryOrPath,
        Rejection::PayloadTooLarge,
        Rejection::BodyDeserializeError { cause: b("EOF while parsing") },
        Rejection::BodyDeserializeError { cause: b("missing field `denom`") },
        Rejection::Custom { kind: DIVIDE_BY_ZERO },
        Rejection::Custom { kind: 424242 },
    ]
}

#[test]
fn ranks_are_zero_one_and_two() {
    let ranks: Vec<u8> = every_kind().iter().map(|r| r.rank()).collect();
    assert_eq!(ranks, vec![0, 1, 2, 2, 2, 2, 2, 2, 2, 2, 2]);
}

#[test]
fn merge_keeps_the_higher_rank_and_the_later_on_a_tie() {
    for first in every_kind() {
        for second in every_kind() {
            let expected = if first.rank() > second.rank() {
                first.duplicate()
            } else {
                second.duplicate()
            };
            assert_eq!(merge(first.duplicate(), second), expected);
        }
    }
    assert_eq!(
        merge(Rejection::MissingHeader { name: b("a") }, Rejection::PayloadTooLarge),
        Rejection::PayloadTooLarge
    );
    assert_eq!(
        merge(Rejection::MissingHeader { name: b("a") }, Rejection::MethodNotAllowed),
        Rejection::MissingHeader { name: b("a") }
    );
    assert_eq!(merge(Rejection::NotFound, Rejection::NotFound), Rejection::NotFound);
}

#[test]
fn duplicate_is_equal_to_what_it_copies() {
    for r in every_kind() {
        assert_eq!(r.duplicate(), r);
    }
}

#[test]
fn recovery_is_total_over_every_kind() {
    let stages = [Recovery::new(), recovery()];
    for stage in stages.iter() {
        for r in every_kind() {
            let out = stage.recover(&r);
            assert!([400, 404, 405, 500].contains(&out.code), "{:?}", r);
            assert!(!out.message.is_empty(), "{:?}", r);
        }
    }
}

#[test]
fn recovery_answers_each_kind_with_its_status_and_tag() {
    let stage = Recovery::new();
    assert_eq!(stage.recover(&Rejection::NotFound), reply(404, "NOT_FOUND"));
    assert_eq!(stage.recover(&Rejection::MethodNotAllowed), reply(405, "METHOD_NOT_ALLOWED"));
    assert_eq!(
        stage.recover(&Rejection::InvalidHeader { name: b("x") }),
        reply(400, "InvalidHeader")
    );
    assert_eq!(
        stage.recover(&Rejection::MissingHeader { name: b("x") }),
        reply(400, "MissingHeader")
    );
    assert_eq!(stage.recover(&Rejection::UnsupportedMediaType), reply(400, "UnsupportedMediaType"));
    assert_eq!(stage.recover(&Rejection::PayloadTooLarge), reply(400, "PayloadTooLarge"));
    assert_eq!(stage.recover(&Rejection::InvalidQueryOrPath), reply(400, "InvalidQueryOrPath"));
    assert_eq!(
        stage.recover(&Rejection::BodyDeserializeError { cause: b("missing field `denom`") }),
        reply(400, "BAD_REQUEST")
    );
    assert_eq!(stage.recover(&Rejection::Custom { kind: 1 }), reply(500, "UNHANDLED_REJECTION"));
}

#[test]
fn register_takes_only_the_four_statuses_and_a_message() {
    let stage = Recovery::new();
    let stage = match stage.register(5, 418, "TEAPOT") {
        Ok(_) => panic!("418 is not a recovery status"),
        Err(same) => same,
    };
    let stage = match stage.register(5, 400, "") {
        Ok(_) => panic!("an empty message was taken"),
        Err(same) => same,
    };
    assert_eq!(stage.recover(&Rejection::Custom { kind: 5 }), reply(500, "UNHANDLED_REJECTION"));
    let mut stage = stage;
    for (kind, status) in [(1u64, 400u16), (2, 404), (3, 405), (4, 500)] {
        stage = stage.register(kind, status, "CUSTOM").ok().expect("a recovery status");
        assert_eq!(stage.recover(&Rejection::Custom { kind }), reply(status, "CUSTOM"));
    }
    // The first answer registered for a kind is the one given.
    let stage = stage.register(1, 500, "LATER").ok().expect("a recovery status");
    assert_eq!(stage.recover(&Rejection::Custom { kind: 1 }), reply(400, "CUSTOM"));
}

#[test]
fn the_first_known_field_in_the_cause_is_named() {
    let stage = Recovery::new().field("rate").field("name");
    let cause = |s: &str| Rejection::BodyDeserializeError { cause: b(s) };
    assert_eq!(stage.recover(&cause("missing field `name`")), reply(400, "FIELD_ERROR: name"));
    assert_eq!(
        stage.recover(&cause("name and rate are both wrong")),
        reply(400, "FIELD_ERROR: rate")
    );
    assert_eq!(stage.recover(&cause("expected value at line 1")), reply(400, "BAD_REQUEST"));
    assert_eq!(stage.recover(&cause("")), reply(400, "BAD_REQUEST"));
}

#[test]
fn handle_rejection_answers_the_division_service() {
    assert_eq!(handle_rejection(&Rejection::NotFound), reply(404, "NOT_FOUND"));
    assert_eq!(
        handle_rejection(&Rejection::Custom { kind: DIVIDE_BY_ZERO }),
        reply(400, "DIVIDE_BY_ZERO")
    );
    assert_eq!(
        handle_rejection(&Rejection::BodyDeserializeError {
            cause: b("invalid value: integer `0`, expected a nonzero u16 for denom")
        }),
        reply(400, "FIELD_ERROR: denom")
    );
    assert_eq!(
        handle_rejection(&Rejection::BodyDeserializeError { cause: b("EOF while parsing") }),
        reply(400, "BAD_REQUEST")
    );
    assert_eq!(handle_rejection(&Rejection::MethodNotAllowed), reply(405, "METHOD_NOT_ALLOWED"));
    assert_eq!(
        handle_rejection(&Rejection::Custom { kind: DIVIDE_BY_ZERO + 1 }),
        reply(500, "UNHANDLED_REJECTION")
    );
    assert_eq!(
        handle_rejection(&Rejection::MissingHeader { name: b("div-by") }),
        reply(400, "MissingHeader")
    );
}
