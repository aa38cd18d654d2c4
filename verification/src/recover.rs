//! The recovery stage: from a rejection to a status code and a message.

use crate::rejection::{Rejection, RejectionModel};
use crate::text::{bytes_of, contains, find};
use vstd::prelude::*;
use vstd::string::*;
use vstd::utf8::encode_utf8;

verus! {

/// The body of an error response: the status code and a short message.
#[derive(Debug, PartialEq, Eq)]
pub struct ErrorMessage {
    pub code: u16,
    pub message: String,
}

/// An error response as a mathematical value.
pub ghost struct ErrorModel {
    pub code: u16,
    pub message: Seq<char>,
}

impl View for ErrorMessage {
    type V = ErrorModel;

    open spec fn view(&self) -> ErrorModel {
        ErrorModel { code: self.code, message: self.message@ }
    }
}

/// What the application answers to one of its own kinds of rejection.
#[derive(Debug)]
pub struct Custom {
    pub kind: u64,
    pub status: u16,
    pub message: String,
}

/// A registered answer as a mathematical value.
pub ghost struct CustomModel {
    pub kind: u64,
    pub status: u16,
    pub message: Seq<char>,
}

impl View for Custom {
    type V = CustomModel;

    open spec fn view(&self) -> CustomModel {
        CustomModel { kind: self.kind, status: self.status, message: self.message@ }
    }
}

/// The status codes that the recovery stage answers with.
pub open spec fn is_recovery_status(code: u16) -> bool {
    code == 400 || code == 404 || code == 405 || code == 500
}

/// The configuration of the recovery stage: the application's answers to its
/// custom kinds, and the field names that a decoding failure is searched for.
#[derive(Debug)]
pub struct Recovery {
    customs: Vec<Custom>,
    fields: Vec<String>,
}

/// The configuration of the recovery stage as a mathematical value.
pub ghost struct RecoveryModel {
    pub customs: Seq<CustomModel>,
    pub fields: Seq<Seq<char>>,
}

impl RecoveryModel {
    /// Every registered answer has a status that the recovery stage may
    /// give, and a message that is not empty.
    pub open spec fn wf(self) -> bool {
        forall|i: int|
            0 <= i < self.customs.len() ==> is_recovery_status(
                (#[trigger] self.customs[i]).status,
            ) && self.customs[i].message.len() > 0
    }
}

impl View for Recovery {
    type V = RecoveryModel;

    closed spec fn view(&self) -> RecoveryModel {
        RecoveryModel {
            customs: Seq::new(self.customs@.len(), |i: int| self.customs@[i]@),
            fields: Seq::new(self.fields@.len(), |i: int| self.fields@[i]@),
        }
    }
}

/// The first answer registered for `kind`.
pub open spec fn registered(customs: Seq<CustomModel>, kind: u64) -> Option<CustomModel>
    decreases customs.len(),
{
    if customs.len() == 0 {
        None
    } else if customs[0].kind == kind {
        Some(customs[0])
    } else {
        registered(customs.skip(1), kind)
    }
}

/// The first of the field names that occurs in the diagnostic `cause`.
pub open spec fn named_field(fields: Seq<Seq<char>>, cause: Seq<u8>) -> Option<Seq<char>>
    decreases fields.len(),
{
    if fields.len() == 0 {
        None
    } else if contains(cause, encode_utf8(fields[0])) {
        Some(fields[0])
    } else {
        named_field(fields.skip(1), cause)
    }
}

/// The response to a rejection. In this order: `NotFound` is 404; a custom
/// kind with a registered answer gets that answer; a failed check on a
/// header, the media type, the size or the query is 400 with the name of the
/// check; a body that did not decode is 400, naming the first known field
/// that its diagnostic mentions; `MethodNotAllowed` is 405; anything else is
/// 500.
pub open spec fn recovered(config: RecoveryModel, r: RejectionModel) -> ErrorModel {
    match r {
        RejectionModel::NotFound => ErrorModel { code: 404, message: "NOT_FOUND"@ },
        RejectionModel::Custom { kind } => match registered(config.customs, kind) {
            Some(c) => ErrorModel { code: c.status, message: c.message },
            None => ErrorModel { code: 500, message: "UNHANDLED_REJECTION"@ },
        },
        RejectionModel::InvalidHeader { name: _ } => ErrorModel {
            code: 400,
            message: "InvalidHeader"@,
        },
        RejectionModel::MissingHeader { name: _ } => ErrorModel {
            code: 400,
            message: "MissingHeader"@,
        },
        RejectionModel::UnsupportedMediaType => ErrorModel {
            code: 400,
            message: "UnsupportedMediaType"@,
        },
        RejectionModel::PayloadTooLarge => ErrorModel { code: 400, message: "PayloadTooLarge"@ },
        RejectionModel::InvalidQueryOrPath => ErrorModel {
            code: 400,
            message: "InvalidQueryOrPath"@,
        },
        RejectionModel::BodyDeserializeError { cause } => match named_field(config.fields, cause) {
            Some(field) => ErrorModel { code: 400, message: "FIELD_ERROR: "@ + field },
            None => ErrorModel { code: 400, message: "BAD_REQUEST"@ },
        },
        RejectionModel::MethodNotAllowed => ErrorModel {
            code: 405,
            message: "METHOD_NOT_ALLOWED"@,
        },
    }
}

/// The recovery stage is total: whatever the rejection, a custom kind that
/// nothing was registered for included, the response has one of the statuses
/// 400, 404, 405 and 500, and a message that is not empty.
pub proof fn law_recovery_total(config: RecoveryModel, r: RejectionModel)
    requires
        config.wf(),
    ensures
        is_recovery_status(recovered(config, r).code),
        recovered(config, r).message.len() > 0,
{
    reveal_strlit("NOT_FOUND");
    reveal_strlit("UNHANDLED_REJECTION");
    reveal_strlit("InvalidHeader");
    reveal_strlit("MissingHeader");
    reveal_strlit("UnsupportedMediaType");
    reveal_strlit("PayloadTooLarge");
    reveal_strlit("InvalidQueryOrPath");
    reveal_strlit("FIELD_ERROR: ");
    reveal_strlit("BAD_REQUEST");
    reveal_strlit("METHOD_NOT_ALLOWED");
    if let RejectionModel::Custom { kind } = r {
        lemma_registered_is_member(config.customs, kind);
    }
}

/// A registered answer that is found is one of those registered.
pub proof fn lemma_registered_is_member(customs: Seq<CustomModel>, kind: u64)
    ensures
        registered(customs, kind) matches Some(c) ==> c.kind == kind && exists|i: int|
            0 <= i < customs.len() && customs[i] == c,
    decreases customs.len(),
{
    if customs.len() > 0 {
        if customs[0].kind == kind {
            assert(customs[0] == registered(customs, kind)->0);
        } else {
            lemma_registered_is_member(customs.skip(1), kind);
            if let Some(c) = registered(customs.skip(1), kind) {
                let i = choose|i: int| 0 <= i < customs.skip(1).len() && customs.skip(1)[i] == c;
                assert(customs[i + 1] == c);
            }
        }
    }
}

impl Recovery {
    #[verifier::type_invariant]
    spec fn valid(self) -> bool {
        self@.wf()
    }

    /// A recovery stage that knows no custom kind and no field name.
    pub fn new() -> (r: Recovery)
        ensures
            r@ == (RecoveryModel {
                customs: Seq::<CustomModel>::empty(),
                fields: Seq::<Seq<char>>::empty(),
            }),
            r@.wf(),
    {
        let r = Recovery { customs: Vec::new(), fields: Vec::new() };
        assert(r@.customs =~= Seq::<CustomModel>::empty());
        assert(r@.fields =~= Seq::<Seq<char>>::empty());
        r
    }

    /// Registers the answer to the custom kind `kind`, after the answers
    /// registered so far. A status other than 400, 404, 405 and 500 is
    /// refused, and so is an empty message: the result is then `Err` with
    /// the configuration as it was.
    pub fn register(self, kind: u64, status: u16, message: &str) -> (r: Result<Recovery, Recovery>)
        ensures
            r is Ok == (is_recovery_status(status) && message@.len() > 0),
            r matches Ok(next) ==> next@ == (RecoveryModel {
                customs: self@.customs.push(CustomModel { kind, status, message: message@ }),
                ..self@
            }) && next@.wf(),
            r matches Err(same) ==> same@ == self@ && same@.wf(),
    {
        proof {
            use_type_invariant(&self);
        }
        if (status == 400 || status == 404 || status == 405 || status == 500)
            && !message.is_empty() {
            let ghost before = self@;
            let Recovery { customs, fields } = self;
            let mut customs = customs;
            customs.push(Custom { kind, status, message: String::from_str(message) });
            assert forall|i: int| 0 <= i < customs@.len() implies is_recovery_status(
                (#[trigger] customs@[i])@.status,
            ) && customs@[i]@.message.len() > 0 by {
                if i < before.customs.len() {
                    assert(before.customs[i] == customs@[i]@);
                }
            }
            let next = Recovery { customs, fields };
            assert(next@.customs =~= before.customs.push(
                CustomModel { kind, status, message: message@ },
            ));
            assert(next@.fields =~= before.fields);
            Ok(next)
        } else {
            Err(self)
        }
    }

    /// Adds `name` to the field names that the diagnostic of a decoding
    /// failure is searched for, after those known so far.
    pub fn field(self, name: &str) -> (next: Recovery)
        ensures
            next@ == (RecoveryModel { fields: self@.fields.push(name@), ..self@ }),
            next@.wf(),
    {
        proof {
            use_type_invariant(&self);
        }
        let ghost before = self@;
        let Recovery { customs, fields } = self;
        let mut fields = fields;
        fields.push(String::from_str(name));
        assert forall|i: int| 0 <= i < customs@.len() implies is_recovery_status(
            (#[trigger] customs@[i])@.status,
        ) && customs@[i]@.message.len() > 0 by {
            assert(before.customs[i] == customs@[i]@);
        }
        let next = Recovery { customs, fields };
        assert(next@.fields =~= before.fields.push(name@));
        assert(next@.customs =~= before.customs);
        next
    }

    /// The first answer registered for `kind`.
    fn find_custom(&self, kind: u64) -> (r: Option<&Custom>)
        ensures
            r matches Some(c) ==> registered(self@.customs, kind) == Some(c@),
            r is None ==> registered(self@.customs, kind) is None,
    {
        let ghost all = self@.customs;
        let mut i: usize = 0;
        assert(all.skip(0) =~= all);
        while i < self.customs.len()
            invariant
                i <= self.customs.len(),
                all == self@.customs,
                all.len() == self.customs.len(),
                registered(all, kind) == registered(all.skip(i as int), kind),
            decreases self.customs.len() - i,
        {
            let ghost rest = all.skip(i as int);
            assert(rest[0] == self.customs[i as int]@);
            assert(rest.skip(1) =~= all.skip(i + 1));
            if self.customs[i].kind == kind {
                return Some(&self.customs[i]);
            }
            i += 1;
        }
        None
    }

    /// The first known field name that occurs in `cause`.
    fn find_field(&self, cause: &Vec<u8>) -> (r: Option<&String>)
        ensures
            r matches Some(f) ==> named_field(self@.fields, cause@) == Some(f@),
            r is None ==> named_field(self@.fields, cause@) is None,
    {
        let ghost all = self@.fields;
        let mut i: usize = 0;
        assert(all.skip(0) =~= all);
        while i < self.fields.len()
            invariant
                i <= self.fields.len(),
                all == self@.fields,
                all.len() == self.fields.len(),
                named_field(all, cause@) == named_field(all.skip(i as int), cause@),
            decreases self.fields.len() - i,
        {
            let ghost rest = all.skip(i as int);
            assert(rest[0] == self.fields[i as int]@);
            assert(rest.skip(1) =~= all.skip(i + 1));
            let name = bytes_of(self.fields[i].as_str());
            if find(cause, &name) {
                return Some(&self.fields[i]);
            }
            i += 1;
        }
        None
    }

    /// The response to the rejection `r`.
    pub fn recover(&self, r: &Rejection) -> (out: ErrorMessage)
        ensures
            out@ == recovered(self@, r@),
            is_recovery_status(out.code),
            out.message@.len() > 0,
    {
        proof {
            use_type_invariant(self);
            law_recovery_total(self@, r@);
        }
        match r {
            Rejection::NotFound => ErrorMessage {
                code: 404,
                message: String::from_str("NOT_FOUND"),
            },
            Rejection::Custom { kind } => match self.find_custom(*kind) {
                Some(c) => ErrorMessage { code: c.status, message: c.message.clone() },
                None => ErrorMessage {
                    code: 500,
                    message: String::from_str("UNHANDLED_REJECTION"),
                },
            },
            Rejection::InvalidHeader { name: _ } => ErrorMessage {
                code: 400,
                message: String::from_str("InvalidHeader"),
            },
            Rejection::MissingHeader { name: _ } => ErrorMessage {
                code: 400,
                message: String::from_str("MissingHeader"),
            },
            Rejection::UnsupportedMediaType => ErrorMessage {
                code: 400,
                message: String::from_str("UnsupportedMediaType"),
            },
            Rejection::PayloadTooLarge => ErrorMessage {
                code: 400,
                message: String::from_str("PayloadTooLarge"),
            },
            Rejection::InvalidQueryOrPath => ErrorMessage {
                code: 400,
                message: String::from_str("InvalidQueryOrPath"),
            },
            Rejection::BodyDeserializeError { cause } => match self.find_field(cause) {
                Some(field) => ErrorMessage {
                    code: 400,
                    message: String::from_str("FIELD_ERROR: ").concat(field.as_str()),
                },
                None => ErrorMessage { code: 400, message: String::from_str("BAD_REQUEST") },
            },
            Rejection::MethodNotAllowed => ErrorMessage {
                code: 405,
                message: String::from_str("METHOD_NOT_ALLOWED"),
            },
        }
    }
}

} // verus!
