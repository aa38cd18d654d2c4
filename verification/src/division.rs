//! The pieces of a small division service: the divisor taken from a header,
//! and the recovery stage that answers its rejections.

use crate::filter::{header, Filter, FilterModel};
use crate::recover::{
    is_recovery_status, recovered, CustomModel, ErrorMessage, Recovery, RecoveryModel,
};
use crate::rejection::Rejection;
use crate::value::Kind;
use vstd::prelude::*;
use vstd::string::*;

verus! {

/// The custom kind of rejection for a divisor that is zero.
pub const DIVIDE_BY_ZERO: u64 = 1;

/// The recovery configuration of the division service: a zero divisor is a
/// bad request, and a decoding failure is searched for the field `denom`.
pub open spec fn division_recovery() -> RecoveryModel {
    RecoveryModel {
        customs: seq![
            CustomModel { kind: DIVIDE_BY_ZERO, status: 400, message: "DIVIDE_BY_ZERO"@ },
        ],
        fields: seq!["denom"@],
    }
}

/// The filter that takes the divisor from the header `div-by`: a 16-bit
/// unsigned number, rejected with `DIVIDE_BY_ZERO` where it is zero.
pub fn div_by() -> (f: Filter)
    ensures
        f@ == (FilterModel::NonZero {
            inner: Box::new(FilterModel::Header { name: "div-by".spec_bytes(), kind: Kind::U16 }),
            otherwise: DIVIDE_BY_ZERO,
        }),
{
    header("div-by", Kind::U16).non_zero(DIVIDE_BY_ZERO)
}

/// The recovery stage of the division service.
pub fn recovery() -> (r: Recovery)
    ensures
        r@ == division_recovery(),
        r@.wf(),
{
    proof {
        reveal_strlit("DIVIDE_BY_ZERO");
    }
    match Recovery::new().register(DIVIDE_BY_ZERO, 400, "DIVIDE_BY_ZERO") {
        Ok(known) => {
            let r = known.field("denom");
            assert(r@.customs =~= division_recovery().customs);
            assert(r@.fields =~= division_recovery().fields);
            r
        },
        Err(same) => {
            assert(false);
            same
        },
    }
}

/// Answers a rejection of the division service with a status code and a
/// message.
pub fn handle_rejection(err: &Rejection) -> (out: ErrorMessage)
    ensures
        out@ == recovered(division_recovery(), err@),
        is_recovery_status(out.code),
        out.message@.len() > 0,
{
    recovery().recover(err)
}

} // verus!
