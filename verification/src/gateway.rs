//! The auxiliary voucher endpoints beside the redemption pipeline: fresh
//! address allocation for a voucher code, and the voucher-code stub.

use vstd::prelude::*;
use vstd::string::StringExecFns;
use crate::json::{find_field, lookup_spec, Json};
use crate::decode::result_str;

verus! {

/// The outcome of a `getnewaddress` call, as the gateway reports it.
#[derive(Debug)]
pub enum NewAddressOutcome {
    /// The node allocated this address.
    Address(String),
    /// The node answered with this non-null `error` value.
    NodeError(Json),
    /// The response carried neither an error nor a string result.
    Malformed,
}

/// The non-null `error` value of a response, if any.
pub open spec fn rpc_error_of(v: Json) -> Option<Json> {
    match v {
        Json::Obj(fields) => match lookup_spec(fields@, "error"@) {
            Some(e) => if e == Json::Null {
                None
            } else {
                Some(e)
            },
            None => None,
        },
        _ => None,
    }
}

/// Reads a `getnewaddress` response: a non-null `error` is surfaced as
/// the node's error, otherwise a string `result` is the fresh address,
/// and anything else is malformed.
pub fn decode_new_address(v: Json) -> (r: NewAddressOutcome)
    ensures
        match r {
            NewAddressOutcome::NodeError(e) => rpc_error_of(v) == Some(e),
            NewAddressOutcome::Address(a) => rpc_error_of(v) is None && result_str(v) == Some(a@),
            NewAddressOutcome::Malformed => rpc_error_of(v) is None && result_str(v) is None,
        },
{
    match v {
        Json::Obj(fields) => {
            let mut fields = fields;
            match find_field(&fields, "error") {
                Some(i) => {
                    let not_null = match &fields[i].1 {
                        Json::Null => false,
                        _ => true,
                    };
                    if not_null {
                        let field = fields.swap_remove(i);
                        return NewAddressOutcome::NodeError(field.1);
                    }
                },
                None => {},
            }
            match find_field(&fields, "result") {
                Some(j) => {
                    let field = fields.swap_remove(j);
                    match field.1 {
                        Json::Str(s) => NewAddressOutcome::Address(s),
                        _ => NewAddressOutcome::Malformed,
                    }
                },
                None => NewAddressOutcome::Malformed,
            }
        },
        _ => NewAddressOutcome::Malformed,
    }
}

/// The voucher-code stub: a fixed placeholder code.
pub fn new_code() -> (r: String)
    ensures
        r@ == "newcode1234"@,
{
    String::from_str("newcode1234")
}

} // verus!
