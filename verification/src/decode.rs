//! Decoding of wallet JSON-RPC responses.
//!
//! Each response is an object whose `result` field carries the payload.
//! One decoder per pipeline stage states exactly which shapes it accepts
//! and what it extracts; anything else is a protocol violation.

use vstd::prelude::*;
use crate::amount::{parse_amount, parse_amount_spec, parse_index, parse_index_spec};
use crate::errors::PipelineError;
use crate::json::{find_field, lookup, lookup_spec, Json};

verus! {

/// The address set of a `getaddressesbylabel` response: the keys of the
/// `result` object.  An explicitly empty object is a valid zero-address
/// result; a missing or non-object `result` is a protocol violation.
pub open spec fn resolve_decoded(v: Json) -> Result<Seq<Seq<char>>, PipelineError> {
    match v {
        Json::Obj(fields) => match lookup_spec(fields@, "result"@) {
            Some(Json::Obj(m)) => Ok(m@.map(|i: int, f: (String, Json)| f.0@)),
            _ => Err(PipelineError::MalformedResponse),
        },
        _ => Err(PipelineError::MalformedResponse),
    }
}

/// Extracts the addresses of a `getaddressesbylabel` response.
pub fn decode_addresses(v: &Json) -> (r: Result<Vec<String>, PipelineError>)
    ensures
        match r {
            Ok(a) => resolve_decoded(*v) == Ok::<Seq<Seq<char>>, PipelineError>(a.deep_view()),
            Err(e) => resolve_decoded(*v) == Err::<Seq<Seq<char>>, PipelineError>(e),
        },
{
    match v {
        Json::Obj(fields) => match lookup(fields, "result") {
            Some(Json::Obj(m)) => {
                let ghost keys = m@.map(|i: int, f: (String, Json)| f.0@);
                let n = m.len();
                let mut out: Vec<String> = Vec::new();
                let mut i: usize = 0;
                while i < n
                    invariant
                        i <= n,
                        n == m@.len(),
                        out@.len() == i,
                        forall|j: int| 0 <= j < i ==> out@[j]@ == m@[j].0@,
                    decreases n - i,
                {
                    out.push(m[i].0.clone());
                    i += 1;
                }
                proof {
                    assert(out.deep_view() =~= keys);
                }
                Ok(out)
            },
            _ => Err(PipelineError::MalformedResponse),
        },
        _ => Err(PipelineError::MalformedResponse),
    }
}

/// The unspent-output sequence of a `listunspent` response: the elements
/// of the `result` array, as reported and in order.
pub open spec fn unspent_decoded(v: Json) -> Result<Seq<Json>, PipelineError> {
    match v {
        Json::Obj(fields) => match lookup_spec(fields@, "result"@) {
            Some(Json::Arr(items)) => Ok(items@),
            _ => Err(PipelineError::MalformedResponse),
        },
        _ => Err(PipelineError::MalformedResponse),
    }
}

/// Extracts the unspent outputs of a `listunspent` response.
pub fn decode_unspent(v: Json) -> (r: Result<Vec<Json>, PipelineError>)
    ensures
        match r {
            Ok(items) => unspent_decoded(v) == Ok::<Seq<Json>, PipelineError>(items@),
            Err(e) => unspent_decoded(v) == Err::<Seq<Json>, PipelineError>(e),
        },
{
    match v {
        Json::Obj(fields) => {
            let mut fields = fields;
            match find_field(&fields, "result") {
                Some(i) => {
                    let field = fields.swap_remove(i);
                    match field.1 {
                        Json::Arr(items) => Ok(items),
                        _ => Err(PipelineError::MalformedResponse),
                    }
                },
                None => Err(PipelineError::MalformedResponse),
            }
        },
        _ => Err(PipelineError::MalformedResponse),
    }
}

/// The string payload of a response: a `result` field holding a string.
pub open spec fn result_str(v: Json) -> Option<Seq<char>> {
    match v {
        Json::Obj(fields) => match lookup_spec(fields@, "result"@) {
            Some(Json::Str(s)) => Some(s@),
            _ => None,
        },
        _ => None,
    }
}

/// Extracts a plain string `result`, as `createrawtransaction` and
/// `sendrawtransaction` return one.
pub fn decode_result_str(v: &Json) -> (r: Option<String>)
    ensures
        match r {
            Some(s) => result_str(*v) == Some(s@),
            None => result_str(*v) is None,
        },
{
    match v {
        Json::Obj(fields) => match lookup(fields, "result") {
            Some(Json::Str(s)) => Some(s.clone()),
            _ => None,
        },
        _ => None,
    }
}

/// The signed-transaction hex of a `signrawtransactionwithwallet`
/// response: the `hex` string inside the `result` object.
pub open spec fn result_hex(v: Json) -> Option<Seq<char>> {
    match v {
        Json::Obj(fields) => match lookup_spec(fields@, "result"@) {
            Some(Json::Obj(m)) => match lookup_spec(m@, "hex"@) {
                Some(Json::Str(s)) => Some(s@),
                _ => None,
            },
            _ => None,
        },
        _ => None,
    }
}

/// Extracts the signed transaction hex of a signing response.
pub fn decode_result_hex(v: &Json) -> (r: Option<String>)
    ensures
        match r {
            Some(s) => result_hex(*v) == Some(s@),
            None => result_hex(*v) is None,
        },
{
    match v {
        Json::Obj(fields) => match lookup(fields, "result") {
            Some(Json::Obj(m)) => match lookup(m, "hex") {
                Some(Json::Str(s)) => Some(s.clone()),
                _ => None,
            },
            _ => None,
        },
        _ => None,
    }
}

/// One transaction input of the sweep: the funding transaction id and the
/// output index within it.
#[derive(Debug)]
pub struct TxInput {
    pub txid: String,
    pub vout: u64,
}

/// The abstract content of a sequence of inputs.
pub open spec fn inputs_view(inputs: Seq<TxInput>) -> Seq<(Seq<char>, u64)> {
    inputs.map(|i: int, t: TxInput| (t.txid@, t.vout))
}

/// What one reported unspent output must hold: a `txid` string, an
/// integer `vout` and a decimal `amount`, the amount in range.
pub open spec fn utxo_decoded(item: Json) -> Option<(Seq<char>, u64, u64)> {
    match item {
        Json::Obj(fields) => match (
            lookup_spec(fields@, "txid"@),
            lookup_spec(fields@, "vout"@),
            lookup_spec(fields@, "amount"@),
        ) {
            (Some(Json::Str(tx)), Some(Json::Num(vo)), Some(Json::Num(am))) => match (
                parse_index_spec(vo@),
                parse_amount_spec(am@),
            ) {
                (Some(vi), Some(ai)) => Some((tx@, vi, ai)),
                _ => None,
            },
            _ => None,
        },
        _ => None,
    }
}

/// Reads one reported unspent output.
pub fn decode_utxo(item: &Json) -> (r: Option<(String, u64, u64)>)
    ensures
        match r {
            Some(u) => utxo_decoded(*item) == Some((u.0@, u.1, u.2)),
            None => utxo_decoded(*item) is None,
        },
{
    match item {
        Json::Obj(fields) => {
            let tx = match lookup(fields, "txid") {
                Some(Json::Str(s)) => s.clone(),
                _ => {
                    return None;
                },
            };
            let vo = match lookup(fields, "vout") {
                Some(Json::Num(d)) => match parse_index(d.as_str()) {
                    Some(n) => n,
                    None => {
                        return None;
                    },
                },
                _ => {
                    return None;
                },
            };
            let am = match lookup(fields, "amount") {
                Some(Json::Num(d)) => match parse_amount(d.as_str()) {
                    Some(n) => n,
                    None => {
                        return None;
                    },
                },
                _ => {
                    return None;
                },
            };
            Some((tx, vo, am))
        },
        _ => None,
    }
}

/// The summed value, in smallest units, of the valid outputs of `items`.
pub open spec fn sum_amounts(items: Seq<Json>) -> nat
    decreases items.len(),
{
    if items.len() == 0 {
        0
    } else {
        sum_amounts(items.drop_last()) + (match utxo_decoded(items.last()) {
            Some(u) => u.2 as nat,
            None => 0nat,
        })
    }
}

/// Whether every reported output has the required fields.
pub open spec fn all_utxos_valid(items: Seq<Json>) -> bool {
    forall|i: int| 0 <= i < items.len() ==> utxo_decoded(items[i]) is Some
}

/// The inputs that the valid outputs of `items` turn into.
pub open spec fn inputs_of(items: Seq<Json>) -> Seq<(Seq<char>, u64)> {
    items.map(
        |i: int, it: Json|
            match utxo_decoded(it) {
                Some(u) => (u.0, u.1),
                None => (Seq::<char>::empty(), 0u64),
            },
    )
}

/// A prefix never sums to more than the whole.
proof fn lemma_sum_prefix_le(items: Seq<Json>, i: int)
    requires
        0 <= i <= items.len(),
    ensures
        sum_amounts(items.take(i)) <= sum_amounts(items),
    decreases items.len() - i,
{
    if i < items.len() {
        lemma_sum_prefix_le(items, i + 1);
        assert(items.take(i + 1).drop_last() =~= items.take(i));
        assert(items.take(i + 1).last() == items[i]);
    } else {
        assert(items.take(i) =~= items);
    }
}

/// The local decisions of the transaction-builder stage: reject any
/// malformed or out-of-range output, reject a total that does not exceed
/// the fee, and otherwise plan to spend every output, sending the total
/// minus the fee.
pub open spec fn plan_decoded(items: Seq<Json>, fee: u64) -> Result<
    (Seq<(Seq<char>, u64)>, u64),
    PipelineError,
> {
    if !all_utxos_valid(items) || sum_amounts(items) > u64::MAX {
        Err(PipelineError::InvalidUtxo)
    } else if sum_amounts(items) <= fee {
        Err(PipelineError::InsufficientFunds)
    } else {
        Ok((inputs_of(items), (sum_amounts(items) - fee) as u64))
    }
}

/// The planned sweep: every input to spend and the value to send.
#[derive(Debug)]
pub struct TxPlan {
    pub inputs: Vec<TxInput>,
    pub send_units: u64,
}

/// Turns the reported outputs into a sweep plan for the given fee.
#[verifier::loop_isolation(false)]
pub fn prepare_plan(items: &Vec<Json>, fee: u64) -> (r: Result<TxPlan, PipelineError>)
    ensures
        match r {
            Ok(p) => plan_decoded(items@, fee) == Ok::<_, PipelineError>(
                (inputs_view(p.inputs@), p.send_units),
            ),
            Err(e) => plan_decoded(items@, fee) == Err::<(Seq<(Seq<char>, u64)>, u64),
                PipelineError,
            >(e),
        },
{
    let n = items.len();
    let mut inputs: Vec<TxInput> = Vec::new();
    let mut total: u64 = 0;
    let mut i: usize = 0;
    while i < n
        invariant
            i <= n,
            n == items@.len(),
            forall|j: int| 0 <= j < i ==> utxo_decoded(items@[j]) is Some,
            total == sum_amounts(items@.take(i as int)),
            inputs@.len() == i,
            forall|j: int|
                0 <= j < i ==> (inputs@[j].txid@, inputs@[j].vout) == (
                utxo_decoded(items@[j])->Some_0.0,
                utxo_decoded(items@[j])->Some_0.1,
                ),
        decreases n - i,
    {
        proof {
            assert(items@.take(i as int + 1).drop_last() =~= items@.take(i as int));
            assert(items@.take(i as int + 1).last() == items@[i as int]);
        }
        match decode_utxo(&items[i]) {
            None => {
                return Err(PipelineError::InvalidUtxo);
            },
            Some(u) => {
                match total.checked_add(u.2) {
                    None => {
                        proof {
                            lemma_sum_prefix_le(items@, i as int + 1);
                        }
                        return Err(PipelineError::InvalidUtxo);
                    },
                    Some(t2) => {
                        total = t2;
                        inputs.push(TxInput { txid: u.0, vout: u.1 });
                    },
                }
            },
        }
        i += 1;
    }
    proof {
        assert(items@.take(n as int) =~= items@);
    }
    if total <= fee {
        Err(PipelineError::InsufficientFunds)
    } else {
        let p = TxPlan { inputs, send_units: total - fee };
        proof {
            assert(inputs_view(p.inputs@) =~= inputs_of(items@));
        }
        Ok(p)
    }
}

} // verus!
