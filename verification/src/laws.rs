//! The behaviour the pipeline answers for, proved as laws over the
//! machine's transition function.

use vstd::prelude::*;
use crate::amount::{amount_str, lemma_amount_round_trip, parse_amount_spec};
use crate::decode::{
    all_utxos_valid,
    inputs_of,
    resolve_decoded,
    result_hex,
    result_str,
    sum_amounts,
    unspent_decoded,
};
use crate::errors::PipelineError;
use crate::json::Json;
use crate::pipeline::{step_model, Event, StateModel};
use crate::request::{create_request, send_request, sign_request, unspent_request};

verus! {

/// With every reported output well-formed and the total strictly above the
/// fee, the aggregator reply moves the run to the build stage and emits
/// exactly one build request, whose single output pays the total minus the
/// fee to the destination.
pub proof fn lemma_sufficient_funds_builds(dest: Seq<char>, fee: u64, body: Json)
    requires
        unspent_decoded(body) is Ok,
        all_utxos_valid(unspent_decoded(body)->Ok_0),
        fee < sum_amounts(unspent_decoded(body)->Ok_0),
        sum_amounts(unspent_decoded(body)->Ok_0) <= u64::MAX,
    ensures
        step_model(StateModel::Aggregating { dest, fee }, Event::Reply(body)).0
            == StateModel::Building,
        step_model(StateModel::Aggregating { dest, fee }, Event::Reply(body)).1 == Some(
            create_request(
                inputs_of(unspent_decoded(body)->Ok_0),
                dest,
                (sum_amounts(unspent_decoded(body)->Ok_0) - fee) as u64,
            ),
        ),
        // the amount text inside that request denotes the total minus the
        // fee exactly, to the smallest currency unit
        parse_amount_spec(amount_str((sum_amounts(unspent_decoded(body)->Ok_0) - fee) as u64))
            == Some((sum_amounts(unspent_decoded(body)->Ok_0) - fee) as u64),
{
    lemma_amount_round_trip((sum_amounts(unspent_decoded(body)->Ok_0) - fee) as u64);
}

/// With the total at most the fee, the aggregator reply ends the run as
/// `InsufficientFunds` and emits nothing: no build, sign or broadcast
/// request is ever produced.
pub proof fn lemma_insufficient_funds_stops(dest: Seq<char>, fee: u64, body: Json)
    requires
        unspent_decoded(body) is Ok,
        all_utxos_valid(unspent_decoded(body)->Ok_0),
        sum_amounts(unspent_decoded(body)->Ok_0) <= fee,
    ensures
        step_model(StateModel::Aggregating { dest, fee }, Event::Reply(body)).0
            == (StateModel::Failed { error: PipelineError::InsufficientFunds }),
        step_model(StateModel::Aggregating { dest, fee }, Event::Reply(body)).1 is None,
{
}

/// A label with no addresses flows through cleanly: a resolve reply with
/// an explicitly empty mapping moves the run on with an empty address
/// list, an empty unspent sequence follows, and the run ends as
/// `InsufficientFunds` over a zero total — not as a transport error.
pub proof fn lemma_zero_addresses_insufficient(
    dest: Seq<char>,
    fee: u64,
    rbody: Json,
    ubody: Json,
)
    requires
        resolve_decoded(rbody) is Ok,
        resolve_decoded(rbody)->Ok_0.len() == 0,
        unspent_decoded(ubody) is Ok,
        unspent_decoded(ubody)->Ok_0.len() == 0,
    ensures
        step_model(StateModel::Resolving { dest, fee }, Event::Reply(rbody)).0
            == (StateModel::Aggregating { dest, fee }),
        step_model(StateModel::Resolving { dest, fee }, Event::Reply(rbody)).1 == Some(
            unspent_request(Seq::<Seq<char>>::empty()),
        ),
        sum_amounts(unspent_decoded(ubody)->Ok_0) == 0,
        step_model(StateModel::Aggregating { dest, fee }, Event::Reply(ubody)).0
            == (StateModel::Failed { error: PipelineError::InsufficientFunds }),
        step_model(StateModel::Aggregating { dest, fee }, Event::Reply(ubody)).1 is None,
{
    assert(resolve_decoded(rbody)->Ok_0 =~= Seq::<Seq<char>>::empty());
    assert(all_utxos_valid(unspent_decoded(ubody)->Ok_0));
}

/// A resolve reply whose `result` mapping is missing or not an object ends
/// the run as `MalformedResponse` — distinct from a transport failure.
pub proof fn lemma_malformed_resolve(dest: Seq<char>, fee: u64, body: Json)
    requires
        resolve_decoded(body) is Err,
    ensures
        step_model(StateModel::Resolving { dest, fee }, Event::Reply(body)).0
            == (StateModel::Failed { error: PipelineError::MalformedResponse }),
        step_model(StateModel::Resolving { dest, fee }, Event::Reply(body)).0
            != (StateModel::Failed { error: PipelineError::TransportError }),
        step_model(StateModel::Resolving { dest, fee }, Event::Reply(body)).1 is None,
{
    assert(resolve_decoded(body)->Err_0 == PipelineError::MalformedResponse);
}

/// The spend races the design tolerates: a signing reply without a signed
/// blob ends the run as `SignFailed` and emits no broadcast request, and a
/// broadcast reply without a transaction id ends it as `BroadcastFailed`.
/// The loser of a double-spend race stops cleanly, with no further
/// request and no broadcast of its own.
pub proof fn lemma_spend_race_recoverable(sbody: Json, bbody: Json)
    requires
        result_hex(sbody) is None,
        result_str(bbody) is None,
    ensures
        step_model(StateModel::Signing, Event::Reply(sbody)) == (
            StateModel::Failed { error: PipelineError::SignFailed },
            None::<Seq<char>>,
        ),
        step_model(StateModel::Broadcasting, Event::Reply(bbody)) == (
            StateModel::Failed { error: PipelineError::BroadcastFailed },
            None::<Seq<char>>,
        ),
{
}

/// `Done` and `Failed` are terminal: no event moves them on or makes them
/// emit a request.
pub proof fn lemma_terminal_states(txid: Seq<char>, err: PipelineError, e: Event)
    ensures
        step_model(StateModel::Done { txid }, e) == (
            StateModel::Done { txid },
            None::<Seq<char>>,
        ),
        step_model(StateModel::Failed { error: err }, e) == (
            StateModel::Failed { error: err },
            None::<Seq<char>>,
        ),
{
}

/// After a successful build, each remaining stage hands out exactly the
/// next request, and a broadcast reply carrying a transaction id ends the
/// run as `Done` with exactly that id — the run's one success artifact.
pub proof fn lemma_remote_stages_chain(rawtx: Json, signed: Json, sent: Json)
    requires
        result_str(rawtx) is Some,
        result_hex(signed) is Some,
        result_str(sent) is Some,
    ensures
        step_model(StateModel::Building, Event::Reply(rawtx)) == (
            StateModel::Signing,
            Some(sign_request(result_str(rawtx)->Some_0)),
        ),
        step_model(StateModel::Signing, Event::Reply(signed)) == (
            StateModel::Broadcasting,
            Some(send_request(result_hex(signed)->Some_0)),
        ),
        step_model(StateModel::Broadcasting, Event::Reply(sent)) == (
            StateModel::Done { txid: result_str(sent)->Some_0 },
            None::<Seq<char>>,
        ),
{
}

} // verus!
