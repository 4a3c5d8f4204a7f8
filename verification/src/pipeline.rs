//! The redemption pipeline as an explicit state machine.
//!
//! One voucher redemption is a fixed chain of wallet calls: resolve the
//! label, list the unspent outputs, then create, sign and broadcast the
//! sweep transaction.  Every decision of that chain lives in [`step`]: it
//! takes the machine's state and the observed reply, and returns the next
//! state together with the body of the next request to post, if any.  The
//! caller owns only the HTTP traffic; it can neither reorder the stages
//! nor continue past a failure, because each body is handed out one
//! transition at a time and `Done` and `Failed` are terminal.

use vstd::prelude::*;
use crate::decode::{
    decode_addresses,
    decode_result_hex,
    decode_result_str,
    decode_unspent,
    plan_decoded,
    prepare_plan,
    resolve_decoded,
    result_hex,
    result_str,
    unspent_decoded,
};
use crate::errors::PipelineError;
use crate::json::Json;
use crate::request::{
    build_create_request,
    build_resolve_request,
    build_send_request,
    build_sign_request,
    build_unspent_request,
    create_request,
    resolve_request,
    send_request,
    sign_request,
    unspent_request,
};

verus! {

/// The fee used when the caller supplies none: one ten-thousandth of a coin.
pub const DEFAULT_FEE_UNITS: u64 = 10_000;

/// What one pipeline run observes in return for a posted request.
#[derive(Debug)]
pub enum Event {
    /// The wallet node answered with this JSON body.
    Reply(Json),
    /// The HTTP call could not be completed.
    TransportFailed,
}

/// Where one pipeline run stands: which reply it awaits, or how it ended.
/// `Done` and `Failed` are terminal.
#[derive(Debug)]
pub enum State {
    /// Awaiting the `getaddressesbylabel` reply.
    Resolving { dest: String, fee: u64 },
    /// Awaiting the `listunspent` reply.
    Aggregating { dest: String, fee: u64 },
    /// Awaiting the `createrawtransaction` reply.
    Building,
    /// Awaiting the `signrawtransactionwithwallet` reply.
    Signing,
    /// Awaiting the `sendrawtransaction` reply.
    Broadcasting,
    /// The sweep was broadcast under this transaction id.
    Done { txid: String },
    /// The run ended without a broadcast.
    Failed { error: PipelineError },
}

/// The abstract content of a [`State`].
pub enum StateModel {
    Resolving { dest: Seq<char>, fee: u64 },
    Aggregating { dest: Seq<char>, fee: u64 },
    Building,
    Signing,
    Broadcasting,
    Done { txid: Seq<char> },
    Failed { error: PipelineError },
}

impl View for State {
    type V = StateModel;

    open spec fn view(&self) -> StateModel {
        match self {
            State::Resolving { dest, fee } => StateModel::Resolving { dest: dest@, fee: *fee },
            State::Aggregating { dest, fee } => StateModel::Aggregating { dest: dest@, fee: *fee },
            State::Building => StateModel::Building,
            State::Signing => StateModel::Signing,
            State::Broadcasting => StateModel::Broadcasting,
            State::Done { txid } => StateModel::Done { txid: txid@ },
            State::Failed { error } => StateModel::Failed { error: *error },
        }
    }
}

/// The abstract content of an optional request body.
pub open spec fn opt_view(o: Option<String>) -> Option<Seq<char>> {
    match o {
        Some(s) => Some(s@),
        None => None,
    }
}

/// The machine's transition function: the successor state, and the body of
/// the request to post next, if the run goes on.
///
/// A transport failure ends any non-terminal run as `TransportError`.  A
/// reply is decoded by the stage that awaited it; a decode failure ends
/// the run with that stage's error and emits nothing, so no later stage
/// is ever attempted after a failure.
pub open spec fn step_model(s: StateModel, e: Event) -> (StateModel, Option<Seq<char>>) {
    match e {
        Event::TransportFailed => (
            match s {
                StateModel::Done { txid } => StateModel::Done { txid },
                StateModel::Failed { error } => StateModel::Failed { error },
                _ => StateModel::Failed { error: PipelineError::TransportError },
            },
            None,
        ),
        Event::Reply(body) => match s {
            StateModel::Resolving { dest, fee } => match resolve_decoded(body) {
                Ok(addrs) => (
                    StateModel::Aggregating { dest, fee },
                    Some(unspent_request(addrs)),
                ),
                Err(err) => (StateModel::Failed { error: err }, None),
            },
            StateModel::Aggregating { dest, fee } => match unspent_decoded(body) {
                Ok(items) => match plan_decoded(items, fee) {
                    Ok(plan) => (
                        StateModel::Building,
                        Some(create_request(plan.0, dest, plan.1)),
                    ),
                    Err(err) => (StateModel::Failed { error: err }, None),
                },
                Err(err) => (StateModel::Failed { error: err }, None),
            },
            StateModel::Building => match result_str(body) {
                Some(rawtx) => (StateModel::Signing, Some(sign_request(rawtx))),
                None => (StateModel::Failed { error: PipelineError::BuildFailed }, None),
            },
            StateModel::Signing => match result_hex(body) {
                Some(signed) => (StateModel::Broadcasting, Some(send_request(signed))),
                None => (StateModel::Failed { error: PipelineError::SignFailed }, None),
            },
            StateModel::Broadcasting => match result_str(body) {
                Some(txid) => (StateModel::Done { txid }, None),
                None => (StateModel::Failed { error: PipelineError::BroadcastFailed }, None),
            },
            StateModel::Done { txid } => (StateModel::Done { txid }, None),
            StateModel::Failed { error } => (StateModel::Failed { error }, None),
        },
    }
}

/// Begins a run: the resolve request for `label`, and the state awaiting
/// its reply.  The destination and fee are fixed for the whole run.
pub fn start(label: &str, dest: String, fee: u64) -> (r: (State, String))
    ensures
        r.0@ == (StateModel::Resolving { dest: dest@, fee }),
        r.1@ == resolve_request(label@),
{
    let body = build_resolve_request(label);
    (State::Resolving { dest, fee }, body)
}

/// Feeds one observed event into the machine.
pub fn step(state: State, event: Event) -> (r: (State, Option<String>))
    ensures
        r.0@ == step_model(state@, event).0,
        opt_view(r.1) == step_model(state@, event).1,
{
    match event {
        Event::TransportFailed => {
            let s2 = match state {
                State::Done { txid } => State::Done { txid },
                State::Failed { error } => State::Failed { error },
                _ => State::Failed { error: PipelineError::TransportError },
            };
            (s2, None)
        },
        Event::Reply(body) => match state {
            State::Resolving { dest, fee } => match decode_addresses(&body) {
                Ok(addrs) => {
                    let req = build_unspent_request(&addrs);
                    (State::Aggregating { dest, fee }, Some(req))
                },
                Err(error) => (State::Failed { error }, None),
            },
            State::Aggregating { dest, fee } => match decode_unspent(body) {
                Ok(items) => match prepare_plan(&items, fee) {
                    Ok(plan) => {
                        let req = build_create_request(
                            &plan.inputs,
                            dest.as_str(),
                            plan.send_units,
                        );
                        (State::Building, Some(req))
                    },
                    Err(error) => (State::Failed { error }, None),
                },
                Err(error) => (State::Failed { error }, None),
            },
            State::Building => match decode_result_str(&body) {
                Some(rawtx) => {
                    let req = build_sign_request(rawtx.as_str());
                    (State::Signing, Some(req))
                },
                None => (State::Failed { error: PipelineError::BuildFailed }, None),
            },
            State::Signing => match decode_result_hex(&body) {
                Some(signed) => {
                    let req = build_send_request(signed.as_str());
                    (State::Broadcasting, Some(req))
                },
                None => (State::Failed { error: PipelineError::SignFailed }, None),
            },
            State::Broadcasting => match decode_result_str(&body) {
                Some(txid) => (State::Done { txid }, None),
                None => (State::Failed { error: PipelineError::BroadcastFailed }, None),
            },
            State::Done { txid } => (State::Done { txid }, None),
            State::Failed { error } => (State::Failed { error }, None),
        },
    }
}

} // verus!
