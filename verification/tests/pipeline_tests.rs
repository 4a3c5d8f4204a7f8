use voucher_sweep::errors::PipelineError;
use voucher_sweep::json::Json;
use voucher_sweep::pipeline::{start, step, Event, State};

fn obj(fields: Vec<(&str, Json)>) -> Json {
    Json::Obj(fields.into_iter().map(|(k, v)| (k.to_string(), v)).collect())
}

fn utxo(txid: &str, vout: &str, amount: &str) -> Json {
    obj(vec![
        ("txid", Json::Str(txid.to_string())),
        ("vout", Json::Num(vout.to_string())),
        ("amount", Json::Num(amount.to_string())),
    ])
}

fn resolve_reply(addrs: &[&str]) -> Event {
    Event::Reply(obj(vec![(
        "result",
        Json::Obj(addrs.iter().map(|a| (a.to_string(), Json::Null)).collect()),
    )]))
}

fn unspent_reply(items: Vec<Json>) -> Event {
    Event::Reply(obj(vec![("result", Json::Arr(items))]))
}

fn failed_error(state: &State) -> PipelineError {
    match state {
        State::Failed { error } => *error,
        other => panic!("expected a failed state, got {:?}", other),
    }
}

#[test]
fn full_run_broadcasts_sweep() {
    let (state, body) = start("ABC123", "destAddr".to_string(), 10_000);
    assert!(matches!(state, State::Resolving { .. }));
    assert_eq!(
        body,
        "{\"jsonrpc\":\"1.0\",\"id\":\"listaddressesbylabel\",\"method\":\"getaddressesbylabel\",\"params\":[\"ABC123\"]}"
    );

    let (state, action) = step(state, resolve_reply(&["addr1", "addr2"]));
    assert!(matches!(state, State::Aggregating { .. }));
    assert_eq!(
        action.as_deref(),
        Some(
            "{\"jsonrpc\":\"1.0\",\"id\":\"listunspent\",\"method\":\"listunspent\",\"params\":[0,9999999,[\"addr1\",\"addr2\"]]}"
        )
    );

    let (state, action) = step(
        state,
        unspent_reply(vec![utxo("tx1", "0", "0.0005"), utxo("tx2", "1", "0.0008")]),
    );
    assert!(matches!(state, State::Building));
    assert_eq!(
        action.as_deref(),
        Some(
            "{\"jsonrpc\":\"1.0\",\"id\":\"createrawtransaction\",\"method\":\"createrawtransaction\",\"params\":[[{\"txid\":\"tx1\",\"vout\":0},{\"txid\":\"tx2\",\"vout\":1}],{\"destAddr\":0.00120000}]}"
        )
    );

    let (state, action) = step(state, Event::Reply(obj(vec![("result", Json::Str("rawhex".to_string()))])));
    assert!(matches!(state, State::Signing));
    assert_eq!(
        action.as_deref(),
        Some(
            "{\"jsonrpc\":\"1.0\",\"id\":\"signrawtransactionwithwallet\",\"method\":\"signrawtransactionwithwallet\",\"params\":[\"rawhex\"]}"
        )
    );

    let (state, action) = step(
        state,
        Event::Reply(obj(vec![("result", obj(vec![("hex", Json::Str("signedhex".to_string()))]))])),
    );
    assert!(matches!(state, State::Broadcasting));
    assert_eq!(
        action.as_deref(),
        Some(
            "{\"jsonrpc\":\"1.0\",\"id\":\"sendrawtransaction\",\"method\":\"sendrawtransaction\",\"params\":[\"signedhex\"]}"
        )
    );

    let (state, action) = step(state, Event::Reply(obj(vec![("result", Json::Str("txid123".to_string()))])));
    assert!(action.is_none());
    match state {
        State::Done { txid } => assert_eq!(txid, "txid123"),
        other => panic!("expected the run to finish, got {:?}", other),
    }
}

#[test]
fn insufficient_funds_stops_before_build() {
    let (state, _body) = start("ABC123", "destAddr".to_string(), 10_000);
    let (state, _action) = step(state, resolve_reply(&["addr1", "addr2"]));
    let (state, action) = step(state, unspent_reply(vec![utxo("tx1", "0", "0.00005")]));
    assert_eq!(failed_error(&state), PipelineError::InsufficientFunds);
    // no build, sign or broadcast request is emitted
    assert!(action.is_none());
}

#[test]
fn zero_addresses_end_as_insufficient_funds() {
    let (state, _body) = start("EMPTY", "destAddr".to_string(), 10_000);
    let (state, action) = step(state, resolve_reply(&[]));
    assert!(matches!(state, State::Aggregating { .. }));
    assert_eq!(
        action.as_deref(),
        Some(
            "{\"jsonrpc\":\"1.0\",\"id\":\"listunspent\",\"method\":\"listunspent\",\"params\":[0,9999999,[]]}"
        )
    );
    let (state, action) = step(state, unspent_reply(vec![]));
    assert_eq!(failed_error(&state), PipelineError::InsufficientFunds);
    assert!(action.is_none());
}

#[test]
fn malformed_resolve_is_not_a_transport_error() {
    let (state, _body) = start("ABC123", "destAddr".to_string(), 10_000);
    let (state, action) = step(state, Event::Reply(obj(vec![("error", Json::Null)])));
    assert_eq!(failed_error(&state), PipelineError::MalformedResponse);
    assert_ne!(failed_error(&state), PipelineError::TransportError);
    assert!(action.is_none());
}

#[test]
fn transport_failure_fails_the_run() {
    let (state, _body) = start("ABC123", "destAddr".to_string(), 10_000);
    let (state, action) = step(state, Event::TransportFailed);
    assert_eq!(failed_error(&state), PipelineError::TransportError);
    assert!(action.is_none());
}

#[test]
fn build_without_blob_fails_as_build_failed() {
    let (state, action) = step(State::Building, Event::Reply(obj(vec![("result", Json::Null)])));
    assert_eq!(failed_error(&state), PipelineError::BuildFailed);
    assert!(action.is_none());
}

#[test]
fn sign_race_loser_fails_without_broadcast() {
    // a double-spend race surfaces as a signing reply without a signed blob
    let (state, action) = step(
        State::Signing,
        Event::Reply(obj(vec![("result", obj(vec![("complete", Json::Bool(false))]))])),
    );
    assert_eq!(failed_error(&state), PipelineError::SignFailed);
    assert!(action.is_none());
}

#[test]
fn broadcast_race_loser_fails_cleanly() {
    let (state, action) = step(State::Broadcasting, Event::Reply(obj(vec![("result", Json::Null)])));
    assert_eq!(failed_error(&state), PipelineError::BroadcastFailed);
    assert!(action.is_none());
}

#[test]
fn terminal_states_stay_put() {
    let (state, action) = step(
        State::Done { txid: "txid123".to_string() },
        Event::TransportFailed,
    );
    assert!(action.is_none());
    match state {
        State::Done { txid } => assert_eq!(txid, "txid123"),
        other => panic!("a finished run must stay finished, got {:?}", other),
    }
    let (state, action) = step(
        State::Failed { error: PipelineError::SignFailed },
        Event::Reply(Json::Null),
    );
    assert!(action.is_none());
    assert_eq!(failed_error(&state), PipelineError::SignFailed);
}
