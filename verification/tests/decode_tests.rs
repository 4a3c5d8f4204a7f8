use voucher_sweep::decode::{
    decode_addresses, decode_result_hex, decode_result_str, decode_unspent, decode_utxo,
    prepare_plan,
};
use voucher_sweep::errors::PipelineError;
use voucher_sweep::json::Json;

fn obj(fields: Vec<(&str, Json)>) -> Json {
    Json::Obj(fields.into_iter().map(|(k, v)| (k.to_string(), v)).collect())
}

fn utxo(txid: &str, vout: &str, amount: &str) -> Json {
    obj(vec![
        ("txid", Json::Str(txid.to_string())),
        ("vout", Json::Num(vout.to_string())),
        ("amount", Json::Num(amount.to_string())),
    ])
}

#[test]
fn addresses_extracted_from_result_keys() {
    let v = obj(vec![(
        "result",
        obj(vec![("addr1", Json::Null), ("addr2", Json::Null)]),
    )]);
    assert_eq!(decode_addresses(&v).unwrap(), vec!["addr1".to_string(), "addr2".to_string()]);
}

#[test]
fn empty_mapping_is_zero_addresses() {
    let v = obj(vec![("result", obj(vec![]))]);
    assert_eq!(decode_addresses(&v).unwrap(), Vec::<String>::new());
}

#[test]
fn missing_result_is_malformed() {
    let v = obj(vec![("error", Json::Null)]);
    assert_eq!(decode_addresses(&v).unwrap_err(), PipelineError::MalformedResponse);
}

#[test]
fn non_object_result_is_malformed() {
    let v = obj(vec![("result", Json::Null)]);
    assert_eq!(decode_addresses(&v).unwrap_err(), PipelineError::MalformedResponse);
    let w = Json::Str("nope".to_string());
    assert_eq!(decode_addresses(&w).unwrap_err(), PipelineError::MalformedResponse);
}

#[test]
fn unspent_array_passes_through() {
    let v = obj(vec![("result", Json::Arr(vec![utxo("tx1", "0", "0.0005")]))]);
    let items = decode_unspent(v).unwrap();
    assert_eq!(items.len(), 1);
}

#[test]
fn unspent_non_array_is_malformed() {
    let v = obj(vec![("result", Json::Str("x".to_string()))]);
    assert_eq!(decode_unspent(v).unwrap_err(), PipelineError::MalformedResponse);
    let w = obj(vec![]);
    assert_eq!(decode_unspent(w).unwrap_err(), PipelineError::MalformedResponse);
}

#[test]
fn utxo_fields_extracted() {
    let u = decode_utxo(&utxo("tx1", "3", "0.0005")).unwrap();
    assert_eq!(u.0, "tx1");
    assert_eq!(u.1, 3);
    assert_eq!(u.2, 50_000);
}

#[test]
fn utxo_missing_or_mistyped_fields_rejected() {
    assert!(decode_utxo(&obj(vec![
        ("vout", Json::Num("0".to_string())),
        ("amount", Json::Num("0.1".to_string())),
    ]))
    .is_none());
    assert!(decode_utxo(&obj(vec![
        ("txid", Json::Str("tx1".to_string())),
        ("vout", Json::Str("0".to_string())),
        ("amount", Json::Num("0.1".to_string())),
    ]))
    .is_none());
    assert!(decode_utxo(&obj(vec![
        ("txid", Json::Str("tx1".to_string())),
        ("vout", Json::Num("0.5".to_string())),
        ("amount", Json::Num("0.1".to_string())),
    ]))
    .is_none());
    assert!(decode_utxo(&Json::Null).is_none());
}

#[test]
fn plan_spends_all_outputs_minus_fee() {
    let items = vec![utxo("tx1", "0", "0.0005"), utxo("tx2", "1", "0.0008")];
    let plan = prepare_plan(&items, 10_000).unwrap();
    assert_eq!(plan.send_units, 120_000);
    assert_eq!(plan.inputs.len(), 2);
    assert_eq!(plan.inputs[0].txid, "tx1");
    assert_eq!(plan.inputs[0].vout, 0);
    assert_eq!(plan.inputs[1].txid, "tx2");
    assert_eq!(plan.inputs[1].vout, 1);
}

#[test]
fn plan_rejects_total_at_or_below_fee() {
    let items = vec![utxo("tx1", "0", "0.00005")];
    assert_eq!(prepare_plan(&items, 10_000).unwrap_err(), PipelineError::InsufficientFunds);
    // exactly the fee is still insufficient
    let items = vec![utxo("tx1", "0", "0.0001")];
    assert_eq!(prepare_plan(&items, 10_000).unwrap_err(), PipelineError::InsufficientFunds);
}

#[test]
fn plan_empty_set_is_insufficient() {
    assert_eq!(prepare_plan(&Vec::new(), 0).unwrap_err(), PipelineError::InsufficientFunds);
}

#[test]
fn plan_rejects_invalid_output() {
    let items = vec![utxo("tx1", "0", "0.0005"), Json::Null];
    assert_eq!(prepare_plan(&items, 0).unwrap_err(), PipelineError::InvalidUtxo);
}

#[test]
fn plan_rejects_unrepresentable_total() {
    let items = vec![
        utxo("tx1", "0", "184467440737.09551615"),
        utxo("tx2", "1", "0.00000001"),
    ];
    assert_eq!(prepare_plan(&items, 0).unwrap_err(), PipelineError::InvalidUtxo);
}

#[test]
fn result_string_decoding() {
    let v = obj(vec![("result", Json::Str("rawhex".to_string()))]);
    assert_eq!(decode_result_str(&v).unwrap(), "rawhex");
    assert!(decode_result_str(&obj(vec![("result", Json::Null)])).is_none());
    assert!(decode_result_str(&obj(vec![])).is_none());
}

#[test]
fn signed_hex_decoding() {
    let v = obj(vec![(
        "result",
        obj(vec![("hex", Json::Str("signedhex".to_string())), ("complete", Json::Bool(true))]),
    )]);
    assert_eq!(decode_result_hex(&v).unwrap(), "signedhex");
    assert!(decode_result_hex(&obj(vec![("result", obj(vec![]))])).is_none());
    assert!(decode_result_hex(&obj(vec![("result", Json::Str("x".to_string()))])).is_none());
}
