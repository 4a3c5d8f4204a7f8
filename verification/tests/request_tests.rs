use voucher_sweep::decode::TxInput;
use voucher_sweep::request::{
    build_create_request, build_new_address_request, build_resolve_request, build_send_request,
    build_sign_request, build_unspent_request,
};

#[test]
fn resolve_request_exact_body() {
    let body = build_resolve_request("ABC123");
    assert_eq!(
        body,
        "{\"jsonrpc\":\"1.0\",\"id\":\"listaddressesbylabel\",\"method\":\"getaddressesbylabel\",\"params\":[\"ABC123\"]}"
    );
}

#[test]
fn resolve_request_is_valid_json() {
    let body = build_resolve_request("ABC123");
    let v: serde_json::Value = serde_json::from_str(&body).unwrap();
    assert_eq!(v["jsonrpc"], "1.0");
    assert_eq!(v["method"], "getaddressesbylabel");
    assert_eq!(v["params"][0], "ABC123");
}

#[test]
fn resolve_request_escapes_label() {
    // a hostile label round-trips through JSON escaping unchanged
    let label = "a\"b\\c\nd\te";
    let body = build_resolve_request(label);
    let v: serde_json::Value = serde_json::from_str(&body).unwrap();
    assert_eq!(v["params"][0].as_str().unwrap(), label);
}

#[test]
fn unspent_request_exact_body() {
    let addrs = vec!["addr1".to_string(), "addr2".to_string()];
    let body = build_unspent_request(&addrs);
    assert_eq!(
        body,
        "{\"jsonrpc\":\"1.0\",\"id\":\"listunspent\",\"method\":\"listunspent\",\"params\":[0,9999999,[\"addr1\",\"addr2\"]]}"
    );
}

#[test]
fn unspent_request_empty_addresses() {
    let body = build_unspent_request(&Vec::new());
    assert_eq!(
        body,
        "{\"jsonrpc\":\"1.0\",\"id\":\"listunspent\",\"method\":\"listunspent\",\"params\":[0,9999999,[]]}"
    );
    let v: serde_json::Value = serde_json::from_str(&body).unwrap();
    assert_eq!(v["params"][2].as_array().unwrap().len(), 0);
}

#[test]
fn unspent_request_scan_range_is_unbounded() {
    let addrs = vec!["addr1".to_string()];
    let body = build_unspent_request(&addrs);
    let v: serde_json::Value = serde_json::from_str(&body).unwrap();
    assert_eq!(v["params"][0], 0);
    assert_eq!(v["params"][1], 9999999);
}

#[test]
fn create_request_exact_body() {
    let inputs = vec![
        TxInput { txid: "tx1".to_string(), vout: 0 },
        TxInput { txid: "tx2".to_string(), vout: 1 },
    ];
    let body = build_create_request(&inputs, "destAddr", 120_000);
    assert_eq!(
        body,
        "{\"jsonrpc\":\"1.0\",\"id\":\"createrawtransaction\",\"method\":\"createrawtransaction\",\"params\":[[{\"txid\":\"tx1\",\"vout\":0},{\"txid\":\"tx2\",\"vout\":1}],{\"destAddr\":0.00120000}]}"
    );
}

#[test]
fn create_request_output_value_is_total_minus_fee() {
    let inputs = vec![
        TxInput { txid: "tx1".to_string(), vout: 0 },
        TxInput { txid: "tx2".to_string(), vout: 1 },
    ];
    let body = build_create_request(&inputs, "destAddr", 120_000);
    let v: serde_json::Value = serde_json::from_str(&body).unwrap();
    let ins = v["params"][0].as_array().unwrap();
    assert_eq!(ins.len(), 2);
    assert_eq!(ins[0]["txid"], "tx1");
    assert_eq!(ins[0]["vout"], 0);
    assert_eq!(ins[1]["txid"], "tx2");
    assert_eq!(ins[1]["vout"], 1);
    assert_eq!(v["params"][1]["destAddr"].as_f64().unwrap(), 0.0012);
}

#[test]
fn sign_request_exact_body() {
    let body = build_sign_request("rawhex");
    assert_eq!(
        body,
        "{\"jsonrpc\":\"1.0\",\"id\":\"signrawtransactionwithwallet\",\"method\":\"signrawtransactionwithwallet\",\"params\":[\"rawhex\"]}"
    );
}

#[test]
fn send_request_exact_body() {
    let body = build_send_request("signedhex");
    assert_eq!(
        body,
        "{\"jsonrpc\":\"1.0\",\"id\":\"sendrawtransaction\",\"method\":\"sendrawtransaction\",\"params\":[\"signedhex\"]}"
    );
}

#[test]
fn new_address_request_exact_body() {
    let body = build_new_address_request("CODE42");
    assert_eq!(
        body,
        "{\"jsonrpc\":\"1.0\",\"id\":\"curltest\",\"method\":\"getnewaddress\",\"params\":[\"CODE42\"]}"
    );
}

#[test]
fn control_characters_are_escaped() {
    let body = build_resolve_request("\u{1}\u{1f}");
    assert!(body.contains("\\u0001"));
    assert!(body.contains("\\u001f"));
    let v: serde_json::Value = serde_json::from_str(&body).unwrap();
    assert_eq!(v["params"][0].as_str().unwrap(), "\u{1}\u{1f}");
}
