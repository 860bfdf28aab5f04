use jelly_wasm::link_error_payload;
use jelly_wasm::marshal_error;
use jelly_wasm::parse_func_candid;
use jelly_wasm::parse_service_candid;
use jelly_wasm::wrap_outcome;
use jelly_wasm::JellyResult;

fn decode_envelope(s: &str) -> (String, String) {
    let v: serde_json::Value = serde_json::from_str(s).expect("envelope must be valid JSON");
    let obj = v.as_object().expect("envelope must be a JSON object");
    assert_eq!(obj.len(), 1, "exactly one of ok/err must be populated");
    if let Some(p) = obj.get("ok") {
        ("ok".to_string(), p.as_str().expect("payload must be a string").to_string())
    } else {
        let p = obj.get("err").expect("envelope key must be ok or err");
        ("err".to_string(), p.as_str().expect("payload must be a string").to_string())
    }
}

#[test]
fn envelope_ok_plain() {
    let s = wrap_outcome(Ok("hello".to_string()));
    assert_eq!(s, "{\"ok\":\"hello\"}");
    let (kind, payload) = decode_envelope(&s);
    assert_eq!(kind, "ok");
    assert_eq!(payload, "hello");
}

#[test]
fn envelope_err_plain() {
    let s = wrap_outcome(Err("boom".to_string()));
    assert_eq!(s, "{\"err\":\"boom\"}");
    let (kind, payload) = decode_envelope(&s);
    assert_eq!(kind, "err");
    assert_eq!(payload, "boom");
}

#[test]
fn envelope_escaping_matches_standard_json() {
    let payloads = [
        "".to_string(),
        "plain".to_string(),
        "a\"b".to_string(),
        "back\\slash".to_string(),
        "line\nfeed\ttab\rreturn".to_string(),
        "\u{0008}\u{000C}".to_string(),
        "\u{0000}\u{0001}\u{001F}\u{0010}".to_string(),
        "\u{007F} not escaped".to_string(),
        "unicode: \u{00E9}\u{4E2D}\u{1F600}".to_string(),
        "{\"a\":1}".to_string(),
    ];
    for p in payloads.iter() {
        let expected = format!("{{\"ok\":{}}}", serde_json::to_string(p).unwrap());
        assert_eq!(wrap_outcome(Ok(p.clone())), expected);
        let expected_err = format!("{{\"err\":{}}}", serde_json::to_string(p).unwrap());
        assert_eq!(wrap_outcome(Err(p.clone())), expected_err);
    }
}

#[test]
fn envelope_control_chars_exact() {
    let s = wrap_outcome(Ok("\u{0001}\u{001F}".to_string()));
    assert_eq!(s, "{\"ok\":\"\\u0001\\u001f\"}");
}

#[test]
fn envelope_round_trips_through_json_decoder() {
    let payload = "mixed \"q\" \\ \n \u{0003} \u{4E2D}".to_string();
    let s = wrap_outcome(Ok(payload.clone()));
    let (kind, decoded) = decode_envelope(&s);
    assert_eq!(kind, "ok");
    assert_eq!(decoded, payload);
}

#[test]
fn jelly_result_tags() {
    let ok = JellyResult::from_outcome(Ok("v".to_string()));
    assert_eq!(ok.to_json(), "{\"ok\":\"v\"}");
    let err = JellyResult::from_outcome(Err("e".to_string()));
    assert_eq!(err.to_json(), "{\"err\":\"e\"}");
}

#[test]
fn marshal_error_exact_form() {
    assert_eq!(marshal_error("parse components", "oops"), "parse components failed: oops");
    assert!(!marshal_error("x", "").is_empty());
}

#[test]
fn link_error_passthrough_stays_structured() {
    let structured = "{\"kind\":\"missing\",\"id\":3}".to_string();
    let payload = link_error_payload(Ok(structured.clone()));
    assert_eq!(payload, structured);
    let v: serde_json::Value = serde_json::from_str(&payload).unwrap();
    assert!(v.is_object(), "a passed-through link error must stay machine-readable");
}

#[test]
fn link_error_serialization_failure_is_flat() {
    let payload = link_error_payload(Err("no serializer".to_string()));
    assert_eq!(payload, "stringify link error failed: no serializer");
}

#[test]
fn parse_service_candid_minimal_round_trip() {
    let s = parse_service_candid("service : { f : () -> () }");
    let (kind, payload) = decode_envelope(&s);
    assert_eq!(kind, "ok");
    let v: serde_json::Value = serde_json::from_str(&payload).unwrap();
    let methods = v.get("methods").expect("service has methods").as_array().unwrap();
    assert_eq!(methods.len(), 1);
    let entry = methods[0].as_array().expect("a method entry is a name and a function");
    assert_eq!(entry[0].as_str().unwrap(), "f");
    let func = entry[1].as_object().unwrap();
    assert!(func.get("args").map_or(true, |a| a.as_array().unwrap().is_empty()));
    assert!(func.get("rets").map_or(true, |r| r.as_array().unwrap().is_empty()));
}

#[test]
fn parse_func_candid_equals_wrapped_service_parse() {
    let from_func = parse_func_candid("f : () -> ()");
    let from_service = parse_service_candid("service : { f : () -> () }");
    let (kind_f, payload_f) = decode_envelope(&from_func);
    let (kind_s, payload_s) = decode_envelope(&from_service);
    assert_eq!(kind_f, "ok");
    assert_eq!(kind_s, "ok");
    let vf: serde_json::Value = serde_json::from_str(&payload_f).unwrap();
    let vs: serde_json::Value = serde_json::from_str(&payload_s).unwrap();
    assert_eq!(vf, vs);
}

#[test]
fn parse_service_candid_rejects_malformed_text() {
    for bad in ["service : {", "not candid at all", "service : { f : ("] {
        let s = parse_service_candid(bad);
        let (kind, payload) = decode_envelope(&s);
        assert_eq!(kind, "err", "malformed input must yield an err envelope");
        assert!(!payload.is_empty(), "the diagnostic must not be empty");
    }
}

#[test]
fn operations_are_idempotent() {
    let a = parse_service_candid("service : { g : (text) -> (nat) query }");
    let b = parse_service_candid("service : { g : (text) -> (nat) query }");
    assert_eq!(a, b);
    let c = parse_func_candid("h : () -> ()");
    let d = parse_func_candid("h : () -> ()");
    assert_eq!(c, d);
    let e = wrap_outcome(Ok("same".to_string()));
    let f = wrap_outcome(Ok("same".to_string()));
    assert_eq!(e, f);
}
