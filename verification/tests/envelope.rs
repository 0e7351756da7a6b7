use legiscan::envelope::{classify, decode, handle_legiscan_response};
use legiscan::error::Error;
use legiscan::json::{integer_at, text_at};
use serde_json::Value;

fn json(text: &str) -> Value {
    serde_json::from_str(text).unwrap()
}

#[test]
fn classify_success() {
    assert_eq!(classify(Some("OK"), None), None);
    assert_eq!(classify(Some("OK"), Some("ignored")), None);
}

#[test]
fn classify_failure_with_message() {
    assert_eq!(
        classify(Some("ERROR"), Some("Invalid access key")),
        Some(Error::Api("Invalid access key".to_string()))
    );
}

#[test]
fn classify_failure_without_message_reports_the_status() {
    assert_eq!(classify(Some("ERROR"), None), Some(Error::Api("ERROR".to_string())));
    assert_eq!(classify(Some(""), None), Some(Error::Api(String::new())));
}

#[test]
fn classify_status_is_case_sensitive() {
    assert_eq!(classify(Some("ok"), None), Some(Error::Api("ok".to_string())));
    assert_eq!(classify(Some("OK "), Some("m")), Some(Error::Api("m".to_string())));
}

#[test]
fn classify_missing_status_is_malformed() {
    assert_eq!(classify(None, None), Some(Error::MalformedResponse));
    assert_eq!(classify(None, Some("Invalid access key")), Some(Error::MalformedResponse));
}

#[test]
fn decode_returns_a_success_envelope_unchanged() {
    let raw = json(r#"{"status":"OK","dataset":{"state_id":6,"extra":[1,2.5,null,true]}}"#);
    assert_eq!(decode(raw.clone()), Ok(raw));
}

#[test]
fn decode_returns_a_success_envelope_without_payload_unchanged() {
    let raw = json(r#"{"status":"OK"}"#);
    assert_eq!(decode(raw.clone()), Ok(raw));
}

#[test]
fn decode_failure_carries_the_alert_message() {
    let raw = json(r#"{"status":"ERROR","alert":{"message":"Invalid API Key"}}"#);
    assert_eq!(decode(raw), Err(Error::Api("Invalid API Key".to_string())));
}

#[test]
fn decode_failure_never_takes_the_success_path() {
    let raw = json(
        r#"{"status":"ERROR","alert":{"message":"Unknown id"},"dataset":{"state_id":6}}"#,
    );
    assert_eq!(decode(raw), Err(Error::Api("Unknown id".to_string())));
}

#[test]
fn decode_failure_without_alert_carries_the_status() {
    assert_eq!(decode(json(r#"{"status":"ERROR"}"#)), Err(Error::Api("ERROR".to_string())));
    assert_eq!(
        decode(json(r#"{"status":"ERROR","alert":"text"}"#)),
        Err(Error::Api("ERROR".to_string()))
    );
    assert_eq!(
        decode(json(r#"{"status":"ERROR","alert":{"message":17}}"#)),
        Err(Error::Api("ERROR".to_string()))
    );
    assert_eq!(
        decode(json(r#"{"status":"FAILED","alert":{}}"#)),
        Err(Error::Api("FAILED".to_string()))
    );
}

#[test]
fn decode_missing_status_is_malformed() {
    assert_eq!(decode(json(r#"{}"#)), Err(Error::MalformedResponse));
    assert_eq!(
        decode(json(r#"{"dataset":{"state_id":6}}"#)),
        Err(Error::MalformedResponse)
    );
    assert_eq!(
        decode(json(r#"{"alert":{"message":"Invalid API Key"}}"#)),
        Err(Error::MalformedResponse)
    );
    assert_eq!(decode(json(r#"{"Status":"OK"}"#)), Err(Error::MalformedResponse));
}

#[test]
fn decode_status_of_another_type_is_malformed() {
    assert_eq!(decode(json(r#"{"status":1}"#)), Err(Error::MalformedResponse));
    assert_eq!(decode(json(r#"{"status":null}"#)), Err(Error::MalformedResponse));
    assert_eq!(decode(json(r#"{"status":true}"#)), Err(Error::MalformedResponse));
    assert_eq!(decode(json(r#"{"status":["OK"]}"#)), Err(Error::MalformedResponse));
    assert_eq!(decode(json(r#"{"status":{"status":"OK"}}"#)), Err(Error::MalformedResponse));
}

#[test]
fn decode_documents_that_are_no_object_are_malformed() {
    assert_eq!(decode(json("null")), Err(Error::MalformedResponse));
    assert_eq!(decode(json("\"OK\"")), Err(Error::MalformedResponse));
    assert_eq!(decode(json("17")), Err(Error::MalformedResponse));
    assert_eq!(decode(json(r#"[{"status":"OK"}]"#)), Err(Error::MalformedResponse));
}

#[test]
fn response_transport_failure_becomes_http() {
    assert_eq!(
        handle_legiscan_response(Err("connection refused".to_string())),
        Err(Error::Http("connection refused".to_string()))
    );
}

#[test]
fn response_body_that_is_no_json_is_malformed() {
    for body in ["", "<html>502</html>", "{\"status\":\"OK\"", "{\"status\":\"OK\"} x", "{status:OK}"] {
        assert_eq!(
            handle_legiscan_response(Ok(body.to_string())),
            Err(Error::MalformedResponse)
        );
    }
}

#[test]
fn response_success_body_is_parsed_and_returned() {
    let body = r#" {"status":"OK","dataset":{"state_id":6}} "#;
    assert_eq!(handle_legiscan_response(Ok(body.to_string())), Ok(json(body)));
}

#[test]
fn response_failure_body_becomes_api() {
    let body = r#"{"status":"ERROR","alert":{"message":"Invalid access key"}}"#;
    assert_eq!(
        handle_legiscan_response(Ok(body.to_string())),
        Err(Error::Api("Invalid access key".to_string()))
    );
}

#[test]
fn response_body_without_status_is_malformed() {
    assert_eq!(
        handle_legiscan_response(Ok(r#"{"dataset":{}}"#.to_string())),
        Err(Error::MalformedResponse)
    );
}

#[test]
fn text_at_reads_only_text_members() {
    let v = json(r#"{"a":"x","b":1,"c":null,"d":{"a":"y"},"":"empty"}"#);
    assert_eq!(text_at(&v, "a"), Some("x"));
    assert_eq!(text_at(&v, ""), Some("empty"));
    assert_eq!(text_at(&v, "b"), None);
    assert_eq!(text_at(&v, "c"), None);
    assert_eq!(text_at(&v, "d"), None);
    assert_eq!(text_at(&v, "z"), None);
    assert_eq!(text_at(&json("\"a\""), "a"), None);
    assert_eq!(text_at(&json("[\"a\"]"), "0"), None);
}

#[test]
fn integer_at_reads_only_integers_that_fit() {
    let v = json(
        r#"{"a":6,"b":-7,"c":6.0,"d":"6","e":9223372036854775807,"f":9223372036854775808,"g":-9223372036854775808,"h":1e3,"i":null}"#,
    );
    assert_eq!(integer_at(&v, "a"), Some(6));
    assert_eq!(integer_at(&v, "b"), Some(-7));
    assert_eq!(integer_at(&v, "c"), None);
    assert_eq!(integer_at(&v, "d"), None);
    assert_eq!(integer_at(&v, "e"), Some(i64::MAX));
    assert_eq!(integer_at(&v, "f"), None);
    assert_eq!(integer_at(&v, "g"), Some(i64::MIN));
    assert_eq!(integer_at(&v, "h"), None);
    assert_eq!(integer_at(&v, "i"), None);
    assert_eq!(integer_at(&v, "z"), None);
    assert_eq!(integer_at(&json("6"), "a"), None);
}
