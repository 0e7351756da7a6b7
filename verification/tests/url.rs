use legiscan::encoding::{push_decimal, push_encoded};
use legiscan::proxy::LegiscanProxy;
use legiscan::text::same_text;

fn proxy() -> LegiscanProxy {
    LegiscanProxy::new(
        "https://api.legiscan.com/".to_string(),
        "0123456789abcdef".to_string(),
    )
}

fn encoded(text: &str) -> String {
    let mut out = String::new();
    push_encoded(&mut out, text);
    out
}

fn decimal(n: i32) -> String {
    let mut out = String::new();
    push_decimal(&mut out, n);
    out
}

#[test]
fn proxy_keeps_its_configuration() {
    let p = proxy();
    assert_eq!(p.base_url(), "https://api.legiscan.com/");
    assert_eq!(p.api_key(), "0123456789abcdef");
}

#[test]
fn dataset_url_has_the_documented_layout() {
    let url = proxy().get_dataset_url(1789, "55jFZUhExATO7PdWI5vJJS");
    assert_eq!(
        url,
        "https://api.legiscan.com/?key=0123456789abcdef&op=getDataset&id=1789&access_key=55jFZUhExATO7PdWI5vJJS"
    );
}

#[test]
fn dataset_url_matches_plain_formatting_for_plain_values() {
    let base = "http://localhost:8080/api";
    let key = "K-e.y_1~";
    let access = "Abc-123_x.y~z";
    for id in [0, 1, 9, 10, 99, 100, 1234, 1789, i32::MAX] {
        let url = LegiscanProxy::new(base.to_string(), key.to_string()).get_dataset_url(id, access);
        assert_eq!(
            url,
            format!("{}?key={}&op=getDataset&id={}&access_key={}", base, key, id, access)
        );
    }
}

#[test]
fn dataset_url_encodes_separators_in_the_access_key() {
    let url = proxy().get_dataset_url(7, "a&b=c?d e%f/g+h#i");
    assert_eq!(
        url,
        "https://api.legiscan.com/?key=0123456789abcdef&op=getDataset&id=7&access_key=a%26b%3Dc%3Fd%20e%25f%2Fg%2Bh%23i"
    );
}

#[test]
fn dataset_url_encodes_the_credential() {
    let p = LegiscanProxy::new("https://h/".to_string(), "se&cret=1".to_string());
    assert_eq!(
        p.get_dataset_url(3, "k"),
        "https://h/?key=se%26cret%3D1&op=getDataset&id=3&access_key=k"
    );
}

#[test]
fn dataset_url_holds_the_credential_once() {
    let p = LegiscanProxy::new("https://h/".to_string(), "abc".to_string());
    let url = p.get_dataset_url(5, "x&key=other");
    let query = &url["https://h/".len() + 1..];
    let fields: Vec<&str> = query.split('&').collect();
    assert_eq!(
        fields,
        vec!["key=abc", "op=getDataset", "id=5", "access_key=x%26key%3Dother"]
    );
    assert_eq!(fields.iter().filter(|f| f.starts_with("key=")).count(), 1);
}

#[test]
fn dataset_url_leaves_the_base_address_as_it_is() {
    let p = LegiscanProxy::new("https://h/a b?x=1".to_string(), "k".to_string());
    assert_eq!(
        p.get_dataset_url(1, "a"),
        "https://h/a b?x=1?key=k&op=getDataset&id=1&access_key=a"
    );
}

#[test]
fn different_sessions_give_different_urls() {
    let p = proxy();
    assert_ne!(p.get_dataset_url(1789, "k"), p.get_dataset_url(1790, "k"));
    assert_ne!(p.get_dataset_url(1, "23"), p.get_dataset_url(12, "3"));
    assert_ne!(p.get_dataset_url(-1, "k"), p.get_dataset_url(1, "k"));
}

#[test]
fn different_access_keys_give_different_urls() {
    let p = proxy();
    assert_ne!(p.get_dataset_url(1, "a"), p.get_dataset_url(1, "b"));
    assert_ne!(p.get_dataset_url(1, "a&b"), p.get_dataset_url(1, "a%26b"));
    assert_ne!(p.get_dataset_url(1, "%41"), p.get_dataset_url(1, "A"));
    assert_ne!(p.get_dataset_url(1, ""), p.get_dataset_url(1, " "));
}

#[test]
fn different_credentials_give_different_urls() {
    let a = LegiscanProxy::new("https://h/".to_string(), "one".to_string());
    let b = LegiscanProxy::new("https://h/".to_string(), "two".to_string());
    assert_ne!(a.get_dataset_url(1, "k"), b.get_dataset_url(1, "k"));
}

#[test]
fn decimal_of_zero_and_small_numbers() {
    assert_eq!(decimal(0), "0");
    assert_eq!(decimal(7), "7");
    assert_eq!(decimal(10), "10");
    assert_eq!(decimal(1789), "1789");
    assert_eq!(decimal(100000), "100000");
}

#[test]
fn decimal_of_negative_numbers() {
    assert_eq!(decimal(-1), "-1");
    assert_eq!(decimal(-10), "-10");
    assert_eq!(decimal(-1234), "-1234");
}

#[test]
fn decimal_of_the_extremes() {
    assert_eq!(decimal(i32::MAX), "2147483647");
    assert_eq!(decimal(i32::MIN), "-2147483648");
}

#[test]
fn decimal_agrees_with_the_standard_formatting() {
    for n in [-99999, -100, -11, -9, 0, 5, 42, 999, 1000, 65535, 1 << 30] {
        assert_eq!(decimal(n), n.to_string());
    }
}

#[test]
fn decimal_appends_to_what_is_there() {
    let mut out = String::from("id=");
    push_decimal(&mut out, -45);
    assert_eq!(out, "id=-45");
}

#[test]
fn encoding_keeps_unreserved_characters() {
    let plain = "ABCDEFGHIJKLMNOPQRSTUVWXYZabcdefghijklmnopqrstuvwxyz0123456789-._~";
    assert_eq!(encoded(plain), plain);
}

#[test]
fn encoding_of_the_empty_text_is_empty() {
    assert_eq!(encoded(""), "");
}

#[test]
fn encoding_writes_reserved_bytes_as_upper_case_hex() {
    assert_eq!(encoded(" "), "%20");
    assert_eq!(encoded("&"), "%26");
    assert_eq!(encoded("="), "%3D");
    assert_eq!(encoded("%"), "%25");
    assert_eq!(encoded("/"), "%2F");
    assert_eq!(encoded("\n"), "%0A");
    assert_eq!(encoded("\u{0}"), "%00");
    assert_eq!(encoded("\u{7f}"), "%7F");
    assert_eq!(encoded("@[`{"), "%40%5B%60%7B");
}

#[test]
fn encoding_works_on_the_utf8_bytes() {
    assert_eq!(encoded("é"), "%C3%A9");
    assert_eq!(encoded("€"), "%E2%82%AC");
    assert_eq!(encoded("𝄞"), "%F0%9D%84%9E");
    assert_eq!(encoded("aé b"), "a%C3%A9%20b");
}

#[test]
fn encoding_appends_to_what_is_there() {
    let mut out = String::from("key=");
    push_encoded(&mut out, "a b");
    assert_eq!(out, "key=a%20b");
}

#[test]
fn encoding_is_injective_on_samples() {
    let samples = ["", "a", "A", "%41", "a b", "a+b", "a%20b", "é", "e", "&", "%26", "="];
    for (i, x) in samples.iter().enumerate() {
        for (j, y) in samples.iter().enumerate() {
            assert_eq!(encoded(x) == encoded(y), i == j);
        }
    }
}

#[test]
fn same_text_compares_character_for_character() {
    assert!(same_text("", ""));
    assert!(same_text("OK", "OK"));
    assert!(!same_text("OK", "ok"));
    assert!(!same_text("OK", "OK "));
    assert!(!same_text("OK", "O"));
    assert!(!same_text("", "x"));
    assert!(same_text("é€", "é€"));
    assert!(!same_text("é", "e"));
}
