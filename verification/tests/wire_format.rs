use socketlabs::message::Message;
use socketlabs::request::Request;

fn body_string(r: &Request) -> String {
    r.to_json().into_iter().collect()
}

fn sample_message() -> Message {
    Message {
        from: "sender@example.com".to_string(),
        to: vec!["one@example.com".to_string(), "two@example.com".to_string()],
        subject: "Greetings".to_string(),
        body: "Hello there".to_string(),
    }
}

#[test]
fn empty_request_serializes_to_expected_bytes() {
    let r = Request::new(0, "KEY123".to_string(), vec![]).unwrap();
    assert_eq!(body_string(&r), "{\"ServerId\":0,\"ApiKey\":\"KEY123\",\"Messages\":[]}");
}

#[test]
fn serialization_is_deterministic() {
    let r = Request::new(41325, "secret".to_string(), vec![sample_message()]).unwrap();
    assert_eq!(r.to_json(), r.to_json());
}

#[test]
fn top_level_keys_match_constructor_inputs() {
    let r = Request::new(7, "abc".to_string(), vec![sample_message()]).unwrap();
    let v: serde_json::Value = serde_json::from_str(&body_string(&r)).unwrap();
    let obj = v.as_object().unwrap();
    assert_eq!(obj.len(), 3);
    assert!(obj.contains_key("ServerId"));
    assert!(obj.contains_key("ApiKey"));
    assert!(obj.contains_key("Messages"));
    assert_eq!(v["ServerId"].as_u64(), Some(7));
    assert_eq!(v["ApiKey"].as_str(), Some("abc"));
    assert_eq!(v["Messages"].as_array().unwrap().len(), 1);
}

#[test]
fn message_order_is_preserved() {
    let mut a = sample_message();
    a.subject = "first".to_string();
    let mut b = sample_message();
    b.subject = "second".to_string();
    let r = Request::new(1, "k".to_string(), vec![a, b]).unwrap();
    let v: serde_json::Value = serde_json::from_str(&body_string(&r)).unwrap();
    let ms = v["Messages"].as_array().unwrap();
    assert_eq!(ms.len(), 2);
    assert_eq!(ms[0]["Subject"].as_str(), Some("first"));
    assert_eq!(ms[1]["Subject"].as_str(), Some("second"));
}

#[test]
fn message_fields_appear_under_pascal_case_keys() {
    let r = Request::new(1, "k".to_string(), vec![sample_message()]).unwrap();
    let v: serde_json::Value = serde_json::from_str(&body_string(&r)).unwrap();
    let m = &v["Messages"].as_array().unwrap()[0];
    assert_eq!(m.as_object().unwrap().len(), 4);
    assert_eq!(m["From"].as_str(), Some("sender@example.com"));
    assert_eq!(m["Subject"].as_str(), Some("Greetings"));
    assert_eq!(m["TextBody"].as_str(), Some("Hello there"));
    let to = m["To"].as_array().unwrap();
    assert_eq!(to.len(), 2);
    assert_eq!(to[0].as_str(), Some("one@example.com"));
    assert_eq!(to[1].as_str(), Some("two@example.com"));
}

#[test]
fn special_characters_are_escaped() {
    let key = "a\"b\\c\nd\re\tf".to_string();
    let r = Request::new(9, key.clone(), vec![]).unwrap();
    let body = body_string(&r);
    let v: serde_json::Value = serde_json::from_str(&body).unwrap();
    assert_eq!(v["ApiKey"].as_str(), Some(key.as_str()));
    assert!(body.contains("\\\"") && body.contains("\\\\") && body.contains("\\n"));
}

#[test]
fn control_characters_are_escaped_as_serde_json_escapes_them() {
    let key = "a\u{1}b\u{8}c\u{c}d\u{1f}e".to_string();
    let r = Request::new(3, key.clone(), vec![]).unwrap();
    let body = body_string(&r);
    assert!(body.contains("\\u0001"));
    assert!(body.contains("\\b"));
    assert!(body.contains("\\f"));
    assert!(body.contains("\\u001f"));
    let expected = serde_json::to_string(&serde_json::Value::String(key.clone())).unwrap();
    assert!(body.contains(&expected[1..expected.len() - 1]));
    let v: serde_json::Value = serde_json::from_str(&body).unwrap();
    assert_eq!(v["ApiKey"].as_str(), Some(key.as_str()));
}

#[test]
fn largest_server_id_serializes_in_decimal() {
    let r = Request::new(65535, "k".to_string(), vec![]).unwrap();
    assert_eq!(body_string(&r), "{\"ServerId\":65535,\"ApiKey\":\"k\",\"Messages\":[]}");
}

#[test]
fn constructor_always_succeeds() {
    assert!(Request::new(0, String::new(), vec![]).is_ok());
    assert!(Request::new(65535, "key".to_string(), vec![sample_message()]).is_ok());
}
