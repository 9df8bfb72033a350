use socketlabs::error::ClientError;
use socketlabs::request::Request;

#[test]
fn malformed_body_is_a_deserialization_error() {
    let r = Request::handle_reply("<html>502 Bad Gateway</html>");
    assert_eq!(r.unwrap_err(), ClientError::Deserialization);
}

#[test]
fn empty_body_is_a_deserialization_error() {
    let r = Request::handle_reply("");
    assert_eq!(r.unwrap_err(), ClientError::Deserialization);
}

#[test]
fn truncated_body_is_a_deserialization_error() {
    let r = Request::handle_reply("{\"ErrorCode\":\"Success\",\"TransactionReceipt\":null");
    assert_eq!(r.unwrap_err(), ClientError::Deserialization);
}

#[test]
fn trailing_text_is_a_deserialization_error() {
    let r = Request::handle_reply(
        "{\"ErrorCode\":\"Success\",\"TransactionReceipt\":null,\"MessageResults\":[]} extra",
    );
    assert_eq!(r.unwrap_err(), ClientError::Deserialization);
}

#[test]
fn minimal_reply_parses_to_matching_fields() {
    let r = Request::handle_reply(
        "{\"ErrorCode\":\"Success\",\"TransactionReceipt\":null,\"MessageResults\":[]}",
    )
    .unwrap();
    assert_eq!(r.error_code, "Success");
    assert_eq!(r.transaction_receipt, None);
    assert!(r.message_results.is_empty());
}

#[test]
fn full_reply_parses_to_matching_fields() {
    let r = Request::handle_reply(
        "{\"ErrorCode\":\"Warning\",\"TransactionReceipt\":\"receipt-1\",\
         \"MessageResults\":[\"QueuedForDelivery\",\"InvalidRecipient\"]}",
    )
    .unwrap();
    assert_eq!(r.error_code, "Warning");
    assert_eq!(r.transaction_receipt.as_deref(), Some("receipt-1"));
    assert_eq!(r.message_results, vec!["QueuedForDelivery", "InvalidRecipient"]);
}

#[test]
fn whitespace_between_tokens_is_accepted() {
    let r = Request::handle_reply(
        "{ \"ErrorCode\" : \"Success\" ,\n\t\"TransactionReceipt\" : \"t\" ,\r\n\"MessageResults\" : [ \"a\" , \"b\" ] }\n",
    )
    .unwrap();
    assert_eq!(r.error_code, "Success");
    assert_eq!(r.transaction_receipt.as_deref(), Some("t"));
    assert_eq!(r.message_results, vec!["a", "b"]);
}

#[test]
fn escapes_in_reply_strings_are_decoded() {
    let r = Request::handle_reply(
        "{\"ErrorCode\":\"a\\\"b\\\\c\\nd\\re\\tf\\/g\",\"TransactionReceipt\":null,\"MessageResults\":[]}",
    )
    .unwrap();
    assert_eq!(r.error_code, "a\"b\\c\nd\re\tf/g");
}

#[test]
fn members_are_accepted_in_any_order() {
    let r = Request::handle_reply(
        "{\"MessageResults\":[\"a\"],\"TransactionReceipt\":\"t\",\"ErrorCode\":\"Success\"}",
    )
    .unwrap();
    assert_eq!(r.error_code, "Success");
    assert_eq!(r.transaction_receipt.as_deref(), Some("t"));
    assert_eq!(r.message_results, vec!["a"]);
}

#[test]
fn unknown_members_are_skipped() {
    let r = Request::handle_reply(
        "{\"ErrorCode\":\"Success\",\"Extra\":{\"Nested\":[1,-2.5e3,true,false,null,\"s\"]},\
         \"TransactionReceipt\":null,\"Count\":0,\"MessageResults\":[]}",
    )
    .unwrap();
    assert_eq!(r.error_code, "Success");
    assert_eq!(r.transaction_receipt, None);
    assert!(r.message_results.is_empty());
}

#[test]
fn duplicate_member_is_rejected() {
    let r = Request::handle_reply(
        "{\"ErrorCode\":\"A\",\"ErrorCode\":\"B\",\"TransactionReceipt\":null,\"MessageResults\":[]}",
    );
    assert_eq!(r.unwrap_err(), ClientError::Deserialization);
}

#[test]
fn unicode_escapes_are_decoded() {
    let r = Request::handle_reply(
        "{\"ErrorCode\":\"\\u0053uccess \\u00e9 \\uD83D\\uDE00\",\"TransactionReceipt\":null,\"MessageResults\":[]}",
    )
    .unwrap();
    assert_eq!(r.error_code, "Success \u{e9} \u{1F600}");
}

#[test]
fn lone_surrogate_escape_is_rejected() {
    let r = Request::handle_reply(
        "{\"ErrorCode\":\"\\uD83Dx\",\"TransactionReceipt\":null,\"MessageResults\":[]}",
    );
    assert_eq!(r.unwrap_err(), ClientError::Deserialization);
    let r2 = Request::handle_reply(
        "{\"ErrorCode\":\"\\uDE00\",\"TransactionReceipt\":null,\"MessageResults\":[]}",
    );
    assert_eq!(r2.unwrap_err(), ClientError::Deserialization);
}

#[test]
fn raw_control_character_in_string_is_rejected() {
    let body = format!(
        "{{\"ErrorCode\":\"bad{}\",\"TransactionReceipt\":null,\"MessageResults\":[]}}",
        '\u{1}'
    );
    let r = Request::handle_reply(&body);
    assert_eq!(r.unwrap_err(), ClientError::Deserialization);
    assert!(serde_json::from_str::<serde_json::Value>(&body).is_err());
}

#[test]
fn reply_with_wrong_shape_is_rejected() {
    let r = Request::handle_reply("{\"ErrorCode\":\"Success\"}");
    assert_eq!(r.unwrap_err(), ClientError::Deserialization);
    let r2 = Request::handle_reply("[1,2,3]");
    assert_eq!(r2.unwrap_err(), ClientError::Deserialization);
    let r3 = Request::handle_reply("{\"ErrorCode\":5,\"TransactionReceipt\":null,\"MessageResults\":[]}");
    assert_eq!(r3.unwrap_err(), ClientError::Deserialization);
}

#[test]
fn transport_failure_is_a_transport_error() {
    let r = Request::new(1, "key".to_string(), vec![]).unwrap();
    let outcome = r.send();
    assert_eq!(outcome.unwrap_err(), ClientError::Transport);
}

#[test]
fn each_send_is_an_independent_exchange() {
    let r = Request::new(1, "key".to_string(), vec![]).unwrap();
    let first = r.send();
    let second = r.send();
    assert_eq!(first.unwrap_err(), ClientError::Transport);
    assert_eq!(second.unwrap_err(), ClientError::Transport);
}
