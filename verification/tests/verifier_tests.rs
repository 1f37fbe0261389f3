use arya::JsonError;
use arya::JsonStatus;
use arya::JsonVerifier;

fn feed(json: &mut JsonVerifier, bytes: &[u8]) {
    for &b in bytes {
        assert_eq!(json.update(b), Ok(()));
    }
}

#[test]
fn whole_documents_are_valid() {
    let documents: &[&str] = &[
        "{}",
        "[]",
        "{ }",
        "[ ]",
        "1",
        "true",
        "-12.5e3",
        "[1,2,3]",
        "[true, false, null]",
        r#"{ "name": "annie", "value": 1 }"#,
        r#"{"a":{"b":[1,{"c":null}]},"d":[[],{}]}"#,
    ];
    for document in documents {
        let mut json = JsonVerifier::new();
        feed(&mut json, document.as_bytes());
        assert_eq!(json.status(), JsonStatus::Valid, "document: {}", document);
        assert_eq!(json.len(), document.len());
    }
}

#[test]
fn every_intermediate_update_succeeds() {
    let document = r#"{ "name": "annie", "value": 1 }"#;
    let mut json = JsonVerifier::new();
    for (i, b) in document.bytes().enumerate() {
        assert_eq!(json.update(b), Ok(()));
        let expected = if i + 1 == document.len() {
            JsonStatus::Valid
        } else {
            JsonStatus::Continue
        };
        assert_eq!(json.status(), expected);
    }
}

#[test]
fn prefix_mid_token_continues() {
    let mut json = JsonVerifier::new();
    feed(&mut json, b"{\"na");
    assert_eq!(json.status(), JsonStatus::Continue);
    assert_eq!(json.len(), 4);
}

#[test]
fn rejection_is_idempotent_and_not_destructive() {
    let mut json = JsonVerifier::new();
    feed(&mut json, b"[1");
    // a closing brace cannot close an array: rejected, twice the same way
    assert_eq!(json.update(b'}'), Err(JsonError::Invalid));
    assert_eq!(json.update(b'}'), Err(JsonError::Invalid));
    assert_eq!(json.len(), 2);
    assert_eq!(json.status(), JsonStatus::Continue);
    // the same position still accepts a correct byte afterwards
    assert_eq!(json.update(b']'), Ok(()));
    assert_eq!(json.status(), JsonStatus::Valid);
}

#[test]
fn depth_limit_fails_exactly_on_the_exceeding_push() {
    let mut json = JsonVerifier::with_maximum_depth(2);
    assert_eq!(json.update(b'['), Ok(()));
    assert_eq!(json.update(b'['), Ok(()));
    // the third opening bracket would exceed the maximum depth of two
    assert_eq!(json.update(b'['), Err(JsonError::Exceeded));
    // the failure is not sticky and did not disturb the state
    assert_eq!(json.len(), 2);
    feed(&mut json, b"1]]");
    assert_eq!(json.status(), JsonStatus::Valid);
}

#[test]
fn depth_limit_of_one_still_allows_flat_documents() {
    let mut json = JsonVerifier::with_maximum_depth(1);
    feed(&mut json, b"[1, 2]");
    assert_eq!(json.status(), JsonStatus::Valid);

    let mut json = JsonVerifier::with_maximum_depth(1);
    assert_eq!(json.update(b'['), Ok(()));
    assert_eq!(json.update(b'{'), Err(JsonError::Exceeded));
}

#[test]
fn close_brace_on_open_array_is_invalid() {
    let mut json = JsonVerifier::new();
    feed(&mut json, b"[1");
    assert_eq!(json.update(b'}'), Err(JsonError::Invalid));
}

#[test]
fn continuation_bytes_pass_through() {
    let mut json = JsonVerifier::new();
    // a two-byte UTF-8 sequence inside a string value
    feed(&mut json, b"[\"");
    assert_eq!(json.update(0xc3), Ok(()));
    assert_eq!(json.update(0xa9), Ok(()));
    feed(&mut json, b"\"]");
    assert_eq!(json.status(), JsonStatus::Valid);
}

#[test]
fn raw_control_characters_are_rejected() {
    let mut json = JsonVerifier::new();
    assert_eq!(json.update(0x01), Err(JsonError::Invalid));
    assert_eq!(json.update(0x1f), Err(JsonError::Invalid));
    assert_eq!(json.len(), 0);
}

#[test]
fn whitespace_is_accepted_everywhere() {
    let mut json = JsonVerifier::new();
    feed(&mut json, b" \t\r\n{ \"a\" :\n1 , \"b\" : [ ] }\r\n");
    assert_eq!(json.status(), JsonStatus::Valid);
}

#[test]
fn quote_with_nothing_open_is_invalid() {
    let mut json = JsonVerifier::new();
    assert_eq!(json.update(b'"'), Err(JsonError::Invalid));
}

#[test]
fn trailing_commas_are_rejected() {
    let mut json = JsonVerifier::new();
    feed(&mut json, b"[1,");
    assert_eq!(json.update(b']'), Err(JsonError::Invalid));

    let mut json = JsonVerifier::new();
    feed(&mut json, b"{\"a\":1,");
    assert_eq!(json.update(b'}'), Err(JsonError::Invalid));
}

#[test]
fn fresh_verifier_is_continue_and_empty() {
    let json = JsonVerifier::new();
    assert_eq!(json.status(), JsonStatus::Continue);
    assert_eq!(json.len(), 0);
}

#[test]
fn reset_behaves_like_fresh() {
    let mut json = JsonVerifier::with_maximum_depth(2);
    feed(&mut json, b"[[1");
    json.reset();
    assert_eq!(json.status(), JsonStatus::Continue);
    assert_eq!(json.len(), 0);
    // the configured maximum depth survives the reset
    assert_eq!(json.update(b'['), Ok(()));
    assert_eq!(json.update(b'['), Ok(()));
    assert_eq!(json.update(b'['), Err(JsonError::Exceeded));
    json.reset();
    feed(&mut json, b"{\"a\":[1]}");
    assert_eq!(json.status(), JsonStatus::Valid);
}
