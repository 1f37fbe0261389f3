use arya::JsonBuilder;
use arya::JsonBuilderOptions;
use arya::JsonError;
use arya::JsonStatus;
use arya::JsonVerifier;

fn reverifies_valid(text: &str) -> bool {
    let mut json = JsonVerifier::new();
    for b in text.bytes() {
        if json.update(b).is_err() {
            return false;
        }
    }
    json.status() == JsonStatus::Valid
}

#[test]
fn builds_a_whole_document() {
    let mut builder = JsonBuilder::new();
    assert_eq!(builder.update(r#"{"a":1}"#), Ok(()));
    assert_eq!(builder.status(), JsonStatus::Valid);
    assert_eq!(builder.string(), Ok(String::from(r#"{"a":1}"#)));
}

#[test]
fn bytes_returns_the_raw_buffer() {
    let mut builder = JsonBuilder::new();
    assert_eq!(builder.update(&b"[1, 2]"[..]), Ok(()));
    assert_eq!(builder.bytes(), Ok(b"[1, 2]".to_vec()));
}

#[test]
fn sources_of_every_kind_feed_the_same_bytes() {
    let mut builder = JsonBuilder::new();
    assert_eq!(builder.update(b'['), Ok(()));
    assert_eq!(builder.update(&b"1,"[..]), Ok(()));
    assert_eq!(builder.update(b"2,".to_vec()), Ok(()));
    assert_eq!(builder.update("3,"), Ok(()));
    assert_eq!(builder.update(String::from("4]")), Ok(()));
    assert_eq!(builder.string(), Ok(String::from("[1,2,3,4]")));
}

#[test]
fn update_failure_is_sticky() {
    let mut builder = JsonBuilder::new();
    assert_eq!(builder.update("{"), Ok(()));
    // a colon is not acceptable right after the opening brace
    assert_eq!(builder.update(":"), Err(JsonError::Invalid));
    // even otherwise-valid input is now rejected, and so is extraction
    assert_eq!(builder.update("\"a\":1}"), Err(JsonError::Invalid));
    assert_eq!(builder.update(b'1'), Err(JsonError::Invalid));
    assert_eq!(builder.len(), 1);
    assert_eq!(builder.bytes(), Err(JsonError::Invalid));

    let mut builder = JsonBuilder::new();
    assert_eq!(builder.update("{:"), Err(JsonError::Invalid));
    assert_eq!(builder.string(), Err(JsonError::Invalid));

    let mut builder = JsonBuilder::new();
    assert_eq!(builder.update("{:"), Err(JsonError::Invalid));
    assert_eq!(builder.completed_bytes(), Err(JsonError::Invalid));

    let mut builder = JsonBuilder::new();
    assert_eq!(builder.update("{:"), Err(JsonError::Invalid));
    assert_eq!(builder.completed_string(), Err(JsonError::Invalid));
}

#[test]
fn partial_progress_is_preserved_on_failure() {
    let mut builder = JsonBuilder::new();
    assert_eq!(builder.update("[1,]"), Err(JsonError::Invalid));
    // every byte before the failing one was accepted into the buffer
    assert_eq!(builder.len(), 3);
}

#[test]
fn depth_failure_is_sticky_too() {
    let mut builder = JsonBuilder::with_maximum_depth(1);
    assert_eq!(builder.update("[["), Err(JsonError::Exceeded));
    assert_eq!(builder.len(), 1);
    assert_eq!(builder.update("1]"), Err(JsonError::Invalid));
}

#[test]
fn completion_closes_open_containers() {
    let mut builder = JsonBuilder::new();
    assert_eq!(builder.update(r#"{"a":1,"b":{"c":2"#), Ok(()));
    let completed = builder.completed_string().unwrap();
    assert_eq!(completed, r#"{"a":1,"b":{"c":2}}"#);
    assert!(reverifies_valid(&completed));
}

#[test]
fn completion_drops_a_dangling_key() {
    // the trailing fragment after the last fully valid position is dropped
    // (the half-written key cannot be closed by punctuation alone), and the
    // object that stood open at that position is sealed
    let mut builder = JsonBuilder::new();
    assert_eq!(builder.update(r#"{"a":1,"bro"#), Ok(()));
    let completed = builder.completed_string().unwrap();
    assert_eq!(completed, r#"{"a":1}"#);
    assert!(reverifies_valid(&completed));
}

#[test]
fn completion_ignores_containers_opened_past_the_valid_point() {
    // the inner array was opened after the last fully valid position, so its
    // opening byte falls to the truncation and it must not be closed
    let mut builder = JsonBuilder::new();
    assert_eq!(builder.update("[1,["), Ok(()));
    let completed = builder.completed_string().unwrap();
    assert_eq!(completed, "[1]");
    assert!(reverifies_valid(&completed));
}

#[test]
fn completion_with_no_valid_prefix_is_empty() {
    // no prefix of a lone opening brace is a fully valid document, so the
    // repair has nothing to keep and nothing to close
    let mut builder = JsonBuilder::new();
    assert_eq!(builder.update("{"), Ok(()));
    assert_eq!(builder.completed_bytes(), Ok(Vec::new()));

    let mut builder = JsonBuilder::new();
    assert_eq!(builder.update(r#"{"deep":["#), Ok(()));
    assert_eq!(builder.completed_string(), Ok(String::new()));
}

#[test]
fn completion_drops_a_trailing_comma() {
    let mut builder = JsonBuilder::new();
    assert_eq!(builder.update("[1,"), Ok(()));
    let completed = builder.completed_string().unwrap();
    assert_eq!(completed, "[1]");
    assert!(reverifies_valid(&completed));
}

#[test]
fn completion_closes_nested_arrays_and_objects() {
    let mut builder = JsonBuilder::new();
    assert_eq!(builder.update(r#"{"a":[1,[2"#), Ok(()));
    let completed = builder.completed_string().unwrap();
    assert_eq!(completed, r#"{"a":[1,[2]]}"#);
    assert!(reverifies_valid(&completed));
}

#[test]
fn completion_of_a_valid_document_is_unchanged() {
    let mut builder = JsonBuilder::new();
    assert_eq!(builder.update(r#"{ "a": [1, 2] }"#), Ok(()));
    assert_eq!(builder.status(), JsonStatus::Valid);
    assert_eq!(
        builder.completed_string(),
        Ok(String::from(r#"{ "a": [1, 2] }"#))
    );
}

#[test]
fn completion_of_an_empty_builder_is_empty() {
    let builder = JsonBuilder::new();
    assert_eq!(builder.completed_bytes(), Ok(Vec::new()));
}

#[test]
fn string_extraction_reports_bad_utf8() {
    let mut builder = JsonBuilder::new();
    // 0xff can never occur in well-formed UTF-8, but the verifier lets any
    // byte of 128 or above pass through as a continuation byte
    assert_eq!(builder.update(vec![b'[', b'"', 0xff, b'"', b']']), Ok(()));
    assert_eq!(builder.status(), JsonStatus::Valid);
    assert_eq!(builder.string(), Err(JsonError::Utf8));

    let mut builder = JsonBuilder::new();
    assert_eq!(builder.update(vec![b'[', b'"', 0xff, b'"', b']']), Ok(()));
    assert_eq!(builder.completed_string(), Err(JsonError::Utf8));
}

#[test]
fn reset_clears_damage_and_buffer() {
    let mut builder = JsonBuilder::with_maximum_depth(2);
    assert_eq!(builder.update("{:"), Err(JsonError::Invalid));
    builder.reset();
    assert_eq!(builder.len(), 0);
    assert_eq!(builder.status(), JsonStatus::Continue);
    // the configured maximum depth survives the reset
    assert_eq!(builder.update("[[["), Err(JsonError::Exceeded));
    builder.reset();
    assert_eq!(builder.update(r#"{"a":1}"#), Ok(()));
    assert_eq!(builder.string(), Ok(String::from(r#"{"a":1}"#)));
}

#[test]
fn options_default_and_named_construction() {
    let options = JsonBuilderOptions::default();
    assert_eq!(options.maximum_depth, usize::MAX);
    assert_eq!(options.initial_capacity, 512);

    let mut builder = JsonBuilder::with_options(JsonBuilderOptions {
        maximum_depth: 1,
        initial_capacity: 16,
    });
    assert_eq!(builder.update("[["), Err(JsonError::Exceeded));

    let mut builder = JsonBuilder::with_capacity(4);
    assert_eq!(builder.update(r#"{"key": "value"}"#), Ok(()));
    assert_eq!(builder.status(), JsonStatus::Valid);
}

#[test]
fn empty_update_is_accepted() {
    let mut builder = JsonBuilder::new();
    assert_eq!(builder.update(""), Ok(()));
    assert_eq!(builder.len(), 0);
    assert_eq!(builder.status(), JsonStatus::Continue);
}

#[test]
fn damaged_document_example_is_repaired() {
    let mut builder = JsonBuilder::new();
    assert_eq!(
        builder.update(r#"{ "name": "annie", "age": 14, "parents": { "mother": null"#),
        Ok(())
    );
    let completed = builder.completed_string().unwrap();
    assert_eq!(
        completed,
        r#"{ "name": "annie", "age": 14, "parents": { "mother": null}}"#
    );
    assert!(reverifies_valid(&completed));
}
