use musli_zerocopy::json;
use musli_zerocopy::mode::{DefaultMode, Mode};

#[test]
fn default_mode_is_not_human_readable() {
    assert!(!<DefaultMode as Mode>::is_human_readable());
}

#[test]
fn test_simple_json_encoding() {
    let expected = vec![Ok(String::from("abc")), Err(true)];

    let out = json::encode_results(&expected);
    println!("{}", out);
    assert_eq!(
        out,
        r#"[{"result":"Ok","value":"abc"},{"result":"Err","error":true}]"#
    )
}

#[test]
fn empty_results_encode_to_empty_array() {
    let out = json::encode_results(&vec![]);
    assert_eq!(out, "[]");
}

#[test]
fn single_error_encodes_bare_boolean() {
    let out = json::encode_results(&vec![Err(false)]);
    assert_eq!(out, r#"[{"result":"Err","error":false}]"#);
}
