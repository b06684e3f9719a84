use husako::jsonc::strip_jsonc;

#[test]
fn strip_jsonc_line_comments() {
    let input = r#"{
  // This is a comment
  "key": "value" // inline comment
}"#;
    let stripped = strip_jsonc(input);
    let parsed: serde_json::Value = serde_json::from_str(&stripped).unwrap();
    assert_eq!(parsed["key"], "value");
}

#[test]
fn strip_jsonc_block_comments() {
    let input = r#"{
  /* block comment */
  "key": "value",
  "other": /* inline block */ "data"
}"#;
    let stripped = strip_jsonc(input);
    let parsed: serde_json::Value = serde_json::from_str(&stripped).unwrap();
    assert_eq!(parsed["key"], "value");
    assert_eq!(parsed["other"], "data");
}

#[test]
fn strip_jsonc_trailing_commas() {
    let input = r#"{
  "a": 1,
  "b": [1, 2, 3,],
}"#;
    let stripped = strip_jsonc(input);
    let parsed: serde_json::Value = serde_json::from_str(&stripped).unwrap();
    assert_eq!(parsed["a"], 1);
    assert_eq!(parsed["b"][2], 3);
}

#[test]
fn strip_jsonc_preserves_strings_with_slashes() {
    let input = r#"{"url": "https://example.com", "path": "a//b"}"#;
    let stripped = strip_jsonc(input);
    let parsed: serde_json::Value = serde_json::from_str(&stripped).unwrap();
    assert_eq!(parsed["url"], "https://example.com");
    assert_eq!(parsed["path"], "a//b");
}

#[test]
fn strip_jsonc_tsc_init_style() {
    // Simulates the style of tsconfig.json produced by `tsc --init`
    let input = r#"{
  "compilerOptions": {
/* Visit https://aka.ms/tsconfig to read more */
"target": "es2016",
// "module": "commonjs",
"strict": true,
"esModuleInterop": true,
"skipLibCheck": true,
"forceConsistentCasingInFileNames": true,
  }
}"#;
    let stripped = strip_jsonc(input);
    let parsed: serde_json::Value = serde_json::from_str(&stripped).unwrap();
    assert_eq!(parsed["compilerOptions"]["target"], "es2016");
    assert_eq!(parsed["compilerOptions"]["strict"], true);
    // Commented-out module should not appear
    assert!(parsed["compilerOptions"]["module"].is_null());
}

#[test]
fn strip_jsonc_exact_output() {
    assert_eq!(strip_jsonc("[1, 2, ] // c"), "[1, 2 ] ");
    assert_eq!(strip_jsonc("{\"a\": \"/*x*/\"} /* y */"), "{\"a\": \"/*x*/\"} ");
    assert_eq!(strip_jsonc("\"unterminated \\\" // not a comment"), "\"unterminated \\\" // not a comment");
}

#[test]
fn strip_jsonc_plain_json_unchanged() {
    let input = r#"{"a": [1, 2], "b": {"c": "d"}}"#;
    assert_eq!(strip_jsonc(input), input);
}

#[test]
fn trailing_comma_before_comment_is_removed() {
    let stripped = strip_jsonc("{\"a\": 1, // note\n}");
    assert_eq!(stripped, "{\"a\": 1 \n}");
    let parsed: serde_json::Value = serde_json::from_str(&stripped).unwrap();
    assert_eq!(parsed, serde_json::Value::from(serde_json::Map::from_iter([(
        "a".to_string(),
        serde_json::Value::from(1),
    )])));
    let stripped = strip_jsonc("[1, 2, /* last */ ]");
    let parsed: serde_json::Value = serde_json::from_str(&stripped).unwrap();
    assert_eq!(parsed[1], 2);
    // a comma before a comment and then more members stays
    let stripped = strip_jsonc("{\"a\": 1, /* x */ \"b\": 2}");
    let parsed: serde_json::Value = serde_json::from_str(&stripped).unwrap();
    assert_eq!(parsed["b"], 2);
}
