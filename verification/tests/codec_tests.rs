use sniprrr::codec::{encode_snippets, load_snippets, parse_snippets};
use sniprrr::snippet::Snippet;

fn snip(title: &str, description: &str) -> Snippet {
    Snippet { title: title.to_string(), description: description.to_string() }
}

#[test]
fn encode_one_snippet_exact_text() {
    let list = vec![snip("Hi", "There")];
    let text = encode_snippets(&list);
    assert_eq!(text, "[{\"title\":\"Hi\",\"description\":\"There\"}]");
}

#[test]
fn encode_empty_list_exact_text() {
    let list: Vec<Snippet> = Vec::new();
    let text = encode_snippets(&list);
    assert_eq!(text, "[]");
}

#[test]
fn encode_escapes_quote_backslash_and_controls() {
    let list = vec![snip("a\"b", "c\\d\ne")];
    let text = encode_snippets(&list);
    assert_eq!(text, "[{\"title\":\"a\\\"b\",\"description\":\"c\\\\d\\u000ae\"}]");
}

#[test]
fn round_trip_empty() {
    let list: Vec<Snippet> = Vec::new();
    let parsed = parse_snippets(&encode_snippets(&list)).unwrap();
    assert_eq!(parsed, list);
}

#[test]
fn round_trip_single() {
    let list = vec![snip("Hi", "There")];
    let parsed = parse_snippets(&encode_snippets(&list)).unwrap();
    assert_eq!(parsed, list);
}

#[test]
fn round_trip_many_preserves_order() {
    let list = vec![
        snip("first", "one"),
        snip("second", "two"),
        snip("third", "three"),
        snip("second", "two"),
    ];
    let parsed = parse_snippets(&encode_snippets(&list)).unwrap();
    assert_eq!(parsed, list);
}

#[test]
fn round_trip_awkward_characters() {
    let list = vec![
        snip("", ""),
        snip("quote \" and backslash \\", "newline \n tab \t carriage \r"),
        snip("controls \u{1} \u{1f}", "unicode: caf\u{e9} \u{1f980} \u{4e2d}"),
        snip("slash / brace } bracket ]", "colon : comma ,"),
    ];
    let parsed = parse_snippets(&encode_snippets(&list)).unwrap();
    assert_eq!(parsed, list);
}

#[test]
fn parse_accepts_whitespace_between_tokens() {
    let text = " [ { \"title\" : \"a\" , \"description\" : \"b\" } ,\n\t{\"title\":\"c\",\"description\":\"d\"} ] ";
    let parsed = parse_snippets(text).unwrap();
    assert_eq!(parsed, vec![snip("a", "b"), snip("c", "d")]);
}

#[test]
fn parse_accepts_simple_and_unicode_escapes() {
    let text = "[{\"title\":\"a\\n\\t\\r\\b\\f\\/\\\\\\\"\",\"description\":\"\\u0041\\u00e9\\u001F\"}]";
    let parsed = parse_snippets(text).unwrap();
    assert_eq!(
        parsed,
        vec![snip("a\n\t\r\u{8}\u{c}/\\\"", "A\u{e9}\u{1f}")]
    );
}

#[test]
fn parse_rejects_malformed_text() {
    assert!(parse_snippets("").is_none());
    assert!(parse_snippets("{}").is_none());
    assert!(parse_snippets("[").is_none());
    assert!(parse_snippets("[{\"title\":\"a\"}]").is_none());
    assert!(parse_snippets("[{\"description\":\"b\",\"title\":\"a\"}]").is_none());
    assert!(parse_snippets("[{\"title\":\"a\",\"description\":\"b\"}").is_none());
    assert!(parse_snippets("[{\"title\":\"a\",\"description\":\"b\"}] trailing").is_none());
    assert!(parse_snippets("[{\"title\":\"a\",\"description\":\"b\"},]").is_none());
    assert!(parse_snippets("[{\"title\":\"unterminated,\"description\":\"b\"}]").is_none());
    assert!(parse_snippets("[{\"title\":\"bad \\q escape\",\"description\":\"b\"}]").is_none());
    assert!(parse_snippets("[{\"title\":\"\\u12,4\",\"description\":\"b\"}]").is_none());
    assert!(parse_snippets("not json at all").is_none());
}

#[test]
fn load_degrades_to_empty_on_all_failure_paths() {
    assert_eq!(load_snippets(None), Vec::<Snippet>::new());
    assert_eq!(load_snippets(Some("")), Vec::<Snippet>::new());
    assert_eq!(load_snippets(Some("   ")), Vec::<Snippet>::new());
    assert_eq!(load_snippets(Some("garbage")), Vec::<Snippet>::new());
    assert_eq!(load_snippets(Some("[{\"title\":3}]")), Vec::<Snippet>::new());
}

#[test]
fn load_returns_parsed_list_on_wellformed_text() {
    let list = vec![snip("Hi", "There")];
    let text = encode_snippets(&list);
    assert_eq!(load_snippets(Some(&text)), list);
}

#[test]
fn encoding_is_readable_by_a_json_parser() {
    let list = vec![snip("a\"b\\c", "line1\nline2 caf\u{e9}")];
    let text = encode_snippets(&list);
    let value: serde_json::Value = serde_json::from_str(&text).unwrap();
    let entries = value.as_array().unwrap();
    assert_eq!(entries.len(), 1);
    assert_eq!(entries[0].get("title").unwrap().as_str().unwrap(), "a\"b\\c");
    assert_eq!(
        entries[0].get("description").unwrap().as_str().unwrap(),
        "line1\nline2 caf\u{e9}"
    );
}

#[test]
fn json_parser_output_is_readable_by_this_codec() {
    // Fields are spliced in title-first order, the order the persisted file
    // carries; the string escapes come from the JSON library itself.
    let title = serde_json::to_string(&serde_json::Value::String("t \u{7} x".to_string())).unwrap();
    let description = serde_json::to_string(&serde_json::Value::String("d\n\t\"q\"".to_string())).unwrap();
    let text = format!("[{{\"title\":{},\"description\":{}}}]", title, description);
    let parsed = parse_snippets(&text).unwrap();
    assert_eq!(parsed, vec![snip("t \u{7} x", "d\n\t\"q\"")]);
}
