use icalparse::records::Property;
use icalparse::tokenizer::tokenize;

fn pairs(toks: &[Property]) -> Vec<(&str, &str)> {
    toks.iter().map(|p| (p.key.as_str(), p.value.as_str())).collect()
}

#[test]
fn tokenize_two_properties_in_order() {
    let toks = tokenize("UID:abc123\nSUMMARY:Meeting\n");
    assert_eq!(pairs(&toks), vec![("UID", "abc123"), ("SUMMARY", "Meeting")]);
}

#[test]
fn tokenize_skips_lines_of_other_shapes() {
    let toks = tokenize("uid:lowercase\nUID:ok\n:nokey\nplain text\n");
    assert_eq!(pairs(&toks), vec![("UID", "ok")]);
}

#[test]
fn tokenize_requires_key_at_line_start() {
    let toks = tokenize(" UID:indented\nUID:flush\n");
    assert_eq!(pairs(&toks), vec![("UID", "flush")]);
}

#[test]
fn tokenize_truncates_value_at_punctuation() {
    let toks = tokenize("SUMMARY:Hello, world\n");
    assert_eq!(pairs(&toks), vec![("SUMMARY", "Hello")]);
}

#[test]
fn tokenize_value_keeps_words_and_horizontal_whitespace() {
    let toks = tokenize("DESCRIPTION:Budget meeting room_2\n");
    assert_eq!(pairs(&toks), vec![("DESCRIPTION", "Budget meeting room_2")]);
}

#[test]
fn tokenize_empty_value() {
    let toks = tokenize("UID:\nSUMMARY:x\n");
    assert_eq!(pairs(&toks), vec![("UID", ""), ("SUMMARY", "x")]);
}

#[test]
fn tokenize_hyphen_keys() {
    let toks = tokenize("X-FOO:1\nX-BAR:2\n");
    assert_eq!(pairs(&toks), vec![("X-FOO", "1"), ("X-BAR", "2")]);
}

#[test]
fn tokenize_stops_value_before_carriage_return() {
    let toks = tokenize("UID:abc\r\nSUMMARY:Hi\r\n");
    assert_eq!(pairs(&toks), vec![("UID", "abc"), ("SUMMARY", "Hi")]);
}

#[test]
fn tokenize_no_trailing_newline() {
    let toks = tokenize("UID:last");
    assert_eq!(pairs(&toks), vec![("UID", "last")]);
}

#[test]
fn tokenize_empty_input() {
    let toks = tokenize("");
    assert!(toks.is_empty());
}

#[test]
fn tokenize_one_token_per_line() {
    // After a value stops, the rest of the line never yields a token.
    let toks = tokenize("UID:abc:DEF:ghi\n");
    assert_eq!(pairs(&toks), vec![("UID", "abc")]);
}
