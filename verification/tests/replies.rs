use s3handler::json::{names_in, names_of, usage_in, usage_of};
use s3handler::xml::{pick_texts, read_document, texts_of, XmlEvent};
use serde_json::Value;

fn list(texts: &[&str]) -> Vec<String> {
    texts.iter().map(|t| t.to_string()).collect()
}

fn shape(events: &Vec<XmlEvent>) -> Vec<String> {
    events
        .iter()
        .map(|e| match e {
            XmlEvent::Start(name) => format!("<{}", String::from_utf8_lossy(name)),
            XmlEvent::End(name) => format!(">{}", String::from_utf8_lossy(name)),
            XmlEvent::Text(raw) => format!("={}", String::from_utf8_lossy(raw)),
            XmlEvent::Other => "other".to_string(),
            XmlEvent::Eof => "eof".to_string(),
            XmlEvent::Broken => "broken".to_string(),
        })
        .collect()
}

#[test]
fn a_document_is_read_event_by_event() {
    let events = read_document("<a>x &amp; y<b/></a>");
    assert_eq!(shape(&events), list(&["=", "<a", "=x &amp; y", "other", "=", ">a", "eof"]));
    assert_eq!(shape(&read_document("")), list(&["eof"]));
    assert_eq!(shape(&read_document("plain")), list(&["=plain", "eof"]));
}

#[test]
fn a_document_ends_where_it_breaks() {
    let events = read_document("<a>x</b><c>y</c>");
    assert_eq!(shape(&events), list(&["=", "<a", "=x", "broken"]));
}

#[test]
fn only_tagged_texts_are_picked() {
    let events = vec![
        XmlEvent::Text(b"out".to_vec()),
        XmlEvent::Start(b"Key".to_vec()),
        XmlEvent::Text(b"one".to_vec()),
        XmlEvent::Start(b"Other".to_vec()),
        XmlEvent::Text(b"two".to_vec()),
        XmlEvent::End(b"Other".to_vec()),
        XmlEvent::End(b"Key".to_vec()),
        XmlEvent::Text(b"out".to_vec()),
        XmlEvent::Other,
        XmlEvent::Start(b"Keys".to_vec()),
        XmlEvent::Text(b"out".to_vec()),
        XmlEvent::Eof,
    ];
    let (texts, whole) = pick_texts(&events, b"Key");
    assert_eq!(texts, vec![b"one".to_vec(), b"two".to_vec()]);
    assert!(whole);
}

#[test]
fn events_without_an_end_are_not_whole() {
    assert_eq!(pick_texts(&vec![], b"Key"), (vec![], false));
    assert_eq!(pick_texts(&vec![XmlEvent::Broken], b"Key"), (vec![], false));
    assert_eq!(pick_texts(&vec![XmlEvent::Eof], b"Key"), (vec![], true));
}

#[test]
fn tagged_texts_lose_their_escapes() {
    let text = "<r><Key>a&amp;b</Key><Key>c</Key><Name>d</Name></r>";
    assert_eq!(texts_of(text, "Key"), (list(&["a&b", "c"]), true));
    assert_eq!(texts_of(text, "Name"), (list(&["d"]), true));
    assert_eq!(texts_of(text, "Size"), (vec![], true));
    assert_eq!(texts_of("<Key>caf\u{e9} &#65;</Key>", "Key"), (list(&["caf\u{e9} A"]), true));
}

#[test]
fn an_empty_tag_has_an_empty_text() {
    assert_eq!(texts_of("<Key></Key>", "Key"), (list(&[""]), true));
    assert_eq!(texts_of("<Key/>", "Key"), (vec![], true));
}

#[test]
fn texts_before_a_failure_are_kept() {
    assert_eq!(texts_of("<Key>a</Key><Key>&bad;</Key><Key>c</Key>", "Key"), (list(&["a"]), false));
    assert_eq!(texts_of("<Key>a</Key><Key>b</Size>", "Key"), (list(&["a", "b"]), false));
}

#[test]
fn a_json_list_names_its_buckets() {
    let text = r#"[{"ID":"x"},[{"Name":"one"},{"Name":"two","n":1}]]"#;
    assert_eq!(names_of(text), (list(&["one", "two"]), true));
    assert_eq!(names_of(r#"[1,[{"Name":"a"},{"Size":2},{"Name":"b"}]]"#), (list(&["a"]), false));
    assert_eq!(names_of(r#"[1,[{"Name":7}]]"#), (vec![], false));
}

#[test]
fn a_json_text_without_buckets_names_none() {
    assert_eq!(names_of("{}"), (vec![], true));
    assert_eq!(names_of("[1]"), (vec![], true));
    assert_eq!(names_of(r#"[1,"x"]"#), (vec![], true));
    assert_eq!(names_of(r#"{"1":[{"Name":"a"}]}"#), (vec![], true));
    assert_eq!(names_of("not json"), (vec![], false));
    assert_eq!(names_of(""), (vec![], false));
}

#[test]
fn names_are_read_out_of_a_value() {
    let list_value: Value = serde_json::from_str(r#"[null,[{"Name":"a"}]]"#).unwrap();
    assert_eq!(names_in(&list_value), (list(&["a"]), true));
    assert_eq!(names_in(&Value::Null), (vec![], true));
}

#[test]
fn usage_is_written_over_several_lines() {
    let text = r#"{"usage":{"b":1,"a":[true,null]},"more":2}"#;
    let shown = "{\n  \"a\": [\n    true,\n    null\n  ],\n  \"b\": 1\n}";
    assert_eq!(usage_of(text), Some(shown.to_string()));
    assert_eq!(usage_of("[]"), Some("null".to_string()));
    assert_eq!(usage_of("{"), None);
    assert_eq!(usage_of(""), None);
}

#[test]
fn usage_is_read_out_of_a_value() {
    let value: Value = serde_json::from_str(r#"{"usage":"low"}"#).unwrap();
    assert_eq!(usage_in(&value), "\"low\"");
    assert_eq!(usage_in(&Value::Bool(true)), "null");
}
