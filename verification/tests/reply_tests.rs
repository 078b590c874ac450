use zotero_cli::client::Responder;
use zotero_cli::reply::{add_reply_text, children_json_text, children_reply, tags_json_text, tags_reply};

const CHILDREN: &str = r#"[
  {"key": "N1", "data": {"itemType": "note", "note": "<p>hi</p>"}},
  {"key": "A1", "data": {"itemType": "annotation", "annotationType": "highlight",
     "annotationPageLabel": "3", "annotationText": "text", "annotationComment": 7}},
  {"key": 5, "data": {"itemType": "note"}},
  {"key": "X", "data": "not an object"}
]"#;

#[test]
fn children_reply_picks_string_fields() {
    let cs = children_reply(CHILDREN).unwrap();
    assert_eq!(cs.len(), 4);
    assert_eq!(cs[0].key.as_deref(), Some("N1"));
    assert_eq!(cs[0].item_type.as_deref(), Some("note"));
    assert_eq!(cs[0].note.as_deref(), Some("<p>hi</p>"));
    assert_eq!(cs[1].annotation_type.as_deref(), Some("highlight"));
    assert_eq!(cs[1].annotation_page_label.as_deref(), Some("3"));
    assert_eq!(cs[1].annotation_text.as_deref(), Some("text"));
    assert_eq!(cs[1].annotation_comment, None);
    assert_eq!(cs[2].key, None);
    assert_eq!(cs[3].item_type, None);
}

#[test]
fn children_reply_rejects_non_arrays() {
    let e = children_reply("{\"a\": 1}").err().unwrap();
    assert!(e.starts_with("parsing children: "));
    assert!(children_reply("not json").err().unwrap().starts_with("parsing children: "));
}

#[test]
fn children_json_selects_kind() {
    let all: Vec<serde_json::Value> = serde_json::from_str(CHILDREN).unwrap();
    let notes = vec![&all[0], &all[2]];
    assert_eq!(children_json_text(CHILDREN, "note").unwrap(), serde_json::to_string_pretty(&notes).unwrap());
    let anns = vec![&all[1]];
    assert_eq!(children_json_text(CHILDREN, "annotation").unwrap(), serde_json::to_string_pretty(&anns).unwrap());
    assert_eq!(children_json_text(CHILDREN, "attachment").unwrap(), "[]");
    assert!(children_json_text("3", "note").err().unwrap().starts_with("parsing children: "));
}

#[test]
fn tags_reply_reads_names_and_types() {
    let ts = tags_reply(r#"[{"tag": "ml", "type": 1}, {"tag": 3, "type": -1}, {}]"#).unwrap();
    assert_eq!(ts.len(), 3);
    assert_eq!(ts[0].tag.as_deref(), Some("ml"));
    assert_eq!(ts[0].tag_type, Some(1));
    assert_eq!(ts[1].tag, None);
    assert_eq!(ts[1].tag_type, None);
    assert_eq!(ts[2].tag_type, None);
    assert!(tags_reply("{}").err().unwrap().starts_with("parsing tags: "));
}

#[test]
fn tags_json_is_pretty() {
    let body = r#"[{"tag":"ml","type":1}]"#;
    let v: Vec<serde_json::Value> = serde_json::from_str(body).unwrap();
    assert_eq!(tags_json_text(body).unwrap(), serde_json::to_string_pretty(&v).unwrap());
    assert!(tags_json_text("{\"tag\": 1}").err().unwrap().starts_with("parsing tags: "));
}

#[test]
fn add_replies() {
    let body = r#"{"successful":{"0":{"key":"ABC"}}}"#;
    let v: serde_json::Value = serde_json::from_str(body).unwrap();
    assert_eq!(add_reply_text(Responder::Api, body).unwrap(), serde_json::to_string_pretty(&v).unwrap());
    assert!(add_reply_text(Responder::Api, "<html>").err().unwrap().starts_with("parsing add doi response: "));
    assert!(add_reply_text(Responder::Translator, "").err().unwrap().starts_with("parsing add url response: "));
}
