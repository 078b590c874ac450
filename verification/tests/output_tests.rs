use zotero_cli::output::{
    annotations_table, collections_table, item_detail, items_rows, items_table, list_format,
    notes_table, render_item_detail, select_children, tags_table, ListFormat,
};
use zotero_cli::types::{
    ChildItem, CollectionData, Creator, ItemData, ParentRef, Tag, TagEntry, ZoteroCollection,
    ZoteroItem,
};

fn modern(rows: Vec<Vec<&str>>) -> String {
    let mut b = tabled::builder::Builder::default();
    for r in rows {
        b.push_record(r);
    }
    b.build().with(tabled::settings::Style::modern()).to_string()
}

fn s(x: &str) -> Option<String> {
    Some(x.to_string())
}

fn author(last: &str, first: &str) -> Creator {
    Creator { creator_type: s("author"), first_name: s(first), last_name: s(last), name: None }
}

fn item(key: &str, title: Option<String>) -> ZoteroItem {
    ZoteroItem {
        key: key.to_string(),
        data: ItemData {
            key: key.to_string(),
            title,
            item_type: s("journalArticle"),
            date: s("2020"),
            abstract_note: None,
            creators: vec![],
            tags: vec![],
            doi: None,
            url: None,
        },
    }
}

fn child(key: &str, kind: &str) -> ChildItem {
    ChildItem {
        key: s(key),
        item_type: s(kind),
        annotation_type: None,
        annotation_page_label: None,
        annotation_text: None,
        annotation_comment: None,
        note: None,
    }
}

#[test]
fn empty_lists_give_messages() {
    assert!(items_table(&[]).contains("No items found."));
    assert!(annotations_table(&[]).contains("No annotations found."));
    assert!(notes_table(&[child("N1", "attachment")]).contains("No notes found."));
    assert!(collections_table(&[]).contains("No collections found."));
    assert!(tags_table(&[]).contains("No tags found."));
}

#[test]
fn items_rows_fill_missing_values() {
    let mut it = item("ABC", None);
    it.data.item_type = None;
    it.data.date = None;
    let rows = items_rows(&[it]);
    assert_eq!(rows.len(), 2);
    assert_eq!(rows[0], vec!["Key", "Type", "Title", "Authors", "Date"]);
    assert_eq!(rows[1], vec!["ABC", "\u{2014}", "\u{2014}", "\u{2014}", "\u{2014}"]);
}

#[test]
fn items_rows_join_and_truncate_authors() {
    let mut it = item("K1", Some("T".repeat(60)));
    it.data.creators = vec![
        author("Smith", "Jane"),
        Creator { creator_type: s("editor"), first_name: None, last_name: s("Ed"), name: None },
        author("Doe", "John"),
        author("Longname", "Someone"),
    ];
    let rows = items_rows(&[it]);
    let mut title = "T".repeat(54);
    title.push('\u{2026}');
    assert_eq!(rows[1][2], title);
    assert_eq!(rows[1][3], "Smith, Jane; Doe, John; Longn\u{2026}");
}

#[test]
fn items_table_is_a_modern_table() {
    let mut it = item("K1", s("A title"));
    it.data.creators = vec![author("Smith", "Jane")];
    let expected = modern(vec![
        vec!["Key", "Type", "Title", "Authors", "Date"],
        vec!["K1", "journalArticle", "A title", "Smith, Jane", "2020"],
    ]);
    assert_eq!(items_table(&[it]), expected);
}

#[test]
fn item_detail_lists_present_fields() {
    let mut it = item("K9", s("Paper"));
    it.data.creators = vec![author("Smith", "Jane"), author("Doe", "John")];
    it.data.doi = s("10.1/x");
    it.data.abstract_note = s("one two three");
    it.data.tags = vec![Tag { tag: "a".to_string() }, Tag { tag: "b".to_string() }];
    colored::control::set_override(false);
    let out = item_detail(&it);
    let plain = "Paper\n  Key:      K9\n  Type:     journalArticle\n  Date:     2020\n  Authors:  Smith, Jane; Doe, John\n  DOI:      10.1/x\n\nAbstract:\none two three\n\n  Tags:  a, b\n";
    assert_eq!(out, plain);
}

#[test]
fn render_item_detail_uses_given_styles() {
    let mut it = item("K9", None);
    it.data.url = s("http://x");
    let styled: Vec<String> =
        vec!["[T]", "[K]", "[D]", "[U]", "[A]", "[G]"].into_iter().map(String::from).collect();
    let out = render_item_detail(&it, &styled);
    assert_eq!(
        out,
        "[T]\n  Key:      [K]\n  Type:     journalArticle\n  Date:     2020\n  URL:      [U]\n"
    );
}

#[test]
fn render_item_detail_keeps_empty_author_names() {
    let mut it = item("K", s("T"));
    it.data.creators = vec![Creator { creator_type: s("author"), first_name: None, last_name: s(""), name: None }];
    let styled: Vec<String> = vec!["T", "K", "", "", "", ""].into_iter().map(String::from).collect();
    let out = render_item_detail(&it, &styled);
    assert!(out.contains("  Authors:  \n"));
}

#[test]
fn select_children_keeps_order() {
    let cs = vec![child("A", "note"), child("B", "annotation"), child("C", "note"), child("D", "attachment")];
    assert_eq!(select_children(&cs, "note"), vec![0, 2]);
    assert_eq!(select_children(&cs, "annotation"), vec![1]);
    assert_eq!(select_children(&cs, "other"), Vec::<usize>::new());
}

#[test]
fn annotations_table_rows() {
    let mut a = child("A1", "annotation");
    a.annotation_type = s("highlight");
    a.annotation_page_label = s("4");
    a.annotation_text = s(&"x".repeat(60));
    let cs = vec![child("N", "note"), a];
    let mut text = "x".repeat(49);
    text.push('\u{2026}');
    let expected = modern(vec![
        vec!["Key", "Type", "Page", "Text", "Comment"],
        vec!["A1", "highlight", "4", &text, "\u{2014}"],
    ]);
    assert_eq!(annotations_table(&cs), expected);
}

#[test]
fn notes_table_strips_html() {
    let mut n = child("N1", "note");
    n.note = s("<p>Hello <b>there</b></p>");
    let expected = modern(vec![vec!["Key", "Note (first 80 chars)"], vec!["N1", "Hello there"]]);
    assert_eq!(notes_table(&[n]), expected);
}

#[test]
fn collections_table_parent_cells() {
    let col = |k: &str, p: Option<ParentRef>| ZoteroCollection {
        key: k.to_string(),
        data: CollectionData { key: k.to_string(), name: format!("name {k}"), parent_collection: p },
    };
    let cols = vec![
        col("A", None),
        col("B", Some(ParentRef::Bool(false))),
        col("C", Some(ParentRef::Str("A".to_string()))),
        col("D", Some(ParentRef::Null)),
        col("E", Some(ParentRef::Other)),
    ];
    let expected = modern(vec![
        vec!["Key", "Name", "Parent"],
        vec!["A", "name A", "\u{2014}"],
        vec!["B", "name B", "\u{2014}"],
        vec!["C", "name C", "A"],
        vec!["D", "name D", "\u{2014}"],
        vec!["E", "name E", "\u{2014}"],
    ]);
    assert_eq!(collections_table(&cols), expected);
}

#[test]
fn tags_table_types() {
    let tags = vec![
        TagEntry { tag: s("ml"), tag_type: Some(1) },
        TagEntry { tag: None, tag_type: None },
    ];
    let expected = modern(vec![vec!["Tag", "Type"], vec!["ml", "1"], vec!["\u{2014}", "0"]]);
    assert_eq!(tags_table(&tags), expected);
}

#[test]
fn list_format_choices() {
    assert!(matches!(list_format(false, false), ListFormat::Table));
    assert!(matches!(list_format(false, true), ListFormat::Table));
    assert!(matches!(list_format(true, false), ListFormat::FullJson));
    assert!(matches!(list_format(true, true), ListFormat::CompactJson));
}
