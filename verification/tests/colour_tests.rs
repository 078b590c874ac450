use zotero_cli::output::{item_detail, items_table};
use zotero_cli::types::{ItemData, ZoteroItem};

fn s(x: &str) -> Option<String> {
    Some(x.to_string())
}

fn item(key: &str, title: Option<String>) -> ZoteroItem {
    ZoteroItem {
        key: key.to_string(),
        data: ItemData {
            key: key.to_string(),
            title,
            item_type: s("journalArticle"),
            date: s("2020"),
            abstract_note: None,
            creators: vec![],
            tags: vec![],
            doi: None,
            url: None,
        },
    }
}

#[test]
fn item_detail_styles_when_colour_is_on() {
    colored::control::set_override(true);
    let mut it = item("K9", s("Paper"));
    it.data.url = s("http://x");
    let out = item_detail(&it);
    assert_eq!(
        out,
        "\u{1b}[1mPaper\u{1b}[0m\n  Key:      \u{1b}[36mK9\u{1b}[0m\n  Type:     journalArticle\n  Date:     2020\n  URL:      \u{1b}[34mhttp://x\u{1b}[0m\n"
    );
}

#[test]
fn empty_message_styled_when_colour_is_on() {
    colored::control::set_override(true);
    assert_eq!(items_table(&[]), "\u{1b}[33mNo items found.\u{1b}[0m");
}

