use zotero_cli::config::{config_path_in, default_api_base, default_library_type, mask_api_key, Config};
use zotero_cli::types::{CollectionData, CollectionSummary, CompactItem, Creator, ItemData, Tag, ZoteroCollection, ZoteroItem};

#[test]
fn defaults() {
    let c = Config::default();
    assert_eq!(c.api_base, "http://localhost:23119/api");
    assert_eq!(c.api_key, None);
    assert_eq!(c.user_id, None);
    assert_eq!(c.library_type, "user");
    assert_eq!(default_api_base(), "http://localhost:23119/api");
    assert_eq!(default_library_type(), "user");
}

#[test]
fn overrides_replace_values() {
    let c = Config::default().with_overrides(Some("http://remote/api".to_string()), Some("k".to_string()));
    assert_eq!(c.api_base, "http://remote/api");
    assert_eq!(c.api_key, Some("k".to_string()));
    let d = Config::default().with_overrides(None, None);
    assert_eq!(d.api_base, "http://localhost:23119/api");
    assert_eq!(d.api_key, None);
}

#[test]
fn config_path_joins() {
    assert_eq!(config_path_in(Some("/home/u/.config".to_string())), "/home/u/.config/zotero-cli/config.toml");
    assert_eq!(config_path_in(Some("/etc/".to_string())), "/etc/zotero-cli/config.toml");
    assert_eq!(config_path_in(None), "~/.config/zotero-cli/config.toml");
    assert!(Config::path().ends_with("/zotero-cli/config.toml"));
}

#[test]
fn api_key_masking() {
    assert_eq!(mask_api_key("abcdefghijkl"), "abcdefgh\u{2026}");
    assert_eq!(mask_api_key("abc"), "abc\u{2026}");
    assert_eq!(mask_api_key(""), "\u{2026}");
    assert_eq!(mask_api_key("a\u{e9}\u{e9}\u{e9}\u{e9}"), "a\u{e9}\u{e9}\u{e9}\u{e9}\u{2026}");
    assert_eq!(mask_api_key(&"\u{e9}".repeat(9)), format!("{}\u{2026}", "\u{e9}".repeat(8)));
}

#[test]
fn config_report_with_non_ascii_key() {
    let c = Config::default().with_overrides(None, Some("a\u{e9}\u{e9}\u{e9}\u{e9}".to_string()));
    assert!(c.report("p").contains("  api_key:      a\u{e9}\u{e9}\u{e9}\u{e9}\u{2026}\n"));
}

#[test]
fn config_report_text() {
    let c = Config {
        api_base: "http://localhost:23119/api".to_string(),
        api_key: Some("0123456789".to_string()),
        user_id: Some(42),
        library_type: "group".to_string(),
    };
    assert_eq!(
        c.report("/p/config.toml"),
        "/p/config.toml\n\n  api_base:     http://localhost:23119/api\n  api_key:      01234567\u{2026}\n  user_id:      42\n  library_type: group\n"
    );
    assert_eq!(
        Config::default().report("x"),
        "x\n\n  api_base:     http://localhost:23119/api\n  api_key:      (not set)\n  user_id:      (not set)\n  library_type: user\n"
    );
}

#[test]
fn display_names() {
    let c = |l: Option<&str>, f: Option<&str>, n: Option<&str>| Creator {
        creator_type: None,
        first_name: f.map(String::from),
        last_name: l.map(String::from),
        name: n.map(String::from),
    };
    assert_eq!(c(Some("Smith"), Some("Jane"), None).display_name(), "Smith, Jane");
    assert_eq!(c(Some("Smith"), None, Some("X")).display_name(), "Smith");
    assert_eq!(c(None, None, Some("WHO")).display_name(), "WHO");
    assert_eq!(c(None, Some("Jane"), Some("X")).display_name(), "Unknown");
    assert_eq!(c(None, None, None).display_name(), "Unknown");
}

#[test]
fn compact_item_drops_verbose_fields() {
    let it = ZoteroItem {
        key: "K".to_string(),
        data: ItemData {
            key: "K".to_string(),
            title: Some("T".to_string()),
            item_type: Some("book".to_string()),
            date: None,
            abstract_note: Some("long".to_string()),
            creators: vec![Creator { creator_type: Some("author".to_string()), first_name: None, last_name: Some("L".to_string()), name: None }],
            tags: vec![Tag { tag: "t".to_string() }],
            doi: Some("d".to_string()),
            url: Some("u".to_string()),
        },
    };
    let c = CompactItem::from_item(&it);
    assert_eq!(c.key, "K");
    assert_eq!(c.title, Some("T".to_string()));
    assert_eq!(c.item_type, Some("book".to_string()));
    assert_eq!(c.date, None);
    assert_eq!(c.creators.len(), 1);
    assert_eq!(c.creators[0].last_name, Some("L".to_string()));
    let col = ZoteroCollection { key: "C".to_string(), data: CollectionData { key: "C".to_string(), name: "N".to_string(), parent_collection: None } };
    let s = CollectionSummary::from_collection(&col);
    assert_eq!((s.key.as_str(), s.name.as_str()), ("C", "N"));
}
