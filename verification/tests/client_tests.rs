use zotero_cli::client::{
    doi_item, pluralise, status_error_message, translation_request, translator_endpoint,
    Responder, ZoteroClient,
};
use zotero_cli::config::Config;

fn client(user_id: Option<u64>, library_type: &str, key: Option<&str>) -> ZoteroClient {
    let cfg = Config {
        api_base: "http://localhost:23119/api".to_string(),
        api_key: key.map(String::from),
        user_id,
        library_type: library_type.to_string(),
    };
    ZoteroClient::new(&cfg)
}

#[test]
fn pluralise_library_types() {
    assert_eq!(pluralise("user"), "users");
    assert_eq!(pluralise("group"), "groups");
    assert_eq!(pluralise("users"), "users");
    assert_eq!(pluralise("other"), "other");
    assert_eq!(pluralise(pluralise("user")), pluralise("user"));
}

#[test]
fn lib_path_defaults_to_user_zero() {
    assert_eq!(client(None, "user", None).lib_path(), "/users/0");
    assert_eq!(client(Some(456), "group", None).lib_path(), "/groups/456");
}

#[test]
fn search_url_encodes_query() {
    let c = client(None, "user", None);
    assert_eq!(
        c.search_url("deep learning & co", 25),
        "http://localhost:23119/api/users/0/items?q=deep%20learning%20%26%20co&limit=25&v=3"
    );
    assert_eq!(
        c.search_url("caf\u{e9}~_.-", 1),
        "http://localhost:23119/api/users/0/items?q=caf%C3%A9~_.-&limit=1&v=3"
    );
}

#[test]
fn read_urls() {
    let c = client(Some(7), "user", None);
    let base = "http://localhost:23119/api/users/7";
    assert_eq!(c.item_url("ABCD"), format!("{base}/items/ABCD?v=3"));
    assert_eq!(c.children_url("ABCD"), format!("{base}/items/ABCD/children?v=3"));
    assert_eq!(c.collections_url(), format!("{base}/collections?v=3"));
    assert_eq!(c.collection_items_url("C1"), format!("{base}/collections/C1/items?v=3"));
    assert_eq!(c.tags_url(), format!("{base}/tags?v=3"));
    assert_eq!(
        c.recent_url(10),
        format!("{base}/items?sort=dateAdded&direction=desc&limit=10&v=3")
    );
    assert_eq!(c.new_items_url(), "http://localhost:23119/api/items?v=3");
}

#[test]
fn auth_header_only_with_key() {
    assert_eq!(client(None, "user", None).auth_header(), None);
    assert_eq!(
        client(None, "user", Some("SECRET-REDACTED")).auth_header(),
        Some(("Zotero-API-Key".to_string(), "SECRET-REDACTED".to_string()))
    );
}

#[test]
fn request_bodies() {
    let d = doi_item("10.1000/xyz");
    assert_eq!(d.item_type, "journalArticle");
    assert_eq!(d.doi, "10.1000/xyz");
    let t = translation_request("https://example.org/paper");
    assert_eq!(t.url, "https://example.org/paper");
    assert_eq!(t.session_id, "zotero-cli");
    assert_eq!(translator_endpoint(), "http://localhost:1969/web");
}

#[test]
fn status_messages() {
    assert_eq!(status_error_message(Responder::Api, 404, "Not found"), "Zotero API error 404: Not found");
    assert_eq!(
        status_error_message(Responder::Translator, 500, ""),
        "Zotero translator error 500: "
    );
}
