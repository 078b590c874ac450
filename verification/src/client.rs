//! The requests that the client sends to the Zotero API: the library-scoped
//! URLs of the read operations, the authentication header, the bodies of the
//! two "add" operations, and the messages of failed requests. The requests
//! themselves are carried out by the application around this library.

use vstd::prelude::*;

use crate::config::Config;
use crate::text::{all_digits, decimal, decimal_string, decimal_value, lemma_decimal_round_trip, opt_view, owned, str_eq};

verus! {

/* ---------------------------------------------------------------------- */
/*  Percent-encoding                                                       */
/* ---------------------------------------------------------------------- */

/// Whether byte `b` is left as it is by percent-encoding: an ASCII letter or
/// digit, or one of `-`, `.`, `_`, `~`.
pub open spec fn unreserved(b: u8) -> bool {
    ||| 48 <= b <= 57
    ||| 65 <= b <= 90
    ||| 97 <= b <= 122
    ||| b == 45
    ||| b == 46
    ||| b == 95
    ||| b == 126
}

/// The upper-case hexadecimal digit for `d < 16`.
pub open spec fn hex_digit(d: u8) -> char {
    if d < 10 {
        (48 + d) as char
    } else {
        (55 + d) as char
    }
}

/// The percent-encoding of `bytes`: each unreserved byte stands for itself,
/// every other byte becomes `%` and its two upper-case hexadecimal digits.
pub open spec fn percent_encoded(bytes: Seq<u8>) -> Seq<char>
    decreases bytes.len(),
{
    if bytes.len() == 0 {
        Seq::empty()
    } else {
        let b = bytes[0];
        (if unreserved(b) {
            seq![b as char]
        } else {
            seq!['%', hex_digit(b / 16), hex_digit(b % 16)]
        }) + percent_encoded(bytes.drop_first())
    }
}

/// `urlencoding::encode`: the percent-encoding of the UTF-8 bytes of `s`.
#[verifier::external_body]
fn url_encode(s: &str) -> (r: String)
    ensures
        r@ == percent_encoded(vstd::utf8::encode_utf8(s@)),
{
    urlencoding::encode(s).into_owned()
}

/* ---------------------------------------------------------------------- */
/*  The client                                                             */
/* ---------------------------------------------------------------------- */

/// The library type in the plural form that API paths use: "user" becomes
/// "users", "group" becomes "groups", anything else stays as it is.
pub open spec fn pluralised(s: Seq<char>) -> Seq<char> {
    if s == "user"@ {
        "users"@
    } else if s == "group"@ {
        "groups"@
    } else {
        s
    }
}

/// The plural form of a library type (see `pluralised`).
pub fn pluralise(s: &str) -> (r: &str)
    ensures
        r@ == pluralised(s@),
{
    if str_eq(s, "user") {
        "users"
    } else if str_eq(s, "group") {
        "groups"
    } else {
        s
    }
}

/// Pluralising a library type twice is pluralising it once.
pub proof fn lemma_pluralise_idempotent(s: Seq<char>)
    ensures
        pluralised(pluralised(s)) == pluralised(s),
{
    reveal_strlit("user");
    reveal_strlit("users");
    reveal_strlit("group");
    reveal_strlit("groups");
    if s == "user"@ {
        assert("users"@ != "user"@) by {
            assert("users"@.len() != "user"@.len());
        }
        assert("users"@ != "group"@) by {
            assert("users"@[1] != "group"@[1]);
        }
    } else if s == "group"@ {
        assert("groups"@ != "user"@) by {
            assert("groups"@.len() != "user"@.len());
        }
        assert("groups"@ != "group"@) by {
            assert("groups"@.len() != "group"@.len());
        }
    }
}

/// What a client holds: the API base, the optional API key, the optional
/// user id and the library type.
pub struct ClientView {
    pub base: Seq<char>,
    pub api_key: Option<Seq<char>>,
    pub user_id: Option<u64>,
    pub library_type: Seq<char>,
}

/// A client of the Zotero API for one library.
pub struct ZoteroClient {
    base: String,
    api_key: Option<String>,
    user_id: Option<u64>,
    library_type: String,
}

impl View for ZoteroClient {
    type V = ClientView;

    closed spec fn view(&self) -> ClientView {
        ClientView {
            base: self.base@,
            api_key: opt_view(self.api_key),
            user_id: self.user_id,
            library_type: self.library_type@,
        }
    }
}

/// The library-scoped path prefix of a client, such as "/users/0" or
/// "/groups/456"; a missing user id stands for 0, the local connector's alias
/// of the logged-in user.
pub open spec fn library_path(c: ClientView) -> Seq<char> {
    "/"@ + pluralised(c.library_type) + "/"@ + decimal(
        match c.user_id {
            Some(id) => id as nat,
            None => 0,
        },
    )
}

/// The start of every library-scoped URL: the API base and the library path.
pub open spec fn library_url(c: ClientView) -> Seq<char> {
    c.base + library_path(c)
}

/// The URL of a keyword search.
pub open spec fn search_url_spec(c: ClientView, query: Seq<char>, limit: nat) -> Seq<char> {
    library_url(c) + "/items?q="@ + percent_encoded(vstd::utf8::encode_utf8(query))
        + "&limit="@ + decimal(limit) + "&v=3"@
}

/// The URL of one item.
pub open spec fn item_url_spec(c: ClientView, key: Seq<char>) -> Seq<char> {
    library_url(c) + "/items/"@ + key + "?v=3"@
}

/// The URL of the children (notes, annotations, ...) of an item.
pub open spec fn children_url_spec(c: ClientView, key: Seq<char>) -> Seq<char> {
    library_url(c) + "/items/"@ + key + "/children?v=3"@
}

/// The URL of the list of collections.
pub open spec fn collections_url_spec(c: ClientView) -> Seq<char> {
    library_url(c) + "/collections?v=3"@
}

/// The URL of the items of a collection.
pub open spec fn collection_items_url_spec(c: ClientView, id: Seq<char>) -> Seq<char> {
    library_url(c) + "/collections/"@ + id + "/items?v=3"@
}

/// The URL of the list of tags.
pub open spec fn tags_url_spec(c: ClientView) -> Seq<char> {
    library_url(c) + "/tags?v=3"@
}

/// The URL of the `n` most recently added items.
pub open spec fn recent_url_spec(c: ClientView, n: nat) -> Seq<char> {
    library_url(c) + "/items?sort=dateAdded&direction=desc&limit="@ + decimal(n) + "&v=3"@
}

/// The URL to which new items are posted.
pub open spec fn new_items_url_spec(c: ClientView) -> Seq<char> {
    c.base + "/items?v=3"@
}

/// An item to create from a DOI, posted as `[{"itemType": .., "DOI": ..}]`.
pub struct DoiItem {
    pub item_type: String,
    pub doi: String,
}

/// A request to the translation server to add the item found at a web page,
/// posted as `{"url": .., "sessionID": ..}`.
pub struct TranslationRequest {
    pub url: String,
    pub session_id: String,
}

/// Who answered a failed request.
pub enum Responder {
    Api,
    Translator,
}

/// The message of a request that was answered with status `code` and body
/// `body`.
pub open spec fn status_message(who: Responder, code: u16, body: Seq<char>) -> Seq<char> {
    let prefix = match who {
        Responder::Api => "Zotero API error "@,
        Responder::Translator => "Zotero translator error "@,
    };
    prefix + decimal(code as nat) + ": "@ + body
}

/// The message of a request that was answered with status `code` and body
/// `body`: "Zotero API error 404: ..." or "Zotero translator error 500: ...".
pub fn status_error_message(who: Responder, code: u16, body: &str) -> (r: String)
    ensures
        r@ == status_message(who, code, body@),
{
    let mut r = match who {
        Responder::Api => owned("Zotero API error "),
        Responder::Translator => owned("Zotero translator error "),
    };
    let c = decimal_string(code as u64);
    r.append(c.as_str());
    r.append(": ");
    r.append(body);
    r
}

/// The endpoint of the local translation server.
pub fn translator_endpoint() -> (r: String)
    ensures
        r@ == "http://localhost:1969/web"@,
{
    owned("http://localhost:1969/web")
}

/// The body that asks the translation server for the item at `url`.
pub fn translation_request(url: &str) -> (r: TranslationRequest)
    ensures
        r.url@ == url@,
        r.session_id@ == "zotero-cli"@,
{
    TranslationRequest { url: owned(url), session_id: owned("zotero-cli") }
}

/// The item that asks Zotero to create a journal article from `doi`.
pub fn doi_item(doi: &str) -> (r: DoiItem)
    ensures
        r.item_type@ == "journalArticle"@,
        r.doi@ == doi@,
{
    DoiItem { item_type: owned("journalArticle"), doi: owned(doi) }
}

impl ZoteroClient {
    /// A client for the library that `cfg` describes.
    pub fn new(cfg: &Config) -> (r: ZoteroClient)
        ensures
            r@.base == cfg.api_base@,
            r@.api_key == opt_view(cfg.api_key),
            r@.user_id == cfg.user_id,
            r@.library_type == cfg.library_type@,
    {
        ZoteroClient {
            base: cfg.api_base.clone(),
            api_key: match &cfg.api_key {
                Some(k) => Some(k.clone()),
                None => None,
            },
            user_id: cfg.user_id,
            library_type: cfg.library_type.clone(),
        }
    }

    /// The header that authenticates a request to the API: "Zotero-API-Key"
    /// with the key, when the client has one.
    pub fn auth_header(&self) -> (r: Option<(String, String)>)
        ensures
            self@.api_key is None ==> r is None,
            self@.api_key matches Some(k) ==> r matches Some(h) && h.0@ == "Zotero-API-Key"@
                && h.1@ == k,
    {
        match &self.api_key {
            Some(k) => Some((owned("Zotero-API-Key"), k.clone())),
            None => None,
        }
    }

    /// The library-scoped path prefix (see `library_path`).
    pub fn lib_path(&self) -> (r: String)
        ensures
            r@ == library_path(self@),
    {
        let id: u64 = match self.user_id {
            Some(id) => id,
            None => 0,
        };
        let mut r = owned("/");
        r.append(pluralise(self.library_type.as_str()));
        r.append("/");
        let d = decimal_string(id);
        r.append(d.as_str());
        r
    }

    fn library_url(&self) -> (r: String)
        ensures
            r@ == library_url(self@),
    {
        let mut r = self.base.clone();
        let lib = self.lib_path();
        r.append(lib.as_str());
        r
    }

    /// The URL of a search for `query`, returning at most `limit` items.
    pub fn search_url(&self, query: &str, limit: usize) -> (r: String)
        ensures
            r@ == search_url_spec(self@, query@, limit as nat),
    {
        let mut r = self.library_url();
        r.append("/items?q=");
        let q = url_encode(query);
        r.append(q.as_str());
        r.append("&limit=");
        let l = decimal_string(limit as u64);
        r.append(l.as_str());
        r.append("&v=3");
        r
    }

    /// The URL of the item with key `key`.
    pub fn item_url(&self, key: &str) -> (r: String)
        ensures
            r@ == item_url_spec(self@, key@),
    {
        let mut r = self.library_url();
        r.append("/items/");
        r.append(key);
        r.append("?v=3");
        r
    }

    /// The URL of the children of the item with key `key`.
    pub fn children_url(&self, key: &str) -> (r: String)
        ensures
            r@ == children_url_spec(self@, key@),
    {
        let mut r = self.library_url();
        r.append("/items/");
        r.append(key);
        r.append("/children?v=3");
        r
    }

    /// The URL of the list of collections.
    pub fn collections_url(&self) -> (r: String)
        ensures
            r@ == collections_url_spec(self@),
    {
        let mut r = self.library_url();
        r.append("/collections?v=3");
        r
    }

    /// The URL of the items of the collection `id`.
    pub fn collection_items_url(&self, id: &str) -> (r: String)
        ensures
            r@ == collection_items_url_spec(self@, id@),
    {
        let mut r = self.library_url();
        r.append("/collections/");
        r.append(id);
        r.append("/items?v=3");
        r
    }

    /// The URL of the list of tags.
    pub fn tags_url(&self) -> (r: String)
        ensures
            r@ == tags_url_spec(self@),
    {
        let mut r = self.library_url();
        r.append("/tags?v=3");
        r
    }

    /// The URL of the `n` most recently added items.
    pub fn recent_url(&self, n: usize) -> (r: String)
        ensures
            r@ == recent_url_spec(self@, n as nat),
    {
        let mut r = self.library_url();
        r.append("/items?sort=dateAdded&direction=desc&limit=");
        let d = decimal_string(n as u64);
        r.append(d.as_str());
        r.append("&v=3");
        r
    }

    /// The URL to which new items are posted (not library-scoped).
    pub fn new_items_url(&self) -> (r: String)
        ensures
            r@ == new_items_url_spec(self@),
    {
        let mut r = self.base.clone();
        r.append("/items?v=3");
        r
    }
}

/// Whether `c` may stand in a query value as it is: an ASCII letter or digit,
/// one of `-`, `.`, `_`, `~`, or the escape character `%`.
pub open spec fn query_safe(c: char) -> bool {
    ||| '0' <= c <= '9'
    ||| 'A' <= c <= 'Z'
    ||| 'a' <= c <= 'z'
    ||| c == '-'
    ||| c == '.'
    ||| c == '_'
    ||| c == '~'
    ||| c == '%'
}

/// A percent-encoded text holds only query-safe characters, so a search
/// term can never end its parameter or start another one (no `&`, `=`, `#`
/// or space gets through).
pub proof fn lemma_percent_encoded_safe(bytes: Seq<u8>)
    ensures
        forall|i: int|
            0 <= i < percent_encoded(bytes).len() ==> query_safe(
                #[trigger] percent_encoded(bytes)[i],
            ),
    decreases bytes.len(),
{
    if bytes.len() > 0 {
        lemma_percent_encoded_safe(bytes.drop_first());
        let b = bytes[0];
        let head = if unreserved(b) {
            seq![b as char]
        } else {
            seq!['%', hex_digit(b / 16), hex_digit(b % 16)]
        };
        let t = percent_encoded(bytes.drop_first());
        assert forall|i: int| 0 <= i < (head + t).len() implies query_safe(
            #[trigger] (head + t)[i],
        ) by {
            if i >= head.len() {
                assert((head + t)[i] == t[i - head.len()]);
            } else if !unreserved(b) && i > 0 {
                assert(b / 16 < 16 && b % 16 < 16);
            }
        }
    }
}

/// Without a user id, the client addresses the logged-in user's local
/// library: a user library's path is "/users/0".
pub proof fn lemma_local_user_library(c: ClientView)
    requires
        c.user_id is None,
        c.library_type == "user"@,
    ensures
        library_path(c) == "/users/0"@,
{
    reveal_strlit("/");
    reveal_strlit("users");
    reveal_strlit("/users/0");
    assert(decimal(0) =~= seq!['0']);
    assert(library_path(c) =~= "/users/0"@);
}

/// The recent-items URL asks for exactly `n` items: it is the library URL,
/// the newest-first query, and a limit written in digits that read back as
/// `n`, for every `n`.
pub proof fn lemma_recent_url_limit(c: ClientView, n: nat)
    ensures
        exists|digits: Seq<char>|
            all_digits(digits) && decimal_value(digits) == n && #[trigger] recent_url_spec(c, n)
                == library_url(c) + "/items?sort=dateAdded&direction=desc&limit="@ + digits
                + "&v=3"@,
{
    lemma_decimal_round_trip(n);
    let digits = decimal(n);
    assert(recent_url_spec(c, n) == library_url(c) + "/items?sort=dateAdded&direction=desc&limit="@
        + digits + "&v=3"@);
}

/// The search URL asks for at most `limit` items: after the encoded query
/// comes a limit written in digits that read back as `limit`.
pub proof fn lemma_search_url_limit(c: ClientView, query: Seq<char>, limit: nat)
    ensures
        exists|digits: Seq<char>|
            all_digits(digits) && decimal_value(digits) == limit && #[trigger] search_url_spec(
                c,
                query,
                limit,
            ) == library_url(c) + "/items?q="@ + percent_encoded(vstd::utf8::encode_utf8(query))
                + "&limit="@ + digits + "&v=3"@,
{
    lemma_decimal_round_trip(limit);
    let digits = decimal(limit);
    assert(search_url_spec(c, query, limit) == library_url(c) + "/items?q="@ + percent_encoded(
        vstd::utf8::encode_utf8(query),
    ) + "&limit="@ + digits + "&v=3"@);
}

/// Every library URL starts with the API base, then the library type in
/// its plural form, then the user id written in digits that read back as
/// the id (0 when the client has none).
pub proof fn lemma_library_path_id(c: ClientView)
    ensures
        exists|digits: Seq<char>|
            all_digits(digits) && decimal_value(digits) == (match c.user_id {
                Some(id) => id as nat,
                None => 0,
            }) && #[trigger] library_url(c) == c.base + "/"@ + pluralised(c.library_type) + "/"@
                + digits,
{
    let id: nat = match c.user_id {
        Some(id) => id as nat,
        None => 0,
    };
    lemma_decimal_round_trip(id);
    let digits = decimal(id);
    assert(library_url(c) =~= c.base + "/"@ + pluralised(c.library_type) + "/"@ + digits);
}

/// Pluralising adds an "s" exactly to the two library types "user" and
/// "group", and leaves every other text as it is.
pub proof fn lemma_pluralise_adds_s(s: Seq<char>)
    ensures
        (s == "user"@ || s == "group"@) ==> pluralised(s) == s.push('s'),
        !(s == "user"@ || s == "group"@) ==> pluralised(s) == s,
{
    reveal_strlit("user");
    reveal_strlit("users");
    reveal_strlit("group");
    reveal_strlit("groups");
    if s == "user"@ {
        assert("users"@ =~= "user"@.push('s'));
    } else if s == "group"@ {
        assert("groups"@ =~= "group"@.push('s'));
    }
}

/// The value of an upper-case hexadecimal digit.
pub open spec fn hex_value(c: char) -> int {
    if '0' <= c <= '9' {
        c as int - 48
    } else {
        c as int - 55
    }
}

/// Whether `c` is an upper-case hexadecimal digit.
pub open spec fn is_upper_hex(c: char) -> bool {
    ('0' <= c <= '9') || ('A' <= c <= 'F')
}

/// Percent-encoding works byte by byte: the encoding of two byte strings
/// one after the other is their encodings one after the other; an
/// unreserved byte stands for itself, and any other byte becomes `%` and
/// two upper-case hexadecimal digits whose value is the byte.
pub proof fn lemma_percent_encoding_bytewise(a: Seq<u8>, b: Seq<u8>, x: u8)
    ensures
        percent_encoded(a + b) == percent_encoded(a) + percent_encoded(b),
        unreserved(x) ==> percent_encoded(seq![x]) == seq![x as char],
        !unreserved(x) ==> percent_encoded(seq![x]).len() == 3 && percent_encoded(seq![x])[0]
            == '%' && is_upper_hex(percent_encoded(seq![x])[1]) && is_upper_hex(
            percent_encoded(seq![x])[2],
        ) && hex_value(percent_encoded(seq![x])[1]) * 16 + hex_value(percent_encoded(seq![x])[2])
            == x,
    decreases a.len(),
{
    if a.len() == 0 {
        assert(a + b =~= b);
        assert(percent_encoded(a) + percent_encoded(b) =~= percent_encoded(b));
    } else {
        assert((a + b)[0] == a[0]);
        assert((a + b).drop_first() =~= a.drop_first() + b);
        lemma_percent_encoding_bytewise(a.drop_first(), b, x);
        let h = if unreserved(a[0]) {
            seq![a[0] as char]
        } else {
            seq!['%', hex_digit(a[0] / 16), hex_digit(a[0] % 16)]
        };
        assert(h + (percent_encoded(a.drop_first()) + percent_encoded(b)) =~= (h
            + percent_encoded(a.drop_first())) + percent_encoded(b));
    }
    assert(seq![x].drop_first() =~= Seq::<u8>::empty());
    assert(percent_encoded(Seq::<u8>::empty()) =~= Seq::<char>::empty());
    if unreserved(x) {
        assert(percent_encoded(seq![x]) =~= seq![x as char]);
    } else {
        let e = percent_encoded(seq![x]);
        assert(e =~= seq!['%', hex_digit(x / 16), hex_digit(x % 16)]);
        assert(x / 16 < 16 && x % 16 < 16);
        assert(x == (x / 16) * 16 + x % 16);
    }
}

/// A failed request's message names who answered, then gives the status
/// code in digits that read back as the code, then the reply's body.
pub proof fn lemma_status_message_parts(who: Responder, code: u16, body: Seq<char>)
    ensures
        exists|digits: Seq<char>|
            crate::text::all_digits(digits) && decimal_value(digits) == code
                && #[trigger] status_message(who, code, body) == (match who {
                Responder::Api => "Zotero API error "@,
                Responder::Translator => "Zotero translator error "@,
            }) + digits + ": "@ + body,
{
    lemma_decimal_round_trip(code as nat);
    let digits = decimal(code as nat);
    assert(status_message(who, code, body) == (match who {
        Responder::Api => "Zotero API error "@,
        Responder::Translator => "Zotero translator error "@,
    }) + digits + ": "@ + body);
}

/// Each read URL is the library URL followed by the resource's path, the
/// key or collection id standing verbatim in it, and the API version 3.
pub proof fn lemma_read_urls(c: ClientView, key: Seq<char>)
    ensures
        item_url_spec(c, key) == library_url(c) + ("/items/"@ + key + "?v=3"@),
        children_url_spec(c, key) == library_url(c) + ("/items/"@ + key + "/children?v=3"@),
        collections_url_spec(c) == library_url(c) + "/collections?v=3"@,
        collection_items_url_spec(c, key) == library_url(c) + ("/collections/"@ + key
            + "/items?v=3"@),
        tags_url_spec(c) == library_url(c) + "/tags?v=3"@,
        new_items_url_spec(c) == c.base + "/items?v=3"@,
{
    assert(item_url_spec(c, key) =~= library_url(c) + ("/items/"@ + key + "?v=3"@));
    assert(children_url_spec(c, key) =~= library_url(c) + ("/items/"@ + key
        + "/children?v=3"@));
    assert(collection_items_url_spec(c, key) =~= library_url(c) + ("/collections/"@ + key
        + "/items?v=3"@));
}

} // verus!
