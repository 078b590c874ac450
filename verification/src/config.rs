//! Configuration: its defaults, the overrides that the environment and the
//! command line apply, the location of the configuration file, and the
//! report that the `config` command prints.

use vstd::prelude::*;

use crate::text::{decimal, decimal_string, ellipsis, owned, or_text};

verus! {

/// The settings of the client. Every field has a default, so the tool works
/// against a locally running Zotero without any configuration file.
pub struct Config {
    pub api_base: String,
    pub api_key: Option<String>,
    pub user_id: Option<u64>,
    pub library_type: String,
}

/// The API base of the local Zotero connector.
pub fn default_api_base() -> (r: String)
    ensures
        r@ == "http://localhost:23119/api"@,
{
    owned("http://localhost:23119/api")
}

/// The library type used when none is configured.
pub fn default_library_type() -> (r: String)
    ensures
        r@ == "user"@,
{
    owned("user")
}

impl Default for Config {
    /// The local connector's API base, no key, no user id, and the user
    /// library.
    fn default() -> (r: Self)
        ensures
            r.api_base@ == "http://localhost:23119/api"@,
            r.api_key is None,
            r.user_id is None,
            r.library_type@ == "user"@,
    {
        Config {
            api_base: default_api_base(),
            api_key: None,
            user_id: None,
            library_type: default_library_type(),
        }
    }
}

/// `path` joined with the relative component `part`: a separator goes
/// between them unless `path` is empty or already ends with one.
pub open spec fn path_join(path: Seq<char>, part: Seq<char>) -> Seq<char> {
    if path.len() == 0 {
        part
    } else if path.last() == '/' {
        path + part
    } else {
        path.push('/') + part
    }
}

/// The configuration file under the configuration directory `dir`.
pub open spec fn config_file_in(dir: Seq<char>) -> Seq<char> {
    path_join(path_join(dir, "zotero-cli"@), "config.toml"@)
}

/// The directory used when the platform names no configuration directory.
pub open spec fn fallback_config_dir() -> Seq<char> {
    "~/.config"@
}

/// How the `config` report shows the API key `k`: its first eight
/// characters (all of it when it is shorter), followed by an ellipsis.
pub open spec fn masked_key(k: Seq<char>) -> Seq<char> {
    k.take(if k.len() < 8 {
        k.len() as int
    } else {
        8
    }).push(ellipsis())
}

/// How the `config` report shows an optional API key.
pub open spec fn shown_key(k: Option<String>) -> Seq<char> {
    match k {
        Some(k) => masked_key(k@),
        None => "(not set)"@,
    }
}

/// `dirs::config_dir`, as text: the platform's configuration directory, if
/// it has one (the path is converted lossily where it is not valid Unicode).
/// What it is depends on the environment, so nothing is stated of it.
#[verifier::external_body]
fn platform_config_dir() -> Option<String> {
    match dirs::config_dir() {
        Some(p) => Some(p.to_string_lossy().into_owned()),
        None => None,
    }
}

fn path_join_exec(path: &str, part: &str) -> (r: String)
    ensures
        r@ == path_join(path@, part@),
{
    let cs = crate::text::chars_of(path);
    let mut r = owned(path);
    if cs.len() > 0 && cs[cs.len() - 1] != '/' {
        r.push('/');
    }
    r.append(part);
    r
}

/// The configuration file's path under `dir`, or under "~/.config" where
/// there is no directory.
pub fn config_path_in(dir: Option<String>) -> (r: String)
    ensures
        r@ == config_file_in(or_text(dir, fallback_config_dir())),
{
    let base = match dir {
        Some(d) => d,
        None => owned("~/.config"),
    };
    let app_dir = path_join_exec(base.as_str(), "zotero-cli");
    path_join_exec(app_dir.as_str(), "config.toml")
}

/// The key `k` as the `config` report shows it (see `masked_key`).
pub fn mask_api_key(k: &str) -> (r: String)
    ensures
        r@ == masked_key(k@),
{
    let cs = crate::text::chars_of(k);
    let cut: usize = if cs.len() < 8 {
        cs.len()
    } else {
        8
    };
    let mut r = String::new();
    crate::text::push_chars(&mut r, &cs, 0, cut);
    r.push('\u{2026}');
    assert(cs@.subrange(0, cut as int) =~= k@.take(cut as int));
    r
}

/// The text of the `config` report for `cfg`, its file being at `path`.
pub open spec fn report_text(cfg: Config, path: Seq<char>, shown_key: Seq<char>) -> Seq<char> {
    path + "\n"@ + "\n"@ + "  api_base:     "@ + cfg.api_base@ + "\n"@ + "  api_key:      "@
        + shown_key + "\n"@ + "  user_id:      "@ + match cfg.user_id {
        Some(id) => decimal(id as nat),
        None => "(not set)"@,
    } + "\n"@ + "  library_type: "@ + cfg.library_type@ + "\n"@
}

/// The configuration file is always "config.toml" in a directory
/// "zotero-cli": whatever the configuration directory, the path is some
/// directory prefix (empty, or ending with a separator) followed by
/// "zotero-cli/config.toml".
pub proof fn lemma_config_file_components(dir: Seq<char>)
    ensures
        exists|prefix: Seq<char>|
            (prefix.len() == 0 || prefix.last() == '/') && config_file_in(dir) == prefix
                + "zotero-cli/config.toml"@,
{
    reveal_strlit("zotero-cli");
    reveal_strlit("config.toml");
    reveal_strlit("zotero-cli/config.toml");
    let prefix = if dir.len() == 0 {
        dir
    } else if dir.last() == '/' {
        dir
    } else {
        dir.push('/')
    };
    let mid = path_join(dir, "zotero-cli"@);
    assert(mid =~= prefix + "zotero-cli"@);
    assert(mid.len() > 0);
    assert(mid.last() == 'i');
    assert(config_file_in(dir) =~= prefix + "zotero-cli/config.toml"@);
}

/// The shown key is the key's first characters followed by the ellipsis:
/// the whole key when it has at most eight characters, otherwise exactly
/// its first eight.
pub proof fn lemma_masked_key_shape(k: Seq<char>)
    ensures
        masked_key(k).last() == ellipsis(),
        k.len() <= 8 ==> masked_key(k).drop_last() == k,
        k.len() > 8 ==> masked_key(k).drop_last() == k.take(8) && masked_key(k).len() == 9,
{
    assert(masked_key(k).drop_last() =~= k.take(if k.len() < 8 {
        k.len() as int
    } else {
        8
    }));
    if k.len() <= 8 {
        assert(k.take(k.len() as int) =~= k);
    }
}

/// The report holds each setting on its own labelled line, the path first:
/// the API base, the shown key ("(not set)" without one), the user id in
/// digits that read back as the id ("(not set)" without one) and the
/// library type.
pub proof fn lemma_report_lines(cfg: Config, path: Seq<char>, shown: Seq<char>)
    ensures
        report_text(cfg, path, shown).take((path.len() + 1) as int) == path + "\n"@,
        crate::text::occurs_in(
            report_text(cfg, path, shown),
            "  api_base:     "@ + cfg.api_base@ + "\n"@,
        ),
        crate::text::occurs_in(report_text(cfg, path, shown), "  api_key:      "@ + shown + "\n"@),
        crate::text::occurs_in(
            report_text(cfg, path, shown),
            "  library_type: "@ + cfg.library_type@ + "\n"@,
        ),
        cfg.user_id matches Some(id) ==> exists|digits: Seq<char>|
            crate::text::all_digits(digits) && crate::text::decimal_value(digits) == id
                && #[trigger] crate::text::occurs_in(
                report_text(cfg, path, shown),
                "  user_id:      "@ + digits + "\n"@,
            ),
        cfg.user_id is None ==> crate::text::occurs_in(
            report_text(cfg, path, shown),
            "  user_id:      "@ + "(not set)"@ + "\n"@,
        ),
{
    let r = report_text(cfg, path, shown);
    let id_text = match cfg.user_id {
        Some(id) => decimal(id as nat),
        None => "(not set)"@,
    };
    let l0 = path + "\n"@;
    let l1 = "\n"@;
    let base = "  api_base:     "@ + cfg.api_base@ + "\n"@;
    let key = "  api_key:      "@ + shown + "\n"@;
    let id = "  user_id:      "@ + id_text + "\n"@;
    let lt = "  library_type: "@ + cfg.library_type@ + "\n"@;
    assert(r =~= l0 + l1 + base + key + id + lt);
    assert(r.take((path.len() + 1) as int) =~= path + "\n"@) by {
        reveal_strlit("\n");
    }
    assert(r =~= (l0 + l1) + base + (key + id + lt));
    crate::text::lemma_occurs_between(l0 + l1, base, key + id + lt);
    assert(r =~= (l0 + l1 + base) + key + (id + lt));
    crate::text::lemma_occurs_between(l0 + l1 + base, key, id + lt);
    assert(r =~= (l0 + l1 + base + key) + id + lt);
    crate::text::lemma_occurs_between(l0 + l1 + base + key, id, lt);
    assert(r =~= (l0 + l1 + base + key + id) + lt + Seq::<char>::empty());
    crate::text::lemma_occurs_between(l0 + l1 + base + key + id, lt, Seq::empty());
    if let Some(uid) = cfg.user_id {
        crate::text::lemma_decimal_round_trip(uid as nat);
        assert(crate::text::occurs_in(r, "  user_id:      "@ + decimal(uid as nat) + "\n"@));
    }
}

impl Config {
    /// This configuration with the environment's overrides applied: an API
    /// base given replaces the configured one, and an API key given becomes
    /// the key.
    pub fn with_overrides(self, api_base: Option<String>, api_key: Option<String>) -> (r: Config)
        ensures
            r.api_base@ == or_text(api_base, self.api_base@),
            api_key is Some ==> r.api_key == api_key,
            api_key is None ==> r.api_key == self.api_key,
            r.user_id == self.user_id,
            r.library_type == self.library_type,
    {
        let mut cfg = self;
        if let Some(base) = api_base {
            cfg.api_base = base;
        }
        if let Some(key) = api_key {
            cfg.api_key = Some(key);
        }
        cfg
    }

    /// The path of the configuration file: "zotero-cli/config.toml" under
    /// the platform's configuration directory, or under "~/.config" where it
    /// has none.
    pub fn path() -> (r: String)
        ensures
            exists|dir: Seq<char>| r@ == config_file_in(dir),
    {
        let dir = platform_config_dir();
        let ghost d = or_text(dir, fallback_config_dir());
        let r = config_path_in(dir);
        assert(r@ == config_file_in(d));
        r
    }

    /// What the `config` command prints: the file's path, a blank line, then
    /// the API base, the key (its first eight characters and an ellipsis, or
    /// "(not set)"), the user id (or "(not set)") and the library type.
    pub fn report(&self, path: &str) -> (r: String)
        ensures
            r@ == report_text(*self, path@, shown_key(self.api_key)),
    {
        let shown = match &self.api_key {
            Some(k) => mask_api_key(k.as_str()),
            None => owned("(not set)"),
        };
        let id = match self.user_id {
            Some(id) => decimal_string(id),
            None => owned("(not set)"),
        };
        let mut r = owned(path);
        r.append("\n");
        r.append("\n");
        r.append("  api_base:     ");
        r.append(self.api_base.as_str());
        r.append("\n");
        r.append("  api_key:      ");
        r.append(shown.as_str());
        r.append("\n");
        r.append("  user_id:      ");
        r.append(id.as_str());
        r.append("\n");
        r.append("  library_type: ");
        r.append(self.library_type.as_str());
        r.append("\n");
        assert(r@ =~= report_text(*self, path@, shown@));
        r
    }
}

} // verus!
