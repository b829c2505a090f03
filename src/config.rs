//! The saved configuration and its text form.

use vstd::prelude::*;

verus! {

/// The installation's configuration.
#[derive(Clone, Debug)]
pub struct AppConfig {
    /// Root directory that is indexed.
    pub root: String,
    /// Directory of the index store.
    pub index_dir: String,
    /// When the last ingestion pass completed (RFC 3339), if one has.
    pub last_indexed: Option<String>,
}

impl AppConfig {
    /// A configuration for `root` and `index_dir`, never indexed yet.
    pub fn new(root: String, index_dir: String) -> (r: Self)
        ensures
            r.root@ == root@,
            r.index_dir@ == index_dir@,
            r.last_indexed.is_none(),
    {
        AppConfig { root, index_dir, last_indexed: None }
    }

    /// Whether an ingestion pass has completed.
    pub fn indexed_once(&self) -> (r: bool)
        ensures
            r == self.last_indexed.is_some(),
    {
        self.last_indexed.is_some()
    }

    /// Records that a pass completed at `when`; root and index store stay.
    pub fn record_indexed(&mut self, when: String)
        ensures
            final(self).root == old(self).root,
            final(self).index_dir == old(self).index_dir,
            final(self).last_indexed == Some(when),
    {
        self.last_indexed = Some(when);
    }
}

/// The entries written to the configuration file, as key and text value:
/// the root, the index directory and, once a pass has completed, its time.
pub open spec fn config_entries(cfg: AppConfig) -> Seq<(Seq<char>, Seq<char>)> {
    let base = seq![("root"@, cfg.root@), ("index_dir"@, cfg.index_dir@)];
    match cfg.last_indexed {
        Some(t) => base.push(("last_indexed"@, t@)),
        None => base,
    }
}

/// What `toml::to_string_pretty` makes of a table of string entries.
pub uninterp spec fn toml_text(entries: Seq<(Seq<char>, Seq<char>)>) -> Seq<char>;

#[verifier::external_type_specification]
#[verifier::external_body]
pub struct ExTomlSerError(toml::ser::Error);

/// Relies on `toml::to_string_pretty`, applied to a `toml::Table` holding
/// each entry as a string value: the TOML text of that table. String keys and
/// string values always serialize, so the call succeeds.
#[verifier::external_body]
fn entries_to_toml(entries: &Vec<(String, String)>) -> (r: Result<String, toml::ser::Error>)
    ensures
        r is Ok,
        r is Ok ==> r->Ok_0@ == toml_text(entries@.map_values(|e: (String, String)| (e.0@, e.1@))),
{
    let table: toml::Table = entries
        .iter()
        .map(|(k, v)| (k.clone(), toml::Value::String(v.clone())))
        .collect();
    toml::to_string_pretty(&table)
}

/// The text of the configuration file for `cfg`, written whole by the
/// caller.
pub fn save_config(cfg: &AppConfig) -> (r: String)
    ensures
        r@ == toml_text(config_entries(*cfg)),
{
    let mut entries: Vec<(String, String)> = Vec::new();
    entries.push(("root".to_owned(), cfg.root.clone()));
    entries.push(("index_dir".to_owned(), cfg.index_dir.clone()));
    match &cfg.last_indexed {
        Some(t) => entries.push(("last_indexed".to_owned(), t.clone())),
        None => {},
    }
    let ghost seen = entries@.map_values(|e: (String, String)| (e.0@, e.1@));
    assert(seen =~= config_entries(*cfg));
    match entries_to_toml(&entries) {
        Ok(text) => text,
        Err(_) => {
            proof {
                assert(false);
            }
            String::new()
        },
    }
}

} // verus!
