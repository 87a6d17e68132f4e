//! Reading rule settings from a TOML table.
use vstd::prelude::*;

verus! {

/// `toml::Value`: a rule's settings, read key by key.
#[verifier::external_type_specification]
#[verifier::external_body]
pub struct ExTomlValue(toml::Value);

/// What a table holds under a key, as far as rule settings read it.
pub enum TomlEntry {
    /// A string.
    Str(Seq<char>),
    /// An integer.
    Int(i64),
    /// A boolean.
    Bool(bool),
    /// An array, with each element's text when it is a string.
    Array(Seq<Option<Seq<char>>>),
    /// Any other value.
    Other,
}

/// The entries of a TOML value that is a table (no entries for any other
/// value), by key.
pub uninterp spec fn toml_table(v: toml::Value) -> Map<Seq<char>, TomlEntry>;

/// The entry of `v` under `key`, if any.
pub open spec fn toml_get(v: toml::Value, key: Seq<char>) -> Option<TomlEntry> {
    if toml_table(v).dom().contains(key) {
        Some(toml_table(v)[key])
    } else {
        None
    }
}

/// What a table holds under a key.
pub enum ConfigEntry {
    /// No such key.
    Missing,
    /// A string.
    Str(String),
    /// An integer.
    Int(i64),
    /// A boolean.
    Bool(bool),
    /// An array, with each element's text when it is a string.
    Array(Vec<Option<String>>),
    /// Any other value.
    Other,
}

/// The texts of an array's elements.
pub open spec fn option_views(v: Seq<Option<String>>) -> Seq<Option<Seq<char>>> {
    v.map_values(|o: Option<String>| match o {
        Some(s) => Some(s@),
        None => None,
    })
}

/// The value of an entry.
pub open spec fn entry_view(e: ConfigEntry) -> Option<TomlEntry> {
    match e {
        ConfigEntry::Missing => None,
        ConfigEntry::Str(s) => Some(TomlEntry::Str(s@)),
        ConfigEntry::Int(i) => Some(TomlEntry::Int(i)),
        ConfigEntry::Bool(b) => Some(TomlEntry::Bool(b)),
        ConfigEntry::Array(a) => Some(TomlEntry::Array(option_views(a@))),
        ConfigEntry::Other => Some(TomlEntry::Other),
    }
}

/// `toml::Value::get` with a string key, followed by telling the variants of
/// the value found apart: the entry under `key` when `config` is a table.
#[verifier::external_body]
pub(crate) fn config_entry(config: &toml::Value, key: &str) -> (r: ConfigEntry)
    ensures
        toml_table(*config).dom().contains(key@) ==> entry_view(r) == Some(toml_table(*config)[key@]),
        !toml_table(*config).dom().contains(key@) ==> r is Missing,
{
    match config.get(key) {
        None => ConfigEntry::Missing,
        Some(toml::Value::String(s)) => ConfigEntry::Str(s.clone()),
        Some(toml::Value::Integer(i)) => ConfigEntry::Int(*i),
        Some(toml::Value::Boolean(b)) => ConfigEntry::Bool(*b),
        Some(toml::Value::Array(a)) => {
            let mut items = Vec::new();
            for v in a {
                items.push(v.as_str().map(String::from));
            }
            ConfigEntry::Array(items)
        },
        Some(_) => ConfigEntry::Other,
    }
}

/// The entry under `key`, or under `alt` when there is none under `key`.
pub open spec fn toml_get_either(v: toml::Value, key: Seq<char>, alt: Seq<char>) -> Option<TomlEntry> {
    match toml_get(v, key) {
        Some(e) => Some(e),
        None => toml_get(v, alt),
    }
}

/// The integer under a key, if the entry there is one.
pub open spec fn as_int(e: Option<TomlEntry>) -> Option<i64> {
    match e {
        Some(TomlEntry::Int(i)) => Some(i),
        _ => None,
    }
}

/// The boolean under a key, if the entry there is one.
pub open spec fn as_bool(e: Option<TomlEntry>) -> Option<bool> {
    match e {
        Some(TomlEntry::Bool(b)) => Some(b),
        _ => None,
    }
}

/// The string under a key, if the entry there is one.
pub open spec fn as_str(e: Option<TomlEntry>) -> Option<Seq<char>> {
    match e {
        Some(TomlEntry::Str(s)) => Some(s),
        _ => None,
    }
}

/// The strings of the array under a key, skipping elements that are not
/// strings, if the entry there is an array.
pub open spec fn as_str_array(e: Option<TomlEntry>) -> Option<Seq<Seq<char>>> {
    match e {
        Some(TomlEntry::Array(a)) => Some(only_strings(a)),
        _ => None,
    }
}

/// The strings among `a`, in order.
pub open spec fn only_strings(a: Seq<Option<Seq<char>>>) -> Seq<Seq<char>>
    decreases a.len(),
{
    if a.len() == 0 {
        seq![]
    } else {
        only_strings(a.drop_last()) + match a.last() {
            Some(s) => seq![s],
            None => seq![],
        }
    }
}

/// The entry under `key`, or under `alt` when there is none under `key`.
pub fn entry_either(config: &toml::Value, key: &str, alt: &str) -> (r: ConfigEntry)
    ensures
        entry_view(r) == toml_get_either(*config, key@, alt@),
{
    match config_entry(config, key) {
        ConfigEntry::Missing => config_entry(config, alt),
        e => e,
    }
}

/// The integer of an entry.
pub fn entry_int(e: &ConfigEntry) -> (r: Option<i64>)
    ensures
        r == as_int(entry_view(*e)),
{
    match e {
        ConfigEntry::Int(i) => Some(*i),
        _ => None,
    }
}

/// The boolean of an entry.
pub fn entry_bool(e: &ConfigEntry) -> (r: Option<bool>)
    ensures
        r == as_bool(entry_view(*e)),
{
    match e {
        ConfigEntry::Bool(b) => Some(*b),
        _ => None,
    }
}

/// The string of an entry.
pub fn entry_str(e: ConfigEntry) -> (r: Option<String>)
    ensures
        match r {
            Some(s) => as_str(entry_view(e)) == Some(s@),
            None => as_str(entry_view(e)) is None,
        },
{
    match e {
        ConfigEntry::Str(s) => Some(s),
        _ => None,
    }
}

/// The strings of an array entry.
pub fn entry_strings(e: ConfigEntry) -> (r: Option<Vec<String>>)
    ensures
        match r {
            Some(v) => as_str_array(entry_view(e)) == Some(v@.map_values(|s: String| s@)),
            None => as_str_array(entry_view(e)) is None,
        },
{
    match e {
        ConfigEntry::Array(a) => {
            let ghost items = option_views(a@);
            let mut out: Vec<String> = Vec::new();
            let mut a = a;
            let mut k: usize = 0;
            let n = a.len();
            while k < n
                invariant
                    n == a@.len(),
                    items == option_views(a@),
                    k <= n,
                    out@.map_values(|s: String| s@) == only_strings(items.take(k as int)),
                decreases n - k,
            {
                assert(items.take(k + 1).drop_last() == items.take(k as int));
                match &a[k] {
                    Some(s) => {
                        let ghost before = out@;
                        out.push(s.clone());
                        assert(out@.map_values(|s: String| s@) =~= only_strings(items.take(k + 1)));
                    },
                    None => {
                        assert(out@.map_values(|s: String| s@) =~= only_strings(items.take(k + 1)));
                    },
                }
                k = k + 1;
            }
            assert(items.take(n as int) == items);
            Some(out)
        },
        _ => None,
    }
}

} // verus!
