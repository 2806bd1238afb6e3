//! The TOML documents the configuration is read from, as plain values.
//!
//! Parsing the text is the `toml` crate's work; the library carries what it
//! found over into [`TomlValue`], whose strings are character sequences.

use vstd::prelude::*;

verus! {

#[verifier::external_type_specification]
#[verifier::external_body]
pub struct ExTomlValue(toml::Value);

/// A TOML value. Floats and datetimes are carried without their value: the
/// configuration never accepts one.
#[derive(Debug)]
pub enum TomlValue {
    Str(Vec<char>),
    Int(i64),
    Bool(bool),
    Float,
    Datetime,
    Array(Vec<TomlValue>),
    Table(Vec<TomlEntry>),
}

/// One `key = value` pair of a table.
#[derive(Debug)]
pub struct TomlEntry {
    pub key: Vec<char>,
    pub value: TomlValue,
}

/// What `toml::from_str::<toml::Table>` makes of the document `text`: the
/// entries of its top-level table, in the order in which `toml::Table` yields
/// them, or, where `text` is not a TOML document, the error's message as its
/// `Display` impl writes it (with line and column).
pub uninterp spec fn toml_parse(text: Seq<char>) -> Result<Seq<TomlEntry>, Seq<char>>;

/// Calls `toml::from_str::<toml::Table>` on `text` and carries each entry of
/// the table over, in the table's order, or the error over as its message.
/// Both are named by `toml_parse`; which texts fail and with what message is
/// `toml`'s.
#[verifier::external_body]
pub(crate) fn parse_document(text: &str) -> (r: Result<Vec<TomlEntry>, String>)
    ensures
        match r {
            Ok(entries) => toml_parse(text@) == Ok::<Seq<TomlEntry>, Seq<char>>(entries@),
            Err(message) => toml_parse(text@) == Err::<Seq<TomlEntry>, Seq<char>>(message@),
        },
{
    match toml::from_str::<toml::Table>(text) {
        Ok(table) => Ok(table.into_iter().map(|(k, v)| TomlEntry::from_toml(k, v)).collect()),
        Err(e) => Err(e.to_string()),
    }
}

impl TomlEntry {
    /// Carries a key and its `toml::Value` over one for one: strings become
    /// their characters, arrays and tables are carried over element by element.
    #[verifier::external_body]
    fn from_toml(key: String, value: toml::Value) -> TomlEntry {
        TomlEntry { key: key.chars().collect(), value: TomlValue::from_toml(value) }
    }
}

impl TomlValue {
    /// Carries a `toml::Value` over one for one; see [`TomlEntry::from_toml`].
    #[verifier::external_body]
    fn from_toml(value: toml::Value) -> TomlValue {
        match value {
            toml::Value::String(s) => TomlValue::Str(s.chars().collect()),
            toml::Value::Integer(i) => TomlValue::Int(i),
            toml::Value::Float(_) => TomlValue::Float,
            toml::Value::Boolean(b) => TomlValue::Bool(b),
            toml::Value::Datetime(_) => TomlValue::Datetime,
            toml::Value::Array(a) => TomlValue::Array(a.into_iter().map(TomlValue::from_toml).collect()),
            toml::Value::Table(t) => TomlValue::Table(t.into_iter().map(|(k, v)| TomlEntry::from_toml(k, v)).collect()),
        }
    }
}

} // verus!
