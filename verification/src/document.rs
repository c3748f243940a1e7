//! A parsed TOML document, as plain values.

use toml::Value as TomlInput;
use vstd::prelude::*;

use crate::number::Real;
use crate::util::text::same_text;

verus! {

/// One TOML value.
#[derive(Debug)]
pub enum TomlValue {
    String(String),
    Integer(i64),
    Float(Real),
    Boolean(bool),
    /// An offset date-time, local date-time, local date or local time, by its text.
    Datetime(String),
    Array(Vec<TomlValue>),
    Table(TomlTable),
}

/// A TOML table: its keys and values in the order a walk over it gives them.
#[derive(Debug)]
pub struct TomlTable {
    pub entries: Vec<(String, TomlValue)>,
}

/// The index of the first entry whose key is `key`.
pub open spec fn position_of<V>(entries: Seq<(String, V)>, key: Seq<char>) -> Option<int>
    decreases entries.len(),
{
    if entries.len() == 0 {
        None
    } else if entries[0].0@ == key {
        Some(0)
    } else {
        match position_of(entries.drop_first(), key) {
            Some(i) => Some(i + 1),
            None => None,
        }
    }
}

/// The value under the first entry whose key is `key`.
pub open spec fn lookup<V>(entries: Seq<(String, V)>, key: Seq<char>) -> Option<V> {
    match position_of(entries, key) {
        Some(i) => Some(entries[i].1),
        None => None,
    }
}

proof fn lemma_position_of<V>(entries: Seq<(String, V)>, key: Seq<char>)
    ensures
        match position_of(entries, key) {
            Some(i) => 0 <= i < entries.len() && entries[i].0@ == key && forall|j: int|
                0 <= j < i ==> (#[trigger] entries[j]).0@ != key,
            None => forall|j: int| 0 <= j < entries.len() ==> (#[trigger] entries[j]).0@ != key,
        },
    decreases entries.len(),
{
    if entries.len() > 0 {
        lemma_position_of(entries.drop_first(), key);
        if entries[0].0@ != key {
            assert forall|j: int| 1 <= j < entries.len() implies (#[trigger] entries[j]) == entries.drop_first()[j - 1] by {}
        }
    }
}

/// Find the index of the first entry whose key is `key`.
pub fn find_key<V>(entries: &Vec<(String, V)>, key: &str) -> (r: Option<usize>)
    ensures
        r matches Some(i) ==> i < entries@.len() && position_of(entries@, key@) == Some(i as int),
        r is None ==> position_of(entries@, key@) is None,
{
    proof {
        lemma_position_of(entries@, key@);
    }
    let mut i: usize = 0;
    while i < entries.len()
        invariant
            i <= entries.len(),
            forall|j: int| 0 <= j < i ==> (#[trigger] entries@[j]).0@ != key@,
            match position_of(entries@, key@) {
                Some(p) => 0 <= p < entries@.len() && entries@[p].0@ == key@ && forall|j: int|
                    0 <= j < p ==> (#[trigger] entries@[j]).0@ != key@,
                None => forall|j: int|
                    0 <= j < entries@.len() ==> (#[trigger] entries@[j]).0@ != key@,
            },
        decreases entries.len() - i,
    {
        if same_text(entries[i].0.as_str(), key) {
            return Some(i);
        }
        i = i + 1;
    }
    None
}

/// The key of the first entry whose key is not `allowed`.
pub open spec fn first_other_key<V>(entries: Seq<(String, V)>, allowed: Seq<char>) -> Option<
    String,
>
    decreases entries.len(),
{
    if entries.len() == 0 {
        None
    } else if entries[0].0@ != allowed {
        Some(entries[0].0)
    } else {
        first_other_key(entries.drop_first(), allowed)
    }
}

/// Find the first key that is not `allowed`.
pub fn find_other_key<V>(entries: &Vec<(String, V)>, allowed: &str) -> (r: Option<String>)
    ensures
        r == first_other_key(entries@, allowed@),
{
    let mut i: usize = 0;
    assert(entries@.subrange(0, entries@.len() as int) =~= entries@);
    while i < entries.len()
        invariant
            i <= entries.len(),
            first_other_key(entries@, allowed@) == first_other_key(
                entries@.subrange(i as int, entries@.len() as int),
                allowed@,
            ),
        decreases entries.len() - i,
    {
        let ghost rest = entries@.subrange(i as int, entries@.len() as int);
        assert(rest.drop_first() =~= entries@.subrange(i + 1, entries@.len() as int));
        assert(rest[0] == entries@[i as int]);
        if !same_text(entries[i].0.as_str(), allowed) {
            return Some(entries[i].0.clone());
        }
        i = i + 1;
    }
    assert(entries@.subrange(i as int, entries@.len() as int).len() == 0);
    None
}

/// How the `toml` crate writes a string value: a TOML string literal.
pub uninterp spec fn toml_string_repr(s: Seq<char>) -> Seq<char>;

/// `s` as a TOML string literal, as `toml::Value::String(..)` displays it.
#[verifier::external_body]
pub fn toml_quote(s: &str) -> (r: String)
    ensures
        r@ == toml_string_repr(s@),
{
    toml::Value::String(s.to_owned()).to_string()
}

/// A value of the `toml` crate's own document tree; opaque here.
#[verifier::external_type_specification]
#[verifier::external_body]
pub struct ExTomlInput(TomlInput);

/// What `toml::from_str::<toml::Table>` reads from a document's text: its
/// top-level table, with each table's entries in the order a walk over the
/// table gives them, or why the text is not TOML (as the reader's error
/// displays itself).
pub uninterp spec fn toml_document(source: Seq<char>) -> Result<TomlTable, Seq<char>>;

/// Parses a TOML document with `toml::from_str::<toml::Table>` and converts
/// the table, value by value, to a [`TomlTable`]; a reader error is handed
/// on by its text. The contract names the outcome and says nothing of its
/// contents.
#[verifier::external_body]
pub(crate) fn parse_toml(source: &str) -> (r: Result<TomlTable, String>)
    ensures
        match toml_document(source@) {
            Ok(t) => r == Ok::<TomlTable, String>(t),
            Err(m) => r matches Err(e) && e@ == m,
        },
{
    toml::from_str::<toml::Table>(source).map(|t| TomlTable {
        entries: t.iter().map(|(k, v)| (k.clone(), toml_value_of(v))).collect(),
    }).map_err(|e| e.to_string())
}

/// Converts one value of the `toml` crate's tree, and the values below it,
/// for [`parse_toml`]; floats by their bits and text, date-times by their
/// text.
#[verifier::external_body]
fn toml_value_of(value: &TomlInput) -> TomlValue {
    match value {
        TomlInput::String(s) => TomlValue::String(s.clone()),
        TomlInput::Integer(i) => TomlValue::Integer(*i),
        TomlInput::Float(f) => TomlValue::Float(Real { bits: f.to_bits(), text: f.to_string() }),
        TomlInput::Boolean(b) => TomlValue::Boolean(*b),
        TomlInput::Datetime(d) => TomlValue::Datetime(d.to_string()),
        TomlInput::Array(a) => TomlValue::Array(a.iter().map(toml_value_of).collect()),
        TomlInput::Table(t) => TomlValue::Table(TomlTable {
            entries: t.iter().map(|(k, v)| (k.clone(), toml_value_of(v))).collect(),
        }),
    }
}

} // verus!
