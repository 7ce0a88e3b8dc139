//! A theme manifest as the validator reads it: `toml` parses the text, and
//! the parts of the document the rules look at come out as plain values,
//! three levels deep (`[table]`, `key`/`[table.sub]`, `sub.key`).

use vstd::prelude::*;

verus! {

#[verifier::external_type_specification]
#[verifier::external_body]
pub struct ExTomlValue(toml::Value);

/// A value three levels down: only whether it is a string matters.
pub enum TomlLeaf {
    Str(String),
    Other,
}

/// A value two levels down.
pub enum TomlItem {
    Str(String),
    Int(i64),
    /// A float by its IEEE-754 bits, with its display text.
    Float { bits: u64, text: String },
    Table(Vec<(String, TomlLeaf)>),
    /// A boolean, datetime or array.
    Other,
}

/// A top-level value: a table of items, or something else.
pub enum TomlTop {
    Table(Vec<(String, TomlItem)>),
    Other,
}

/// A parsed document; `root` is `None` when its root is not a table.
pub struct TomlDoc {
    pub root: Option<Vec<(String, TomlTop)>>,
}

pub enum TomlItemView {
    Str(Seq<char>),
    Int(i64),
    Float(u64, Seq<char>),
    Table(Seq<(Seq<char>, Option<Seq<char>>)>),
    Other,
}

pub open spec fn leaf_view(l: TomlLeaf) -> Option<Seq<char>> {
    match l {
        TomlLeaf::Str(s) => Some(s@),
        TomlLeaf::Other => None,
    }
}

pub open spec fn item_view(i: TomlItem) -> TomlItemView {
    match i {
        TomlItem::Str(s) => TomlItemView::Str(s@),
        TomlItem::Int(n) => TomlItemView::Int(n),
        TomlItem::Float { bits, text } => TomlItemView::Float(bits, text@),
        TomlItem::Table(es) => TomlItemView::Table(
            es@.map_values(|e: (String, TomlLeaf)| (e.0@, leaf_view(e.1))),
        ),
        TomlItem::Other => TomlItemView::Other,
    }
}

pub open spec fn top_view(t: TomlTop) -> Option<Seq<(Seq<char>, TomlItemView)>> {
    match t {
        TomlTop::Table(es) => Some(es@.map_values(|e: (String, TomlItem)| (e.0@, item_view(e.1)))),
        TomlTop::Other => None,
    }
}

pub open spec fn doc_view(d: TomlDoc) -> Option<Seq<(Seq<char>, Option<Seq<(Seq<char>, TomlItemView)>>)>> {
    match d.root {
        Some(es) => Some(es@.map_values(|e: (String, TomlTop)| (e.0@, top_view(e.1)))),
        None => None,
    }
}

/// What `toml::from_str::<toml::Value>` makes of `src`: the document (as
/// far as it is modelled here), or the parser's message.
pub uninterp spec fn toml_doc_of(src: Seq<char>) -> Result<Option<Seq<(Seq<char>, Option<Seq<(Seq<char>, TomlItemView)>>)>>, Seq<char>>;

/// A value three levels down.
#[verifier::external_body]
fn leaf_of(v: &toml::Value) -> (r: TomlLeaf) {
    match v {
        toml::Value::String(s) => TomlLeaf::Str(s.clone()),
        _ => TomlLeaf::Other,
    }
}

/// A value two levels down (table entries in the table's key order).
#[verifier::external_body]
fn item_of(v: &toml::Value) -> (r: TomlItem) {
    match v {
        toml::Value::String(s) => TomlItem::Str(s.clone()),
        toml::Value::Integer(i) => TomlItem::Int(*i),
        toml::Value::Float(f) => TomlItem::Float { bits: f.to_bits(), text: f.to_string() },
        toml::Value::Table(t) => TomlItem::Table(t.iter().map(|(k, x)| (k.clone(), leaf_of(x))).collect()),
        _ => TomlItem::Other,
    }
}

/// A top-level value.
#[verifier::external_body]
fn top_of(v: &toml::Value) -> (r: TomlTop) {
    match v {
        toml::Value::Table(t) => TomlTop::Table(t.iter().map(|(k, x)| (k.clone(), item_of(x))).collect()),
        _ => TomlTop::Other,
    }
}

/// `toml::from_str::<toml::Value>`: the document of `src` (entries in the
/// tables' key order, which is sorted), or the parser's message. The
/// result depends on `src` alone.
#[verifier::external_body]
pub(crate) fn parse_toml(src: &str) -> (r: Result<TomlDoc, String>)
    ensures
        match r {
            Ok(d) => toml_doc_of(src@) == Ok::<
                Option<Seq<(Seq<char>, Option<Seq<(Seq<char>, TomlItemView)>>)>>,
                Seq<char>,
            >(doc_view(d)),
            Err(m) => toml_doc_of(src@) == Err::<
                Option<Seq<(Seq<char>, Option<Seq<(Seq<char>, TomlItemView)>>)>>,
                Seq<char>,
            >(m@),
        },
{
    match toml::from_str::<toml::Value>(src) {
        Ok(toml::Value::Table(t)) => Ok(TomlDoc { root: Some(t.iter().map(|(k, x)| (k.clone(), top_of(x))).collect()) }),
        Ok(_) => Ok(TomlDoc { root: None }),
        Err(e) => Err(e.to_string()),
    }
}

} // verus!
