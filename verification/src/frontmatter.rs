//! The TOML frontmatter boundary: documents embed a TOML table between
//! `+++` fences; the table itself is parsed by the `toml` crate behind a
//! trusted conversion into the library's own value shape.

use vstd::prelude::*;
use crate::strutil;

verus! {

/// A frontmatter value as the library reads it: a string, a list of
/// strings, or something the schema does not use.
#[derive(Debug, Clone, PartialEq)]
pub enum TomlVal {
    Text(String),
    List(Vec<String>),
    Other,
}

/// The mathematical shape of a frontmatter value.
pub enum TomlValV {
    Text(Seq<char>),
    List(Seq<Seq<char>>),
    Other,
}

/// The shape of an executable frontmatter value.
pub open spec fn tv(v: TomlVal) -> TomlValV {
    match v {
        TomlVal::Text(s) => TomlValV::Text(s@),
        TomlVal::List(l) => TomlValV::List(l.deep_view()),
        TomlVal::Other => TomlValV::Other,
    }
}

/// The shapes of an executable field list.
pub open spec fn fm_model(fs: Seq<(String, TomlVal)>) -> Seq<(Seq<char>, TomlValV)>
    decreases fs,
{
    if fs.len() == 0 {
        Seq::empty()
    } else {
        seq![(fs[0].0@, tv(fs[0].1))] + fm_model(fs.drop_first())
    }
}

pub proof fn lemma_fm_model_len(fs: Seq<(String, TomlVal)>)
    ensures
        fm_model(fs).len() == fs.len(),
    decreases fs,
{
    if fs.len() > 0 {
        lemma_fm_model_len(fs.drop_first());
    }
}

/// What the TOML parser yields for this text, if the text is a valid table.
pub uninterp spec fn toml_fm_of(s: Seq<char>) -> Option<Seq<(Seq<char>, TomlValV)>>;

/// Relies on `toml::from_str::<toml::Table>`: parses a TOML table, a
/// function of the text alone. Each value is converted by `toml_to_val`.
#[verifier::external_body]
pub(crate) fn parse_toml_frontmatter(s: &str) -> (r: Option<Vec<(String, TomlVal)>>)
    ensures
        match r {
            Some(fs) => toml_fm_of(s@) == Some(fm_model(fs@)),
            None => toml_fm_of(s@) is None,
        },
{
    match toml::from_str::<toml::Table>(s) {
        Ok(table) => Some(table.into_iter().map(|(k, v)| (k, toml_to_val(v))).collect()),
        Err(_) => None,
    }
}

#[verifier::external_type_specification]
#[verifier::external_body]
pub struct ExTomlValue(toml::Value);

/// Relies on the variants of `toml::Value`: a string becomes a text, an
/// array of strings becomes a list, anything else is out of the schema.
#[verifier::external_body]
fn toml_to_val(v: toml::Value) -> TomlVal {
    match v {
        toml::Value::String(t) => TomlVal::Text(t),
        toml::Value::Array(items) => {
            let texts: Option<Vec<String>> = items.into_iter().map(|e| match e {
                toml::Value::String(t) => Some(t),
                _ => None,
            }).collect();
            texts.map_or(TomlVal::Other, TomlVal::List)
        },
        _ => TomlVal::Other,
    }
}

/// The first value bound to `key`, if any.
pub open spec fn fm_lookup(fs: Seq<(Seq<char>, TomlValV)>, key: Seq<char>) -> Option<TomlValV>
    decreases fs,
{
    if fs.len() == 0 {
        None
    } else if fs[0].0 == key {
        Some(fs[0].1)
    } else {
        fm_lookup(fs.drop_first(), key)
    }
}

/// Looks a key up in an executable field list; agrees with `fm_lookup` on
/// the shapes.
pub fn fm_get<'a>(fields: &'a Vec<(String, TomlVal)>, key: &str) -> (r: Option<&'a TomlVal>)
    ensures
        match r {
            Some(v) => fm_lookup(fm_model(fields@), key@) == Some(tv(*v)),
            None => fm_lookup(fm_model(fields@), key@) is None,
        },
{
    let mut i: usize = 0;
    proof {
        assert(fields@.skip(0) =~= fields@);
    }
    while i < fields.len()
        invariant
            0 <= i <= fields@.len(),
            fm_lookup(fm_model(fields@), key@) == fm_lookup(fm_model(fields@.skip(i as int)), key@),
        decreases fields@.len() - i,
    {
        proof {
            assert(fields@.skip(i as int).len() == fields@.len() - i);
            assert(fields@.skip(i as int)[0] == fields@[i as int]);
            assert(fields@.skip(i as int).drop_first() =~= fields@.skip(i + 1));
            lemma_fm_model_len(fields@.skip(i as int));
            assert(fm_model(fields@.skip(i as int))[0] == (fields@[i as int].0@, tv(
                fields@[i as int].1,
            )));
            assert(fm_model(fields@.skip(i as int)).drop_first() =~= fm_model(fields@.skip(i + 1)));
        }
        if strutil::str_eq(fields[i].0.as_str(), key) {
            return Some(&fields[i].1);
        }
        i = i + 1;
    }
    proof {
        assert(fields@.skip(fields@.len() as int) =~= Seq::<(String, TomlVal)>::empty());
    }
    None
}

/// The text bound to `key`, when there is one.
pub fn fm_text(fields: &Vec<(String, TomlVal)>, key: &str) -> (r: Option<String>)
    ensures
        (r is Some) == (fm_lookup(fm_model(fields@), key@) matches Some(TomlValV::Text(_))),
        r matches Some(s) ==> fm_lookup(fm_model(fields@), key@) == Some(TomlValV::Text(s@)),
{
    match fm_get(fields, key) {
        Some(TomlVal::Text(s)) => Some(s.clone()),
        _ => None,
    }
}

/// The list bound to `key`, when there is one.
pub fn fm_list(fields: &Vec<(String, TomlVal)>, key: &str) -> (r: Option<Vec<String>>)
    ensures
        (r is Some) == (fm_lookup(fm_model(fields@), key@) matches Some(TomlValV::List(_))),
        r matches Some(l) ==> fm_lookup(fm_model(fields@), key@) == Some(
            TomlValV::List(l.deep_view()),
        ),
{
    match fm_get(fields, key) {
        Some(TomlVal::List(l)) => Some(l.clone()),
        _ => None,
    }
}

} // verus!
