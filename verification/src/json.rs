//! A JSON document model. Values are parsed by `serde_json` behind a trusted
//! boundary and converted into the library's own tree, which the verified
//! code reads; documents the library writes are printed by a verified
//! printer with an exact character-level specification.

use vstd::prelude::*;
use crate::strutil;
use crate::strutil::{seq_join, lemma_seq_join_push, dec_rep, push_char};

verus! {

/// A JSON value as executable data. Numbers are integers: the documents this
/// library reads and writes carry counts, sizes and identifiers only.
#[derive(Debug, PartialEq)]
pub enum JsonVal {
    Null,
    Bool(bool),
    UNum(u64),
    INum(i64),
    Str(String),
    Arr(Vec<JsonVal>),
    Obj(Vec<JsonField>),
}

/// One key/value pair of a JSON object.
#[derive(Debug, PartialEq)]
pub struct JsonField {
    pub key: String,
    pub val: JsonVal,
}

/// The mathematical shape of a JSON value.
pub enum JVal {
    Null,
    Bool(bool),
    UNum(u64),
    INum(i64),
    Str(Seq<char>),
    Arr(Seq<JVal>),
    Obj(Seq<(Seq<char>, JVal)>),
}

/// The shape of an executable value.
pub open spec fn jv(v: JsonVal) -> JVal
    decreases v,
{
    match v {
        JsonVal::Null => JVal::Null,
        JsonVal::Bool(b) => JVal::Bool(b),
        JsonVal::UNum(n) => JVal::UNum(n),
        JsonVal::INum(n) => JVal::INum(n),
        JsonVal::Str(s) => JVal::Str(s@),
        JsonVal::Arr(items) => JVal::Arr(jv_list(items@)),
        JsonVal::Obj(fields) => JVal::Obj(jv_fields(fields@)),
    }
}

/// The shapes of a sequence of executable values.
pub open spec fn jv_list(s: Seq<JsonVal>) -> Seq<JVal>
    decreases s,
{
    if s.len() == 0 {
        Seq::empty()
    } else {
        seq![jv(s[0])] + jv_list(s.drop_first())
    }
}

/// The shapes of a sequence of executable fields.
pub open spec fn jv_fields(s: Seq<JsonField>) -> Seq<(Seq<char>, JVal)>
    decreases s,
{
    if s.len() == 0 {
        Seq::empty()
    } else {
        seq![(s[0].key@, jv(s[0].val))] + jv_fields(s.drop_first())
    }
}

/// Element `i` of the shape of a list.
pub proof fn lemma_jv_list_index(s: Seq<JsonVal>, i: int)
    requires
        0 <= i < s.len(),
    ensures
        jv_list(s).len() == s.len(),
        jv_list(s)[i] == jv(s[i]),
    decreases s,
{
    lemma_jv_list_len(s);
    if i > 0 {
        lemma_jv_list_index(s.drop_first(), i - 1);
    }
}

pub proof fn lemma_jv_list_len(s: Seq<JsonVal>)
    ensures
        jv_list(s).len() == s.len(),
    decreases s,
{
    if s.len() > 0 {
        lemma_jv_list_len(s.drop_first());
    }
}

/// Element `i` of the shape of a field list.
pub proof fn lemma_jv_fields_index(s: Seq<JsonField>, i: int)
    requires
        0 <= i < s.len(),
    ensures
        jv_fields(s).len() == s.len(),
        jv_fields(s)[i] == (s[i].key@, jv(s[i].val)),
    decreases s,
{
    lemma_jv_fields_len(s);
    if i > 0 {
        lemma_jv_fields_index(s.drop_first(), i - 1);
    }
}

pub proof fn lemma_jv_fields_len(s: Seq<JsonField>)
    ensures
        jv_fields(s).len() == s.len(),
    decreases s,
{
    if s.len() > 0 {
        lemma_jv_fields_len(s.drop_first());
    }
}

/// Appending an element extends the shapes by its shape.
pub proof fn lemma_jv_list_push(s: Seq<JsonVal>, x: JsonVal)
    ensures
        jv_list(s.push(x)) =~~= jv_list(s).push(jv(x)),
    decreases s,
{
    if s.len() == 0 {
        assert(s.push(x)[0] == x);
        assert(s.push(x).drop_first() =~= Seq::<JsonVal>::empty());
        assert(jv_list(s.push(x).drop_first()) =~= Seq::<JVal>::empty());
    } else {
        lemma_jv_list_push(s.drop_first(), x);
        assert(s.push(x)[0] == s[0]);
        assert(s.push(x).drop_first() =~= s.drop_first().push(x));
    }
}

/// Appending a field extends the shapes by its shape.
pub proof fn lemma_jv_fields_push(s: Seq<JsonField>, f: JsonField)
    ensures
        jv_fields(s.push(f)) =~~= jv_fields(s).push((f.key@, jv(f.val))),
    decreases s,
{
    if s.len() == 0 {
        assert(s.push(f)[0] == f);
        assert(s.push(f).drop_first() =~= Seq::<JsonField>::empty());
        assert(jv_fields(s.push(f).drop_first()) =~= Seq::<(Seq<char>, JVal)>::empty());
    } else {
        lemma_jv_fields_push(s.drop_first(), f);
        assert(s.push(f)[0] == s[0]);
        assert(s.push(f).drop_first() =~= s.drop_first().push(f));
    }
}

/// What a lookup returns when the first occurrence of `key` is at `i`.
pub proof fn lemma_obj_lookup_at(fs: Seq<(Seq<char>, JVal)>, key: Seq<char>, i: int)
    requires
        0 <= i < fs.len(),
        forall|j: int| 0 <= j < i ==> fs[j].0 != key,
        fs[i].0 == key,
    ensures
        obj_lookup(fs, key) == Some(fs[i].1),
    decreases fs,
{
    if i > 0 {
        assert(fs.drop_first()[i - 1] == fs[i]);
        assert(forall|j: int| 0 <= j < i - 1 ==> fs.drop_first()[j] == fs[j + 1]);
        lemma_obj_lookup_at(fs.drop_first(), key, i - 1);
    }
}

/// A lookup misses when no field has the key.
pub proof fn lemma_obj_lookup_none(fs: Seq<(Seq<char>, JVal)>, key: Seq<char>)
    requires
        forall|j: int| 0 <= j < fs.len() ==> fs[j].0 != key,
    ensures
        obj_lookup(fs, key) is None,
    decreases fs,
{
    if fs.len() > 0 {
        assert(forall|j: int| 0 <= j < fs.drop_first().len() ==> fs.drop_first()[j] == fs[j + 1]);
        lemma_obj_lookup_none(fs.drop_first(), key);
    }
}

/// The first value bound to `key`, if any.
pub open spec fn obj_lookup(fields: Seq<(Seq<char>, JVal)>, key: Seq<char>) -> Option<JVal>
    decreases fields,
{
    if fields.len() == 0 {
        None
    } else if fields[0].0 == key {
        Some(fields[0].1)
    } else {
        obj_lookup(fields.drop_first(), key)
    }
}

/// Looks a key up in an executable field list; agrees with `obj_lookup` on
/// the shapes.
pub fn obj_get<'a>(fields: &'a Vec<JsonField>, key: &str) -> (r: Option<&'a JsonVal>)
    ensures
        match r {
            Some(v) => obj_lookup(jv_fields(fields@), key@) == Some(jv(*v)),
            None => obj_lookup(jv_fields(fields@), key@) is None,
        },
{
    let mut i: usize = 0;
    proof {
        assert(fields@.skip(0) =~= fields@);
    }
    while i < fields.len()
        invariant
            0 <= i <= fields@.len(),
            obj_lookup(jv_fields(fields@), key@) == obj_lookup(
                jv_fields(fields@.skip(i as int)),
                key@,
            ),
        decreases fields@.len() - i,
    {
        proof {
            assert(fields@.skip(i as int).len() == fields@.len() - i);
            assert(fields@.skip(i as int)[0] == fields@[i as int]);
            assert(fields@.skip(i as int).drop_first() =~= fields@.skip(i + 1));
            lemma_jv_fields_len(fields@.skip(i as int));
            assert(jv_fields(fields@.skip(i as int))[0] == (fields@[i as int].key@, jv(
                fields@[i as int].val,
            )));
            assert(jv_fields(fields@.skip(i as int)).drop_first() =~= jv_fields(
                fields@.skip(i + 1),
            ));
        }
        if strutil::str_eq(fields[i].key.as_str(), key) {
            return Some(&fields[i].val);
        }
        i = i + 1;
    }
    proof {
        assert(fields@.skip(fields@.len() as int) =~= Seq::<JsonField>::empty());
    }
    None
}

/// The escape sequence the printer uses for one character.
pub open spec fn esc_unit(c: char) -> Seq<char> {
    if c == '"' {
        seq!['\\', '"']
    } else if c == '\\' {
        seq!['\\', '\\']
    } else if c == '\n' {
        seq!['\\', 'n']
    } else if c == '\r' {
        seq!['\\', 'r']
    } else if c == '\t' {
        seq!['\\', 't']
    } else if (c as u32) < 32 {
        seq!['\\', 'u', '0', '0', hex_digit((c as u32 / 16) as u64), hex_digit(
            (c as u32 % 16) as u64,
        )]
    } else {
        seq![c]
    }
}

/// The lowercase hexadecimal digit for `d % 16`.
pub open spec fn hex_digit(d: u64) -> char {
    if d % 16 < 10 {
        ((d % 16 + 48) as u8) as char
    } else {
        ((d % 16 + 87) as u8) as char
    }
}

/// A string body with every character escaped as JSON requires.
pub open spec fn esc_json(s: Seq<char>) -> Seq<char>
    decreases s,
{
    if s.len() == 0 {
        Seq::empty()
    } else {
        esc_unit(s[0]) + esc_json(s.drop_first())
    }
}

/// Escaping one more character appends its escape sequence.
proof fn lemma_esc_json_push(s: Seq<char>, c: char)
    ensures
        esc_json(s.push(c)) == esc_json(s) + esc_unit(c),
    decreases s,
{
    if s.len() == 0 {
        let p = s.push(c);
        assert(p.len() == 1);
        assert(p[0] == c);
        assert(p.drop_first() =~= Seq::<char>::empty());
        assert(esc_json(p.drop_first()) == Seq::<char>::empty());
        assert(esc_json(p) == esc_unit(c) + esc_json(p.drop_first()));
        assert(esc_json(p) =~= esc_unit(c));
        assert(esc_json(s) + esc_unit(c) =~= esc_unit(c));
    } else {
        lemma_esc_json_push(s.drop_first(), c);
        assert(s.push(c)[0] == s[0]);
        assert(s.push(c).drop_first() =~= s.drop_first().push(c));
        assert(esc_json(s) + esc_unit(c) =~= esc_unit(s[0]) + (esc_json(s.drop_first())
            + esc_unit(c)));
    }
}

/// Appends the escaped body of `s` to `out`.
pub fn write_escaped(s: &str, out: &mut String)
    ensures
        final(out)@ == old(out)@ + esc_json(s@),
{
    let n = s.unicode_len();
    let mut i: usize = 0;
    proof {
        assert(s@.take(0) =~= Seq::<char>::empty());
        assert(old(out)@ + esc_json(s@.take(0)) =~= old(out)@);
    }
    while i < n
        invariant
            n == s@.len(),
            0 <= i <= n,
            out@ == old(out)@ + esc_json(s@.take(i as int)),
        decreases n - i,
    {
        let c = s.get_char(i);
        proof {
            assert(s@.take(i + 1) =~= s@.take(i as int).push(s@[i as int]));
            lemma_esc_json_push(s@.take(i as int), s@[i as int]);
        }
        let cv = c as u32;
        if c == '"' {
            push_char(out, '\\');
            push_char(out, '"');
        } else if c == '\\' {
            push_char(out, '\\');
            push_char(out, '\\');
        } else if c == '\n' {
            push_char(out, '\\');
            push_char(out, 'n');
        } else if c == '\r' {
            push_char(out, '\\');
            push_char(out, 'r');
        } else if c == '\t' {
            push_char(out, '\\');
            push_char(out, 't');
        } else if cv < 32 {
            push_char(out, '\\');
            push_char(out, 'u');
            push_char(out, '0');
            push_char(out, '0');
            let hi = cv / 16;
            let lo = cv % 16;
            let hic: char = if hi < 10 {
                ((hi + 48) as u8) as char
            } else {
                ((hi + 87) as u8) as char
            };
            let loc: char = if lo < 10 {
                ((lo + 48) as u8) as char
            } else {
                ((lo + 87) as u8) as char
            };
            push_char(out, hic);
            push_char(out, loc);
        } else {
            push_char(out, c);
        }
        proof {
            assert(out@ =~= old(out)@ + esc_json(s@.take(i + 1)));
        }
        i = i + 1;
    }
    proof {
        assert(s@.take(n as int) =~= s@);
    }
}

/// The exact text the printer produces for a value.
pub open spec fn json_text(v: JVal) -> Seq<char>
    decreases v,
{
    match v {
        JVal::Null => "null"@,
        JVal::Bool(b) => if b {
            "true"@
        } else {
            "false"@
        },
        JVal::UNum(n) => dec_rep(n),
        JVal::INum(n) => if n < 0 {
            seq!['-'] + dec_rep((0 - n as int) as u64)
        } else {
            dec_rep(n as u64)
        },
        JVal::Str(s) => seq!['"'] + esc_json(s) + seq!['"'],
        JVal::Arr(items) => seq!['['] + seq_join(json_texts(items), seq![',']) + seq![']'],
        JVal::Obj(fields) => seq!['{'] + seq_join(field_texts(fields), seq![',']) + seq!['}'],
    }
}

/// The texts of the elements of an array.
pub open spec fn json_texts(items: Seq<JVal>) -> Seq<Seq<char>>
    decreases items,
{
    if items.len() == 0 {
        Seq::empty()
    } else {
        seq![json_text(items[0])] + json_texts(items.drop_first())
    }
}

/// The texts of the fields of an object: quoted escaped key, colon, value.
pub open spec fn field_texts(fields: Seq<(Seq<char>, JVal)>) -> Seq<Seq<char>>
    decreases fields,
{
    if fields.len() == 0 {
        Seq::empty()
    } else {
        seq![seq!['"'] + esc_json(fields[0].0) + seq!['"', ':'] + json_text(fields[0].1)]
            + field_texts(fields.drop_first())
    }
}

proof fn lemma_json_texts_push(items: Seq<JVal>, x: JVal)
    ensures
        json_texts(items.push(x)) == json_texts(items).push(json_text(x)),
    decreases items,
{
    if items.len() == 0 {
        let p = items.push(x);
        assert(p.len() == 1);
        assert(p[0] == x);
        assert(p.drop_first() =~= Seq::<JVal>::empty());
        assert(json_texts(p.drop_first()) == Seq::<Seq<char>>::empty());
        assert(json_texts(p) == seq![json_text(x)] + json_texts(p.drop_first()));
        assert(json_texts(p) =~= json_texts(items).push(json_text(x)));
    } else {
        lemma_json_texts_push(items.drop_first(), x);
        assert(items.push(x)[0] == items[0]);
        assert(items.push(x).drop_first() =~= items.drop_first().push(x));
        assert(json_texts(items.push(x)) =~= json_texts(items).push(json_text(x)));
    }
}

proof fn lemma_field_texts_push(fields: Seq<(Seq<char>, JVal)>, x: (Seq<char>, JVal))
    ensures
        field_texts(fields.push(x)) == field_texts(fields).push(
            seq!['"'] + esc_json(x.0) + seq!['"', ':'] + json_text(x.1),
        ),
    decreases fields,
{
    if fields.len() == 0 {
        let p = fields.push(x);
        assert(p.len() == 1);
        assert(p[0] == x);
        assert(p.drop_first() =~= Seq::<(Seq<char>, JVal)>::empty());
        assert(field_texts(p.drop_first()) == Seq::<Seq<char>>::empty());
        assert(field_texts(p) == seq![seq!['"'] + esc_json(x.0) + seq!['"', ':'] + json_text(x.1)]
            + field_texts(p.drop_first()));
        assert(field_texts(p) =~= field_texts(fields).push(
            seq!['"'] + esc_json(x.0) + seq!['"', ':'] + json_text(x.1),
        ));
    } else {
        lemma_field_texts_push(fields.drop_first(), x);
        assert(fields.push(x)[0] == fields[0]);
        assert(fields.push(x).drop_first() =~= fields.drop_first().push(x));
        assert(field_texts(fields.push(x)) =~= field_texts(fields).push(
            seq!['"'] + esc_json(x.0) + seq!['"', ':'] + json_text(x.1),
        ));
    }
}

proof fn lemma_json_texts_len(items: Seq<JVal>)
    ensures
        json_texts(items).len() == items.len(),
    decreases items,
{
    if items.len() > 0 {
        lemma_json_texts_len(items.drop_first());
    }
}

proof fn lemma_field_texts_len(fields: Seq<(Seq<char>, JVal)>)
    ensures
        field_texts(fields).len() == fields.len(),
    decreases fields,
{
    if fields.len() > 0 {
        lemma_field_texts_len(fields.drop_first());
    }
}

/// Appends the text of `v` to `out`.
#[verifier::loop_isolation(false)]
#[verifier::rlimit(50)]
pub fn write_json(v: &JsonVal, out: &mut String)
    ensures
        final(out)@ == old(out)@ + json_text(jv(*v)),
    decreases *v,
{
    match v {
        JsonVal::Null => {
            out.append("null");
        },
        JsonVal::Bool(b) => {
            if *b {
                out.append("true");
            } else {
                out.append("false");
            }
        },
        JsonVal::UNum(n) => {
            let t = strutil::u64_to_string(*n);
            out.append(t.as_str());
        },
        JsonVal::INum(n) => {
            if *n < 0 {
                let mag: u64 = ((-(*n + 1)) as u64) + 1;
                assert(mag == (0 - *n as int) as u64);
                push_char(out, '-');
                let t = strutil::u64_to_string(mag);
                out.append(t.as_str());
                assert(out@ =~= old(out)@ + (seq!['-'] + dec_rep(mag)));
            } else {
                let t = strutil::u64_to_string(*n as u64);
                out.append(t.as_str());
            }
        },
        JsonVal::Str(s) => {
            push_char(out, '"');
            write_escaped(s.as_str(), out);
            push_char(out, '"');
            assert(out@ =~= old(out)@ + (seq!['"'] + esc_json(s@) + seq!['"']));
        },
        JsonVal::Arr(items) => {
            push_char(out, '[');
            let ghost base = out@;
            let mut i: usize = 0;
            proof {
                lemma_jv_list_len(items@);
                assert(jv_list(items@).take(0) =~= Seq::<JVal>::empty());
                assert(base + seq_join(json_texts(jv_list(items@).take(0)), seq![',']) =~= base);
            }
            while i < items.len()
                invariant
                    i <= items@.len(),
                    jv_list(items@).len() == items@.len(),
                    out@ == base + seq_join(json_texts(jv_list(items@).take(i as int)), seq![',']),
                decreases items@.len() - i,
            {
                proof {
                    lemma_jv_list_index(items@, i as int);
                    assert(jv_list(items@).take(i + 1) =~= jv_list(items@).take(i as int).push(
                        jv_list(items@)[i as int],
                    ));
                    lemma_json_texts_push(jv_list(items@).take(i as int), jv(items@[i as int]));
                    lemma_json_texts_len(jv_list(items@).take(i as int));
                    assert(json_texts(jv_list(items@).take(i + 1)) == json_texts(
                        jv_list(items@).take(i as int),
                    ).push(json_text(jv(items@[i as int]))));
                    if i >= 1 {
                        lemma_seq_join_push(
                            json_texts(jv_list(items@).take(i as int)),
                            seq![','],
                            json_text(jv(items@[i as int])),
                        );
                        assert(seq_join(json_texts(jv_list(items@).take(i + 1)), seq![','])
                            == seq_join(json_texts(jv_list(items@).take(i as int)), seq![',']) + seq![',']
                            + json_text(jv(items@[i as int])));
                    } else {
                        assert(json_texts(jv_list(items@).take(1)) =~= seq![json_text(
                            jv(items@[0]),
                        )]);
                        assert(seq_join(
                            seq![json_text(jv(items@[0]))],
                            seq![','],
                        ) == json_text(jv(items@[0])));
                    }
                }
                if i > 0 {
                    push_char(out, ',');
                }
                proof {
                    assert(*items == v->Arr_0);
                    assert(decreases_to!(*v => v->Arr_0));
                    assert(decreases_to!(v->Arr_0 => items@));
                    assert(decreases_to!(items@ => items@[i as int]));
                }
                write_json(&items[i], out);
                proof {
                    assert(out@ =~= base + seq_join(
                        json_texts(jv_list(items@).take(i + 1)),
                        seq![','],
                    ));
                }
                i = i + 1;
            }
            push_char(out, ']');
            proof {
                assert(jv_list(items@).take(items@.len() as int) =~= jv_list(items@));
                assert(out@ =~= old(out)@ + (seq!['['] + seq_join(
                    json_texts(jv_list(items@)),
                    seq![','],
                ) + seq![']']));
            }
        },
        JsonVal::Obj(fields) => {
            push_char(out, '{');
            let ghost base = out@;
            let mut i: usize = 0;
            proof {
                lemma_jv_fields_len(fields@);
                assert(jv_fields(fields@).take(0) =~= Seq::<(Seq<char>, JVal)>::empty());
                assert(base + seq_join(field_texts(jv_fields(fields@).take(0)), seq![',']) =~= base);
            }
            while i < fields.len()
                invariant
                    i <= fields@.len(),
                    jv_fields(fields@).len() == fields@.len(),
                    out@ == base + seq_join(field_texts(jv_fields(fields@).take(i as int)), seq![',']),
                decreases fields@.len() - i,
            {
                let ghost fv = (fields@[i as int].key@, jv(fields@[i as int].val));
                let ghost ftext = seq!['"'] + esc_json(fv.0) + seq!['"', ':'] + json_text(fv.1);
                proof {
                    lemma_jv_fields_index(fields@, i as int);
                    assert(jv_fields(fields@).take(i + 1) =~= jv_fields(fields@).take(i as int).push(
                        fv,
                    ));
                    lemma_field_texts_push(jv_fields(fields@).take(i as int), fv);
                    lemma_field_texts_len(jv_fields(fields@).take(i as int));
                    assert(field_texts(jv_fields(fields@).take(i + 1)) == field_texts(
                        jv_fields(fields@).take(i as int),
                    ).push(ftext));
                    if i >= 1 {
                        lemma_seq_join_push(
                            field_texts(jv_fields(fields@).take(i as int)),
                            seq![','],
                            ftext,
                        );
                        assert(seq_join(field_texts(jv_fields(fields@).take(i + 1)), seq![','])
                            == seq_join(field_texts(jv_fields(fields@).take(i as int)), seq![',']) + seq![',']
                            + ftext);
                    } else {
                        assert(field_texts(jv_fields(fields@).take(1)) =~= seq![ftext]);
                        assert(seq_join(seq![ftext], seq![',']) == ftext);
                    }
                }
                if i > 0 {
                    push_char(out, ',');
                }
                push_char(out, '"');
                write_escaped(fields[i].key.as_str(), out);
                push_char(out, '"');
                push_char(out, ':');
                proof {
                    assert(*fields == v->Obj_0);
                    assert(decreases_to!(*v => v->Obj_0));
                    assert(decreases_to!(v->Obj_0 => fields@));
                    assert(decreases_to!(fields@ => fields@[i as int]));
                    assert(decreases_to!(fields@[i as int] => fields@[i as int].val));
                }
                write_json(&fields[i].val, out);
                proof {
                    assert(out@ =~= base + seq_join(
                        field_texts(jv_fields(fields@).take(i + 1)),
                        seq![','],
                    ));
                }
                i = i + 1;
            }
            push_char(out, '}');
            proof {
                assert(jv_fields(fields@).take(fields@.len() as int) =~= jv_fields(fields@));
                assert(out@ =~= old(out)@ + (seq!['{'] + seq_join(
                    field_texts(jv_fields(fields@)),
                    seq![','],
                ) + seq!['}']));
            }
        },
    }
}

/// The text of `v` as a fresh string.
pub fn json_to_string(v: &JsonVal) -> (r: String)
    ensures
        r@ == json_text(jv(*v)),
{
    let mut out = String::new();
    write_json(v, &mut out);
    out
}

/// The value a JSON parser yields for this text, if the text is valid JSON
/// whose numbers are integers.
pub uninterp spec fn json_of(s: Seq<char>) -> Option<JVal>;

/// Relies on `serde_json::from_str::<serde_json::Value>`: parses JSON text,
/// a function of the text alone. The parsed tree is converted by
/// `value_to_jsonval`; numbers that are not integers read as null.
#[verifier::external_body]
pub(crate) fn parse_json(s: &str) -> (r: Option<JsonVal>)
    ensures
        match r {
            Some(v) => json_of(s@) == Some(jv(v)),
            None => json_of(s@) is None,
        },
{
    match serde_json::from_str::<serde_json::Value>(s) {
        Ok(v) => Some(value_to_jsonval(&v)),
        Err(_) => None,
    }
}

#[verifier::external_type_specification]
#[verifier::external_body]
pub struct ExSerdeJsonValue(serde_json::Value);

/// Relies on the variant accessors of `serde_json::Value`: converts the
/// parsed tree one variant at a time, moving values only.
#[verifier::external_body]
fn value_to_jsonval(v: &serde_json::Value) -> JsonVal {
    match v {
        serde_json::Value::Null => JsonVal::Null,
        serde_json::Value::Bool(b) => JsonVal::Bool(*b),
        serde_json::Value::Number(n) => match (n.as_u64(), n.as_i64()) {
            (Some(u), _) => JsonVal::UNum(u),
            (None, Some(i)) => JsonVal::INum(i),
            (None, None) => JsonVal::Null,
        },
        serde_json::Value::String(s) => JsonVal::Str(s.clone()),
        serde_json::Value::Array(a) => JsonVal::Arr(a.iter().map(value_to_jsonval).collect()),
        serde_json::Value::Object(o) => JsonVal::Obj(o.iter().map(|(k, v2)| JsonField { key: k.clone(), val: value_to_jsonval(v2) }).collect()),
    }
}

} // verus!
