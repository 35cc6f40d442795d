//! A structured JSON value model.
//!
//! Tool arguments, event payloads, and schema defaults are JSON values; this
//! model holds them as plain data so that the logic over them can be verified.
//! Numbers are 64-bit integers: the library's rules never need fractions.
//! `JsonData` is the mathematical shape of a value and serves as the view of
//! the executable `JsonVal`; `json_text` is the canonical rendering.

use vstd::prelude::*;
use crate::text::{dec_rep_i64, i64_to_chars, append_chars};

verus! {

broadcast use vstd::seq::group_seq_axioms, vstd::std_specs::vec::group_vec_axioms;

#[derive(Debug, PartialEq)]
pub enum JsonVal {
    Null,
    Bool(bool),
    Int(i64),
    Str(String),
    Arr(Vec<JsonVal>),
    Obj(Vec<(String, JsonVal)>),
}

/// The mathematical shape of a JSON value.
pub enum JsonData {
    Null,
    Bool(bool),
    Int(int),
    Str(Seq<char>),
    Arr(Seq<JsonData>),
    Obj(Seq<(Seq<char>, JsonData)>),
}

/// Views of the first `n` elements of a value vector.
pub open spec fn views_upto(s: Seq<JsonVal>, n: int) -> Seq<JsonData>
    decreases s, n,
{
    if n <= 0 || n > s.len() {
        Seq::empty()
    } else {
        views_upto(s, n - 1).push(s[n - 1]@)
    }
}

pub open spec fn views_of(s: Seq<JsonVal>) -> Seq<JsonData>
    decreases s, s.len() as int + 1,
{
    views_upto(s, s.len() as int)
}

/// Views of the first `n` fields of an object's field vector.
pub open spec fn field_views_upto(s: Seq<(String, JsonVal)>, n: int) -> Seq<(Seq<char>, JsonData)>
    decreases s, n,
{
    if n <= 0 || n > s.len() {
        Seq::empty()
    } else {
        field_views_upto(s, n - 1).push((s[n - 1].0@, s[n - 1].1@))
    }
}

pub open spec fn field_views_of(s: Seq<(String, JsonVal)>) -> Seq<(Seq<char>, JsonData)>
    decreases s, s.len() as int + 1,
{
    field_views_upto(s, s.len() as int)
}

impl View for JsonVal {
    type V = JsonData;

    open spec fn view(&self) -> JsonData
        decreases self,
    {
        match self {
            JsonVal::Null => JsonData::Null,
            JsonVal::Bool(b) => JsonData::Bool(*b),
            JsonVal::Int(n) => JsonData::Int(*n as int),
            JsonVal::Str(s) => JsonData::Str(s@),
            JsonVal::Arr(a) => JsonData::Arr(views_of(a@)),
            JsonVal::Obj(fields) => JsonData::Obj(field_views_of(fields@)),
        }
    }
}

pub broadcast proof fn lemma_views_upto_len(s: Seq<JsonVal>, n: int)
    requires
        0 <= n <= s.len(),
    ensures
        (#[trigger] views_upto(s, n)).len() == n,
    decreases n,
{
    if n > 0 {
        lemma_views_upto_len(s, n - 1);
        assert(views_upto(s, n) == views_upto(s, n - 1).push(s[n - 1]@));
    } else {
        assert(views_upto(s, n) == Seq::<JsonData>::empty());
    }
}

pub broadcast proof fn lemma_views_upto_index(s: Seq<JsonVal>, n: int, i: int)
    requires
        0 <= i < n <= s.len(),
    ensures
        #[trigger] views_upto(s, n)[i] == s[i]@,
    decreases n,
{
    lemma_views_upto_len(s, n);
    assert(views_upto(s, n) == views_upto(s, n - 1).push(s[n - 1]@));
    if i < n - 1 {
        lemma_views_upto_index(s, n - 1, i);
    } else {
        lemma_views_upto_len(s, n - 1);
    }
}

pub broadcast proof fn lemma_field_views_upto_len(s: Seq<(String, JsonVal)>, n: int)
    requires
        0 <= n <= s.len(),
    ensures
        (#[trigger] field_views_upto(s, n)).len() == n,
    decreases n,
{
    if n > 0 {
        lemma_field_views_upto_len(s, n - 1);
        assert(field_views_upto(s, n) == field_views_upto(s, n - 1).push((s[n - 1].0@, s[n - 1].1@)));
    } else {
        assert(field_views_upto(s, n) == Seq::<(Seq<char>, JsonData)>::empty());
    }
}

pub broadcast proof fn lemma_field_views_upto_index(s: Seq<(String, JsonVal)>, n: int, i: int)
    requires
        0 <= i < n <= s.len(),
    ensures
        #[trigger] field_views_upto(s, n)[i] == (s[i].0@, s[i].1@),
    decreases n,
{
    lemma_field_views_upto_len(s, n);
    assert(field_views_upto(s, n) == field_views_upto(s, n - 1).push((s[n - 1].0@, s[n - 1].1@)));
    if i < n - 1 {
        lemma_field_views_upto_index(s, n - 1, i);
    } else {
        lemma_field_views_upto_len(s, n - 1);
    }
}

/// How one character is written inside a JSON string literal.
pub open spec fn escape_char(c: char) -> Seq<char> {
    if c == '"' {
        seq!['\\', '"']
    } else if c == '\\' {
        seq!['\\', '\\']
    } else if c == '\n' {
        seq!['\\', 'n']
    } else if c == '\r' {
        seq!['\\', 'r']
    } else if c == '\t' {
        seq!['\\', 't']
    } else {
        seq![c]
    }
}

pub open spec fn escape_seq(s: Seq<char>) -> Seq<char>
    decreases s.len(),
{
    if s.len() == 0 {
        Seq::empty()
    } else {
        escape_char(s[0]) + escape_seq(s.drop_first())
    }
}

/// A JSON string literal: quotes around the escaped characters.
pub open spec fn str_text(s: Seq<char>) -> Seq<char> {
    seq!['"'] + escape_seq(s) + seq!['"']
}

/// The text of the first `i` array elements, joined with commas.
pub open spec fn arr_text_upto(elems: Seq<JsonData>, i: int) -> Seq<char>
    decreases elems, i,
{
    if i <= 0 || i > elems.len() {
        Seq::empty()
    } else if i == 1 {
        json_text(elems[0])
    } else {
        arr_text_upto(elems, i - 1) + seq![','] + json_text(elems[i - 1])
    }
}

/// The text of the first `i` object fields, joined with commas.
pub open spec fn obj_text_upto(fields: Seq<(Seq<char>, JsonData)>, i: int) -> Seq<char>
    decreases fields, i,
{
    if i <= 0 || i > fields.len() {
        Seq::empty()
    } else if i == 1 {
        str_text(fields[0].0) + seq![':'] + json_text(fields[0].1)
    } else {
        obj_text_upto(fields, i - 1) + seq![','] + str_text(fields[i - 1].0) + seq![':']
            + json_text(fields[i - 1].1)
    }
}

/// The canonical text of a JSON value.
pub open spec fn json_text(v: JsonData) -> Seq<char>
    decreases v,
{
    match v {
        JsonData::Null => seq!['n', 'u', 'l', 'l'],
        JsonData::Bool(b) => if b {
            seq!['t', 'r', 'u', 'e']
        } else {
            seq!['f', 'a', 'l', 's', 'e']
        },
        JsonData::Int(n) => dec_rep_i64(n),
        JsonData::Str(s) => str_text(s),
        JsonData::Arr(a) => seq!['['] + arr_text_upto(a, a.len() as int) + seq![']'],
        JsonData::Obj(fields) => seq!['{'] + obj_text_upto(fields, fields.len() as int) + seq![
            '}',
        ],
    }
}

proof fn lemma_escape_snoc(s: Seq<char>, c: char)
    ensures
        escape_seq(s.push(c)) == escape_seq(s) + escape_char(c),
    decreases s.len(),
{
    if s.len() == 0 {
        let p = s.push(c);
        assert(p[0] == c);
        assert(p.drop_first() =~= Seq::<char>::empty());
        assert(escape_seq(p.drop_first()) =~= Seq::<char>::empty());
        assert(escape_seq(p) == escape_char(p[0]) + escape_seq(p.drop_first()));
        assert(escape_seq(p) =~= escape_char(c));
        assert(escape_seq(s) + escape_char(c) =~= escape_char(c));
    } else {
        assert(s.push(c).drop_first() =~= s.drop_first().push(c));
        lemma_escape_snoc(s.drop_first(), c);
        assert(escape_seq(s.push(c)) =~= escape_seq(s) + escape_char(c));
    }
}

/// Escape every character of `v` for a JSON string literal.
fn escape_chars(v: &Vec<char>) -> (r: Vec<char>)
    ensures
        r@ == escape_seq(v@),
{
    let mut r: Vec<char> = Vec::new();
    let mut i: usize = 0;
    proof {
        assert(v@.subrange(0, 0) =~= Seq::<char>::empty());
    }
    while i < v.len()
        invariant
            i <= v@.len(),
            r@ == escape_seq(v@.subrange(0, i as int)),
        decreases v@.len() - i,
    {
        let c = v[i];
        if c == '"' {
            r.push('\\');
            r.push('"');
        } else if c == '\\' {
            r.push('\\');
            r.push('\\');
        } else if c == '\n' {
            r.push('\\');
            r.push('n');
        } else if c == '\r' {
            r.push('\\');
            r.push('r');
        } else if c == '\t' {
            r.push('\\');
            r.push('t');
        } else {
            r.push(c);
        }
        proof {
            lemma_escape_snoc(v@.subrange(0, i as int), v@[i as int]);
            assert(v@.subrange(0, i as int).push(v@[i as int]) =~= v@.subrange(0, i + 1));
            assert(r@ =~= escape_seq(v@.subrange(0, i + 1)));
        }
        i = i + 1;
    }
    proof {
        assert(v@.subrange(0, v@.len() as int) =~= v@);
    }
    r
}

/// Append the JSON string literal for `s` to `out`.
fn append_str_literal(out: &mut Vec<char>, s: &String)
    ensures
        final(out)@ == old(out)@ + str_text(s@),
{
    out.push('"');
    let cs = crate::text::chars_vec(s.as_str());
    let esc = escape_chars(&cs);
    append_chars(out, &esc);
    out.push('"');
    proof {
        assert(out@ =~= old(out)@ + str_text(s@));
    }
}

/// Render a JSON value as its canonical text.
pub fn json_to_chars(v: &JsonVal) -> (r: Vec<char>)
    ensures
        r@ == json_text(v@),
    decreases *v,
{
    match v {
        JsonVal::Null => {
            let mut r: Vec<char> = Vec::new();
            r.push('n');
            r.push('u');
            r.push('l');
            r.push('l');
            proof {
                assert(r@ =~= json_text(v@));
            }
            r
        }
        JsonVal::Bool(b) => {
            let mut r: Vec<char> = Vec::new();
            if *b {
                r.push('t');
                r.push('r');
                r.push('u');
                r.push('e');
            } else {
                r.push('f');
                r.push('a');
                r.push('l');
                r.push('s');
                r.push('e');
            }
            proof {
                assert(r@ =~= json_text(v@));
            }
            r
        }
        JsonVal::Int(n) => i64_to_chars(*n),
        JsonVal::Str(s) => {
            let mut r: Vec<char> = Vec::new();
            append_str_literal(&mut r, s);
            proof {
                assert(r@ =~= json_text(v@));
            }
            r
        }
        JsonVal::Arr(a) => {
            let mut r: Vec<char> = Vec::new();
            r.push('[');
            let ghost dv = views_of(a@);
            proof {
                lemma_views_upto_len(a@, a@.len() as int);
            }
            let mut i: usize = 0;
            while i < a.len()
                invariant
                    *v == JsonVal::Arr(*a),
                    dv == views_of(a@),
                    dv.len() == a@.len(),
                    i <= a@.len(),
                    r@ == seq!['['] + arr_text_upto(dv, i as int),
                decreases a@.len() - i,
            {
                if i > 0 {
                    r.push(',');
                }
                proof {
                    assert(decreases_to!(*v => v->Arr_0));
                    assert(decreases_to!(v->Arr_0 => v->Arr_0@));
                    assert(decreases_to!(v->Arr_0@ => v->Arr_0@[i as int]));
                    assert(v->Arr_0@[i as int] == a@[i as int]);
                    assert(decreases_to!(*v => a@[i as int]));
                }
                let elem = json_to_chars(&a[i]);
                append_chars(&mut r, &elem);
                i = i + 1;
                proof {
                    lemma_views_upto_index(a@, a@.len() as int, i - 1);
                    assert(r@ =~= seq!['['] + arr_text_upto(dv, i as int));
                }
            }
            r.push(']');
            proof {
                assert(r@ =~= json_text(v@));
            }
            r
        }
        JsonVal::Obj(fields) => {
            let mut r: Vec<char> = Vec::new();
            r.push('{');
            let ghost dv = field_views_of(fields@);
            proof {
                lemma_field_views_upto_len(fields@, fields@.len() as int);
            }
            let mut i: usize = 0;
            while i < fields.len()
                invariant
                    *v == JsonVal::Obj(*fields),
                    dv == field_views_of(fields@),
                    dv.len() == fields@.len(),
                    i <= fields@.len(),
                    r@ == seq!['{'] + obj_text_upto(dv, i as int),
                decreases fields@.len() - i,
            {
                if i > 0 {
                    r.push(',');
                }
                append_str_literal(&mut r, &fields[i].0);
                r.push(':');
                proof {
                    assert(decreases_to!(*v => v->Obj_0));
                    assert(decreases_to!(v->Obj_0 => v->Obj_0@));
                    assert(decreases_to!(v->Obj_0@ => v->Obj_0@[i as int]));
                    assert(decreases_to!(v->Obj_0@[i as int] => v->Obj_0@[i as int].1));
                    assert(v->Obj_0@[i as int].1 == fields@[i as int].1);
                    assert(decreases_to!(*v => fields@[i as int].1));
                }
                let elem = json_to_chars(&fields[i].1);
                append_chars(&mut r, &elem);
                i = i + 1;
                proof {
                    lemma_field_views_upto_index(fields@, fields@.len() as int, i - 1);
                    assert(r@ =~= seq!['{'] + obj_text_upto(dv, i as int));
                }
            }
            r.push('}');
            proof {
                assert(r@ =~= json_text(v@));
            }
            r
        }
    }
}

/// Render a JSON value as a `String`.
pub fn json_write(v: &JsonVal) -> (r: String)
    ensures
        r@ == json_text(v@),
{
    let cs = json_to_chars(v);
    crate::text::string_from_chars(&cs)
}

/// The value of the first field named `key`, scanning in order.
pub open spec fn lookup_field(fields: Seq<(Seq<char>, JsonData)>, key: Seq<char>) -> Option<
    JsonData,
>
    decreases fields.len(),
{
    if fields.len() == 0 {
        None
    } else if fields[0].0 == key {
        Some(fields[0].1)
    } else {
        lookup_field(fields.drop_first(), key)
    }
}

/// The field named `key` of an object value, when `v` is an object that has it.
pub open spec fn obj_get(v: JsonData, key: Seq<char>) -> Option<JsonData> {
    match v {
        JsonData::Obj(fields) => lookup_field(fields, key),
        _ => None,
    }
}

proof fn lemma_lookup_skip(fields: Seq<(Seq<char>, JsonData)>, key: Seq<char>, i: int)
    requires
        0 <= i <= fields.len(),
        forall|j: int| 0 <= j < i ==> fields[j].0 != key,
    ensures
        lookup_field(fields, key) == lookup_field(fields.skip(i), key),
    decreases i,
{
    if i == 0 {
        assert(fields.skip(0) =~= fields);
    } else {
        assert(fields.drop_first() =~= fields.skip(1));
        lemma_lookup_skip(fields.drop_first(), key, i - 1);
        assert(fields.drop_first().skip(i - 1) =~= fields.skip(i));
    }
}

/// Looking a key up finds the first field that carries it.
pub proof fn lemma_lookup_at(fields: Seq<(Seq<char>, JsonData)>, key: Seq<char>, i: int)
    requires
        0 <= i < fields.len(),
        fields[i].0 == key,
        forall|j: int| 0 <= j < i ==> fields[j].0 != key,
    ensures
        lookup_field(fields, key) == Some(fields[i].1),
    decreases i,
{
    if i == 0 {
    } else {
        assert(fields.drop_first() =~= fields.skip(1));
        lemma_lookup_at(fields.drop_first(), key, i - 1);
    }
}

/// Looking up a key no field carries finds nothing.
pub proof fn lemma_lookup_absent(fields: Seq<(Seq<char>, JsonData)>, key: Seq<char>)
    requires
        forall|j: int| 0 <= j < fields.len() ==> fields[j].0 != key,
    ensures
        lookup_field(fields, key) is None,
    decreases fields.len(),
{
    if fields.len() > 0 {
        lemma_lookup_absent(fields.drop_first(), key);
    }
}

/// Look up the first field named `key` in an object's field list.
pub fn obj_field<'a>(fields: &'a Vec<(String, JsonVal)>, key: &str) -> (r: Option<&'a JsonVal>)
    ensures
        match r {
            Some(x) => lookup_field(field_views_of(fields@), key@) == Some(x@),
            None => lookup_field(field_views_of(fields@), key@) is None,
        },
{
    let ghost dv = field_views_of(fields@);
    proof {
        lemma_field_views_upto_len(fields@, fields@.len() as int);
    }
    let mut i: usize = 0;
    while i < fields.len()
        invariant
            dv == field_views_of(fields@),
            dv.len() == fields@.len(),
            i <= fields@.len(),
            forall|j: int| 0 <= j < i ==> dv[j].0 != key@,
        decreases fields@.len() - i,
    {
        proof {
            lemma_field_views_upto_index(fields@, fields@.len() as int, i as int);
        }
        if crate::text::str_eq(fields[i].0.as_str(), key) {
            proof {
                lemma_lookup_skip(dv, key@, i as int);
                assert(dv.skip(i as int)[0] == dv[i as int]);
            }
            return Some(&fields[i].1);
        }
        i = i + 1;
    }
    proof {
        lemma_lookup_skip(dv, key@, dv.len() as int);
        assert(dv.skip(dv.len() as int) =~= Seq::<(Seq<char>, JsonData)>::empty());
    }
    None
}

/// Look up `key` in `v` when `v` is an object.
pub fn json_get<'a>(v: &'a JsonVal, key: &str) -> (r: Option<&'a JsonVal>)
    ensures
        match r {
            Some(x) => obj_get(v@, key@) == Some(x@),
            None => obj_get(v@, key@) is None,
        },
{
    match v {
        JsonVal::Obj(fields) => obj_field(fields, key),
        _ => None,
    }
}

/// Rebuild a JSON value with the same view.
pub fn json_clone(v: &JsonVal) -> (r: JsonVal)
    ensures
        r@ == v@,
    decreases *v,
{
    match v {
        JsonVal::Null => JsonVal::Null,
        JsonVal::Bool(b) => JsonVal::Bool(*b),
        JsonVal::Int(n) => JsonVal::Int(*n),
        JsonVal::Str(s) => JsonVal::Str(s.clone()),
        JsonVal::Arr(a) => {
            let mut out: Vec<JsonVal> = Vec::new();
            let mut i: usize = 0;
            proof {
                lemma_views_upto_len(a@, a@.len() as int);
            }
            while i < a.len()
                invariant
                    *v == JsonVal::Arr(*a),
                    i <= a@.len(),
                    out@.len() == i,
                    views_of(out@) == views_upto(a@, i as int),
                decreases a@.len() - i,
            {
                proof {
                    assert(decreases_to!(*v => v->Arr_0));
                    assert(decreases_to!(v->Arr_0 => v->Arr_0@));
                    assert(decreases_to!(v->Arr_0@ => v->Arr_0@[i as int]));
                    assert(v->Arr_0@[i as int] == a@[i as int]);
                    assert(decreases_to!(*v => a@[i as int]));
                }
                let c = json_clone(&a[i]);
                proof {
                    lemma_views_snoc(out@, c);
                }
                out.push(c);
                i = i + 1;
            }
            proof {
                assert(views_of(out@) == views_of(a@));
            }
            JsonVal::Arr(out)
        }
        JsonVal::Obj(fields) => {
            let mut out: Vec<(String, JsonVal)> = Vec::new();
            let mut i: usize = 0;
            proof {
                lemma_field_views_upto_len(fields@, fields@.len() as int);
            }
            while i < fields.len()
                invariant
                    *v == JsonVal::Obj(*fields),
                    i <= fields@.len(),
                    out@.len() == i,
                    field_views_of(out@) == field_views_upto(fields@, i as int),
                decreases fields@.len() - i,
            {
                proof {
                    assert(decreases_to!(*v => v->Obj_0));
                    assert(decreases_to!(v->Obj_0 => v->Obj_0@));
                    assert(decreases_to!(v->Obj_0@ => v->Obj_0@[i as int]));
                    assert(decreases_to!(v->Obj_0@[i as int] => v->Obj_0@[i as int].1));
                    assert(v->Obj_0@[i as int].1 == fields@[i as int].1);
                    assert(decreases_to!(*v => fields@[i as int].1));
                }
                let k = fields[i].0.clone();
                let c = json_clone(&fields[i].1);
                proof {
                    lemma_field_views_snoc(out@, k, c);
                }
                out.push((k, c));
                i = i + 1;
            }
            proof {
                assert(field_views_of(out@) == field_views_of(fields@));
            }
            JsonVal::Obj(out)
        }
    }
}

pub proof fn lemma_views_snoc(s: Seq<JsonVal>, x: JsonVal)
    ensures
        views_of(s.push(x)) == views_of(s).push(x@),
{
    let p = s.push(x);
    assert(p.len() == s.len() + 1);
    assert(views_upto(p, p.len() as int) == views_upto(p, s.len() as int).push(p[s.len() as int]@));
    lemma_views_upto_prefix(s, p, s.len() as int);
}

/// The element view facts of a whole value vector at once.
pub proof fn lemma_views_elts(s: Seq<JsonVal>)
    ensures
        views_of(s).len() == s.len(),
        forall|i: int| 0 <= i < s.len() ==> views_of(s)[i] == s[i]@,
{
    lemma_views_upto_len(s, s.len() as int);
    assert forall|i: int| 0 <= i < s.len() implies views_of(s)[i] == s[i]@ by {
        lemma_views_upto_index(s, s.len() as int, i);
    }
}

/// The element view facts of a whole field vector at once.
pub proof fn lemma_field_views_elts(s: Seq<(String, JsonVal)>)
    ensures
        field_views_of(s).len() == s.len(),
        forall|i: int| 0 <= i < s.len() ==> field_views_of(s)[i] == (s[i].0@, s[i].1@),
{
    lemma_field_views_upto_len(s, s.len() as int);
    assert forall|i: int| 0 <= i < s.len() implies field_views_of(s)[i] == (s[i].0@, s[i].1@) by {
        lemma_field_views_upto_index(s, s.len() as int, i);
    }
}

proof fn lemma_views_upto_prefix(s: Seq<JsonVal>, p: Seq<JsonVal>, n: int)
    requires
        0 <= n <= s.len(),
        s.len() <= p.len(),
        forall|j: int| 0 <= j < n ==> p[j] == s[j],
    ensures
        views_upto(p, n) == views_upto(s, n),
    decreases n,
{
    if n > 0 {
        lemma_views_upto_prefix(s, p, n - 1);
    }
}

pub proof fn lemma_field_views_snoc(s: Seq<(String, JsonVal)>, k: String, x: JsonVal)
    ensures
        field_views_of(s.push((k, x))) == field_views_of(s).push((k@, x@)),
{
    let p = s.push((k, x));
    assert(p.len() == s.len() + 1);
    assert(field_views_upto(p, p.len() as int) == field_views_upto(p, s.len() as int).push(
        (p[s.len() as int].0@, p[s.len() as int].1@),
    ));
    lemma_field_views_upto_prefix(s, p, s.len() as int);
}

proof fn lemma_field_views_upto_prefix(
    s: Seq<(String, JsonVal)>,
    p: Seq<(String, JsonVal)>,
    n: int,
)
    requires
        0 <= n <= s.len(),
        s.len() <= p.len(),
        forall|j: int| 0 <= j < n ==> p[j] == s[j],
    ensures
        field_views_upto(p, n) == field_views_upto(s, n),
    decreases n,
{
    if n > 0 {
        lemma_field_views_upto_prefix(s, p, n - 1);
    }
}

} // verus!
