//! The codec law: parsing a value's canonical text gives the value back.
//! Every piece of the grammar — digits, string escapes, element lists — has
//! its own inversion lemma, and `lemma_value_round_trip` puts them together.

use vstd::prelude::*;
use crate::json::{
    JsonVal, JsonData, json_text, arr_text_upto, obj_text_upto, str_text, escape_seq, escape_char,
    views_of, field_views_of, lemma_views_elts, lemma_field_views_elts,
};
use crate::json_parse::{
    json_ws, skip_ws, parse_str_body, parse_digits, parse_int_at, parse_value, parse_elems,
    parse_fields, spec_json_parse, unescape, digit_val, pos_max,
};
use crate::text::{dec_rep, dec_rep_i64, digit_char, is_digit};

verus! {

broadcast use vstd::seq::group_seq_axioms, vstd::std_specs::vec::group_vec_axioms;

/// Powers of ten.
pub open spec fn pow10(k: nat) -> int
    decreases k,
{
    if k == 0 {
        1
    } else {
        10 * pow10((k - 1) as nat)
    }
}

/// The numeric value of a digit run, most significant first.
pub open spec fn digits_val(ds: Seq<char>) -> int
    decreases ds.len(),
{
    if ds.len() == 0 {
        0
    } else {
        digit_val(ds[0]) * pow10((ds.len() - 1) as nat) + digits_val(ds.drop_first())
    }
}

proof fn lemma_pow10_pos(k: nat)
    ensures
        pow10(k) >= 1,
    decreases k,
{
    if k > 0 {
        lemma_pow10_pos((k - 1) as nat);
    }
}

proof fn lemma_digit_char_val(k: int)
    requires
        0 <= k < 10,
    ensures
        is_digit(digit_char(k)),
        digit_val(digit_char(k)) == k,
{
}

proof fn lemma_digits_val_snoc(ds: Seq<char>, c: char)
    ensures
        digits_val(ds.push(c)) == digits_val(ds) * 10 + digit_val(c),
    decreases ds.len(),
{
    let p = ds.push(c);
    if ds.len() == 0 {
        assert(p.drop_first() =~= Seq::<char>::empty());
        assert(digits_val(p.drop_first()) == 0);
        assert(pow10(0) == 1);
        assert(p[0] == c);
        assert(digits_val(p) == digit_val(c) * 1 + 0);
        assert(digits_val(ds) == 0);
    } else {
        assert(p.drop_first() =~= ds.drop_first().push(c));
        lemma_digits_val_snoc(ds.drop_first(), c);
        let n = ds.len() - 1;
        assert(p[0] == ds[0]);
        assert(pow10((p.len() - 1) as nat) == 10 * pow10(n as nat));
        let a = digit_val(ds[0]);
        let q = pow10(n as nat);
        assert(a * (10 * q) == (a * q) * 10) by (nonlinear_arith);
        assert(digits_val(p) == a * (10 * q) + digits_val(p.drop_first()));
        assert(digits_val(p.drop_first()) == digits_val(ds.drop_first()) * 10 + digit_val(c));
        assert(digits_val(ds) == a * q + digits_val(ds.drop_first()));
        assert((a * q + digits_val(ds.drop_first())) * 10 == (a * q) * 10 + digits_val(
            ds.drop_first(),
        ) * 10) by (nonlinear_arith);
    }
}

/// The decimal digits of `m` hold only digits and carry the value `m`.
proof fn lemma_dec_rep_value(m: nat)
    ensures
        dec_rep(m).len() >= 1,
        forall|j: int| 0 <= j < dec_rep(m).len() ==> is_digit(#[trigger] dec_rep(m)[j]),
        digits_val(dec_rep(m)) == m,
    decreases m,
{
    if m < 10 {
        lemma_digit_char_val(m as int);
        assert(dec_rep(m) =~= Seq::<char>::empty().push(digit_char(m as int)));
        lemma_digits_val_snoc(Seq::<char>::empty(), digit_char(m as int));
    } else {
        lemma_dec_rep_value(m / 10);
        lemma_digit_char_val((m % 10) as int);
        lemma_digits_val_snoc(dec_rep(m / 10), digit_char((m % 10) as int));
        assert forall|j: int| 0 <= j < dec_rep(m).len() implies is_digit(
            #[trigger] dec_rep(m)[j],
        ) by {
            if j < dec_rep(m / 10).len() {
                assert(dec_rep(m)[j] == dec_rep(m / 10)[j]);
            }
        }
    }
}

/// Consuming a digit run embedded in `s` yields its value over the
/// accumulator, and stops right after it.
proof fn lemma_parse_digit_seq(ds: Seq<char>, s: Seq<char>, i: int, acc: int)
    requires
        ds.len() >= 1,
        forall|j: int| 0 <= j < ds.len() ==> is_digit(#[trigger] ds[j]),
        0 <= i,
        i + ds.len() <= s.len(),
        s.subrange(i, i + ds.len()) == ds,
        i + ds.len() == s.len() || !is_digit(s[i + ds.len()]),
        acc >= 0,
    ensures
        parse_digits(s, i, acc) == (acc * pow10(ds.len() as nat) + digits_val(ds), i + ds.len()),
    decreases ds.len(),
{
    assert(s[i] == ds[0]);
    assert(is_digit(s[i]));
    let acc2 = acc * 10 + digit_val(s[i]);
    assert(parse_digits(s, i, acc) == parse_digits(s, i + 1, acc2));
    if ds.len() == 1 {
        assert(i + 1 == s.len() || !is_digit(s[i + 1]));
        assert(parse_digits(s, i + 1, acc2) == (acc2, i + 1));
        assert(ds.drop_first() =~= Seq::<char>::empty());
        assert(digits_val(ds.drop_first()) == 0);
        assert(pow10(0) == 1);
        assert(digits_val(ds) == digit_val(ds[0]) * 1 + 0);
        assert(acc * pow10(1) == acc * 10);
    } else {
        let tail = ds.drop_first();
        assert(s.subrange(i + 1, i + 1 + tail.len()) =~= tail);
        assert(digit_val(s[i]) >= 0);
        assert(acc2 >= 0);
        lemma_parse_digit_seq(tail, s, i + 1, acc2);
        let n = tail.len() as nat;
        lemma_pow10_pos(n);
        let a = acc;
        let b = digit_val(ds[0]);
        let q = pow10(n);
        assert((a * 10 + b) * q == a * (10 * q) + b * q) by (nonlinear_arith);
        assert(pow10(ds.len() as nat) == 10 * q);
        assert(parse_digits(s, i + 1, acc2) == (acc2 * q + digits_val(tail), i + 1 + tail.len()));
        assert(digits_val(ds) == b * q + digits_val(tail));
    }
}

/// Well-formed data: every number fits a 64-bit signed integer, recursively.
pub open spec fn wf_data(d: JsonData) -> bool
    decreases d, 0int,
{
    match d {
        JsonData::Int(n) => i64::MIN <= n <= i64::MAX,
        JsonData::Arr(a) => wf_elems(a, 0),
        JsonData::Obj(fields) => wf_fields(fields, 0),
        _ => true,
    }
}

pub open spec fn wf_elems(a: Seq<JsonData>, k: int) -> bool
    decreases a, a.len() - k, 1int,
{
    if k < 0 || k >= a.len() {
        true
    } else {
        wf_data(a[k]) && wf_elems(a, k + 1)
    }
}

pub open spec fn wf_fields(fields: Seq<(Seq<char>, JsonData)>, k: int) -> bool
    decreases fields, fields.len() - k, 1int,
{
    if k < 0 || k >= fields.len() {
        true
    } else {
        wf_data(fields[k].1) && wf_fields(fields, k + 1)
    }
}

/// A value's text never starts with whitespace or a closing delimiter.
proof fn lemma_json_text_head(d: JsonData)
    ensures
        json_text(d).len() >= 1,
        !json_ws(json_text(d)[0]),
        json_text(d)[0] != ']',
        json_text(d)[0] != '}',
        json_text(d)[0] != ',',
        json_text(d)[0] != ':',
{
    match d {
        JsonData::Null => {}
        JsonData::Bool(b) => {}
        JsonData::Int(n) => {
            if n < 0 {
                assert(json_text(d)[0] == '-');
            } else {
                lemma_dec_rep_value(n as nat);
                assert(json_text(d) == dec_rep(n as nat));
                assert(is_digit(json_text(d)[0]));
            }
        }
        JsonData::Str(t) => {
            assert(json_text(d)[0] == '"');
        }
        JsonData::Arr(a) => {
            assert(json_text(d)[0] == '[');
        }
        JsonData::Obj(fields) => {
            assert(json_text(d)[0] == '{');
        }
    }
}

/// One character of an embedded text, read off the enclosing string.
proof fn lemma_seq_at(s: Seq<char>, i: int, text: Seq<char>, j: int)
    requires
        0 <= i,
        i + text.len() <= s.len(),
        s.subrange(i, i + text.len()) == text,
        0 <= j < text.len(),
    ensures
        s[i + j] == text[j],
{
    assert(s.subrange(i, i + text.len())[j] == s[i + j]);
}

/// Reading an escaped string body back gives the characters it encodes.
proof fn lemma_parse_str_body_text(t: Seq<char>, s: Seq<char>, i: int)
    requires
        0 <= i,
        i + escape_seq(t).len() + 1 <= s.len(),
        s.subrange(i, i + escape_seq(t).len()) == escape_seq(t),
        s[i + escape_seq(t).len()] == '"',
    ensures
        parse_str_body(s, i) == Some((t, i + escape_seq(t).len() + 1)),
    decreases t.len(),
{
    if t.len() == 0 {
        assert(escape_seq(t).len() == 0);
        assert(s[i] == '"');
    } else {
        let e0 = escape_char(t[0]);
        let rest = escape_seq(t.drop_first());
        let whole = escape_seq(t);
        assert(whole == e0 + rest);
        assert forall|x: int| 0 <= x < rest.len() implies s[i + e0.len() + x] == rest[x] by {
            lemma_seq_at(s, i, whole, e0.len() + x);
            assert((e0 + rest)[e0.len() + x] == rest[x]);
        }
        let i2 = i + e0.len();
        assert(s.subrange(i2, i2 + rest.len()) =~= rest);
        assert(s[i2 + rest.len()] == '"');
        lemma_parse_str_body_text(t.drop_first(), s, i2);
        lemma_seq_at(s, i, whole, 0);
        assert((e0 + rest)[0] == e0[0]);
        if t[0] == '"' || t[0] == '\\' || t[0] == '\n' || t[0] == '\r' || t[0] == '\t' {
            assert(e0.len() == 2);
            assert(s[i] == '\\');
            lemma_seq_at(s, i, whole, 1);
            assert((e0 + rest)[1] == e0[1]);
            assert(unescape(s[i + 1]) == Some(t[0]));
            assert(parse_str_body(s, i) == (match parse_str_body(s, i + 2) {
                None => None::<(Seq<char>, int)>,
                Some((u, j)) => Some((seq![t[0]] + u, j)),
            }));
            assert(seq![t[0]] + t.drop_first() =~= t);
        } else {
            assert(e0.len() == 1);
            assert(s[i] == t[0]);
            assert(s[i] != '"' && s[i] != '\\');
            assert(parse_str_body(s, i) == (match parse_str_body(s, i + 1) {
                None => None::<(Seq<char>, int)>,
                Some((u, j)) => Some((seq![s[i]] + u, j)),
            }));
            assert(seq![t[0]] + t.drop_first() =~= t);
        }
    }
}

/// The text of the elements from `k` on, joined with commas.
pub open spec fn arr_text_from(elems: Seq<JsonData>, k: int) -> Seq<char>
    decreases elems, elems.len() - k, 1int,
{
    if k < 0 || k >= elems.len() {
        Seq::empty()
    } else if k == elems.len() - 1 {
        json_text(elems[k])
    } else {
        json_text(elems[k]) + seq![','] + arr_text_from(elems, k + 1)
    }
}

/// The text of the fields from `k` on, joined with commas.
pub open spec fn obj_text_from(fields: Seq<(Seq<char>, JsonData)>, k: int) -> Seq<char>
    decreases fields, fields.len() - k, 1int,
{
    if k < 0 || k >= fields.len() {
        Seq::empty()
    } else if k == fields.len() - 1 {
        str_text(fields[k].0) + seq![':'] + json_text(fields[k].1)
    } else {
        str_text(fields[k].0) + seq![':'] + json_text(fields[k].1) + seq![','] + obj_text_from(
            fields,
            k + 1,
        )
    }
}

proof fn lemma_arr_text_from_upto(elems: Seq<JsonData>, n: int)
    requires
        1 <= n <= elems.len(),
    ensures
        arr_text_from(elems, 0) == arr_text_upto(elems, n) + (if n < elems.len() {
            seq![','] + arr_text_from(elems, n)
        } else {
            Seq::<char>::empty()
        }),
    decreases n,
{
    if n == 1 {
        if elems.len() == 1 {
            assert(arr_text_from(elems, 0) =~= arr_text_upto(elems, 1));
        } else {
            assert(arr_text_from(elems, 0) =~= arr_text_upto(elems, 1) + (seq![',']
                + arr_text_from(elems, 1)));
        }
    } else {
        lemma_arr_text_from_upto(elems, n - 1);
        if n == elems.len() {
            assert(arr_text_from(elems, n - 1) == json_text(elems[n - 1]) + (if n < elems.len() {
                seq![','] + arr_text_from(elems, n)
            } else {
                Seq::<char>::empty()
            }) + Seq::<char>::empty());
            assert(arr_text_from(elems, 0) =~= arr_text_upto(elems, n));
        } else {
            assert(arr_text_from(elems, 0) =~= arr_text_upto(elems, n) + (seq![',']
                + arr_text_from(elems, n)));
        }
    }
}

proof fn lemma_obj_text_from_upto(fields: Seq<(Seq<char>, JsonData)>, n: int)
    requires
        1 <= n <= fields.len(),
    ensures
        obj_text_from(fields, 0) == obj_text_upto(fields, n) + (if n < fields.len() {
            seq![','] + obj_text_from(fields, n)
        } else {
            Seq::<char>::empty()
        }),
    decreases n,
{
    if n == 1 {
        if fields.len() == 1 {
            assert(obj_text_from(fields, 0) =~= obj_text_upto(fields, 1));
        } else {
            assert(obj_text_from(fields, 0) =~= obj_text_upto(fields, 1) + (seq![',']
                + obj_text_from(fields, 1)));
        }
    } else {
        lemma_obj_text_from_upto(fields, n - 1);
        if n == fields.len() {
            assert(obj_text_from(fields, 0) =~= obj_text_upto(fields, n));
        } else {
            assert(obj_text_from(fields, 0) =~= obj_text_upto(fields, n) + (seq![',']
                + obj_text_from(fields, n)));
        }
    }
}

/// Parsing a value's text embedded in `s` gives the value back and stops
/// right after it, provided no digit follows directly.
#[verifier::rlimit(100)]
#[verifier::spinoff_prover]
proof fn lemma_parse_value_text(d: JsonData, s: Seq<char>, i: int)
    requires
        wf_data(d),
        0 <= i,
        i + json_text(d).len() <= s.len(),
        s.subrange(i, i + json_text(d).len()) == json_text(d),
        i + json_text(d).len() == s.len() || !is_digit(s[i + json_text(d).len()]),
    ensures
        parse_value(s, i) == Some((d, i + json_text(d).len())),
    decreases d, 0int, 0int,
{
    let text = json_text(d);
    lemma_json_text_head(d);
    lemma_seq_at(s, i, text, 0);
    assert(s[i] == text[0]);
    assert(skip_ws(s, i) == i);
    assert(pos_max(skip_ws(s, i), i) == i);
    match d {
        JsonData::Null => {
            assert(s.subrange(i, i + 4) =~= seq!['n', 'u', 'l', 'l']);
            assert(text.len() == 4);
            assert(parse_value(s, i) == Some((d, i + text.len())));
        }
        JsonData::Bool(b) => {
            if b {
                assert(s.subrange(i, i + 4) =~= seq!['t', 'r', 'u', 'e']);
                assert(text.len() == 4);
            } else {
                assert(s[i] == 'f');
                assert(s.subrange(i, i + 5) =~= seq!['f', 'a', 'l', 's', 'e']);
                assert(text.len() == 5);
            }
            assert(parse_value(s, i) == Some((d, i + text.len())));
        }
        JsonData::Int(n) => {
            lemma_parse_int_text(n, s, i);
            assert(parse_value(s, i) == Some((d, i + text.len())));
        }
        JsonData::Str(t) => {
            assert(s[i] == '"');
            let body = escape_seq(t);
            assert forall|j: int| 0 <= j < body.len() implies s[i + 1 + j] == body[j] by {
                lemma_seq_at(s, i, text, 1 + j);
                assert((seq!['"'] + body + seq!['"'])[1 + j] == body[j]);
            }
            assert(s.subrange(i + 1, i + 1 + body.len()) =~= body);
            lemma_seq_at(s, i, text, text.len() - 1);
            assert((seq!['"'] + body + seq!['"'])[text.len() - 1] == '"');
            lemma_parse_str_body_text(t, s, i + 1);
            assert(text.len() == body.len() + 2);
            assert(parse_value(s, i) == Some((d, i + text.len())));
        }
        JsonData::Arr(a) => {
            assert(s[i] == '[');
            if a.len() == 0 {
                assert(text =~= seq!['[', ']']);
                lemma_seq_at(s, i, text, 1);
                assert(s[i + 1] == ']');
                assert(skip_ws(s, i + 1) == i + 1);
                assert(a =~= Seq::<JsonData>::empty());
                assert(parse_value(s, i) == Some((d, i + text.len())));
            } else {
                lemma_arr_text_from_upto(a, a.len() as int);
                assert(arr_text_from(a, 0) =~= arr_text_upto(a, a.len() as int));
                let inner = arr_text_from(a, 0);
                assert(text =~= seq!['['] + inner + seq![']']);
                assert forall|j: int| 0 <= j < inner.len() implies s[i + 1 + j] == inner[j] by {
                    lemma_seq_at(s, i, text, 1 + j);
                    assert((seq!['['] + inner + seq![']'])[1 + j] == inner[j]);
                }
                assert(s.subrange(i + 1, i + 1 + inner.len()) =~= inner);
                lemma_seq_at(s, i, text, 1 + inner.len() as int);
                assert((seq!['['] + inner + seq![']'])[1 + inner.len() as int] == ']');
                assert(s[i + 1 + inner.len()] == ']');
                lemma_json_text_head(a[0]);
                assert(inner[0] == json_text(a[0])[0]);
                assert(s[i + 1] == inner[0]);
                assert(skip_ws(s, i + 1) == i + 1);
                assert(s[i + 1] != ']');
                lemma_parse_elems_text(a, 0, s, i + 1, Seq::empty());
                assert(Seq::<JsonData>::empty() + a.skip(0) =~= a);
                assert(parse_elems(s, i + 1, Seq::empty()) == Some(
                    (a, i + 1 + inner.len() + 1),
                ));
                assert(text.len() == 1 + inner.len() + 1);
                assert(parse_value(s, i) == Some((d, i + text.len())));
            }
        }
        JsonData::Obj(fields) => {
            assert(s[i] == '{');
            if fields.len() == 0 {
                assert(text =~= seq!['{', '}']);
                lemma_seq_at(s, i, text, 1);
                assert(s[i + 1] == '}');
                assert(skip_ws(s, i + 1) == i + 1);
                assert(fields =~= Seq::<(Seq<char>, JsonData)>::empty());
                assert(parse_value(s, i) == Some((d, i + text.len())));
            } else {
                lemma_obj_text_from_upto(fields, fields.len() as int);
                assert(obj_text_from(fields, 0) =~= obj_text_upto(fields, fields.len() as int));
                let inner = obj_text_from(fields, 0);
                assert(text =~= seq!['{'] + inner + seq!['}']);
                assert forall|j: int| 0 <= j < inner.len() implies s[i + 1 + j] == inner[j] by {
                    lemma_seq_at(s, i, text, 1 + j);
                    assert((seq!['{'] + inner + seq!['}'])[1 + j] == inner[j]);
                }
                assert(s.subrange(i + 1, i + 1 + inner.len()) =~= inner);
                lemma_seq_at(s, i, text, 1 + inner.len() as int);
                assert((seq!['{'] + inner + seq!['}'])[1 + inner.len() as int] == '}');
                assert(s[i + 1 + inner.len()] == '}');
                assert(inner[0] == '"');
                assert(s[i + 1] == '"');
                assert(skip_ws(s, i + 1) == i + 1);
                assert(s[i + 1] != '}');
                lemma_parse_fields_text(fields, 0, s, i + 1, Seq::empty());
                assert(Seq::<(Seq<char>, JsonData)>::empty() + fields.skip(0) =~= fields);
                assert(parse_fields(s, i + 1, Seq::empty()) == Some(
                    (fields, i + 1 + inner.len() + 1),
                ));
                assert(text.len() == 1 + inner.len() + 1);
                assert(parse_value(s, i) == Some((d, i + text.len())));
            }
        }
    }
}

proof fn lemma_parse_int_text(n: int, s: Seq<char>, i: int)
    requires
        i64::MIN <= n <= i64::MAX,
        0 <= i,
        i + dec_rep_i64(n).len() <= s.len(),
        s.subrange(i, i + dec_rep_i64(n).len()) == dec_rep_i64(n),
        i + dec_rep_i64(n).len() == s.len() || !is_digit(s[i + dec_rep_i64(n).len()]),
    ensures
        parse_value(s, i) == Some((JsonData::Int(n), i + dec_rep_i64(n).len())),
        parse_int_at(s, i) == Some((JsonData::Int(n), i + dec_rep_i64(n).len())),
{
    let text = dec_rep_i64(n);
    if n < 0 {
        let mag = (-n) as nat;
        lemma_dec_rep_value(mag);
        assert(text == seq!['-'] + dec_rep(mag));
        lemma_seq_at(s, i, text, 0);
        assert((seq!['-'] + dec_rep(mag))[0] == '-');
        assert(s[i] == '-');
        assert(!is_digit('-'));
        assert forall|j: int| 0 <= j < dec_rep(mag).len() implies s[i + 1 + j] == dec_rep(mag)[j]
            by {
            lemma_seq_at(s, i, text, 1 + j);
            assert((seq!['-'] + dec_rep(mag))[1 + j] == dec_rep(mag)[j]);
        }
        assert(s.subrange(i + 1, i + 1 + dec_rep(mag).len()) =~= dec_rep(mag));
        lemma_parse_digit_seq(dec_rep(mag), s, i + 1, 0);
        assert(0 * pow10(dec_rep(mag).len() as nat) + digits_val(dec_rep(mag)) == mag);
        assert(s[i + 1] == dec_rep(mag)[0]);
        assert(is_digit(s[i + 1]));
        assert(parse_int_at(s, i) == Some((JsonData::Int(n), i + text.len())));
        assert(skip_ws(s, i) == i);
        assert(pos_max(skip_ws(s, i), i) == i);
        assert(s[i] != 'n' && s[i] != 't' && s[i] != 'f' && s[i] != '"');
    } else {
        lemma_dec_rep_value(n as nat);
        assert(text == dec_rep(n as nat));
        lemma_seq_at(s, i, text, 0);
        lemma_parse_digit_seq(dec_rep(n as nat), s, i, 0);
        assert(0 * pow10(dec_rep(n as nat).len() as nat) + digits_val(dec_rep(n as nat)) == n);
        assert(is_digit(s[i]));
        assert(s[i] != '-');
        assert(parse_int_at(s, i) == Some((JsonData::Int(n), i + text.len())));
        assert(skip_ws(s, i) == i);
        assert(pos_max(skip_ws(s, i), i) == i);
        assert(s[i] != 'n' && s[i] != 't' && s[i] != 'f' && s[i] != '"');
    }
}

/// Parsing the elements' text from `k` on extends the accumulator with
/// exactly those elements and stops after the closing bracket.
proof fn lemma_parse_elems_text(
    a: Seq<JsonData>,
    k: int,
    s: Seq<char>,
    i: int,
    acc: Seq<JsonData>,
)
    requires
        0 <= k < a.len(),
        wf_elems(a, k),
        0 <= i,
        i + arr_text_from(a, k).len() + 1 <= s.len(),
        s.subrange(i, i + arr_text_from(a, k).len()) == arr_text_from(a, k),
        s[i + arr_text_from(a, k).len()] == ']',
    ensures
        parse_elems(s, i, acc) == Some((acc + a.skip(k), i + arr_text_from(a, k).len() + 1)),
    decreases a, a.len() - k, 2int,
{
    let text = arr_text_from(a, k);
    let elem = json_text(a[k]);
    lemma_json_text_head(a[k]);
    if k == a.len() - 1 {
        assert(text == elem);
        assert(s.subrange(i, i + elem.len()) =~= elem);
        assert(s[i + elem.len()] == ']');
        assert(!is_digit(']'));
        lemma_parse_value_text(a[k], s, i);
        let j = i + elem.len();
        assert(skip_ws(s, j) == j);
        assert(pos_max(skip_ws(s, j), j) == j);
        assert(parse_elems(s, i, acc) == Some((acc.push(a[k]), j + 1)));
        assert(acc.push(a[k]) =~= acc + a.skip(k));
    } else {
        assert(text == elem + seq![','] + arr_text_from(a, k + 1));
        assert forall|x: int| 0 <= x < elem.len() implies s[i + x] == elem[x] by {
            lemma_seq_at(s, i, text, x);
            assert((elem + seq![','] + arr_text_from(a, k + 1))[x] == elem[x]);
        }
        assert(s.subrange(i, i + elem.len()) =~= elem);
        lemma_seq_at(s, i, text, elem.len() as int);
        assert((elem + seq![','] + arr_text_from(a, k + 1))[elem.len() as int] == ',');
        assert(s[i + elem.len()] == ',');
        assert(!is_digit(','));
        lemma_parse_value_text(a[k], s, i);
        let j = i + elem.len();
        assert(skip_ws(s, j) == j);
        assert(pos_max(skip_ws(s, j), j) == j);
        let rest = arr_text_from(a, k + 1);
        assert forall|x: int| 0 <= x < rest.len() implies s[j + 1 + x] == rest[x] by {
            lemma_seq_at(s, i, text, elem.len() + 1 + x);
            assert((elem + seq![','] + rest)[elem.len() + 1 + x] == rest[x]);
        }
        assert(s.subrange(j + 1, j + 1 + rest.len()) =~= rest);
        assert(s[j + 1 + rest.len()] == ']');
        lemma_parse_elems_text(a, k + 1, s, j + 1, acc.push(a[k]));
        assert(acc.push(a[k]) + a.skip(k + 1) =~= acc + a.skip(k));
    }
}

/// Parsing the fields' text from `k` on extends the accumulator with exactly
/// those fields and stops after the closing brace.
proof fn lemma_parse_fields_text(
    fields: Seq<(Seq<char>, JsonData)>,
    k: int,
    s: Seq<char>,
    i: int,
    acc: Seq<(Seq<char>, JsonData)>,
)
    requires
        0 <= k < fields.len(),
        wf_fields(fields, k),
        0 <= i,
        i + obj_text_from(fields, k).len() + 1 <= s.len(),
        s.subrange(i, i + obj_text_from(fields, k).len()) == obj_text_from(fields, k),
        s[i + obj_text_from(fields, k).len()] == '}',
    ensures
        parse_fields(s, i, acc) == Some(
            (acc + fields.skip(k), i + obj_text_from(fields, k).len() + 1),
        ),
    decreases fields, fields.len() - k, 2int,
{
    let text = obj_text_from(fields, k);
    let key = fields[k].0;
    let key_text = str_text(key);
    let val_text = json_text(fields[k].1);
    let ghost shape: Seq<char> = if k == fields.len() - 1 {
        key_text + seq![':'] + val_text
    } else {
        key_text + seq![':'] + val_text + seq![','] + obj_text_from(fields, k + 1)
    };
    assert(text == shape);
    lemma_seq_at(s, i, text, 0);
    assert(shape[0] == '"');
    assert(skip_ws(s, i) == i);
    assert(pos_max(skip_ws(s, i), i) == i);
    let body = escape_seq(key);
    assert forall|x: int| 0 <= x < body.len() implies s[i + 1 + x] == body[x] by {
        lemma_seq_at(s, i, text, 1 + x);
        assert(shape[1 + x] == key_text[1 + x]);
        assert(key_text[1 + x] == body[x]);
    }
    assert(s.subrange(i + 1, i + 1 + body.len()) =~= body);
    lemma_seq_at(s, i, text, key_text.len() - 1);
    assert(shape[key_text.len() - 1] == key_text[key_text.len() - 1]);
    assert(key_text[key_text.len() - 1] == '"');
    lemma_parse_str_body_text(key, s, i + 1);
    let j = i + key_text.len();
    lemma_seq_at(s, i, text, key_text.len() as int);
    assert(shape[key_text.len() as int] == ':');
    assert(s[j] == ':');
    assert(skip_ws(s, j) == j);
    assert(pos_max(skip_ws(s, j), j) == j);
    let vi = j + 1;
    assert forall|x: int| 0 <= x < val_text.len() implies s[vi + x] == val_text[x] by {
        lemma_seq_at(s, i, text, key_text.len() + 1 + x);
        assert(shape[key_text.len() + 1 + x] == val_text[x]);
    }
    assert(s.subrange(vi, vi + val_text.len()) =~= val_text);
    lemma_json_text_head(fields[k].1);
    let m = vi + val_text.len();
    if k == fields.len() - 1 {
        assert(s[m] == '}');
        assert(!is_digit('}'));
        lemma_parse_value_text(fields[k].1, s, vi);
        assert(skip_ws(s, m) == m);
        assert(pos_max(skip_ws(s, m), m) == m);
        assert(parse_fields(s, i, acc) == Some((acc.push((key, fields[k].1)), m + 1)));
        assert((key, fields[k].1) == fields[k]);
        assert(acc.push(fields[k]) =~= acc + fields.skip(k));
    } else {
        lemma_seq_at(s, i, text, key_text.len() + 1 + val_text.len() as int);
        assert(shape[key_text.len() + 1 + val_text.len() as int] == ',');
        assert(s[m] == ',');
        assert(!is_digit(','));
        lemma_parse_value_text(fields[k].1, s, vi);
        assert(skip_ws(s, m) == m);
        assert(pos_max(skip_ws(s, m), m) == m);
        let rest = obj_text_from(fields, k + 1);
        assert forall|x: int| 0 <= x < rest.len() implies s[m + 1 + x] == rest[x] by {
            lemma_seq_at(s, i, text, key_text.len() + 1 + val_text.len() + 1 + x);
            assert(shape[key_text.len() + 1 + val_text.len() + 1 + x] == rest[x]);
        }
        assert(s.subrange(m + 1, m + 1 + rest.len()) =~= rest);
        assert(s[m + 1 + rest.len()] == '}');
        lemma_parse_fields_text(fields, k + 1, s, m + 1, acc.push(fields[k]));
        assert(acc.push(fields[k]) + fields.skip(k + 1) =~= acc + fields.skip(k));
    }
}

/// Every view of an executable JSON value is well formed: its numbers came
/// from 64-bit integers.
pub proof fn lemma_val_wf(v: &JsonVal)
    ensures
        wf_data(v@),
    decreases v, 0int,
{
    match v {
        JsonVal::Arr(a) => {
            lemma_val_wf_elems(a@, 0);
        }
        JsonVal::Obj(fields) => {
            lemma_val_wf_fields(fields@, 0);
        }
        _ => {}
    }
}

proof fn lemma_val_wf_elems(a: Seq<JsonVal>, k: int)
    requires
        0 <= k <= a.len(),
    ensures
        wf_elems(views_of(a), k),
    decreases a, a.len() - k, 1int,
{
    lemma_views_elts(a);
    if k < a.len() {
        lemma_val_wf(&a[k]);
        lemma_val_wf_elems(a, k + 1);
    }
}

proof fn lemma_val_wf_fields(fields: Seq<(String, JsonVal)>, k: int)
    requires
        0 <= k <= fields.len(),
    ensures
        wf_fields(field_views_of(fields), k),
    decreases fields, fields.len() - k, 1int,
{
    lemma_field_views_elts(fields);
    if k < fields.len() {
        lemma_val_wf(&fields[k].1);
        lemma_val_wf_fields(fields, k + 1);
    }
}

/// The codec law: a well-formed value's canonical text parses back to the
/// value itself.
pub proof fn lemma_write_parse_round_trip(d: JsonData)
    requires
        wf_data(d),
    ensures
        spec_json_parse(json_text(d)) == Some(d),
{
    let s = json_text(d);
    lemma_json_text_head(d);
    assert(s.subrange(0, s.len() as int) =~= s);
    lemma_parse_value_text(d, s, 0);
    assert(skip_ws(s, s.len() as int) == s.len());
}

/// The codec law at the value level: rendering any executable JSON value and
/// parsing the text back gives a value with the same view.
pub proof fn lemma_value_round_trip(v: &JsonVal)
    ensures
        spec_json_parse(json_text(v@)) == Some(v@),
{
    lemma_val_wf(v);
    lemma_write_parse_round_trip(v@);
}

} // verus!
