//! A JSON text parser for the value model.
//!
//! Providers hand tool-call arguments back as JSON text; `json_parse` turns
//! that text into a `JsonVal`. `parse_value` is the mathematical parser and
//! the executable functions return exactly what it says.

use vstd::prelude::*;
use crate::json::{JsonVal, JsonData, views_of, field_views_of};
use crate::text::is_digit;

verus! {

broadcast use vstd::seq::group_seq_axioms, vstd::std_specs::vec::group_vec_axioms;

/// The larger of two positions; the parser clamps with it so that progress is
/// plain from the definitions.
pub open spec fn pos_max(a: int, b: int) -> int {
    if a < b { b } else { a }
}

/// JSON whitespace.
pub open spec fn json_ws(c: char) -> bool {
    c == ' ' || c == '\t' || c == '\n' || c == '\r'
}

/// The first position at or after `i` that does not hold whitespace.
pub open spec fn skip_ws(s: Seq<char>, i: int) -> int
    decreases s.len() - i,
{
    if 0 <= i < s.len() && json_ws(s[i]) {
        skip_ws(s, i + 1)
    } else {
        i
    }
}

pub broadcast proof fn lemma_skip_ws_bounds(s: Seq<char>, i: int)
    requires
        0 <= i <= s.len(),
    ensures
        i <= #[trigger] skip_ws(s, i) <= s.len(),
    decreases s.len() - i,
{
    if i < s.len() && json_ws(s[i]) {
        lemma_skip_ws_bounds(s, i + 1);
    }
}

/// What an escape character after a backslash stands for.
pub open spec fn unescape(c: char) -> Option<char> {
    if c == '"' {
        Some('"')
    } else if c == '\\' {
        Some('\\')
    } else if c == 'n' {
        Some('\n')
    } else if c == 'r' {
        Some('\r')
    } else if c == 't' {
        Some('\t')
    } else {
        None
    }
}

/// Parse a string literal's characters from `i` up to its closing quote.
/// Returns the decoded characters and the position after the quote.
pub open spec fn parse_str_body(s: Seq<char>, i: int) -> Option<(Seq<char>, int)>
    decreases s.len() - i,
{
    if i < 0 || i >= s.len() {
        None
    } else if s[i] == '"' {
        Some((Seq::empty(), i + 1))
    } else if s[i] == '\\' {
        if i + 1 >= s.len() {
            None
        } else {
            match unescape(s[i + 1]) {
                None => None,
                Some(c) => match parse_str_body(s, i + 2) {
                    None => None,
                    Some((t, j)) => Some((seq![c] + t, j)),
                },
            }
        }
    } else {
        match parse_str_body(s, i + 1) {
            None => None,
            Some((t, j)) => Some((seq![s[i]] + t, j)),
        }
    }
}

pub broadcast proof fn lemma_parse_str_body_bounds(s: Seq<char>, i: int)
    requires
        0 <= i <= s.len(),
    ensures
        (#[trigger] parse_str_body(s, i)) matches Some((t, j)) ==> i < j <= s.len(),
    decreases s.len() - i,
{
    if i < s.len() {
        if s[i] == '\\' {
            if i + 2 <= s.len() {
                lemma_parse_str_body_bounds(s, i + 2);
            }
        } else if s[i] != '"' {
            lemma_parse_str_body_bounds(s, i + 1);
        }
    }
}

/// The numeric value of a digit character.
pub open spec fn digit_val(c: char) -> int {
    c as u32 - 48
}

/// Consume digits from `i`, extending `acc`; returns the value and end position.
pub open spec fn parse_digits(s: Seq<char>, i: int, acc: int) -> (int, int)
    decreases s.len() - i,
{
    if 0 <= i < s.len() && is_digit(s[i]) {
        parse_digits(s, i + 1, acc * 10 + digit_val(s[i]))
    } else {
        (acc, i)
    }
}

pub broadcast proof fn lemma_parse_digits_bounds(s: Seq<char>, i: int, acc: int)
    requires
        0 <= i <= s.len(),
        acc >= 0,
    ensures
        i <= (#[trigger] parse_digits(s, i, acc)).1 <= s.len(),
        parse_digits(s, i, acc).0 >= acc,
    decreases s.len() - i,
{
    if i < s.len() && is_digit(s[i]) {
        lemma_parse_digits_bounds(s, i + 1, acc * 10 + digit_val(s[i]));
    }
}

/// Parse an integer (optional minus sign, then digits) at `i`.
pub open spec fn parse_int_at(s: Seq<char>, i: int) -> Option<(JsonData, int)> {
    let neg = 0 <= i < s.len() && s[i] == '-';
    let j = if neg {
        i + 1
    } else {
        i
    };
    if 0 <= j < s.len() && is_digit(s[j]) {
        let (mag, k) = parse_digits(s, j, 0);
        let v = if neg {
            -mag
        } else {
            mag
        };
        if i64::MIN <= v <= i64::MAX {
            Some((JsonData::Int(v), k))
        } else {
            None
        }
    } else {
        None
    }
}

/// Parse one JSON value at `i`, after skipping whitespace.
pub open spec fn parse_value(s: Seq<char>, i0: int) -> Option<(JsonData, int)>
    decreases s.len() - i0, 2int,
{
    if i0 < 0 || i0 > s.len() {
        None
    } else {
        let i = pos_max(skip_ws(s, i0), i0);
        if i >= s.len() {
            None
        } else {
            let c = s[i];
            if c == 'n' {
                if i + 4 <= s.len() && s.subrange(i, i + 4) == seq!['n', 'u', 'l', 'l'] {
                    Some((JsonData::Null, i + 4))
                } else {
                    None
                }
            } else if c == 't' {
                if i + 4 <= s.len() && s.subrange(i, i + 4) == seq!['t', 'r', 'u', 'e'] {
                    Some((JsonData::Bool(true), i + 4))
                } else {
                    None
                }
            } else if c == 'f' {
                if i + 5 <= s.len() && s.subrange(i, i + 5) == seq!['f', 'a', 'l', 's', 'e'] {
                    Some((JsonData::Bool(false), i + 5))
                } else {
                    None
                }
            } else if c == '"' {
                match parse_str_body(s, i + 1) {
                    None => None,
                    Some((t, j)) => Some((JsonData::Str(t), j)),
                }
            } else if c == '-' || is_digit(c) {
                parse_int_at(s, i)
            } else if c == '[' {
                let j = skip_ws(s, i + 1);
                if j < s.len() && s[j] == ']' {
                    Some((JsonData::Arr(Seq::empty()), j + 1))
                } else {
                    match parse_elems(s, i + 1, Seq::empty()) {
                        None => None,
                        Some((elems, k)) => Some((JsonData::Arr(elems), k)),
                    }
                }
            } else if c == '{' {
                let j = skip_ws(s, i + 1);
                if j < s.len() && s[j] == '}' {
                    Some((JsonData::Obj(Seq::empty()), j + 1))
                } else {
                    match parse_fields(s, i + 1, Seq::empty()) {
                        None => None,
                        Some((fields, k)) => Some((JsonData::Obj(fields), k)),
                    }
                }
            } else {
                None
            }
        }
    }
}

/// Parse array elements from `i` up to the closing bracket.
pub open spec fn parse_elems(s: Seq<char>, i: int, acc: Seq<JsonData>) -> Option<
    (Seq<JsonData>, int),
>
    decreases s.len() - i, 3int,
{
    if i < 0 || i > s.len() {
        None
    } else {
        match parse_value(s, i) {
            None => None,
            Some((v, j0)) => {
                let j = if j0 <= i {
                    i + 1
                } else {
                    j0
                };
                if j > s.len() {
                    None
                } else {
                    let k = pos_max(skip_ws(s, j), j);
                    if k < s.len() && s[k] == ',' {
                        parse_elems(s, k + 1, acc.push(v))
                    } else if k < s.len() && s[k] == ']' {
                        Some((acc.push(v), k + 1))
                    } else {
                        None
                    }
                }
            }
        }
    }
}

/// Parse object fields from `i` up to the closing brace.
pub open spec fn parse_fields(s: Seq<char>, i: int, acc: Seq<(Seq<char>, JsonData)>) -> Option<
    (Seq<(Seq<char>, JsonData)>, int),
>
    decreases s.len() - i, 3int,
{
    if i < 0 || i > s.len() {
        None
    } else {
        let i1 = pos_max(skip_ws(s, i), i);
        if i1 >= s.len() || s[i1] != '"' {
            None
        } else {
            match parse_str_body(s, i1 + 1) {
                None => None,
                Some((key, j0)) => {
                    let j = if j0 <= i1 + 1 {
                        i1 + 2
                    } else {
                        j0
                    };
                    if j > s.len() {
                        None
                    } else {
                        let k = pos_max(skip_ws(s, j), j);
                        if k < s.len() && s[k] == ':' {
                            match parse_value(s, k + 1) {
                                None => None,
                                Some((v, m0)) => {
                                    let m = if m0 <= k + 1 {
                                        k + 2
                                    } else {
                                        m0
                                    };
                                    if m > s.len() {
                                        None
                                    } else {
                                        let p = pos_max(skip_ws(s, m), m);
                                        if p < s.len() && s[p] == ',' {
                                            parse_fields(s, p + 1, acc.push((key, v)))
                                        } else if p < s.len() && s[p] == '}' {
                                            Some((acc.push((key, v)), p + 1))
                                        } else {
                                            None
                                        }
                                    }
                                },
                            }
                        } else {
                            None
                        }
                    }
                }
            }
        }
    }
}

/// Parse a whole JSON document: one value, with only whitespace after it.
pub open spec fn spec_json_parse(s: Seq<char>) -> Option<JsonData> {
    match parse_value(s, 0) {
        None => None,
        Some((v, j)) => if 0 <= j <= s.len() && skip_ws(s, j) == s.len() {
            Some(v)
        } else {
            None
        },
    }
}

fn skip_ws_exec(s: &Vec<char>, i: usize) -> (r: usize)
    requires
        i <= s@.len(),
    ensures
        r == skip_ws(s@, i as int),
        i <= r <= s@.len(),
{
    let n = s.len();
    let mut j: usize = i;
    while j < n && (s[j] == ' ' || s[j] == '\t' || s[j] == '\n' || s[j] == '\r')
        invariant
            i <= j <= n,
            n == s@.len(),
            skip_ws(s@, i as int) == skip_ws(s@, j as int),
        decreases n - j,
    {
        j = j + 1;
    }
    j
}

/// Prefix the content of a string-body parse with already-read characters.
pub open spec fn prepend_opt(pre: Seq<char>, o: Option<(Seq<char>, int)>) -> Option<
    (Seq<char>, int),
> {
    match o {
        None => None,
        Some((t, j)) => Some((pre + t, j)),
    }
}

fn parse_str_body_exec(s: &Vec<char>, i0: usize) -> (r: Option<(Vec<char>, usize)>)
    requires
        i0 <= s@.len(),
    ensures
        match r {
            Some((t, j)) => parse_str_body(s@, i0 as int) == Some((t@, j as int)) && i0 < j
                <= s@.len(),
            None => parse_str_body(s@, i0 as int) is None,
        },
{
    proof {
        lemma_parse_str_body_bounds(s@, i0 as int);
    }
    let n = s.len();
    let mut acc: Vec<char> = Vec::new();
    let mut i: usize = i0;
    proof {
        assert(acc@ + Seq::<char>::empty() =~= acc@);
    }
    while i < n
        invariant
            i0 <= i <= n,
            n == s@.len(),
            parse_str_body(s@, i0 as int) == prepend_opt(acc@, parse_str_body(s@, i as int)),
        decreases n - i,
    {
        let c = s[i];
        if c == '"' {
            proof {
                assert(acc@ + Seq::<char>::empty() =~= acc@);
                lemma_parse_str_body_bounds(s@, i0 as int);
            }
            return Some((acc, i + 1));
        } else if c == '\\' {
            if i + 1 >= n {
                return None;
            }
            let e = s[i + 1];
            let dec: char = if e == '"' {
                '"'
            } else if e == '\\' {
                '\\'
            } else if e == 'n' {
                '\n'
            } else if e == 'r' {
                '\r'
            } else if e == 't' {
                '\t'
            } else {
                return None;
            };
            proof {
                assert(unescape(s@[i + 1]) == Some(dec));
                assert forall|t: Seq<char>, j: int|
                    parse_str_body(s@, i + 2) == Some((t, j)) implies acc@ + (seq![dec] + t)
                    =~= acc@.push(dec) + t by {}
            }
            acc.push(dec);
            i = i + 2;
        } else {
            proof {
                assert forall|t: Seq<char>, j: int|
                    parse_str_body(s@, i + 1) == Some((t, j)) implies acc@ + (seq![s@[i as int]]
                    + t) =~= acc@.push(s@[i as int]) + t by {}
            }
            acc.push(c);
            i = i + 1;
        }
    }
    None
}

fn parse_digits_exec(s: &Vec<char>, i: usize) -> (r: (Option<u64>, usize))
    requires
        i <= s@.len(),
    ensures
        ({
            let (mv, k) = parse_digits(s@, i as int, 0);
            r.1 == k && (match r.0 {
                Some(u) => mv == u as int,
                None => mv > u64::MAX,
            })
        }),
{
    let n = s.len();
    let mut j: usize = i;
    let mut val: u64 = 0;
    let mut over: bool = false;
    let ghost mut acc_g: int = 0int;
    while j < n && '0' <= s[j] && s[j] <= '9'
        invariant
            i <= j <= n,
            n == s@.len(),
            parse_digits(s@, i as int, 0) == parse_digits(s@, j as int, acc_g),
            over ==> acc_g > u64::MAX,
            !over ==> acc_g == val as int,
            acc_g >= 0,
        decreases n - j,
    {
        let c = s[j];
        let d: u64 = (c as u8 - 48) as u64;
        proof {
            assert(is_digit(s@[j as int]));
            assert(digit_val(s@[j as int]) == d as int);
        }
        let ghost acc_next: int = acc_g * 10 + d;
        if over {
            proof {
                assert(acc_next > u64::MAX);
            }
        } else if val > 1844674407370955161u64 || (val == 1844674407370955161u64 && d > 5) {
            over = true;
            proof {
                assert(acc_next > u64::MAX);
            }
        } else {
            val = val * 10 + d;
        }
        proof {
            acc_g = acc_next;
        }
        j = j + 1;
    }
    proof {
        assert(parse_digits(s@, j as int, acc_g) == (acc_g, j as int));
    }
    if over {
        (None, j)
    } else {
        (Some(val), j)
    }
}

fn parse_int_exec(s: &Vec<char>, i: usize) -> (r: Option<(i64, usize)>)
    requires
        i <= s@.len(),
    ensures
        match r {
            Some((v, k)) => parse_int_at(s@, i as int) == Some((JsonData::Int(v as int), k as int))
                && i < k <= s@.len(),
            None => parse_int_at(s@, i as int) is None,
        },
{
    let n = s.len();
    let neg = i < n && s[i] == '-';
    let j: usize = if neg {
        i + 1
    } else {
        i
    };
    if !(j < n && '0' <= s[j] && s[j] <= '9') {
        return None;
    }
    proof {
        assert(is_digit(s@[j as int]));
        assert(digit_val(s@[j as int]) >= 0);
        lemma_parse_digits_bounds(s@, j as int + 1, 0 * 10 + digit_val(s@[j as int]));
        assert(parse_digits(s@, j as int, 0) == parse_digits(
            s@,
            j as int + 1,
            0 * 10 + digit_val(s@[j as int]),
        ));
    }
    let (mv, k) = parse_digits_exec(s, j);
    match mv {
        None => {
            proof {
                assert(parse_digits(s@, j as int, 0).0 > u64::MAX);
            }
            None
        }
        Some(u) => {
            if neg {
                if u > 9223372036854775808u64 {
                    None
                } else if u == 9223372036854775808u64 {
                    Some((i64::MIN, k))
                } else {
                    Some((-(u as i64), k))
                }
            } else {
                if u > 9223372036854775807u64 {
                    None
                } else {
                    Some((u as i64, k))
                }
            }
        }
    }
}

/// Parse one JSON value starting at `i0`.
pub fn parse_value_exec(s: &Vec<char>, i0: usize) -> (r: Option<(JsonVal, usize)>)
    requires
        i0 <= s@.len(),
    ensures
        match r {
            Some((v, j)) => parse_value(s@, i0 as int) == Some((v@, j as int)) && i0 < j
                <= s@.len(),
            None => parse_value(s@, i0 as int) is None,
        },
    decreases s@.len() - i0, 2int,
{
    let n = s.len();
    let i = skip_ws_exec(s, i0);
    proof {
        assert(pos_max(skip_ws(s@, i0 as int), i0 as int) == i as int);
    }
    if i >= n {
        return None;
    }
    let c = s[i];
    if c == 'n' {
        if n - i >= 4 && s[i + 1] == 'u' && s[i + 2] == 'l' && s[i + 3] == 'l' {
            proof {
                assert(s@.subrange(i as int, i + 4) =~= seq!['n', 'u', 'l', 'l']);
            }
            Some((JsonVal::Null, i + 4))
        } else {
            proof {
                if n - i >= 4 {
                    assert(s@.subrange(i as int, i + 4)[1] == s@[i + 1]);
                    assert(s@.subrange(i as int, i + 4)[2] == s@[i + 2]);
                    assert(s@.subrange(i as int, i + 4)[3] == s@[i + 3]);
                }
            }
            None
        }
    } else if c == 't' {
        if n - i >= 4 && s[i + 1] == 'r' && s[i + 2] == 'u' && s[i + 3] == 'e' {
            proof {
                assert(s@.subrange(i as int, i + 4) =~= seq!['t', 'r', 'u', 'e']);
            }
            Some((JsonVal::Bool(true), i + 4))
        } else {
            proof {
                if n - i >= 4 {
                    assert(s@.subrange(i as int, i + 4)[1] == s@[i + 1]);
                    assert(s@.subrange(i as int, i + 4)[2] == s@[i + 2]);
                    assert(s@.subrange(i as int, i + 4)[3] == s@[i + 3]);
                }
            }
            None
        }
    } else if c == 'f' {
        if n - i >= 5 && s[i + 1] == 'a' && s[i + 2] == 'l' && s[i + 3] == 's' && s[i + 4] == 'e' {
            proof {
                assert(s@.subrange(i as int, i + 5) =~= seq!['f', 'a', 'l', 's', 'e']);
            }
            Some((JsonVal::Bool(false), i + 5))
        } else {
            proof {
                if n - i >= 5 {
                    assert(s@.subrange(i as int, i + 5)[1] == s@[i + 1]);
                    assert(s@.subrange(i as int, i + 5)[2] == s@[i + 2]);
                    assert(s@.subrange(i as int, i + 5)[3] == s@[i + 3]);
                    assert(s@.subrange(i as int, i + 5)[4] == s@[i + 4]);
                }
            }
            None
        }
    } else if c == '"' {
        match parse_str_body_exec(s, i + 1) {
            None => None,
            Some((t, j)) => {
                let text = crate::text::string_from_chars(&t);
                Some((JsonVal::Str(text), j))
            }
        }
    } else if c == '-' || ('0' <= c && c <= '9') {
        match parse_int_exec(s, i) {
            None => None,
            Some((v, k)) => Some((JsonVal::Int(v), k)),
        }
    } else if c == '[' {
        let j = skip_ws_exec(s, i + 1);
        if j < n && s[j] == ']' {
            let empty_elems: Vec<JsonVal> = Vec::new();
            proof {
                assert(views_of(empty_elems@) =~= Seq::<JsonData>::empty());
            }
            Some((JsonVal::Arr(empty_elems), j + 1))
        } else {
            let mut acc: Vec<JsonVal> = Vec::new();
            let mut pos: usize = i + 1;
            proof {
                assert(views_of(acc@) =~= Seq::<JsonData>::empty());
            }
            loop
                invariant
                    i0 < pos <= s@.len(),
                    n == s@.len(),
                    i0 <= s@.len(),
                    parse_value(s@, i0 as int) == (match parse_elems(s@, pos as int, views_of(acc@)) {
                        None => None::<(JsonData, int)>,
                        Some((elems, k)) => Some((JsonData::Arr(elems), k)),
                    }),
                decreases s@.len() - pos,
            {
                match parse_value_exec(s, pos) {
                    None => {
                        return None;
                    }
                    Some((v, j2)) => {
                        let k = skip_ws_exec(s, j2);
                        proof {
                            assert(pos_max(skip_ws(s@, j2 as int), j2 as int) == k as int);
                        }
                        if k < n && s[k] == ',' {
                            proof {
                                crate::json::lemma_views_snoc(acc@, v);
                            }
                            acc.push(v);
                            pos = k + 1;
                        } else if k < n && s[k] == ']' {
                            proof {
                                crate::json::lemma_views_snoc(acc@, v);
                            }
                            acc.push(v);
                            return Some((JsonVal::Arr(acc), k + 1));
                        } else {
                            return None;
                        }
                    }
                }
            }
        }
    } else if c == '{' {
        let j = skip_ws_exec(s, i + 1);
        if j < n && s[j] == '}' {
            let empty_fields: Vec<(String, JsonVal)> = Vec::new();
            proof {
                assert(field_views_of(empty_fields@) =~= Seq::<(Seq<char>, JsonData)>::empty());
            }
            Some((JsonVal::Obj(empty_fields), j + 1))
        } else {
            let mut acc: Vec<(String, JsonVal)> = Vec::new();
            let mut pos: usize = i + 1;
            proof {
                assert(field_views_of(acc@) =~= Seq::<(Seq<char>, JsonData)>::empty());
            }
            loop
                invariant
                    i0 < pos <= s@.len(),
                    n == s@.len(),
                    i0 <= s@.len(),
                    parse_value(s@, i0 as int) == (match parse_fields(
                        s@,
                        pos as int,
                        field_views_of(acc@),
                    ) {
                        None => None::<(JsonData, int)>,
                        Some((fields, k)) => Some((JsonData::Obj(fields), k)),
                    }),
                decreases s@.len() - pos,
            {
                let i1 = skip_ws_exec(s, pos);
                proof {
                    assert(pos_max(skip_ws(s@, pos as int), pos as int) == i1 as int);
                }
                if !(i1 < n && s[i1] == '"') {
                    return None;
                }
                match parse_str_body_exec(s, i1 + 1) {
                    None => {
                        return None;
                    }
                    Some((key_chars, j2)) => {
                        let k = skip_ws_exec(s, j2);
                        proof {
                            assert(pos_max(skip_ws(s@, j2 as int), j2 as int) == k as int);
                        }
                        if !(k < n && s[k] == ':') {
                            return None;
                        }
                        match parse_value_exec(s, k + 1) {
                            None => {
                                return None;
                            }
                            Some((v, m)) => {
                                let p = skip_ws_exec(s, m);
                                proof {
                                    assert(pos_max(skip_ws(s@, m as int), m as int) == p as int);
                                }
                                let key = crate::text::string_from_chars(&key_chars);
                                if p < n && s[p] == ',' {
                                    proof {
                                        crate::json::lemma_field_views_snoc(acc@, key, v);
                                    }
                                    acc.push((key, v));
                                    pos = p + 1;
                                } else if p < n && s[p] == '}' {
                                    proof {
                                        crate::json::lemma_field_views_snoc(acc@, key, v);
                                    }
                                    acc.push((key, v));
                                    return Some((JsonVal::Obj(acc), p + 1));
                                } else {
                                    return None;
                                }
                            }
                        }
                    }
                }
            }
        }
    } else {
        None
    }
}

/// Parse a whole JSON document into a value.
pub fn json_parse(s: &str) -> (r: Option<JsonVal>)
    ensures
        match r {
            Some(v) => spec_json_parse(s@) == Some(v@),
            None => spec_json_parse(s@) is None,
        },
{
    let cs = crate::text::chars_vec(s);
    match parse_value_exec(&cs, 0) {
        None => None,
        Some((v, j)) => {
            let k = skip_ws_exec(&cs, j);
            if k == cs.len() {
                Some(v)
            } else {
                None
            }
        }
    }
}

} // verus!
