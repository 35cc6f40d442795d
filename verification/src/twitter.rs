//! The tweet-posting tool: percent-encoding for request signing, the tool's
//! definition, tweet validation, and the shaping of request bodies and
//! replies. The HTTP call itself happens outside.

use vstd::prelude::*;
use crate::json::{JsonVal, JsonData, obj_get, json_write, field_views_of,
    lemma_field_views_elts};
use crate::tool_types::{ToolDefinition, ToolInputSchema, PropertySchema, ToolGroup, ToolResult,
    clone_definition};
use crate::text::{chars_vec, string_from_chars, append_str, append_chars};

verus! {

broadcast use vstd::seq::group_seq_axioms, vstd::std_specs::vec::group_vec_axioms;

/// A character that percent-encoding passes through unchanged.
pub open spec fn is_unreserved(c: char) -> bool {
    ('A' <= c && c <= 'Z') || ('a' <= c && c <= 'z') || ('0' <= c && c <= '9') || c == '-' || c
        == '.' || c == '_' || c == '~'
}

/// An upper-case hexadecimal digit.
pub open spec fn hex_digit(d: int) -> char {
    if d == 0 { '0' }
    else if d == 1 { '1' }
    else if d == 2 { '2' }
    else if d == 3 { '3' }
    else if d == 4 { '4' }
    else if d == 5 { '5' }
    else if d == 6 { '6' }
    else if d == 7 { '7' }
    else if d == 8 { '8' }
    else if d == 9 { '9' }
    else if d == 10 { 'A' }
    else if d == 11 { 'B' }
    else if d == 12 { 'C' }
    else if d == 13 { 'D' }
    else if d == 14 { 'E' }
    else { 'F' }
}

/// The UTF-8 bytes of one character.
pub open spec fn utf8_bytes_of(c: char) -> Seq<int> {
    let v = c as u32 as int;
    if v < 0x80 {
        seq![v]
    } else if v < 0x800 {
        seq![192 + v / 64, 128 + v % 64]
    } else if v < 0x10000 {
        seq![224 + v / 4096, 128 + (v / 64) % 64, 128 + v % 64]
    } else {
        seq![240 + v / 262144, 128 + (v / 4096) % 64, 128 + (v / 64) % 64, 128 + v % 64]
    }
}

/// One byte, percent-encoded.
pub open spec fn pct_of_byte(b: int) -> Seq<char> {
    seq!['%', hex_digit(b / 16), hex_digit(b % 16)]
}

/// The percent-encoded bytes of one character.
pub open spec fn pct_of_bytes(bs: Seq<int>) -> Seq<char>
    decreases bs.len(),
{
    if bs.len() == 0 {
        Seq::empty()
    } else {
        pct_of_byte(bs[0]) + pct_of_bytes(bs.drop_first())
    }
}

/// One character under percent-encoding.
pub open spec fn pct_of_char(c: char) -> Seq<char> {
    if is_unreserved(c) {
        seq![c]
    } else {
        pct_of_bytes(utf8_bytes_of(c))
    }
}

/// A whole string under percent-encoding.
pub open spec fn pct_encode_spec(s: Seq<char>) -> Seq<char>
    decreases s.len(),
{
    if s.len() == 0 {
        Seq::empty()
    } else {
        pct_of_char(s[0]) + pct_encode_spec(s.drop_first())
    }
}

proof fn lemma_pct_snoc(s: Seq<char>, c: char)
    ensures
        pct_encode_spec(s.push(c)) == pct_encode_spec(s) + pct_of_char(c),
    decreases s.len(),
{
    if s.len() == 0 {
        let p = s.push(c);
        assert(p[0] == c);
        assert(p.drop_first() =~= Seq::<char>::empty());
        assert(pct_encode_spec(p.drop_first()) =~= Seq::<char>::empty());
        assert(pct_encode_spec(p) =~= pct_of_char(c));
        assert(pct_encode_spec(s) + pct_of_char(c) =~= pct_of_char(c));
    } else {
        assert(s.push(c).drop_first() =~= s.drop_first().push(c));
        lemma_pct_snoc(s.drop_first(), c);
        assert(pct_encode_spec(s.push(c)) =~= pct_encode_spec(s) + pct_of_char(c));
    }
}

fn hex_digit_exec(d: u32) -> (r: char)
    requires
        d < 16,
    ensures
        r == hex_digit(d as int),
{
    match d {
        0 => '0',
        1 => '1',
        2 => '2',
        3 => '3',
        4 => '4',
        5 => '5',
        6 => '6',
        7 => '7',
        8 => '8',
        9 => '9',
        10 => 'A',
        11 => 'B',
        12 => 'C',
        13 => 'D',
        14 => 'E',
        _ => 'F',
    }
}

fn push_pct_byte(out: &mut Vec<char>, b: u32)
    requires
        b < 256,
    ensures
        final(out)@ == old(out)@ + pct_of_byte(b as int),
{
    out.push('%');
    out.push(hex_digit_exec(b / 16));
    out.push(hex_digit_exec(b % 16));
    proof {
        assert(out@ =~= old(out)@ + pct_of_byte(b as int));
    }
}

/// Percent-encode for request signing: unreserved characters pass, everything
/// else becomes `%XX` for each of its UTF-8 bytes, upper-case hex.
pub fn percent_encode(input: &str) -> (r: String)
    ensures
        r@ == pct_encode_spec(input@),
{
    let cs = chars_vec(input);
    let mut out: Vec<char> = Vec::new();
    let mut i: usize = 0;
    proof {
        assert(pct_encode_spec(cs@.subrange(0, 0)) =~= Seq::<char>::empty());
    }
    while i < cs.len()
        invariant
            i <= cs@.len(),
            cs@ == input@,
            out@ == pct_encode_spec(cs@.subrange(0, i as int)),
        decreases cs@.len() - i,
    {
        let c = cs[i];
        if ('A' <= c && c <= 'Z') || ('a' <= c && c <= 'z') || ('0' <= c && c <= '9') || c == '-'
            || c == '.' || c == '_' || c == '~' {
            out.push(c);
        } else {
            let v = c as u32;
            let ghost bs = utf8_bytes_of(cs@[i as int]);
            if v < 0x80 {
                push_pct_byte(&mut out, v);
                proof {
                    assert(bs.len() == 1);
                    assert(bs[0] == v as int);
                    assert(bs.drop_first() =~= Seq::<int>::empty());
                    assert(pct_of_bytes(bs.drop_first()) =~= Seq::<char>::empty());
                    assert(pct_of_bytes(bs) =~= pct_of_byte(v as int));
                }
            } else if v < 0x800 {
                push_pct_byte(&mut out, 192 + v / 64);
                push_pct_byte(&mut out, 128 + v % 64);
                proof {
                    assert(bs.len() == 2);
                    assert(bs[0] == 192 + v as int / 64);
                    assert(bs.drop_first() =~= seq![128 + v as int % 64]);
                    assert(bs.drop_first().drop_first() =~= Seq::<int>::empty());
                    assert(pct_of_bytes(bs.drop_first().drop_first()) =~= Seq::<char>::empty());
                    assert(pct_of_bytes(bs.drop_first()) =~= pct_of_byte(128 + v as int % 64));
                    assert(pct_of_bytes(bs) =~= pct_of_byte(192 + v as int / 64) + pct_of_byte(
                        128 + v as int % 64,
                    ));
                }
            } else if v < 0x10000 {
                push_pct_byte(&mut out, 224 + v / 4096);
                push_pct_byte(&mut out, 128 + (v / 64) % 64);
                push_pct_byte(&mut out, 128 + v % 64);
                proof {
                    assert(bs.len() == 3);
                    assert(bs[0] == 224 + v as int / 4096);
                    assert(bs.drop_first() =~= seq![
                        128 + (v as int / 64) % 64,
                        128 + v as int % 64,
                    ]);
                    assert(bs.drop_first().drop_first() =~= seq![128 + v as int % 64]);
                    assert(bs.drop_first().drop_first().drop_first() =~= Seq::<int>::empty());
                    assert(pct_of_bytes(bs.drop_first().drop_first().drop_first()) =~= Seq::<
                        char,
                    >::empty());
                    assert(pct_of_bytes(bs.drop_first().drop_first()) =~= pct_of_byte(
                        128 + v as int % 64,
                    ));
                    assert(pct_of_bytes(bs.drop_first()) =~= pct_of_byte(128 + (v as int / 64) % 64)
                        + pct_of_byte(128 + v as int % 64));
                    assert(pct_of_bytes(bs) =~= pct_of_byte(224 + v as int / 4096) + pct_of_byte(
                        128 + (v as int / 64) % 64,
                    ) + pct_of_byte(128 + v as int % 64));
                }
            } else {
                proof {
                    vstd::utf8::char_is_scalar(cs@[i as int]);
                }
                push_pct_byte(&mut out, 240 + v / 262144);
                push_pct_byte(&mut out, 128 + (v / 4096) % 64);
                push_pct_byte(&mut out, 128 + (v / 64) % 64);
                push_pct_byte(&mut out, 128 + v % 64);
                proof {
                    assert(bs.len() == 4);
                    assert(bs[0] == 240 + v as int / 262144);
                    assert(bs.drop_first() =~= seq![
                        128 + (v as int / 4096) % 64,
                        128 + (v as int / 64) % 64,
                        128 + v as int % 64,
                    ]);
                    assert(bs.drop_first().drop_first() =~= seq![
                        128 + (v as int / 64) % 64,
                        128 + v as int % 64,
                    ]);
                    assert(bs.drop_first().drop_first().drop_first() =~= seq![128 + v as int % 64]);
                    assert(bs.drop_first().drop_first().drop_first().drop_first() =~= Seq::<
                        int,
                    >::empty());
                    assert(pct_of_bytes(bs.drop_first().drop_first().drop_first().drop_first())
                        =~= Seq::<char>::empty());
                    assert(pct_of_bytes(bs.drop_first().drop_first().drop_first()) =~= pct_of_byte(
                        128 + v as int % 64,
                    ));
                    assert(pct_of_bytes(bs.drop_first().drop_first()) =~= pct_of_byte(
                        128 + (v as int / 64) % 64,
                    ) + pct_of_byte(128 + v as int % 64));
                    assert(pct_of_bytes(bs.drop_first()) =~= pct_of_byte(
                        128 + (v as int / 4096) % 64,
                    ) + pct_of_byte(128 + (v as int / 64) % 64) + pct_of_byte(128 + v as int % 64));
                    assert(pct_of_bytes(bs) =~= pct_of_byte(240 + v as int / 262144) + pct_of_byte(
                        128 + (v as int / 4096) % 64,
                    ) + pct_of_byte(128 + (v as int / 64) % 64) + pct_of_byte(128 + v as int % 64));
                }
            }
        }
        proof {
            lemma_pct_snoc(cs@.subrange(0, i as int), cs@[i as int]);
            assert(cs@.subrange(0, i as int).push(cs@[i as int]) =~= cs@.subrange(0, i + 1));
            assert(out@ =~= pct_encode_spec(cs@.subrange(0, i + 1)));
        }
        i = i + 1;
    }
    proof {
        assert(cs@.subrange(0, cs@.len() as int) =~= cs@);
    }
    string_from_chars(&out)
}

/// Tool for posting via the tweet API.
#[derive(Debug)]
pub struct TwitterPostTool {
    pub definition: ToolDefinition,
}

impl TwitterPostTool {
    /// The tool's input contract: `text` (required), `reply_to`, and
    /// `quote_tweet_id`.
    pub fn new() -> (r: TwitterPostTool)
        ensures
            r.definition@.name == "twitter_post"@,
            r.definition@.group == ToolGroup::Messaging,
            r.definition@.input_schema.schema_type == "object"@,
            r.definition@.input_schema.required == seq!["text"@],
            r.definition@.input_schema.properties.len() == 3,
            r.definition@.input_schema.properties[0].0 == "text"@,
            r.definition@.input_schema.properties[0].1.schema_type == "string"@,
            r.definition@.input_schema.properties[1].0 == "reply_to"@,
            r.definition@.input_schema.properties[2].0 == "quote_tweet_id"@,
    {
        let mut properties: Vec<(String, PropertySchema)> = Vec::new();
        properties.push(
            (
                "text".to_owned(),
                PropertySchema {
                    schema_type: "string".to_owned(),
                    description: "The text content of the tweet".to_owned(),
                    default: None,
                    items: None,
                    enum_values: None,
                },
            ),
        );
        properties.push(
            (
                "reply_to".to_owned(),
                PropertySchema {
                    schema_type: "string".to_owned(),
                    description: "Optional: Tweet ID to reply to".to_owned(),
                    default: None,
                    items: None,
                    enum_values: None,
                },
            ),
        );
        properties.push(
            (
                "quote_tweet_id".to_owned(),
                PropertySchema {
                    schema_type: "string".to_owned(),
                    description: "Optional: Tweet ID to quote".to_owned(),
                    default: None,
                    items: None,
                    enum_values: None,
                },
            ),
        );
        let mut required: Vec<String> = Vec::new();
        required.push("text".to_owned());
        proof {
            assert(Seq::new(required@.len(), |i: int| required@[i]@) =~= seq!["text"@]);
        }
        TwitterPostTool {
            definition: ToolDefinition {
                name: "twitter_post".to_owned(),
                description:
                    "Post a tweet to Twitter/X. Requires Twitter OAuth credentials to be configured in Settings > API Keys.".to_owned(),
                input_schema: ToolInputSchema {
                    schema_type: "object".to_owned(),
                    properties,
                    required,
                },
                group: ToolGroup::Messaging,
            },
        }
    }

    /// The tool's definition, as registered.
    pub fn definition(&self) -> (r: ToolDefinition)
        ensures
            r@ == self.definition@,
    {
        clone_definition(&self.definition)
    }
}

impl Default for TwitterPostTool {
    fn default() -> (r: TwitterPostTool)
        ensures
            r.definition@.name == "twitter_post"@,
    {
        TwitterPostTool::new()
    }
}

/// The length cap on a tweet, in characters.
pub open spec fn spec_tweet_cap() -> int {
    25000
}

/// Read and check the tweet parameters: `text` must be present, non-empty,
/// and within the length cap; `reply_to` and `quote_tweet_id` ride along when
/// they are strings.
pub fn tweet_request(args: &JsonVal) -> (r: Result<(String, Option<String>, Option<String>), ToolResult>)
    ensures
        match r {
            Ok((text, _, _)) => obj_get(args@, "text"@) == Some(JsonData::Str(text@)) && 0
                < text@.len() <= spec_tweet_cap(),
            Err(e) => {
                &&& e@.success == false
                &&& !(obj_get(args@, "text"@) matches Some(JsonData::Str(_))) ==> e@.content
                    == "Invalid parameters: text must be a string"@
                &&& (obj_get(args@, "text"@) matches Some(JsonData::Str(t)) && t.len() == 0)
                    ==> e@.content == "Tweet text cannot be empty"@
                &&& (obj_get(args@, "text"@) matches Some(JsonData::Str(t)) && t.len()
                    > spec_tweet_cap()) ==> e@.content == "Tweet exceeds maximum character limit (got "@
                    + crate::text::dec_rep((obj_get(args@, "text"@)->Some_0->Str_0).len())
                    + ")"@
            },
        },
{
    let text: String = match crate::json::json_get(args, "text") {
        Some(v) => match v {
            JsonVal::Str(s) => s.clone(),
            _ => {
                return Err(ToolResult::error("Invalid parameters: text must be a string".to_owned()));
            }
        },
        None => {
            return Err(ToolResult::error("Invalid parameters: text must be a string".to_owned()));
        }
    };
    let text_chars = chars_vec(text.as_str());
    if text_chars.len() == 0 {
        return Err(ToolResult::error("Tweet text cannot be empty".to_owned()));
    }
    if text_chars.len() > 25000 {
        let mut msg = chars_vec("Tweet exceeds maximum character limit (got ");
        let n = crate::text::u64_to_chars(text_chars.len() as u64);
        append_chars(&mut msg, &n);
        msg.push(')');
        proof {
            reveal_strlit(")");
            assert(")"@ =~= seq![')']);
            assert(msg@ =~= "Tweet exceeds maximum character limit (got "@ + crate::text::dec_rep(
                text@.len(),
            ) + ")"@);
        }
        return Err(ToolResult::error(string_from_chars(&msg)));
    }
    let reply_to: Option<String> = match crate::json::json_get(args, "reply_to") {
        Some(v) => match v {
            JsonVal::Str(s) => Some(s.clone()),
            _ => None,
        },
        None => None,
    };
    let quote: Option<String> = match crate::json::json_get(args, "quote_tweet_id") {
        Some(v) => match v {
            JsonVal::Str(s) => Some(s.clone()),
            _ => None,
        },
        None => None,
    };
    Ok((text, reply_to, quote))
}

/// The request body for one tweet: the text, a reply marker when answering,
/// and a quoted tweet when quoting.
pub fn tweet_body(text: &String, reply_to: &Option<String>, quote: &Option<String>) -> (r: JsonVal)
    ensures
        obj_get(r@, "text"@) == Some(JsonData::Str(text@)),
        match reply_to {
            Some(id) => obj_get(r@, "reply"@) matches Some(rv) && obj_get(rv, "in_reply_to_tweet_id"@)
                == Some(JsonData::Str(id@)),
            None => obj_get(r@, "reply"@) is None,
        },
        match quote {
            Some(id) => obj_get(r@, "quote_tweet_id"@) == Some(JsonData::Str(id@)),
            None => obj_get(r@, "quote_tweet_id"@) is None,
        },
{
    let mut fields: Vec<(String, JsonVal)> = Vec::new();
    fields.push(("text".to_owned(), JsonVal::Str(text.clone())));
    match reply_to {
        Some(id) => {
            let mut inner: Vec<(String, JsonVal)> = Vec::new();
            inner.push(("in_reply_to_tweet_id".to_owned(), JsonVal::Str(id.clone())));
            proof {
                lemma_field_views_elts(inner@);
                crate::json::lemma_lookup_at(field_views_of(inner@), "in_reply_to_tweet_id"@, 0);
            }
            fields.push(("reply".to_owned(), JsonVal::Obj(inner)));
        }
        None => {}
    }
    match quote {
        Some(id) => {
            fields.push(("quote_tweet_id".to_owned(), JsonVal::Str(id.clone())));
        }
        None => {}
    }
    proof {
        lemma_field_views_elts(fields@);
        reveal_strlit("text");
        reveal_strlit("reply");
        reveal_strlit("quote_tweet_id");
        assert("text"@.len() == 4);
        assert("reply"@.len() == 5);
        assert("quote_tweet_id"@.len() == 14);
        let fv = field_views_of(fields@);
        crate::json::lemma_lookup_at(fv, "text"@, 0);
        if reply_to is Some {
            crate::json::lemma_lookup_at(fv, "reply"@, 1);
        } else {
            crate::json::lemma_lookup_absent(fv, "reply"@);
        }
        if quote is Some {
            crate::json::lemma_lookup_at(fv, "quote_tweet_id"@, fv.len() - 1);
        } else {
            crate::json::lemma_lookup_absent(fv, "quote_tweet_id"@);
        }
    }
    JsonVal::Obj(fields)
}

/// The JSON reply for a successful post.
pub open spec fn tweet_success_data(tweet_id: Seq<char>, text: Seq<char>) -> JsonData {
    JsonData::Obj(
        seq![
            ("success"@, JsonData::Bool(true)),
            ("tweet_id"@, JsonData::Str(tweet_id)),
            ("text"@, JsonData::Str(text)),
            ("url"@, JsonData::Str("https://twitter.com/i/web/status/"@ + tweet_id)),
        ],
    )
}

/// The reply handed back after a successful post: the tweet's id, text, and
/// address.
pub fn tweet_success_result(tweet_id: &String, text: &String) -> (r: ToolResult)
    ensures
        r@.success == true,
        r@.content == crate::json::json_text(tweet_success_data(tweet_id@, text@)),
{
    let mut url = chars_vec("https://twitter.com/i/web/status/");
    append_str(&mut url, tweet_id.as_str());
    let mut fields: Vec<(String, JsonVal)> = Vec::new();
    fields.push(("success".to_owned(), JsonVal::Bool(true)));
    fields.push(("tweet_id".to_owned(), JsonVal::Str(tweet_id.clone())));
    fields.push(("text".to_owned(), JsonVal::Str(text.clone())));
    fields.push(("url".to_owned(), JsonVal::Str(string_from_chars(&url))));
    proof {
        lemma_field_views_elts(fields@);
        assert(field_views_of(fields@) =~= (match tweet_success_data(tweet_id@, text@) {
            JsonData::Obj(fs) => fs,
            _ => Seq::empty(),
        }));
    }
    let body = JsonVal::Obj(fields);
    ToolResult::success(json_write(&body))
}

/// Join error messages from the post API with `; `, as the diagnostic shows
/// them.
pub open spec fn joined_messages(msgs: Seq<Seq<char>>) -> Seq<char>
    decreases msgs.len(),
{
    if msgs.len() == 0 {
        Seq::empty()
    } else if msgs.len() == 1 {
        msgs[0]
    } else {
        msgs[0] + "; "@ + joined_messages(msgs.drop_first())
    }
}

/// Join the API's error messages into one diagnostic.
pub fn join_error_messages(msgs: &Vec<String>) -> (r: String)
    ensures
        r@ == joined_messages(Seq::new(msgs@.len(), |i: int| msgs@[i]@)),
{
    let ghost mv = Seq::new(msgs@.len(), |k: int| msgs@[k]@);
    let mut out: Vec<char> = Vec::new();
    let mut i: usize = 0;
    while i < msgs.len()
        invariant
            i <= msgs@.len(),
            mv == Seq::new(msgs@.len(), |k: int| msgs@[k]@),
            i == 0 ==> out@ == Seq::<char>::empty(),
            0 < i < mv.len() ==> joined_messages(mv) == out@ + "; "@ + joined_messages(
                mv.skip(i as int),
            ),
            i == mv.len() ==> joined_messages(mv) == out@,
        decreases msgs@.len() - i,
    {
        proof {
            lemma_joined_step(mv, i as int);
            if i == 0 {
                assert(mv.skip(0) =~= mv);
            }
        }
        if i > 0 {
            append_str(&mut out, "; ");
        }
        append_str(&mut out, msgs[i].as_str());
        i = i + 1;
        proof {
            if i < mv.len() {
                assert(joined_messages(mv) =~= out@ + "; "@ + joined_messages(mv.skip(i as int)));
            } else {
                assert(joined_messages(mv) =~= out@);
            }
        }
    }
    string_from_chars(&out)
}

proof fn lemma_joined_step(msgs: Seq<Seq<char>>, i: int)
    requires
        0 <= i <= msgs.len(),
    ensures
        i + 1 < msgs.len() ==> joined_messages(msgs.skip(i)) == msgs[i] + "; "@ + joined_messages(
            msgs.skip(i + 1),
        ),
        i + 1 == msgs.len() ==> joined_messages(msgs.skip(i)) == msgs[i],
        i == msgs.len() ==> joined_messages(msgs.skip(i)) == Seq::<char>::empty(),
{
    let t = msgs.skip(i);
    if i < msgs.len() {
        assert(t[0] == msgs[i]);
        assert(t.drop_first() =~= msgs.skip(i + 1));
    } else {
        assert(t =~= Seq::<Seq<char>>::empty());
    }
}

} // verus!
