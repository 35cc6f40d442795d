//! Resolving Discord user mentions to registered public addresses: the tool's
//! definition, the mention grammar, and the replies for each lookup outcome.
//! The profile lookup itself is persistence work and happens outside.

use vstd::prelude::*;
use crate::json::{JsonVal, JsonData, json_write, json_text, field_views_of,
    lemma_field_views_elts};
use crate::tool_types::{ToolDefinition, ToolInputSchema, PropertySchema, ToolGroup, ToolResult,
    clone_definition};
use crate::text::{chars_vec, string_from_chars, all_digits, is_digit, subvec, append_str};

verus! {

broadcast use vstd::seq::group_seq_axioms, vstd::std_specs::vec::group_vec_axioms;

/// Tool for resolving Discord user mentions to their registered addresses.
#[derive(Debug)]
pub struct DiscordResolveUserTool {
    pub definition: ToolDefinition,
}

impl DiscordResolveUserTool {
    /// The tool's input contract: `user_mention` (required).
    pub fn new() -> (r: DiscordResolveUserTool)
        ensures
            r.definition@.name == "discord_resolve_user"@,
            r.definition@.group == ToolGroup::Messaging,
            r.definition@.input_schema.schema_type == "object"@,
            r.definition@.input_schema.required == seq!["user_mention"@],
            r.definition@.input_schema.properties.len() == 1,
            r.definition@.input_schema.properties[0].0 == "user_mention"@,
            r.definition@.input_schema.properties[0].1.schema_type == "string"@,
    {
        let mut properties: Vec<(String, PropertySchema)> = Vec::new();
        properties.push(
            (
                "user_mention".to_owned(),
                PropertySchema {
                    schema_type: "string".to_owned(),
                    description:
                        "Discord user mention in format '<@USER_ID>' or '<@!USER_ID>', or just the numeric user ID".to_owned(),
                    default: None,
                    items: None,
                    enum_values: None,
                },
            ),
        );
        let mut required: Vec<String> = Vec::new();
        required.push("user_mention".to_owned());
        proof {
            assert(Seq::new(required@.len(), |i: int| required@[i]@) =~= seq!["user_mention"@]);
        }
        DiscordResolveUserTool {
            definition: ToolDefinition {
                name: "discord_resolve_user".to_owned(),
                description:
                    "Resolve a Discord user mention to their registered public address. Use this when you need to tip or send tokens to a Discord user mentioned in a message. The user must have registered their address via '@starkbot register'. Returns the user's Discord ID, username, and public address if registered.".to_owned(),
                input_schema: ToolInputSchema {
                    schema_type: "object".to_owned(),
                    properties,
                    required,
                },
                group: ToolGroup::Messaging,
            },
        }
    }

    /// The tool's definition, as registered.
    pub fn definition(&self) -> (r: ToolDefinition)
        ensures
            r@ == self.definition@,
    {
        clone_definition(&self.definition)
    }
}

impl Default for DiscordResolveUserTool {
    fn default() -> (r: DiscordResolveUserTool)
        ensures
            r.definition@.name == "discord_resolve_user"@,
    {
        DiscordResolveUserTool::new()
    }
}

/// The end of the digit run starting at `i`.
pub open spec fn digits_end(s: Seq<char>, i: int) -> int
    decreases s.len() - i,
{
    if 0 <= i < s.len() && is_digit(s[i]) {
        digits_end(s, i + 1)
    } else {
        i
    }
}

proof fn lemma_digits_end_bounds(s: Seq<char>, i: int)
    requires
        0 <= i <= s.len(),
    ensures
        i <= digits_end(s, i) <= s.len(),
    decreases s.len() - i,
{
    if i < s.len() && is_digit(s[i]) {
        lemma_digits_end_bounds(s, i + 1);
    }
}

/// The digits of a mention `<@ID>` or `<@!ID>` starting at `i`, when one
/// starts there.
pub open spec fn mention_at(s: Seq<char>, i: int) -> Option<Seq<char>> {
    if 0 <= i && i + 2 <= s.len() && s[i] == '<' && s[i + 1] == '@' {
        let j = if i + 2 < s.len() && s[i + 2] == '!' {
            i + 3
        } else {
            i + 2
        };
        let k = digits_end(s, j);
        if k > j && k < s.len() && s[k] == '>' {
            Some(s.subrange(j, k))
        } else {
            None
        }
    } else {
        None
    }
}

/// The digits of the leftmost mention at or after `i`.
pub open spec fn first_mention(s: Seq<char>, i: int) -> Option<Seq<char>>
    decreases s.len() - i,
{
    if i < 0 || i >= s.len() {
        None
    } else {
        match mention_at(s, i) {
            Some(d) => Some(d),
            None => first_mention(s, i + 1),
        }
    }
}

/// What `extract_user_id` finds: the digits of the leftmost mention, or the
/// whole text when it is nothing but digits.
pub open spec fn extracted_user_id(s: Seq<char>) -> Option<Seq<char>> {
    match first_mention(s, 0) {
        Some(d) => Some(d),
        None => if s.len() > 0 && (forall|j: int| 0 <= j < s.len() ==> is_digit(s[j])) {
            Some(s)
        } else {
            None
        },
    }
}

fn mention_at_exec(s: &Vec<char>, i: usize) -> (r: Option<Vec<char>>)
    requires
        i < s@.len(),
    ensures
        match r {
            Some(d) => mention_at(s@, i as int) == Some(d@),
            None => mention_at(s@, i as int) is None,
        },
{
    let n = s.len();
    if !(n - i >= 2 && s[i] == '<' && s[i + 1] == '@') {
        return None;
    }
    let j: usize = if n - i >= 3 && s[i + 2] == '!' {
        i + 3
    } else {
        i + 2
    };
    let mut k: usize = j;
    while k < n && '0' <= s[k] && s[k] <= '9'
        invariant
            j <= k <= n,
            n == s@.len(),
            digits_end(s@, j as int) == digits_end(s@, k as int),
        decreases n - k,
    {
        k = k + 1;
    }
    proof {
        assert(digits_end(s@, k as int) == k as int);
    }
    if k > j && k < n && s[k] == '>' {
        Some(subvec(s, j, k))
    } else {
        None
    }
}

/// Extract a user id: the digits of the leftmost `<@ID>` or `<@!ID>` mention,
/// or the text itself when it is entirely digits.
pub fn extract_user_id(mention: &str) -> (r: Option<String>)
    ensures
        match r {
            Some(id) => extracted_user_id(mention@) == Some(id@),
            None => extracted_user_id(mention@) is None,
        },
{
    let cs = chars_vec(mention);
    let n = cs.len();
    let mut i: usize = 0;
    while i < n
        invariant
            i <= n,
            n == cs@.len(),
            cs@ == mention@,
            first_mention(mention@, 0) == first_mention(mention@, i as int),
        decreases n - i,
    {
        match mention_at_exec(&cs, i) {
            Some(d) => {
                return Some(string_from_chars(&d));
            }
            None => {}
        }
        i = i + 1;
    }
    if n > 0 && all_digits(&cs) {
        return Some(mention.to_owned());
    }
    None
}

/// The reply when the mention cannot be read.
pub fn invalid_mention_error(mention: &str) -> (r: ToolResult)
    ensures
        r@.success == false,
        r@.content == "Invalid Discord mention format: '"@ + mention@
            + "'. Expected '<@USER_ID>', '<@!USER_ID>', or a numeric user ID."@,
{
    let mut msg = chars_vec("Invalid Discord mention format: '");
    append_str(&mut msg, mention);
    append_str(&mut msg, "'. Expected '<@USER_ID>', '<@!USER_ID>', or a numeric user ID.");
    ToolResult::error(string_from_chars(&msg))
}

/// A stored Discord user profile, as the resolver reads it.
#[derive(Debug)]
pub struct DiscordProfile {
    pub discord_user_id: String,
    pub discord_username: String,
    pub public_address: Option<String>,
    pub registered_at: Option<String>,
}

pub struct DiscordProfileData {
    pub discord_user_id: Seq<char>,
    pub discord_username: Seq<char>,
    pub public_address: Option<Seq<char>>,
    pub registered_at: Option<Seq<char>>,
}

impl View for DiscordProfile {
    type V = DiscordProfileData;

    open spec fn view(&self) -> DiscordProfileData {
        DiscordProfileData {
            discord_user_id: self.discord_user_id@,
            discord_username: self.discord_username@,
            public_address: match self.public_address {
                Some(a) => Some(a@),
                None => None,
            },
            registered_at: match self.registered_at {
                Some(a) => Some(a@),
                None => None,
            },
        }
    }
}

/// The JSON reply for one lookup outcome.
pub open spec fn resolve_reply_data(user_id: Seq<char>, profile: Option<DiscordProfileData>) -> JsonData {
    match profile {
        Some(p) => match p.public_address {
            Some(addr) => JsonData::Obj(
                seq![
                    ("discord_user_id"@, JsonData::Str(p.discord_user_id)),
                    ("username"@, JsonData::Str(p.discord_username)),
                    ("public_address"@, JsonData::Str(addr)),
                    ("registered"@, JsonData::Bool(true)),
                    (
                        "registered_at"@,
                        match p.registered_at {
                            Some(at) => JsonData::Str(at),
                            None => JsonData::Null,
                        },
                    ),
                ],
            ),
            None => JsonData::Obj(
                seq![
                    ("discord_user_id"@, JsonData::Str(p.discord_user_id)),
                    ("username"@, JsonData::Str(p.discord_username)),
                    ("public_address"@, JsonData::Null),
                    ("registered"@, JsonData::Bool(false)),
                    (
                        "error"@,
                        JsonData::Str(
                            "User has not registered a public address. They need to run '@starkbot register <address>' first."@,
                        ),
                    ),
                ],
            ),
        },
        None => JsonData::Obj(
            seq![
                ("discord_user_id"@, JsonData::Str(user_id)),
                ("username"@, JsonData::Null),
                ("public_address"@, JsonData::Null),
                ("registered"@, JsonData::Bool(false)),
                (
                    "error"@,
                    JsonData::Str(
                        "User has never interacted with StarkBot. They need to run '@starkbot register <address>' first."@,
                    ),
                ),
            ],
        ),
    }
}

/// The reply for a resolved lookup: the profile's facts as JSON, a
/// registration hint when no address is on file, and an unknown-user note
/// when no profile exists.
pub fn resolve_user_reply(user_id: &String, profile: Option<&DiscordProfile>) -> (r: ToolResult)
    ensures
        r@.success == true,
        r@.content == json_text(
            resolve_reply_data(
                user_id@,
                match profile {
                    Some(p) => Some(p@),
                    None => None,
                },
            ),
        ),
{
    let mut fields: Vec<(String, JsonVal)> = Vec::new();
    match profile {
        Some(p) => {
            fields.push(("discord_user_id".to_owned(), JsonVal::Str(p.discord_user_id.clone())));
            fields.push(("username".to_owned(), JsonVal::Str(p.discord_username.clone())));
            match &p.public_address {
                Some(addr) => {
                    fields.push(("public_address".to_owned(), JsonVal::Str(addr.clone())));
                    fields.push(("registered".to_owned(), JsonVal::Bool(true)));
                    match &p.registered_at {
                        Some(at) => {
                            fields.push(("registered_at".to_owned(), JsonVal::Str(at.clone())));
                        }
                        None => {
                            fields.push(("registered_at".to_owned(), JsonVal::Null));
                        }
                    }
                }
                None => {
                    fields.push(("public_address".to_owned(), JsonVal::Null));
                    fields.push(("registered".to_owned(), JsonVal::Bool(false)));
                    fields.push(
                        (
                            "error".to_owned(),
                            JsonVal::Str(
                                "User has not registered a public address. They need to run '@starkbot register <address>' first.".to_owned(),
                            ),
                        ),
                    );
                }
            }
        }
        None => {
            fields.push(("discord_user_id".to_owned(), JsonVal::Str(user_id.clone())));
            fields.push(("username".to_owned(), JsonVal::Null));
            fields.push(("public_address".to_owned(), JsonVal::Null));
            fields.push(("registered".to_owned(), JsonVal::Bool(false)));
            fields.push(
                (
                    "error".to_owned(),
                    JsonVal::Str(
                        "User has never interacted with StarkBot. They need to run '@starkbot register <address>' first.".to_owned(),
                    ),
                ),
            );
        }
    }
    proof {
        lemma_field_views_elts(fields@);
        assert(field_views_of(fields@) =~= (match resolve_reply_data(
            user_id@,
            match profile {
                Some(p) => Some(p@),
                None => None,
            },
        ) {
            JsonData::Obj(fs) => fs,
            _ => Seq::empty(),
        }));
    }
    let body = JsonVal::Obj(fields);
    ToolResult::success(json_write(&body))
}

} // verus!
