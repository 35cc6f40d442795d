//! Command hooks for the chat transport: the admin configuration, how a
//! message is routed, and the stripping of bot mentions from command text.

use vstd::prelude::*;
use crate::text::{
    chars_vec, string_from_chars, trim_chars, trim_spec, remove_sub, remove_all, u64_to_chars,
    dec_rep, str_eq, append_chars,
};

verus! {

broadcast use vstd::seq::group_seq_axioms, vstd::std_specs::vec::group_vec_axioms;

pub open spec fn ids_view(s: Seq<String>) -> Seq<Seq<char>> {
    Seq::new(s.len(), |i: int| s[i]@)
}

/// The end of the comma-separated segment starting at `i`.
pub open spec fn seg_end(s: Seq<char>, i: int) -> int
    decreases s.len() - i,
{
    if 0 <= i < s.len() && s[i] != ',' {
        seg_end(s, i + 1)
    } else {
        i
    }
}

proof fn lemma_seg_end_bounds(s: Seq<char>, i: int)
    requires
        0 <= i <= s.len(),
    ensures
        i <= seg_end(s, i) <= s.len(),
    decreases s.len() - i,
{
    if i < s.len() && s[i] != ',' {
        lemma_seg_end_bounds(s, i + 1);
    }
}

/// Read the admin list from `i` on: each comma-separated segment is trimmed;
/// empty and repeated entries are dropped.
pub open spec fn admins_from(s: Seq<char>, i: int, acc: Seq<Seq<char>>) -> Seq<Seq<char>>
    decreases s.len() - i,
{
    if i < 0 || i > s.len() {
        acc
    } else {
        let e = if seg_end(s, i) < i {
            i
        } else {
            seg_end(s, i)
        };
        let t = trim_spec(s.subrange(i, if e > s.len() {
            s.len() as int
        } else {
            e
        }));
        let acc2 = if t.len() > 0 && !acc.contains(t) {
            acc.push(t)
        } else {
            acc
        };
        if e >= s.len() {
            acc2
        } else {
            admins_from(s, e + 1, acc2)
        }
    }
}

/// The admin ids configured by a comma-separated list.
pub open spec fn admin_ids_of(s: Seq<char>) -> Seq<Seq<char>> {
    admins_from(s, 0, Seq::empty())
}

/// Split a comma-separated admin list: entries trimmed, empties dropped,
/// duplicates kept once.
pub fn parse_admin_ids(s: &str) -> (r: Vec<String>)
    ensures
        ids_view(r@) == admin_ids_of(s@),
{
    let cs = chars_vec(s);
    let n = cs.len();
    let mut out: Vec<String> = Vec::new();
    let mut i: usize = 0;
    let mut finished = false;
    proof {
        assert(ids_view(out@) =~= Seq::<Seq<char>>::empty());
    }
    while !finished
        invariant
            i <= n,
            n == cs@.len(),
            cs@ == s@,
            !finished ==> admin_ids_of(s@) == admins_from(s@, i as int, ids_view(out@)),
            finished ==> admin_ids_of(s@) == ids_view(out@),
        decreases n - i, (if finished { 0int } else { 1int }),
    {
        proof {
            lemma_seg_end_bounds(s@, i as int);
        }
        let mut e: usize = i;
        while e < n && cs[e] != ','
            invariant
                i <= e <= n,
                n == cs@.len(),
                cs@ == s@,
                seg_end(s@, i as int) == seg_end(s@, e as int),
            decreases n - e,
        {
            e = e + 1;
        }
        proof {
            assert(seg_end(s@, e as int) == e as int);
        }
        let seg = crate::text::subvec(&cs, i, e);
        let t = trim_chars(&seg);
        let keep = t.len() > 0 && !contains_id(&out, &t);
        if keep {
            let ghost pre = out@;
            out.push(string_from_chars(&t));
            proof {
                assert(ids_view(out@) =~= ids_view(pre).push(t@));
            }
        }
        if e >= n {
            finished = true;
        } else {
            i = e + 1;
        }
    }
    out
}

fn contains_id(ids: &Vec<String>, t: &Vec<char>) -> (r: bool)
    ensures
        r == ids_view(ids@).contains(t@),
{
    let mut i: usize = 0;
    while i < ids.len()
        invariant
            i <= ids@.len(),
            forall|j: int| 0 <= j < i ==> ids_view(ids@)[j] != t@,
        decreases ids@.len() - i,
    {
        let tv = string_from_chars(t);
        if str_eq(ids[i].as_str(), tv.as_str()) {
            proof {
                assert(ids_view(ids@)[i as int] == t@);
            }
            return true;
        }
        i = i + 1;
    }
    proof {
        assert(forall|j: int| 0 <= j < ids_view(ids@).len() ==> ids_view(ids@)[j] != t@);
    }
    false
}

/// Configuration for the command hooks.
#[derive(Debug)]
pub struct DiscordHooksConfig {
    /// User ids with admin access; no id is stored twice.
    pub admin_user_ids: Vec<String>,
    /// Whether server channels require a mention.
    pub require_mention_in_servers: bool,
    /// Whether direct messages work without a mention.
    pub allow_dm_without_mention: bool,
}

impl DiscordHooksConfig {
    /// The stored ids never repeat.
    pub open spec fn wf(&self) -> bool {
        forall|i: int, j: int|
            0 <= i < j < self.admin_user_ids@.len() ==> ids_view(self.admin_user_ids@)[i]
                != ids_view(self.admin_user_ids@)[j]
    }

    pub open spec fn ids(&self) -> Seq<Seq<char>> {
        ids_view(self.admin_user_ids@)
    }

    /// A config with no admins.
    pub fn empty() -> (r: DiscordHooksConfig)
        ensures
            r.wf(),
            r.ids().len() == 0,
            r.require_mention_in_servers,
            r.allow_dm_without_mention,
    {
        DiscordHooksConfig {
            admin_user_ids: Vec::new(),
            require_mention_in_servers: true,
            allow_dm_without_mention: true,
        }
    }

    /// A config with the given admin ids; repeated ids are kept once.
    pub fn with_admins(admin_ids: Vec<String>) -> (r: DiscordHooksConfig)
        ensures
            r.wf(),
            forall|x: Seq<char>| r.ids().contains(x) == ids_view(admin_ids@).contains(x),
            r.require_mention_in_servers,
            r.allow_dm_without_mention,
    {
        let mut unique: Vec<String> = Vec::new();
        let mut i: usize = 0;
        while i < admin_ids.len()
            invariant
                i <= admin_ids@.len(),
                forall|a: int, b: int|
                    0 <= a < b < unique@.len() ==> ids_view(unique@)[a] != ids_view(unique@)[b],
                forall|x: Seq<char>|
                    ids_view(unique@).contains(x) == (exists|j: int|
                        0 <= j < i && ids_view(admin_ids@)[j] == x),
            decreases admin_ids@.len() - i,
        {
            let id_chars = chars_vec(admin_ids[i].as_str());
            if !contains_id(&unique, &id_chars) {
                let ghost pre = unique@;
                unique.push(string_from_chars(&id_chars));
                proof {
                    assert(ids_view(unique@) =~= ids_view(pre).push(admin_ids@[i as int]@));
                    assert forall|x: Seq<char>|
                        ids_view(unique@).contains(x) == (exists|j: int|
                            0 <= j < i + 1 && ids_view(admin_ids@)[j] == x) by {
                        if ids_view(unique@).contains(x) {
                            let w = choose|w: int|
                                0 <= w < ids_view(unique@).len() && ids_view(unique@)[w] == x;
                            if w < pre.len() {
                                assert(ids_view(pre).contains(x));
                            } else {
                                assert(ids_view(admin_ids@)[i as int] == x);
                            }
                        }
                        if exists|j: int| 0 <= j < i + 1 && ids_view(admin_ids@)[j] == x {
                            let j = choose|j: int|
                                0 <= j < i + 1 && ids_view(admin_ids@)[j] == x;
                            if j < i {
                                assert(ids_view(pre).contains(x));
                                let w = choose|w: int|
                                    0 <= w < pre.len() && ids_view(pre)[w] == x;
                                assert(ids_view(unique@)[w] == x);
                            } else {
                                assert(ids_view(unique@)[pre.len() as int] == x);
                            }
                        }
                    }
                }
            } else {
                proof {
                    assert forall|x: Seq<char>|
                        ids_view(unique@).contains(x) == (exists|j: int|
                            0 <= j < i + 1 && ids_view(admin_ids@)[j] == x) by {
                        if exists|j: int| 0 <= j < i + 1 && ids_view(admin_ids@)[j] == x {
                            let j = choose|j: int|
                                0 <= j < i + 1 && ids_view(admin_ids@)[j] == x;
                            if j == i {
                                assert(ids_view(unique@).contains(ids_view(admin_ids@)[i as int]));
                            }
                        }
                    }
                }
            }
            i = i + 1;
        }
        proof {
            assert forall|x: Seq<char>|
                ids_view(unique@).contains(x) == ids_view(admin_ids@).contains(x) by {
                if ids_view(admin_ids@).contains(x) {
                    let j = choose|j: int|
                        0 <= j < ids_view(admin_ids@).len() && ids_view(admin_ids@)[j] == x;
                    assert(exists|k: int|
                        0 <= k < admin_ids@.len() && ids_view(admin_ids@)[k] == x);
                }
            }
        }
        DiscordHooksConfig {
            admin_user_ids: unique,
            require_mention_in_servers: true,
            allow_dm_without_mention: true,
        }
    }

    /// Whether a user id has admin access.
    pub fn is_admin(&self, user_id: &str) -> (r: bool)
        ensures
            r == self.ids().contains(user_id@),
    {
        let cs = chars_vec(user_id);
        contains_id(&self.admin_user_ids, &cs)
    }

    /// The number of configured admins.
    pub fn admin_count(&self) -> (r: usize)
        ensures
            r == self.ids().len(),
    {
        self.admin_user_ids.len()
    }

    /// Whether any admins are configured.
    pub fn has_admins(&self) -> (r: bool)
        ensures
            r == (self.ids().len() > 0),
    {
        self.admin_user_ids.len() > 0
    }
}

/// The mention token for a bot id: `<@ID>`, or `<@!ID>` for the nickname form.
pub open spec fn mention_pat(bot_id: nat, nick: bool) -> Seq<char> {
    (if nick {
        seq!['<', '@', '!']
    } else {
        seq!['<', '@']
    }) + dec_rep(bot_id) + seq!['>']
}

/// Command text after both mention forms of the bot are removed and the rest
/// is trimmed.
pub open spec fn command_text_of(content: Seq<char>, bot_id: nat) -> Seq<char> {
    trim_spec(
        remove_all(remove_all(content, mention_pat(bot_id, false)), mention_pat(bot_id, true)),
    )
}

/// Strip the bot's mention tokens from a message and trim what remains.
pub fn extract_command_text(content: &str, bot_id: u64) -> (r: String)
    ensures
        r@ == command_text_of(content@, bot_id as nat),
{
    let digits = u64_to_chars(bot_id);
    let mut plain: Vec<char> = Vec::new();
    plain.push('<');
    plain.push('@');
    append_chars(&mut plain, &digits);
    plain.push('>');
    let mut nick: Vec<char> = Vec::new();
    nick.push('<');
    nick.push('@');
    nick.push('!');
    append_chars(&mut nick, &digits);
    nick.push('>');
    proof {
        assert(plain@ =~= mention_pat(bot_id as nat, false));
        assert(nick@ =~= mention_pat(bot_id as nat, true));
    }
    let cs = chars_vec(content);
    let without_plain = remove_sub(&cs, &plain);
    let without_both = remove_sub(&without_plain, &nick);
    let trimmed = trim_chars(&without_both);
    string_from_chars(&trimmed)
}

/// Result of processing one incoming chat message.
#[derive(Debug)]
pub struct ProcessResult {
    /// Whether the hooks handled the message.
    pub handled: bool,
    /// A direct reply, when handled internally.
    pub response: Option<String>,
    /// A request for the agent, for admin commands.
    pub forward_to_agent: Option<ForwardRequest>,
}

/// A request forwarded to the agent dispatcher.
#[derive(Debug)]
pub struct ForwardRequest {
    /// Command text with the bot mention removed.
    pub text: String,
    pub user_id: String,
    pub user_name: String,
    pub is_admin: bool,
}

impl ProcessResult {
    /// The message was not handled: the bot was not addressed.
    pub fn not_handled() -> (r: ProcessResult)
        ensures
            !r.handled,
            r.response is None,
            r.forward_to_agent is None,
    {
        ProcessResult { handled: false, response: None, forward_to_agent: None }
    }

    /// The message was answered directly.
    pub fn handled(response: String) -> (r: ProcessResult)
        ensures
            r.handled,
            r.response matches Some(s) && s == response,
            r.forward_to_agent is None,
    {
        ProcessResult { handled: true, response: Some(response), forward_to_agent: None }
    }

    /// The message goes to the agent.
    pub fn forward_to_agent(request: ForwardRequest) -> (r: ProcessResult)
        ensures
            r.handled,
            r.response is None,
            r.forward_to_agent matches Some(f) && f == request,
    {
        ProcessResult { handled: true, response: None, forward_to_agent: Some(request) }
    }
}

/// Where a processed message goes next.
#[derive(Debug)]
pub enum HookDecision {
    /// The bot was not mentioned: leave the message alone.
    NotHandled,
    /// A bare mention: answer with the greeting.
    Greet,
    /// An admin command: forward it to the agent.
    Forward,
    /// A regular user's text: try the limited command set.
    TryLimitedCommand,
}

/// The greeting for a bare mention.
pub fn greeting_message() -> (r: String)
    ensures
        r@ == "Hi! I'm StarkBot. Try `@starkbot help` to see available commands."@,
{
    "Hi! I'm StarkBot. Try `@starkbot help` to see available commands.".to_owned()
}

/// Route one message: nothing happens without a mention, a bare mention earns
/// the greeting, admins reach the agent, and everyone else gets the limited
/// command set.
pub fn route_message(mentioned: bool, command_text: &String, is_admin: bool) -> (r: HookDecision)
    ensures
        !mentioned ==> r == HookDecision::NotHandled,
        mentioned && command_text@.len() == 0 ==> r == HookDecision::Greet,
        mentioned && command_text@.len() > 0 && is_admin ==> r == HookDecision::Forward,
        mentioned && command_text@.len() > 0 && !is_admin ==> r
            == HookDecision::TryLimitedCommand,
{
    if !mentioned {
        HookDecision::NotHandled
    } else if command_text.as_str().is_empty() {
        HookDecision::Greet
    } else if is_admin {
        HookDecision::Forward
    } else {
        HookDecision::TryLimitedCommand
    }
}

} // verus!
