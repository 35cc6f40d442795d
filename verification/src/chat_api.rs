//! The HTTP chat and discovery surfaces: their request and response records
//! and the decisions the handlers make — bearer tokens, the newest user
//! message, derived web identities, and paging bounds.

use vstd::prelude::*;
use crate::text::{chars_vec, string_from_chars, append_str, append_chars, subvec, u64_to_chars,
    str_eq, matches_at};
use crate::subagent::{Subagent, SubagentStatus};

verus! {

broadcast use vstd::seq::group_seq_axioms, vstd::std_specs::vec::group_vec_axioms;

/// A chat request from the web frontend.
#[derive(Debug)]
pub struct ChatRequest {
    pub messages: Vec<ChatMessage>,
    /// A caller-chosen identity for the web session.
    pub user_id: Option<String>,
}

#[derive(Debug)]
pub struct ChatMessage {
    pub role: String,
    pub content: String,
}

#[derive(Debug)]
pub struct ChatResponse {
    pub success: bool,
    pub message: Option<ChatMessage>,
    pub error: Option<String>,
    pub session_id: Option<i64>,
}

#[derive(Debug)]
pub struct StopResponse {
    pub success: bool,
    pub message: Option<String>,
    pub error: Option<String>,
}

/// A request to cancel one sub-agent.
#[derive(Debug)]
pub struct CancelSubagentRequest {
    pub subagent_id: String,
}

/// The reply to a sub-agent operation.
#[derive(Debug)]
pub struct SubagentResponse {
    pub success: bool,
    pub message: Option<String>,
    pub error: Option<String>,
}

/// One sub-agent as the listing shows it.
#[derive(Debug)]
pub struct SubagentInfo {
    pub id: String,
    pub label: String,
    pub task: String,
    pub status: String,
    pub started_at: String,
}

#[derive(Debug)]
pub struct SubagentListResponse {
    pub success: bool,
    pub subagents: Vec<SubagentInfo>,
}

/// A discovery listing query.
#[derive(Debug)]
pub struct DiscoverQuery {
    pub offset: Option<u64>,
    pub limit: Option<u64>,
    pub x402_only: Option<bool>,
    pub service: Option<String>,
    pub min_reputation: Option<u64>,
}

/// A request to build a registration document.
#[derive(Debug)]
pub struct CreateRegistrationRequest {
    pub name: String,
    pub description: String,
    pub image: Option<String>,
    pub services: Option<Vec<ServiceInput>>,
}

#[derive(Debug)]
pub struct ServiceInput {
    pub name: String,
    pub endpoint: String,
    pub version: String,
}

/// A header value with every leading repetition of `pat` removed.
pub open spec fn strip_prefix_rep(s: Seq<char>, pat: Seq<char>) -> Seq<char>
    decreases s.len(),
{
    if pat.len() > 0 && matches_at(s, pat, 0) {
        strip_prefix_rep(s.skip(pat.len() as int), pat)
    } else {
        s
    }
}

/// The bearer token of an authorization header, when one was sent.
pub fn extract_bearer_token(header: Option<&str>) -> (r: Option<String>)
    ensures
        match header {
            Some(h) => r matches Some(t) && t@ == strip_prefix_rep(h@, "Bearer "@),
            None => r is None,
        },
{
    let h = match header {
        Some(h) => h,
        None => {
            return None;
        }
    };
    let pat = chars_vec("Bearer ");
    let mut cs = chars_vec(h);
    proof {
        reveal_strlit("Bearer ");
    }
    loop
        invariant
            header matches Some(h2) && h2@ == h@,
            pat@ == "Bearer "@,
            pat@.len() == 7,
            strip_prefix_rep(h@, "Bearer "@) == strip_prefix_rep(cs@, "Bearer "@),
        decreases cs@.len(),
    {
        proof {
            reveal_strlit("Bearer ");
        }
        if cs.len() >= 7 && crate::text::chars_eq(&subvec(&cs, 0, 7), &pat) {
            proof {
                assert(cs@.subrange(0, 7) =~= cs@.subrange(0, pat@.len() as int));
                assert(matches_at(cs@, pat@, 0));
            }
            let rest = subvec(&cs, 7, cs.len());
            proof {
                assert(rest@ =~= cs@.skip(7));
            }
            cs = rest;
        } else {
            proof {
                if matches_at(cs@, pat@, 0) {
                    assert(cs@.subrange(0, pat@.len() as int) =~= cs@.subrange(0, 7));
                    assert(false);
                }
                assert(!matches_at(cs@, "Bearer "@, 0));
                assert(strip_prefix_rep(cs@, "Bearer "@) == cs@);
            }
            return Some(string_from_chars(&cs));
        }
    }
}

pub struct ChatMessageData {
    pub role: Seq<char>,
    pub content: Seq<char>,
}

impl View for ChatMessage {
    type V = ChatMessageData;

    open spec fn view(&self) -> ChatMessageData {
        ChatMessageData { role: self.role@, content: self.content@ }
    }
}

pub open spec fn chat_msgs_view(s: Seq<ChatMessage>) -> Seq<ChatMessageData> {
    Seq::new(s.len(), |i: int| s[i]@)
}

/// The content of the newest user turn, scanning from the end.
pub open spec fn last_user_content(s: Seq<ChatMessageData>) -> Option<Seq<char>>
    decreases s.len(),
{
    if s.len() == 0 {
        None
    } else if s.last().role == "user"@ {
        Some(s.last().content)
    } else {
        last_user_content(s.drop_last())
    }
}

/// The newest user message of a chat request, when one was sent.
pub fn latest_user_message(messages: &Vec<ChatMessage>) -> (r: Option<String>)
    ensures
        match r {
            Some(c) => last_user_content(chat_msgs_view(messages@)) == Some(c@),
            None => last_user_content(chat_msgs_view(messages@)) is None,
        },
{
    let ghost mv = chat_msgs_view(messages@);
    let mut i: usize = messages.len();
    proof {
        assert(mv.take(i as int) =~= mv);
    }
    while i > 0
        invariant
            i <= messages@.len(),
            mv == chat_msgs_view(messages@),
            last_user_content(mv) == last_user_content(mv.take(i as int)),
        decreases i,
    {
        i = i - 1;
        proof {
            assert(mv.take(i + 1).last() == mv[i as int]);
            assert(mv.take(i + 1).drop_last() =~= mv.take(i as int));
        }
        if str_eq(messages[i].role.as_str(), "user") {
            return Some(messages[i].content.clone());
        }
    }
    proof {
        assert(mv.take(0) =~= Seq::<ChatMessageData>::empty());
    }
    None
}

/// The first `n` characters of `s`, or all of them when it is shorter.
pub open spec fn prefix_chars(s: Seq<char>, n: int) -> Seq<char> {
    if s.len() <= n {
        s
    } else {
        s.subrange(0, n)
    }
}

/// The identity a web session runs under: the caller's, or one derived from
/// the start of its token.
pub fn web_user_id(user_id: &Option<String>, token: &str) -> (r: String)
    ensures
        match user_id {
            Some(u) => r == u,
            None => r@ == "web-"@ + prefix_chars(token@, 8),
        },
{
    match user_id {
        Some(u) => u.clone(),
        None => {
            let cs = chars_vec(token);
            let cut: usize = if cs.len() <= 8 {
                cs.len()
            } else {
                8
            };
            let head = subvec(&cs, 0, cut);
            let mut out = chars_vec("web-");
            append_chars(&mut out, &head);
            proof {
                assert(out@ =~= "web-"@ + prefix_chars(token@, 8));
            }
            string_from_chars(&out)
        }
    }
}

/// The display name a web session runs under.
pub fn web_user_name(user_id: &str) -> (r: String)
    ensures
        r@ == "web-user-"@ + prefix_chars(user_id@, 8),
{
    let cs = chars_vec(user_id);
    let cut: usize = if cs.len() <= 8 {
        cs.len()
    } else {
        8
    };
    let head = subvec(&cs, 0, cut);
    let mut out = chars_vec("web-user-");
    append_chars(&mut out, &head);
    proof {
        assert(out@ =~= "web-user-"@ + prefix_chars(user_id@, 8));
    }
    string_from_chars(&out)
}

/// A task cut for the listing: at most 100 characters, a long one cut at 97
/// with an ellipsis.
pub open spec fn listed_task(s: Seq<char>) -> Seq<char> {
    if s.len() > 100 {
        s.subrange(0, 97) + "..."@
    } else {
        s
    }
}

pub fn truncate_task(task: &str) -> (r: String)
    ensures
        r@ == listed_task(task@),
{
    let cs = chars_vec(task);
    if cs.len() > 100 {
        let mut head = subvec(&cs, 0, 97);
        append_str(&mut head, "...");
        string_from_chars(&head)
    } else {
        task.to_owned()
    }
}

/// A status as the listing prints it.
pub fn status_name(s: SubagentStatus) -> (r: String)
    ensures
        s == SubagentStatus::Pending ==> r@ == "Pending"@,
        s == SubagentStatus::Running ==> r@ == "Running"@,
        s == SubagentStatus::Completed ==> r@ == "Completed"@,
        s == SubagentStatus::Failed ==> r@ == "Failed"@,
        s == SubagentStatus::Cancelled ==> r@ == "Cancelled"@,
{
    match s {
        SubagentStatus::Pending => "Pending".to_owned(),
        SubagentStatus::Running => "Running".to_owned(),
        SubagentStatus::Completed => "Completed".to_owned(),
        SubagentStatus::Failed => "Failed".to_owned(),
        SubagentStatus::Cancelled => "Cancelled".to_owned(),
    }
}

/// One agent, as the listing shows it.
pub fn subagent_info_of(agent: &Subagent) -> (r: SubagentInfo)
    ensures
        r.id@ == agent@.id,
        r.label@ == agent@.label,
        r.task@ == listed_task(agent@.task),
        r.started_at@ == agent@.started_at,
{
    SubagentInfo {
        id: agent.id.clone(),
        label: agent.label.clone(),
        task: truncate_task(agent.task.as_str()),
        status: status_name(agent.status),
        started_at: agent.started_at.clone(),
    }
}

/// The message reported after stopping an execution.
pub fn stop_message(subagents_cancelled: usize) -> (r: String)
    ensures
        subagents_cancelled == 0 ==> r@ == "Execution stopped"@,
        subagents_cancelled > 0 ==> r@ == "Execution stopped. "@ + crate::text::dec_rep(
            subagents_cancelled as nat,
        ) + " subagent(s) cancelled."@,
{
    if subagents_cancelled == 0 {
        "Execution stopped".to_owned()
    } else {
        let mut out = chars_vec("Execution stopped. ");
        let n = u64_to_chars(subagents_cancelled as u64);
        append_chars(&mut out, &n);
        append_str(&mut out, " subagent(s) cancelled.");
        string_from_chars(&out)
    }
}

/// The reply after cancelling one sub-agent by id.
pub fn cancel_subagent_message(subagent_id: &str, cancelled: bool) -> (r: String)
    ensures
        cancelled ==> r@ == "Subagent "@ + subagent_id@ + " cancelled"@,
        !cancelled ==> r@ == "Subagent "@ + subagent_id@ + " not found or already completed"@,
{
    let mut out = chars_vec("Subagent ");
    append_str(&mut out, subagent_id);
    if cancelled {
        append_str(&mut out, " cancelled");
    } else {
        append_str(&mut out, " not found or already completed");
    }
    string_from_chars(&out)
}

/// Paging bounds for a discovery listing: offset from zero, the page size
/// capped at one hundred.
pub fn discover_params(offset: Option<u64>, limit: Option<u64>) -> (r: (u64, u64))
    ensures
        r.0 == (match offset {
            Some(o) => o,
            None => 0,
        }),
        r.1 == {
            let want = match limit {
                Some(l) => l,
                None => 20,
            };
            if want < 100 {
                want
            } else {
                100
            }
        },
{
    let off = match offset {
        Some(o) => o,
        None => 0,
    };
    let want = match limit {
        Some(l) => l,
        None => 20,
    };
    (
        off,
        if want < 100 {
            want
        } else {
            100
        },
    )
}

/// The page size of a search: what was asked, or fifty.
pub fn search_limit(limit: Option<u64>) -> (r: u64)
    ensures
        r == (match limit {
            Some(l) => l,
            None => 50,
        }),
{
    match limit {
        Some(l) => l,
        None => 50,
    }
}

} // verus!
