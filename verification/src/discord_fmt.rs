//! Rendering agent events for a chat transport: tool calls, tool results,
//! mode changes, and the splitting of long messages under the transport's
//! length cap.

use vstd::prelude::*;
use crate::json::{JsonVal, JsonData, obj_get, json_text};
use crate::broadcast::BroadcastEvent;
use crate::text::{chars_vec, string_from_chars, append_str, append_chars, subvec, i64_to_chars,
    dec_rep_i64, u64_to_chars, dec_rep};

verus! {

broadcast use vstd::seq::group_seq_axioms, vstd::std_specs::vec::group_vec_axioms;

/// Text cut at `cap` characters, with an ellipsis marking the cut.
pub open spec fn clipped(s: Seq<char>, cap: int) -> Seq<char> {
    if s.len() <= cap {
        s
    } else {
        s.subrange(0, cap) + "..."@
    }
}

/// Cut text at `cap` characters, marking the cut.
pub fn clip_chars(s: &Vec<char>, cap: usize) -> (r: Vec<char>)
    ensures
        r@ == clipped(s@, cap as int),
{
    if s.len() <= cap {
        let mut r: Vec<char> = Vec::new();
        append_chars(&mut r, s);
        proof {
            assert(r@ =~= s@);
        }
        r
    } else {
        let mut r = subvec(s, 0, cap);
        append_str(&mut r, "...");
        r
    }
}

/// A tool call as the transport shows it: the tool's name and its parameters
/// as JSON, cut at 800 characters.
pub open spec fn fmt_tool_call(tool_name: Seq<char>, parameters: JsonData) -> Seq<char> {
    "🔧 **Tool Call:** `"@ + tool_name + "`\n```json\n"@ + clipped(json_text(parameters), 800)
        + "\n```"@
}

pub fn format_tool_call_for_discord(tool_name: &str, parameters: &JsonVal) -> (r: String)
    ensures
        r@ == fmt_tool_call(tool_name@, parameters@),
{
    let params_text = crate::json::json_to_chars(parameters);
    let shown = clip_chars(&params_text, 800);
    let mut out = chars_vec("🔧 **Tool Call:** `");
    append_str(&mut out, tool_name);
    append_str(&mut out, "`\n```json\n");
    append_chars(&mut out, &shown);
    append_str(&mut out, "\n```");
    string_from_chars(&out)
}

/// A tool result as the transport shows it: a status mark, the tool's name,
/// the duration, and the content cut at 1200 characters.
pub open spec fn fmt_tool_result(
    tool_name: Seq<char>,
    success: bool,
    duration_ms: int,
    content: Seq<char>,
) -> Seq<char> {
    (if success {
        "✅"@
    } else {
        "❌"@
    }) + " **Tool Result:** `"@ + tool_name + "` ("@ + dec_rep_i64(duration_ms) + " ms)\n```\n"@
        + clipped(content, 1200) + "\n```"@
}

pub fn format_tool_result_for_discord(
    tool_name: &str,
    success: bool,
    duration_ms: i64,
    content: &str,
) -> (r: String)
    ensures
        r@ == fmt_tool_result(tool_name@, success, duration_ms as int, content@),
{
    let mut out = if success {
        chars_vec("✅")
    } else {
        chars_vec("❌")
    };
    append_str(&mut out, " **Tool Result:** `");
    append_str(&mut out, tool_name);
    append_str(&mut out, "` (");
    let ms = i64_to_chars(duration_ms);
    append_chars(&mut out, &ms);
    append_str(&mut out, " ms)\n```\n");
    let content_chars = chars_vec(content);
    let shown = clip_chars(&content_chars, 1200);
    append_chars(&mut out, &shown);
    append_str(&mut out, "\n```");
    string_from_chars(&out)
}

/// The marker for a mode.
pub open spec fn mode_emoji(mode: Seq<char>) -> Seq<char> {
    if mode == "explore"@ {
        "🔍"@
    } else if mode == "plan"@ {
        "📋"@
    } else if mode == "perform"@ {
        "⚡"@
    } else {
        "🔄"@
    }
}

/// A mode change as the transport shows it.
pub open spec fn fmt_mode_change(
    mode: Seq<char>,
    label: Seq<char>,
    reason: Option<Seq<char>>,
) -> Seq<char> {
    match reason {
        Some(r) => mode_emoji(mode) + " **Mode:** "@ + label + " - "@ + r,
        None => mode_emoji(mode) + " **Mode:** "@ + label,
    }
}

pub fn format_mode_change_for_discord(mode: &str, label: &str, reason: Option<&str>) -> (r: String)
    ensures
        r@ == fmt_mode_change(
            mode@,
            label@,
            match reason {
                Some(x) => Some(x@),
                None => None,
            },
        ),
{
    let mut out = if crate::text::str_eq(mode, "explore") {
        chars_vec("🔍")
    } else if crate::text::str_eq(mode, "plan") {
        chars_vec("📋")
    } else if crate::text::str_eq(mode, "perform") {
        chars_vec("⚡")
    } else {
        chars_vec("🔄")
    };
    append_str(&mut out, " **Mode:** ");
    append_str(&mut out, label);
    match reason {
        Some(x) => {
            append_str(&mut out, " - ");
            append_str(&mut out, x);
        }
        None => {}
    }
    string_from_chars(&out)
}

/// A display name with the legacy discriminator when one is present.
pub open spec fn display_name_of(name: Seq<char>, disc: Option<u16>) -> Seq<char> {
    match disc {
        Some(d) => name + "#"@ + dec_rep(d as nat),
        None => name,
    }
}

pub fn discord_display_name(name: &str, disc: Option<u16>) -> (r: String)
    ensures
        r@ == display_name_of(name@, disc),
{
    match disc {
        Some(d) => {
            let mut out = chars_vec(name);
            append_str(&mut out, "#");
            let dv = u64_to_chars(d as u64);
            append_chars(&mut out, &dv);
            string_from_chars(&out)
        }
        None => name.to_owned(),
    }
}

/// A string field of an event payload, or the fallback.
pub open spec fn json_str_or(v: JsonData, key: Seq<char>, fallback: Seq<char>) -> Seq<char> {
    match obj_get(v, key) {
        Some(JsonData::Str(s)) => s,
        _ => fallback,
    }
}

/// An integer field of an event payload, or the fallback.
pub open spec fn json_int_or(v: JsonData, key: Seq<char>, fallback: int) -> int {
    match obj_get(v, key) {
        Some(JsonData::Int(n)) => n,
        _ => fallback,
    }
}

/// A boolean field of an event payload, or the fallback.
pub open spec fn json_bool_or(v: JsonData, key: Seq<char>, fallback: bool) -> bool {
    match obj_get(v, key) {
        Some(JsonData::Bool(b)) => b,
        _ => fallback,
    }
}

fn get_str_or(v: &JsonVal, key: &str, fallback: &str) -> (r: String)
    ensures
        r@ == json_str_or(v@, key@, fallback@),
{
    match crate::json::json_get(v, key) {
        Some(x) => match x {
            JsonVal::Str(s) => s.clone(),
            _ => fallback.to_owned(),
        },
        None => fallback.to_owned(),
    }
}

fn get_int_or(v: &JsonVal, key: &str, fallback: i64) -> (r: i64)
    ensures
        r as int == json_int_or(v@, key@, fallback as int),
{
    match crate::json::json_get(v, key) {
        Some(x) => match x {
            JsonVal::Int(n) => *n,
            _ => fallback,
        },
        None => fallback,
    }
}

fn get_bool_or(v: &JsonVal, key: &str, fallback: bool) -> (r: bool)
    ensures
        r == json_bool_or(v@, key@, fallback),
{
    match crate::json::json_get(v, key) {
        Some(x) => match x {
            JsonVal::Bool(b) => *b,
            _ => fallback,
        },
        None => fallback,
    }
}

/// Whether an event belongs to the channel: a payload without a numeric
/// `channel_id` belongs to every channel.
pub open spec fn event_for_channel(data: JsonData, channel_id: i64) -> bool {
    match obj_get(data, "channel_id"@) {
        Some(JsonData::Int(n)) => n == channel_id as int,
        _ => true,
    }
}

/// Whether an event should be shown on the channel.
pub fn event_matches_channel(e: &BroadcastEvent, channel_id: i64) -> (r: bool)
    ensures
        r == event_for_channel(e.data@, channel_id),
{
    match crate::json::json_get(&e.data, "channel_id") {
        Some(x) => match x {
            JsonVal::Int(n) => *n == channel_id,
            _ => true,
        },
        None => true,
    }
}

/// The transport text for one event, when the event kind is shown at all.
pub open spec fn rendered_event(e: crate::broadcast::BroadcastEventData) -> Option<Seq<char>> {
    if e.event == "agent.tool_call"@ {
        Some(
            fmt_tool_call(
                json_str_or(e.data, "tool_name"@, "unknown"@),
                match obj_get(e.data, "parameters"@) {
                    Some(p) => p,
                    None => JsonData::Obj(Seq::empty()),
                },
            ),
        )
    } else if e.event == "tool.result"@ {
        Some(
            fmt_tool_result(
                json_str_or(e.data, "tool_name"@, "unknown"@),
                json_bool_or(e.data, "success"@, false),
                json_int_or(e.data, "duration_ms"@, 0),
                json_str_or(e.data, "content"@, ""@),
            ),
        )
    } else if e.event == "agent.mode_change"@ {
        Some(
            fmt_mode_change(
                json_str_or(e.data, "mode"@, "unknown"@),
                json_str_or(e.data, "label"@, "Unknown"@),
                match obj_get(e.data, "reason"@) {
                    Some(JsonData::Str(s)) => Some(s),
                    _ => None,
                },
            ),
        )
    } else if e.event == "execution.task_started"@ {
        Some(
            "▶️ **"@ + json_str_or(e.data, "type"@, "task"@) + ":** "@ + json_str_or(
                e.data,
                "name"@,
                "Unknown task"@,
            ),
        )
    } else if e.event == "execution.task_completed"@ {
        Some(
            (if json_str_or(e.data, "status"@, "completed"@) == "completed"@ {
                "✅"@
            } else {
                "❌"@
            }) + " Task "@ + json_str_or(e.data, "status"@, "completed"@),
        )
    } else {
        None
    }
}

/// Render one event for the transport; event kinds that are not shown give
/// nothing back.
pub fn render_event_for_discord(e: &BroadcastEvent) -> (r: Option<String>)
    ensures
        match r {
            Some(text) => rendered_event(e@) == Some(text@),
            None => rendered_event(e@) is None,
        },
{
    if crate::text::str_eq(e.event.as_str(), "agent.tool_call") {
        let tool_name = get_str_or(&e.data, "tool_name", "unknown");
        let text = match crate::json::json_get(&e.data, "parameters") {
            Some(p) => format_tool_call_for_discord(tool_name.as_str(), p),
            None => {
                let empty_params = JsonVal::Obj(Vec::new());
                proof {
                    assert(crate::json::field_views_of(Seq::<(String, JsonVal)>::empty())
                        =~= Seq::<(Seq<char>, JsonData)>::empty());
                }
                format_tool_call_for_discord(tool_name.as_str(), &empty_params)
            }
        };
        Some(text)
    } else if crate::text::str_eq(e.event.as_str(), "tool.result") {
        let tool_name = get_str_or(&e.data, "tool_name", "unknown");
        let success = get_bool_or(&e.data, "success", false);
        let duration_ms = get_int_or(&e.data, "duration_ms", 0);
        let content = get_str_or(&e.data, "content", "");
        Some(
            format_tool_result_for_discord(
                tool_name.as_str(),
                success,
                duration_ms,
                content.as_str(),
            ),
        )
    } else if crate::text::str_eq(e.event.as_str(), "agent.mode_change") {
        let mode = get_str_or(&e.data, "mode", "unknown");
        let label = get_str_or(&e.data, "label", "Unknown");
        let reason: Option<String> = match crate::json::json_get(&e.data, "reason") {
            Some(x) => match x {
                JsonVal::Str(s) => Some(s.clone()),
                _ => None,
            },
            None => None,
        };
        let text = match &reason {
            Some(x) => format_mode_change_for_discord(mode.as_str(), label.as_str(), Some(x.as_str())),
            None => format_mode_change_for_discord(mode.as_str(), label.as_str(), None),
        };
        Some(text)
    } else if crate::text::str_eq(e.event.as_str(), "execution.task_started") {
        let task_type = get_str_or(&e.data, "type", "task");
        let name = get_str_or(&e.data, "name", "Unknown task");
        let mut out = chars_vec("▶️ **");
        append_str(&mut out, task_type.as_str());
        append_str(&mut out, ":** ");
        append_str(&mut out, name.as_str());
        Some(string_from_chars(&out))
    } else if crate::text::str_eq(e.event.as_str(), "execution.task_completed") {
        let status = get_str_or(&e.data, "status", "completed");
        let mut out = if crate::text::str_eq(status.as_str(), "completed") {
            chars_vec("✅")
        } else {
            chars_vec("❌")
        };
        append_str(&mut out, " Task ");
        append_str(&mut out, status.as_str());
        Some(string_from_chars(&out))
    } else {
        None
    }
}

/// Split a message into chunks within the transport's length cap: short text
/// stays whole, lines are packed greedily, and a line beyond the cap is cut
/// into cap-sized pieces.
pub fn split_message(text: &str, max_len: usize) -> (r: Vec<String>)
    requires
        max_len >= 1,
    ensures
        text@.len() <= max_len ==> r@.len() == 1 && r@[0]@ == text@,
        forall|k: int| 0 <= k < r@.len() ==> (#[trigger] r@[k])@.len() <= max_len,
        text@.len() > max_len ==> forall|k: int|
            0 <= k < r@.len() ==> (#[trigger] r@[k])@.len() >= 1,
{
    let cs = chars_vec(text);
    let n = cs.len();
    if n <= max_len {
        let mut r: Vec<String> = Vec::new();
        r.push(text.to_owned());
        return r;
    }
    let mut chunks: Vec<String> = Vec::new();
    let mut current: Vec<char> = Vec::new();
    let mut line: Vec<char> = Vec::new();
    let mut i: usize = 0;
    while i <= n
        invariant
            i <= n,
            n == cs@.len(),
            max_len >= 1,
            current@.len() <= max_len,
            line@.len() <= max_len,
            forall|k: int|
                0 <= k < chunks@.len() ==> 1 <= (#[trigger] chunks@[k])@.len() <= max_len,
        decreases n - i,
    {
        let at_end = i == n;
        let c = if at_end {
            '\n'
        } else {
            cs[i]
        };
        if c == '\n' {
            // close the line: pack it into the current chunk or flush first
            let cur_len = current.len();
            let line_len = line.len();
            if cur_len > 0 && (cur_len == max_len || line_len > max_len - cur_len - 1) {
                chunks.push(string_from_chars(&current));
                current = Vec::new();
            }
            if line.len() > 0 {
                if current.len() > 0 {
                    current.push('\n');
                }
                append_chars(&mut current, &line);
                line = Vec::new();
            }
            if at_end {
                break;
            }
        } else {
            if line.len() < max_len {
                line.push(c);
            } else {
                // line reached the cap: flush the current chunk and the line
                if current.len() > 0 {
                    chunks.push(string_from_chars(&current));
                    current = Vec::new();
                }
                chunks.push(string_from_chars(&line));
                line = Vec::new();
                line.push(c);
            }
        }
        i = i + 1;
    }
    if current.len() > 0 {
        chunks.push(string_from_chars(&current));
    }
    chunks
}

} // verus!
