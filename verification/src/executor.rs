//! The tool executor's decisions: the timeout a tool call may use, the size
//! cap on its output, and how a finished or cancelled call is reported and
//! announced. The waiting on the tool's process happens outside.

use vstd::prelude::*;
use crate::tool_types::{ToolResult, ToolContext};
use crate::broadcast::{BroadcastEvent, tool_result_event_data, make_tool_result_event};
use crate::text::{chars_vec, subvec, append_str, string_from_chars};

verus! {

broadcast use vstd::seq::group_seq_axioms, vstd::std_specs::vec::group_vec_axioms;

/// The default per-call timeout, in seconds.
pub open spec fn spec_default_timeout() -> u64 {
    60
}

/// The timeout a call actually gets: what it asked for, or the default, never
/// above the executor's ceiling.
pub open spec fn spec_effective_timeout(requested: Option<u64>, max_timeout: u64) -> u64 {
    let want = match requested {
        Some(t) => t,
        None => spec_default_timeout(),
    };
    if want < max_timeout {
        want
    } else {
        max_timeout
    }
}

/// Bound a call's timeout: the requested seconds, 60 when unstated, and never
/// more than the executor's ceiling.
pub fn effective_timeout(requested: Option<u64>, max_timeout: u64) -> (r: u64)
    ensures
        r == spec_effective_timeout(requested, max_timeout),
        r <= max_timeout,
        requested matches Some(t) ==> r <= t,
{
    let want: u64 = match requested {
        Some(t) => t,
        None => 60,
    };
    if want < max_timeout {
        want
    } else {
        max_timeout
    }
}

/// The output size cap, in characters.
pub open spec fn spec_output_cap() -> int {
    50000
}

/// Output after the cap: unchanged when it fits, else cut at the cap with the
/// truncation marker appended.
pub open spec fn truncated_output(s: Seq<char>) -> Seq<char> {
    if s.len() <= spec_output_cap() {
        s
    } else {
        s.subrange(0, spec_output_cap()) + "\n\n[Output truncated at 50000 characters]"@
    }
}

/// Cap a tool's output at 50,000 characters, marking the cut.
pub fn truncate_output(s: &String) -> (r: String)
    ensures
        r@ == truncated_output(s@),
{
    let cs = chars_vec(s.as_str());
    if cs.len() <= 50000 {
        return s.clone();
    }
    let mut cut = subvec(&cs, 0, 50000);
    append_str(&mut cut, "\n\n[Output truncated at 50000 characters]");
    string_from_chars(&cut)
}

/// Close out one tool call: a cancelled call reports `cancelled` as a failure
/// and announces nothing; otherwise the output is capped and a `tool.result`
/// event for the channel reports how the call went.
pub fn finalize_tool_result(
    ctx: &ToolContext,
    tool_name: &String,
    raw: ToolResult,
    duration_ms: i64,
) -> (r: (ToolResult, Option<BroadcastEvent>))
    ensures
        ctx.cancelled ==> {
            &&& r.0@.success == false
            &&& r.0@.content == "cancelled"@
            &&& r.1 is None
        },
        !ctx.cancelled ==> {
            &&& r.0@.success == raw@.success
            &&& r.0@.content == truncated_output(raw@.content)
            &&& r.0@.metadata == raw@.metadata
            &&& r.1 matches Some(ev) && ev@ == tool_result_event_data(
                ctx.channel_id,
                tool_name@,
                raw@.success,
                duration_ms,
                truncated_output(raw@.content),
            )
        },
{
    if ctx.cancelled {
        return (ToolResult::error("cancelled".to_owned()), None);
    }
    let content = truncate_output(&raw.content);
    let event = make_tool_result_event(
        ctx.channel_id,
        tool_name,
        raw.success,
        duration_ms,
        &content,
    );
    (
        ToolResult { success: raw.success, content, metadata: raw.metadata },
        Some(event),
    )
}

/// The diagnostic for a tool that is not in the registry.
pub fn unknown_tool_error(name: &str) -> (r: ToolResult)
    ensures
        r@.success == false,
        r@.content == "unknown tool: "@ + name@,
{
    let mut msg = chars_vec("unknown tool: ");
    append_str(&mut msg, name);
    ToolResult::error(string_from_chars(&msg))
}

} // verus!
