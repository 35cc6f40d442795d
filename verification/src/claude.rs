//! The content-block provider wire format: replies become text and tool-use
//! blocks, tool responses become tool-result blocks, and block lists parse
//! back into text plus tool calls.

use vstd::prelude::*;
use crate::ai_types::{
    ToolCall, ToolCallData, calls_view, ToolResponse, ClaudeContentBlock, BlockData, blocks_view,
};
use crate::json::json_clone;
use crate::text::string_from_chars;

verus! {

broadcast use vstd::seq::group_seq_axioms, vstd::std_specs::vec::group_vec_axioms;

/// A tool call as a tool-use block.
pub open spec fn block_of_call(c: ToolCallData) -> BlockData {
    BlockData::ToolUse { id: c.id, name: c.name, input: c.arguments }
}

/// The blocks of an assistant turn: its text, when there is any, then one
/// tool-use block per call, in call order.
pub open spec fn render_blocks(content: Seq<char>, calls: Seq<ToolCallData>) -> Seq<BlockData> {
    (if content.len() > 0 {
        seq![BlockData::Text { text: content }]
    } else {
        Seq::<BlockData>::empty()
    }) + calls.map_values(|c: ToolCallData| block_of_call(c))
}

/// All text blocks of a reply, concatenated in order.
pub open spec fn collect_text(blocks: Seq<BlockData>) -> Seq<char>
    decreases blocks.len(),
{
    if blocks.len() == 0 {
        Seq::empty()
    } else {
        (match blocks[0] {
            BlockData::Text { text } => text,
            _ => Seq::<char>::empty(),
        }) + collect_text(blocks.drop_first())
    }
}

/// All tool-use blocks of a reply, as tool calls, in order.
pub open spec fn collect_calls(blocks: Seq<BlockData>) -> Seq<ToolCallData>
    decreases blocks.len(),
{
    if blocks.len() == 0 {
        Seq::empty()
    } else {
        (match blocks[0] {
            BlockData::ToolUse { id, name, input } => seq![
                ToolCallData { id: id, name: name, arguments: input },
            ],
            _ => Seq::<ToolCallData>::empty(),
        }) + collect_calls(blocks.drop_first())
    }
}

/// Render an assistant reply as content blocks.
pub fn reply_to_blocks(content: &String, tool_calls: &Vec<ToolCall>) -> (r: Vec<
    ClaudeContentBlock,
>)
    ensures
        blocks_view(r@) == render_blocks(content@, calls_view(tool_calls@)),
{
    let mut out: Vec<ClaudeContentBlock> = Vec::new();
    let ghost head: Seq<BlockData> = if content@.len() > 0 {
        seq![BlockData::Text { text: content@ }]
    } else {
        Seq::<BlockData>::empty()
    };
    if !content.as_str().is_empty() {
        out.push(ClaudeContentBlock::Text { text: content.clone() });
    }
    let mut i: usize = 0;
    while i < tool_calls.len()
        invariant
            i <= tool_calls@.len(),
            out@.len() == head.len() + i,
            forall|k: int|
                0 <= k < head.len() ==> out@[k]@ == head[k],
            forall|k: int|
                0 <= k < i ==> out@[head.len() + k]@ == block_of_call(tool_calls@[k]@),
        decreases tool_calls@.len() - i,
    {
        let c = &tool_calls[i];
        out.push(
            ClaudeContentBlock::ToolUse {
                id: c.id.clone(),
                name: c.name.clone(),
                input: json_clone(&c.arguments),
            },
        );
        i = i + 1;
    }
    proof {
        assert(blocks_view(out@) =~= render_blocks(content@, calls_view(tool_calls@)));
    }
    out
}

/// Render one round's tool responses as tool-result blocks, in order; a
/// failed response is flagged as an error.
pub fn responses_to_result_blocks(responses: &Vec<ToolResponse>) -> (r: Vec<ClaudeContentBlock>)
    ensures
        r@.len() == responses@.len(),
        forall|k: int|
            0 <= k < responses@.len() ==> r@[k]@ == (BlockData::ToolResult {
                tool_use_id: responses@[k]@.tool_call_id,
                content: responses@[k]@.content,
                is_error: if responses@[k]@.is_error {
                    Some(true)
                } else {
                    None
                },
            }),
{
    let mut out: Vec<ClaudeContentBlock> = Vec::new();
    let mut i: usize = 0;
    while i < responses.len()
        invariant
            i <= responses@.len(),
            out@.len() == i,
            forall|k: int|
                0 <= k < i ==> out@[k]@ == (BlockData::ToolResult {
                    tool_use_id: responses@[k]@.tool_call_id,
                    content: responses@[k]@.content,
                    is_error: if responses@[k]@.is_error {
                        Some(true)
                    } else {
                        None
                    },
                }),
        decreases responses@.len() - i,
    {
        let resp = &responses[i];
        out.push(
            ClaudeContentBlock::tool_result(
                resp.tool_call_id.clone(),
                resp.content.clone(),
                resp.is_error,
            ),
        );
        i = i + 1;
    }
    out
}

proof fn lemma_collect_step(blocks: Seq<BlockData>, i: int)
    requires
        0 <= i <= blocks.len(),
    ensures
        i < blocks.len() ==> collect_text(blocks.skip(i)) == (match blocks[i] {
            BlockData::Text { text } => text,
            _ => Seq::<char>::empty(),
        }) + collect_text(blocks.skip(i + 1)),
        i < blocks.len() ==> collect_calls(blocks.skip(i)) == (match blocks[i] {
            BlockData::ToolUse { id, name, input } => seq![
                ToolCallData { id: id, name: name, arguments: input },
            ],
            _ => Seq::<ToolCallData>::empty(),
        }) + collect_calls(blocks.skip(i + 1)),
        i == blocks.len() ==> collect_text(blocks.skip(i)) == Seq::<char>::empty()
            && collect_calls(blocks.skip(i)) == Seq::<ToolCallData>::empty(),
{
    let t = blocks.skip(i);
    if i < blocks.len() {
        assert(t[0] == blocks[i]);
        assert(t.drop_first() =~= blocks.skip(i + 1));
    } else {
        assert(t =~= Seq::<BlockData>::empty());
    }
}

/// Read a block list back: the concatenated text and the tool calls.
pub fn parse_blocks(blocks: &Vec<ClaudeContentBlock>) -> (r: (String, Vec<ToolCall>))
    ensures
        r.0@ == collect_text(blocks_view(blocks@)),
        calls_view(r.1@) == collect_calls(blocks_view(blocks@)),
{
    let ghost bv = blocks_view(blocks@);
    let mut text_acc: Vec<char> = Vec::new();
    let mut calls: Vec<ToolCall> = Vec::new();
    let mut i: usize = 0;
    proof {
        lemma_collect_step(bv, 0);
        assert(bv.skip(0) =~= bv);
    }
    while i < blocks.len()
        invariant
            i <= blocks@.len(),
            bv == blocks_view(blocks@),
            collect_text(bv) == text_acc@ + collect_text(bv.skip(i as int)),
            collect_calls(bv) == calls_view(calls@) + collect_calls(bv.skip(i as int)),
        decreases blocks@.len() - i,
    {
        proof {
            lemma_collect_step(bv, i as int);
        }
        match &blocks[i] {
            ClaudeContentBlock::Text { text } => {
                crate::text::append_str(&mut text_acc, text.as_str());
                proof {
                    assert(collect_text(bv) =~= text_acc@ + collect_text(bv.skip(i as int + 1)));
                }
            }
            ClaudeContentBlock::ToolUse { id, name, input } => {
                let tc = ToolCall {
                    id: id.clone(),
                    name: name.clone(),
                    arguments: json_clone(input),
                };
                calls.push(tc);
                proof {
                    assert(collect_calls(bv) =~= calls_view(calls@) + collect_calls(
                        bv.skip(i as int + 1),
                    ));
                }
            }
            ClaudeContentBlock::ToolResult { .. } => {
                proof {
                    assert(collect_text(bv) =~= text_acc@ + collect_text(bv.skip(i as int + 1)));
                    assert(collect_calls(bv) =~= calls_view(calls@) + collect_calls(
                        bv.skip(i as int + 1),
                    ));
                }
            }
        }
        i = i + 1;
    }
    proof {
        lemma_collect_step(bv, bv.len() as int);
        assert(text_acc@ =~= collect_text(bv));
        assert(calls_view(calls@) =~= collect_calls(bv));
    }
    (string_from_chars(&text_acc), calls)
}

proof fn lemma_collect_calls_only(calls: Seq<ToolCallData>)
    ensures
        collect_text(calls.map_values(|c: ToolCallData| block_of_call(c))) == Seq::<char>::empty(),
        collect_calls(calls.map_values(|c: ToolCallData| block_of_call(c))) == calls,
    decreases calls.len(),
{
    let bs = calls.map_values(|c: ToolCallData| block_of_call(c));
    if calls.len() == 0 {
        assert(bs =~= Seq::<BlockData>::empty());
    } else {
        lemma_collect_calls_only(calls.drop_first());
        assert(bs.drop_first() =~= calls.drop_first().map_values(
            |c: ToolCallData| block_of_call(c),
        ));
        assert(bs[0] == block_of_call(calls[0]));
        assert(collect_text(bs) =~= Seq::<char>::empty());
        assert(collect_calls(bs) =~= calls);
    }
}

/// Rendering a reply as content blocks and reading the blocks back preserves
/// the text and every tool call: id, name, and arguments.
pub proof fn lemma_blocks_round_trip(content: Seq<char>, calls: Seq<ToolCallData>)
    ensures
        collect_text(render_blocks(content, calls)) == content,
        collect_calls(render_blocks(content, calls)) == calls,
{
    let tail = calls.map_values(|c: ToolCallData| block_of_call(c));
    lemma_collect_calls_only(calls);
    let bs = render_blocks(content, calls);
    if content.len() > 0 {
        assert(bs[0] == (BlockData::Text { text: content }));
        assert(bs.drop_first() =~= tail);
        assert(collect_text(bs) =~= content);
        assert(collect_calls(bs) =~= calls);
    } else {
        assert(bs =~= tail);
    }
}

} // verus!
