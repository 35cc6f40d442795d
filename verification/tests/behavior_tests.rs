use stark_backend::agent_loop::{AgentLoopState, LoopAction, LoopEvent, loop_step};
use stark_backend::ai_types::{AiResponse, Message, MsgRole, ToolCall, ToolResponse};
use stark_backend::broadcast::{
    Broadcaster, BroadcastEvent, make_task_completed_event, make_tool_result_event,
};
use stark_backend::chat_api::{
    cancel_subagent_message, discover_params, extract_bearer_token, latest_user_message,
    stop_message, truncate_task, web_user_id, web_user_name, ChatMessage,
};
use stark_backend::ai_types::ClaudeContentBlock;
use stark_backend::claude::{parse_blocks, reply_to_blocks};
use stark_backend::resolve_user::extract_user_id;
use stark_backend::discord_fmt::{
    discord_display_name, event_matches_channel, format_mode_change_for_discord,
    format_tool_result_for_discord, render_event_for_discord, split_message,
};
use stark_backend::dispatch::{build_conversation, ExecutionTracker, StartOutcome};
use stark_backend::exec_tool::build_exec_output;
use stark_backend::executor::{effective_timeout, finalize_tool_result, truncate_output};
use stark_backend::hooks::{greeting_message, parse_admin_ids, route_message, HookDecision};
use stark_backend::json::{json_write, JsonVal};
use stark_backend::json_parse::json_parse;
use stark_backend::openai::{
    build_completion_request, build_tool_result_messages, call_to_wire, parse_completion,
    parse_wire_call, OpenAIChoice, OpenAIClient, OpenAICompletionResponse, OpenAIFunctionCall,
    OpenAIResponseMessage, OpenAIToolCall,
};
use stark_backend::registry::ToolRegistry;
use stark_backend::settings::{
    agent_settings_from_row, channel_update_sql, default_archetype, default_max_tokens,
    AgentSettings,
};
use stark_backend::subagent::{SubagentManager, SubagentStatus};
use stark_backend::telemetry::{
    clear_active_collector, emit_annotation, emit_message, set_active_collector,
    with_active_collector, SpanCollector, TelemetrySlot,
};
use stark_backend::tool_types::{validate_args, ToolContext, ToolGroup, ToolResult};
use stark_backend::twitter::tweet_request;

fn sample_args() -> JsonVal {
    JsonVal::Obj(vec![
        ("command".to_string(), JsonVal::Str("echo hi".to_string())),
        ("timeout".to_string(), JsonVal::Int(5)),
        (
            "flags".to_string(),
            JsonVal::Arr(vec![JsonVal::Bool(true), JsonVal::Null, JsonVal::Int(-42)]),
        ),
    ])
}

#[test]
fn json_write_and_parse_round_trip() {
    let v = sample_args();
    let text = json_write(&v);
    assert_eq!(
        text,
        "{\"command\":\"echo hi\",\"timeout\":5,\"flags\":[true,null,-42]}"
    );
    let back = json_parse(&text).expect("canonical text parses");
    assert_eq!(back, v);
}

#[test]
fn json_parse_accepts_whitespace_and_escapes() {
    let parsed = json_parse(" { \"a\" : \"x\\n\\\"y\" , \"b\" : [ 1 , 2 ] } ")
        .expect("spaced text parses");
    assert_eq!(
        parsed,
        JsonVal::Obj(vec![
            ("a".to_string(), JsonVal::Str("x\n\"y".to_string())),
            (
                "b".to_string(),
                JsonVal::Arr(vec![JsonVal::Int(1), JsonVal::Int(2)])
            ),
        ])
    );
}

#[test]
fn json_parse_rejects_garbage() {
    assert_eq!(json_parse("{\"a\":"), None);
    assert_eq!(json_parse("hello"), None);
    assert_eq!(json_parse("1 2"), None);
}

#[test]
fn wire_round_trip_keeps_ids_names_arguments() {
    let call = stark_backend::ai_types::ToolCall {
        id: "c1".to_string(),
        name: "exec".to_string(),
        arguments: sample_args(),
    };
    let wire = call_to_wire(&call);
    assert_eq!(wire.id, "c1");
    assert_eq!(wire.call_type, "function");
    assert_eq!(wire.function.name, "exec");
    let back = parse_wire_call(&wire);
    assert_eq!(back.id, "c1");
    assert_eq!(back.name, "exec");
    assert_eq!(back.arguments, sample_args());
}

#[test]
fn unparseable_wire_arguments_become_empty_object() {
    let wire = OpenAIToolCall {
        id: "c9".to_string(),
        call_type: "function".to_string(),
        function: OpenAIFunctionCall {
            name: "exec".to_string(),
            arguments: "{not json".to_string(),
        },
    };
    let back = parse_wire_call(&wire);
    assert_eq!(back.arguments, JsonVal::Obj(vec![]));
}

#[test]
fn tool_round_messages_follow_call_order() {
    let calls = vec![
        ToolCall { id: "a".to_string(), name: "one".to_string(), arguments: JsonVal::Null },
        ToolCall { id: "b".to_string(), name: "two".to_string(), arguments: JsonVal::Null },
    ];
    let responses = vec![
        ToolResponse::success("a".to_string(), "ra".to_string()),
        ToolResponse::error("b".to_string(), "rb".to_string()),
    ];
    let msgs = build_tool_result_messages(&calls, &responses);
    assert_eq!(msgs.len(), 3);
    assert_eq!(msgs[0].role, "assistant");
    assert!(msgs[0].content.is_none());
    let wire_calls = msgs[0].tool_calls.as_ref().unwrap();
    assert_eq!(wire_calls[0].id, "a");
    assert_eq!(wire_calls[1].id, "b");
    assert_eq!(msgs[1].role, "tool");
    assert_eq!(msgs[1].tool_call_id.as_deref(), Some("a"));
    assert_eq!(msgs[1].content.as_deref(), Some("ra"));
    assert_eq!(msgs[2].tool_call_id.as_deref(), Some("b"));
}

#[test]
fn parse_completion_reads_first_choice() {
    let resp = OpenAICompletionResponse {
        choices: vec![OpenAIChoice {
            message: OpenAIResponseMessage {
                content: Some("4".to_string()),
                tool_calls: None,
            },
            finish_reason: Some("stop".to_string()),
        }],
    };
    let reply = parse_completion(&resp).unwrap();
    assert_eq!(reply.content, "4");
    assert!(reply.tool_calls.is_empty());
    assert_eq!(reply.stop_reason.as_deref(), Some("end_turn"));

    let with_tools = OpenAICompletionResponse {
        choices: vec![OpenAIChoice {
            message: OpenAIResponseMessage {
                content: None,
                tool_calls: Some(vec![OpenAIToolCall {
                    id: "c1".to_string(),
                    call_type: "function".to_string(),
                    function: OpenAIFunctionCall {
                        name: "exec".to_string(),
                        arguments: "{\"command\":\"echo hi\"}".to_string(),
                    },
                }]),
            },
            finish_reason: Some("tool_calls".to_string()),
        }],
    };
    let reply2 = parse_completion(&with_tools).unwrap();
    assert_eq!(reply2.content, "");
    assert_eq!(reply2.tool_calls.len(), 1);
    assert_eq!(reply2.tool_calls[0].name, "exec");
    assert_eq!(
        reply2.tool_calls[0].arguments,
        JsonVal::Obj(vec![(
            "command".to_string(),
            JsonVal::Str("echo hi".to_string())
        )])
    );
    assert_eq!(reply2.stop_reason.as_deref(), Some("tool_use"));

    let empty = OpenAICompletionResponse { choices: vec![] };
    assert!(parse_completion(&empty).is_err());
}

#[test]
fn content_blocks_round_trip() {
    let calls = vec![stark_backend::ai_types::ToolCall {
        id: "t1".to_string(),
        name: "twitter_post".to_string(),
        arguments: sample_args(),
    }];
    let blocks = reply_to_blocks(&"posting now".to_string(), &calls);
    let (text, back) = parse_blocks(&blocks);
    assert_eq!(text, "posting now");
    assert_eq!(back.len(), 1);
    assert_eq!(back[0].id, "t1");
    assert_eq!(back[0].name, "twitter_post");
    assert_eq!(back[0].arguments, sample_args());
}

#[test]
fn validate_args_reports_first_offender() {
    let tool = stark_backend::exec_tool::ExecTool::new();
    let schema = &tool.definition.input_schema;

    let ok = JsonVal::Obj(vec![(
        "command".to_string(),
        JsonVal::Str("ls".to_string()),
    )]);
    assert!(validate_args(schema, &ok).is_ok());

    let missing = JsonVal::Obj(vec![]);
    assert_eq!(
        validate_args(schema, &missing).unwrap_err(),
        "missing required field: command"
    );

    let wrong_type = JsonVal::Obj(vec![("command".to_string(), JsonVal::Int(3))]);
    assert_eq!(
        validate_args(schema, &wrong_type).unwrap_err(),
        "invalid value for field: command"
    );

    assert_eq!(
        validate_args(schema, &JsonVal::Int(1)).unwrap_err(),
        "arguments must be a JSON object"
    );
}

#[test]
fn broadcaster_overflow_drops_oldest_only_for_that_subscriber() {
    let mut bus = Broadcaster::new();
    let small = bus.subscribe(4);
    let large = bus.subscribe(64);
    for i in 0..10i64 {
        let ev = BroadcastEvent {
            event: "tick".to_string(),
            data: JsonVal::Int(i),
        };
        bus.broadcast(&ev);
    }
    // the small subscriber holds the four most recent events
    for expected in 6..10i64 {
        let got = bus.recv(small).expect("queued event");
        assert_eq!(got.data, JsonVal::Int(expected));
    }
    assert!(bus.recv(small).is_none());
    assert_eq!(bus.drop_count(small), Some(6));
    // the large subscriber saw everything, in publish order
    for expected in 0..10i64 {
        let got = bus.recv(large).expect("queued event");
        assert_eq!(got.data, JsonVal::Int(expected));
    }
    assert_eq!(bus.drop_count(large), Some(0));
    assert!(bus.unsubscribe(small));
    assert!(!bus.unsubscribe(small));
}

#[test]
fn subagent_lifecycle_and_cancel() {
    let mut mgr = SubagentManager::new();
    assert!(mgr.spawn(
        "id-1".to_string(),
        "research".to_string(),
        "find facts".to_string(),
        "2024-01-01T00:00:00Z".to_string(),
        7,
    ));
    assert!(!mgr.spawn(
        "id-1".to_string(),
        "dup".to_string(),
        "x".to_string(),
        "2024-01-01T00:00:00Z".to_string(),
        7,
    ));
    assert!(mgr.set_running("id-1"));
    let listed = mgr.list_by_channel(7);
    assert_eq!(listed.len(), 1);
    assert_eq!(listed[0].status, SubagentStatus::Running);
    assert!(mgr.cancel("id-1"));
    assert!(!mgr.cancel("id-1"));
    assert!(!mgr.finish("id-1", true));
    let listed = mgr.list_by_channel(7);
    assert_eq!(listed[0].status, SubagentStatus::Cancelled);
}

#[test]
fn cancel_all_counts_live_agents() {
    let mut mgr = SubagentManager::new();
    let stamp = "2024-01-01T00:00:00Z".to_string();
    assert!(mgr.spawn("a".to_string(), "l".to_string(), "t".to_string(), stamp.clone(), 1));
    assert!(mgr.spawn("b".to_string(), "l".to_string(), "t".to_string(), stamp.clone(), 1));
    assert!(mgr.spawn("c".to_string(), "l".to_string(), "t".to_string(), stamp.clone(), 2));
    assert!(mgr.set_running("a"));
    assert!(mgr.finish("a", false));
    assert_eq!(mgr.cancel_all_for_channel(1), 1);
    let listed = mgr.list_by_channel(1);
    assert_eq!(listed[0].status, SubagentStatus::Failed);
    assert_eq!(listed[1].status, SubagentStatus::Cancelled);
    assert_eq!(mgr.list_by_channel(2)[0].status, SubagentStatus::Pending);
}

#[test]
fn loop_step_appends_rounds_in_order() {
    let mut st = AgentLoopState {
        conversation: vec![],
        pending_calls: vec![],
        round: 0,
        max_rounds: 10,
        cancelled: false,
        channel_id: 3,
    };
    let reply = AiResponse::with_tools(
        "".to_string(),
        vec![
            ToolCall { id: "c1".to_string(), name: "exec".to_string(), arguments: JsonVal::Null },
            ToolCall { id: "c2".to_string(), name: "exec".to_string(), arguments: JsonVal::Null },
        ],
    );
    let out = loop_step(&mut st, LoopEvent::Completion(reply));
    assert!(matches!(out.action, LoopAction::RunTools));
    assert_eq!(out.events.len(), 2);
    assert_eq!(out.events[0].event, "agent.tool_call");
    assert_eq!(st.conversation.len(), 1);
    assert_eq!(st.pending_calls.len(), 2);

    let results = vec![
        ToolResponse::success("c1".to_string(), "one".to_string()),
        ToolResponse::success("c2".to_string(), "two".to_string()),
    ];
    let out2 = loop_step(&mut st, LoopEvent::ToolResults(results));
    assert!(matches!(out2.action, LoopAction::CallProvider));
    assert_eq!(st.conversation.len(), 3);
    assert_eq!(st.conversation[1].role, MsgRole::Tool);
    assert_eq!(st.conversation[1].tool_call_id.as_deref(), Some("c1"));
    assert_eq!(st.conversation[2].tool_call_id.as_deref(), Some("c2"));
    assert_eq!(st.round, 1);
}

#[test]
fn loop_step_after_cancel_emits_nothing() {
    let mut st = AgentLoopState {
        conversation: vec![],
        pending_calls: vec![],
        round: 0,
        max_rounds: 10,
        cancelled: false,
        channel_id: 3,
    };
    let out = loop_step(&mut st, LoopEvent::Cancelled);
    match out.action {
        LoopAction::Done(a) => {
            assert_eq!(a.content, "");
            assert_eq!(a.stop_reason.as_deref(), Some("error"));
        }
        _ => panic!("cancel must finish the loop"),
    }
    assert!(out.events.is_empty());
    // once cancelled, later completions decide nothing and emit nothing
    let reply = AiResponse::text("late".to_string());
    let out2 = loop_step(&mut st, LoopEvent::Completion(reply));
    assert!(out2.events.is_empty());
    assert!(matches!(out2.action, LoopAction::Done(_)));
    assert!(st.conversation.is_empty());
}

#[test]
fn loop_step_stops_at_round_budget() {
    let mut st = AgentLoopState {
        conversation: vec![],
        pending_calls: vec![],
        round: 0,
        max_rounds: 1,
        cancelled: false,
        channel_id: 3,
    };
    let out = loop_step(&mut st, LoopEvent::ToolResults(vec![]));
    match out.action {
        LoopAction::Done(a) => {
            assert_eq!(a.content, "max tool rounds reached");
            assert_eq!(a.stop_reason.as_deref(), Some("end_turn"));
        }
        _ => panic!("budget must end the loop"),
    }
}

#[test]
fn executor_timeout_and_truncation() {
    assert_eq!(effective_timeout(None, 300), 60);
    assert_eq!(effective_timeout(Some(10), 300), 10);
    assert_eq!(effective_timeout(Some(900), 300), 300);

    let short = "hello".to_string();
    assert_eq!(truncate_output(&short), "hello");
    let long = "x".repeat(50_001);
    let cut = truncate_output(&long);
    assert_eq!(
        cut.len(),
        50_000 + "\n\n[Output truncated at 50000 characters]".len()
    );
    assert!(cut.ends_with("[Output truncated at 50000 characters]"));
}

#[test]
fn cancelled_execution_reports_cancelled_and_emits_no_event() {
    let mut ctx = ToolContext::new();
    ctx.cancelled = true;
    let raw = ToolResult::success("partial".to_string());
    let (result, event) = finalize_tool_result(&ctx, &"exec".to_string(), raw, 12);
    assert!(!result.success);
    assert_eq!(result.content, "cancelled");
    assert!(event.is_none());

    let ctx2 = ToolContext::new();
    let raw2 = ToolResult::success("done".to_string());
    let (result2, event2) = finalize_tool_result(&ctx2, &"exec".to_string(), raw2, 12);
    assert!(result2.success);
    let ev = event2.expect("a finished call is announced");
    assert_eq!(ev.event, "tool.result");
}

#[test]
fn exec_output_shapes() {
    assert_eq!(
        build_exec_output(&"out".to_string(), &"".to_string(), 0, true),
        "out"
    );
    assert_eq!(
        build_exec_output(&"out".to_string(), &"err".to_string(), 1, false),
        "out\n--- stderr ---\nerr"
    );
    assert_eq!(
        build_exec_output(&"".to_string(), &"".to_string(), 0, true),
        "Command completed successfully (exit code: 0)"
    );
    assert_eq!(
        build_exec_output(&"".to_string(), &"".to_string(), -1, false),
        "Command failed with exit code: -1"
    );
}

#[test]
fn registry_replaces_by_name_and_filters_by_group() {
    let mut reg = ToolRegistry::new();
    reg.register(stark_backend::exec_tool::ExecTool::new().definition());
    reg.register(stark_backend::twitter::TwitterPostTool::new().definition());
    reg.register(stark_backend::resolve_user::DiscordResolveUserTool::new().definition());
    assert_eq!(reg.list().len(), 3);
    assert!(reg.get("exec").is_some());
    assert!(reg.get("nope").is_none());
    // re-register replaces rather than duplicates
    reg.register(stark_backend::exec_tool::ExecTool::with_config(30, "restricted".to_string()).definition());
    assert_eq!(reg.list().len(), 3);
    let messaging = reg.list_for_permissions(&vec![ToolGroup::Messaging]);
    assert_eq!(messaging.len(), 2);
    assert_eq!(messaging[0].name, "twitter_post");
    assert_eq!(messaging[1].name, "discord_resolve_user");
}

#[test]
fn tracker_queues_one_and_refuses_more() {
    let mut t = ExecutionTracker::new();
    assert_eq!(t.try_begin(5), StartOutcome::Start);
    assert_eq!(t.try_begin(5), StartOutcome::Queue);
    assert_eq!(t.try_begin(5), StartOutcome::Busy);
    assert_eq!(t.try_begin(6), StartOutcome::Start);
    assert!(t.finish(5));
    assert_eq!(t.try_begin(5), StartOutcome::Queue);
    assert!(t.finish(5));
    assert!(!t.finish(5));
    assert_eq!(t.try_begin(5), StartOutcome::Start);
}

#[test]
fn split_message_respects_the_cap() {
    let short = split_message("hello", 2000);
    assert_eq!(short, vec!["hello".to_string()]);

    let text = "aaaa\nbb\ncccc";
    let chunks = split_message(text, 5);
    assert!(chunks.iter().all(|c| c.len() <= 5 && !c.is_empty()));
    assert_eq!(chunks[0], "aaaa");
    assert_eq!(chunks[1], "bb");
    assert_eq!(chunks[2], "cccc");

    let long_line = "x".repeat(12);
    let pieces = split_message(&long_line, 5);
    assert!(pieces.iter().all(|c| c.len() <= 5 && !c.is_empty()));
    assert_eq!(pieces.concat(), long_line);
}

#[test]
fn discord_formatting() {
    assert_eq!(
        format_tool_result_for_discord("exec", true, 42, "hi"),
        "✅ **Tool Result:** `exec` (42 ms)\n```\nhi\n```"
    );
    assert_eq!(
        format_mode_change_for_discord("plan", "Planning", Some("new task")),
        "📋 **Mode:** Planning - new task"
    );
    assert_eq!(
        format_mode_change_for_discord("explore", "Exploring", None),
        "🔍 **Mode:** Exploring"
    );
    assert_eq!(discord_display_name("ada", Some(7)), "ada#7");
    assert_eq!(discord_display_name("ada", None), "ada");
}

#[test]
fn event_rendering_and_channel_filter() {
    let ev = make_tool_result_event(9, &"exec".to_string(), true, 5, &"ok".to_string());
    assert!(event_matches_channel(&ev, 9));
    assert!(!event_matches_channel(&ev, 10));
    assert_eq!(
        render_event_for_discord(&ev),
        Some("✅ **Tool Result:** `exec` (5 ms)\n```\nok\n```".to_string())
    );
    let done = make_task_completed_event(9, "cancelled");
    assert_eq!(render_event_for_discord(&done), Some("❌ Task cancelled".to_string()));
    let silent = stark_backend::broadcast::BroadcastEvent {
        event: "agent.thinking".to_string(),
        data: JsonVal::Null,
    };
    assert_eq!(render_event_for_discord(&silent), None);
}

#[test]
fn chat_helpers() {
    assert_eq!(
        extract_bearer_token(Some("Bearer abc123")),
        Some("abc123".to_string())
    );
    assert_eq!(extract_bearer_token(None), None);

    let messages = vec![
        ChatMessage { role: "user".to_string(), content: "first".to_string() },
        ChatMessage { role: "assistant".to_string(), content: "reply".to_string() },
        ChatMessage { role: "user".to_string(), content: "second".to_string() },
    ];
    assert_eq!(latest_user_message(&messages), Some("second".to_string()));
    assert_eq!(latest_user_message(&vec![]), None);

    assert_eq!(web_user_id(&None, "tok12345xyz"), "web-tok12345");
    assert_eq!(web_user_id(&Some("me".to_string()), "t"), "me");
    assert_eq!(web_user_name("abcdefghij"), "web-user-abcdefgh");

    assert_eq!(stop_message(0), "Execution stopped");
    assert_eq!(stop_message(2), "Execution stopped. 2 subagent(s) cancelled.");
    assert_eq!(cancel_subagent_message("s1", true), "Subagent s1 cancelled");
    assert_eq!(
        cancel_subagent_message("s1", false),
        "Subagent s1 not found or already completed"
    );

    let long = "t".repeat(120);
    let cut = truncate_task(&long);
    assert_eq!(cut.len(), 100);
    assert!(cut.ends_with("..."));

    assert_eq!(discover_params(None, None), (0, 20));
    assert_eq!(discover_params(Some(5), Some(500)), (5, 100));
}

#[test]
fn admin_list_parsing() {
    assert_eq!(
        parse_admin_ids(" 123 ,,456, 123 "),
        vec!["123".to_string(), "456".to_string()]
    );
    assert_eq!(parse_admin_ids(""), Vec::<String>::new());
}

#[test]
fn tweet_request_checks() {
    let good = JsonVal::Obj(vec![(
        "text".to_string(),
        JsonVal::Str("hello".to_string()),
    )]);
    let (text, reply, quote) = tweet_request(&good).unwrap();
    assert_eq!(text, "hello");
    assert!(reply.is_none());
    assert!(quote.is_none());

    let empty = JsonVal::Obj(vec![("text".to_string(), JsonVal::Str("".to_string()))]);
    let err = tweet_request(&empty).unwrap_err();
    assert_eq!(err.content, "Tweet text cannot be empty");

    let oversize = JsonVal::Obj(vec![(
        "text".to_string(),
        JsonVal::Str("y".repeat(25_001)),
    )]);
    let err2 = tweet_request(&oversize).unwrap_err();
    assert_eq!(
        err2.content,
        "Tweet exceeds maximum character limit (got 25001)"
    );
}

#[test]
fn settings_defaults_and_update_sql() {
    let s = AgentSettings::with_defaults("2024-01-01T00:00:00Z".to_string());
    assert_eq!(s.model_archetype, "kimi");
    assert_eq!(s.max_tokens, 40000);
    assert!(s.enabled);

    let row = agent_settings_from_row(
        3,
        "http://x".to_string(),
        None,
        None,
        1,
        None,
        "t1".to_string(),
        "t2".to_string(),
    );
    assert_eq!(row.model_archetype, default_archetype());
    assert_eq!(row.max_tokens, default_max_tokens());
    assert!(row.enabled);

    assert_eq!(
        channel_update_sql(true, false, true, false),
        "UPDATE external_channels SET updated_at = ?1, name = ?2, bot_token = ?3 WHERE id = ?4"
    );
    assert_eq!(
        channel_update_sql(false, false, false, false),
        "UPDATE external_channels SET updated_at = ?1 WHERE id = ?2"
    );
}

#[test]
fn conversation_window_keeps_newest_turns() {
    let history = vec![
        Message::user("one".to_string()),
        Message::assistant("two".to_string()),
        Message::user("three".to_string()),
    ];
    let conv = build_conversation("be nice".to_string(), &history, "now".to_string(), 2);
    assert_eq!(conv.len(), 4);
    assert_eq!(conv[0].role, MsgRole::System);
    assert_eq!(conv[0].content, "be nice");
    assert_eq!(conv[1].content, "two");
    assert_eq!(conv[2].content, "three");
    assert_eq!(conv[3].role, MsgRole::User);
    assert_eq!(conv[3].content, "now");
}

#[test]
fn telemetry_slot_records_annotations() {
    let mut slot = TelemetrySlot::new();
    emit_annotation(&mut slot, "k", JsonVal::Int(1));
    assert!(with_active_collector(&slot).is_none());

    set_active_collector(&mut slot, SpanCollector::new());
    emit_annotation(&mut slot, "k", JsonVal::Int(1));
    emit_message(&mut slot, "note");
    let collector = with_active_collector(&slot).expect("collector installed");
    assert_eq!(collector.spans.len(), 2);
    assert_eq!(collector.spans[0].name, "k");
    assert_eq!(collector.spans[1].name, "message");
    clear_active_collector(&mut slot);
    assert!(with_active_collector(&slot).is_none());
}

#[test]
fn routing_decisions() {
    assert!(matches!(
        route_message(false, &"x".to_string(), true),
        HookDecision::NotHandled
    ));
    assert!(matches!(
        route_message(true, &"".to_string(), true),
        HookDecision::Greet
    ));
    assert!(matches!(
        route_message(true, &"deploy".to_string(), true),
        HookDecision::Forward
    ));
    assert!(matches!(
        route_message(true, &"register".to_string(), false),
        HookDecision::TryLimitedCommand
    ));
    assert!(greeting_message().contains("StarkBot"));
}

#[test]
fn client_configuration() {
    let c = OpenAIClient::new("sk-ok", None, None).unwrap();
    assert_eq!(c.endpoint, "https://api.openai.com/v1/chat/completions");
    assert_eq!(c.model, "gpt-4o");
    let c2 = OpenAIClient::new("sk-ok", Some("http://local/v1"), Some("m")).unwrap();
    assert_eq!(c2.endpoint, "http://local/v1");
    assert_eq!(c2.model, "m");
    assert_eq!(
        OpenAIClient::new("bad\nkey", None, None).unwrap_err(),
        "Invalid API key format"
    );
}

#[test]
fn request_offers_tools_only_when_given() {
    let messages = vec![stark_backend::ai_types::Message::user("hi".to_string())];
    let req = build_completion_request(&"gpt-4o".to_string(), &messages, vec![], &vec![]);
    assert!(req.tools.is_none());
    assert!(req.tool_choice.is_none());
    assert_eq!(req.max_tokens, 4096);
    assert_eq!(req.messages.len(), 1);
    assert_eq!(req.messages[0].role, "user");

    let defs = vec![stark_backend::exec_tool::ExecTool::new().definition()];
    let req2 = build_completion_request(&"gpt-4o".to_string(), &messages, vec![], &defs);
    assert_eq!(req2.tools.as_ref().unwrap().len(), 1);
    assert_eq!(req2.tools.as_ref().unwrap()[0].tool_type, "function");
    assert_eq!(req2.tool_choice.as_deref(), Some("auto"));
}

#[test]
fn plain_reply_appends_one_assistant_turn() {
    let mut st = AgentLoopState {
        conversation: vec![Message::user("what is 2+2".to_string())],
        pending_calls: vec![],
        round: 0,
        max_rounds: 10,
        cancelled: false,
        channel_id: 0,
    };
    let out = loop_step(&mut st, LoopEvent::Completion(AiResponse::text("4".to_string())));
    match out.action {
        LoopAction::Done(a) => {
            assert_eq!(a.content, "4");
            assert_eq!(a.stop_reason.as_deref(), Some("end_turn"));
        }
        _ => panic!("a text reply ends the loop"),
    }
    assert!(out.events.is_empty());
    assert_eq!(st.conversation.len(), 2);
    assert_eq!(st.conversation[1].role, MsgRole::Assistant);
    assert_eq!(st.conversation[1].content, "4");
}

#[test]
fn blocked_command_names_the_rule() {
    let tool = stark_backend::exec_tool::ExecTool::new();
    assert_eq!(
        tool.is_dangerous_command("rm -rf /").as_deref(),
        Some("Attempted to delete root filesystem")
    );
    assert_eq!(
        tool.is_dangerous_command("sudo shutdown now").as_deref(),
        Some("System shutdown not allowed")
    );
    assert_eq!(
        tool.is_dangerous_command("CHMOD -R 777 /").as_deref(),
        Some("Dangerous permission change")
    );
}

#[test]
fn tool_results_become_result_blocks() {
    let responses = vec![
        ToolResponse::success("c1".to_string(), "fine".to_string()),
        ToolResponse::error("c2".to_string(), "broke".to_string()),
    ];
    let blocks = stark_backend::claude::responses_to_result_blocks(&responses);
    assert_eq!(blocks.len(), 2);
    match &blocks[0] {
        ClaudeContentBlock::ToolResult { tool_use_id, content, is_error } => {
            assert_eq!(tool_use_id, "c1");
            assert_eq!(content, "fine");
            assert_eq!(*is_error, None);
        }
        _ => panic!("a response becomes a tool result block"),
    }
    match &blocks[1] {
        ClaudeContentBlock::ToolResult { is_error, .. } => assert_eq!(*is_error, Some(true)),
        _ => panic!("a response becomes a tool result block"),
    }
}

#[test]
fn mention_extraction_finds_the_leftmost() {
    assert_eq!(
        extract_user_id("please tip <@!11> and <@22>"),
        Some("11".to_string())
    );
    assert_eq!(extract_user_id("<@>"), None);
}

#[test]
fn tool_replies_carry_exact_json() {
    let posted = stark_backend::twitter::tweet_success_result(&"1".to_string(), &"hi".to_string());
    assert!(posted.success);
    assert_eq!(
        posted.content,
        "{\"success\":true,\"tweet_id\":\"1\",\"text\":\"hi\",\"url\":\"https://twitter.com/i/web/status/1\"}"
    );

    let unknown = stark_backend::resolve_user::resolve_user_reply(&"42".to_string(), None);
    assert!(unknown.success);
    assert_eq!(
        unknown.content,
        "{\"discord_user_id\":\"42\",\"username\":null,\"public_address\":null,\"registered\":false,\"error\":\"User has never interacted with StarkBot. They need to run '@starkbot register <address>' first.\"}"
    );
}
