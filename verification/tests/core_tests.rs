use stark_backend::ai_types::{AiResponse, ToolCall, ToolResponse};
use stark_backend::json::JsonVal;
use stark_backend::hooks::{DiscordHooksConfig, extract_command_text};
use stark_backend::resolve_user::{DiscordResolveUserTool, extract_user_id};
use stark_backend::exec_tool::ExecTool;
use stark_backend::twitter::{TwitterPostTool, percent_encode};
use stark_backend::tool_types::ToolGroup;

#[test]
fn test_ai_response_text() {
    let response = AiResponse::text("Hello world".to_string());
    assert_eq!(response.content, "Hello world");
    assert!(response.tool_calls.is_empty());
    assert!(!response.is_tool_use());
}

#[test]
fn test_ai_response_with_tools() {
    let tool_call = ToolCall {
        id: "call_123".to_string(),
        name: "web_search".to_string(),
        arguments: JsonVal::Obj(vec![(
            "query".to_string(),
            JsonVal::Str("rust programming".to_string()),
        )]),
    };
    let response = AiResponse::with_tools("Searching...".to_string(), vec![tool_call]);

    assert!(response.has_tool_calls());
    assert!(response.is_tool_use());
    assert_eq!(response.tool_calls.len(), 1);
}

#[test]
fn test_tool_response() {
    let success = ToolResponse::success("call_123".to_string(), "Result".to_string());
    assert!(!success.is_error);

    let error = ToolResponse::error("call_456".to_string(), "Failed".to_string());
    assert!(error.is_error);
}

#[test]
fn test_empty_config() {
    let config = DiscordHooksConfig::empty();
    assert!(!config.is_admin("123"));
    assert_eq!(config.admin_count(), 0);
    assert!(!config.has_admins());
}

#[test]
fn test_with_admins() {
    let config = DiscordHooksConfig::with_admins(vec![
        "123456789".to_string(),
        "987654321".to_string(),
    ]);

    assert!(config.is_admin("123456789"));
    assert!(config.is_admin("987654321"));
    assert!(!config.is_admin("111111111"));
    assert_eq!(config.admin_count(), 2);
    assert!(config.has_admins());
}

#[test]
fn test_extract_command_text() {
    let bot_id: u64 = 123456789;

    // Normal mention
    assert_eq!(extract_command_text("<@123456789> help", bot_id), "help");

    // Nickname mention
    assert_eq!(
        extract_command_text("<@!123456789> register 0x123", bot_id),
        "register 0x123"
    );

    // Multiple mentions
    assert_eq!(
        extract_command_text("<@123456789> <@123456789> test", bot_id),
        "test"
    );

    // No mention
    assert_eq!(extract_command_text("just some text", bot_id), "just some text");
}

#[test]
fn test_extract_user_id_mention() {
    assert_eq!(
        extract_user_id("<@123456789012345678>"),
        Some("123456789012345678".to_string())
    );
}

#[test]
fn test_extract_user_id_nick_mention() {
    assert_eq!(
        extract_user_id("<@!123456789012345678>"),
        Some("123456789012345678".to_string())
    );
}

#[test]
fn test_extract_user_id_raw() {
    assert_eq!(
        extract_user_id("123456789012345678"),
        Some("123456789012345678".to_string())
    );
}

#[test]
fn test_extract_user_id_invalid() {
    assert_eq!(extract_user_id("invalid"), None);
    assert_eq!(extract_user_id("@username"), None);
    assert_eq!(extract_user_id(""), None);
}

#[test]
fn test_definition() {
    let tool = DiscordResolveUserTool::new();
    let def = tool.definition();

    assert_eq!(def.name, "discord_resolve_user");
    assert_eq!(def.group, ToolGroup::Messaging);
    assert!(def.input_schema.required.contains(&"user_mention".to_string()));
}

#[test]
fn test_dangerous_command_detection() {
    let tool = ExecTool::new();

    assert!(tool.is_dangerous_command("rm -rf /").is_some());
    assert!(tool.is_dangerous_command("mkfs.ext4 /dev/sda").is_some());
    assert!(tool.is_dangerous_command(":(){:|:&};:").is_some());

    // Safe commands
    assert!(tool.is_dangerous_command("ls -la").is_none());
    assert!(tool.is_dangerous_command("curl wttr.in").is_none());
    assert!(tool.is_dangerous_command("echo hello | grep hello").is_none());
}

#[test]
fn test_restricted_mode() {
    let tool = ExecTool::with_config(60, "restricted".to_string());

    // Shell metacharacters blocked in restricted mode
    assert!(tool.is_dangerous_command("echo hello | grep hello").is_some());
    assert!(tool.is_dangerous_command("ls; pwd").is_some());

    // Simple commands allowed
    assert!(tool.is_dangerous_command("ls -la").is_none());
}

#[test]
fn test_percent_encode() {
    assert_eq!(percent_encode("hello"), "hello");
    assert_eq!(percent_encode("hello world"), "hello%20world");
    assert_eq!(percent_encode("a=b&c=d"), "a%3Db%26c%3Dd");
}

#[test]
fn test_tool_definition() {
    let tool = TwitterPostTool::new();
    let def = tool.definition();
    assert_eq!(def.name, "twitter_post");
    assert!(def.input_schema.required.contains(&"text".to_string()));
}
