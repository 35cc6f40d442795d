//! The shell execution tool: its definition, its parameter reading, the
//! dangerous-command gate, and the shaping of a finished command's output.
//! Spawning the process itself is transport work and happens outside.

use vstd::prelude::*;
use crate::json::{JsonVal, JsonData};
use crate::tool_types::{ToolDefinition, ToolInputSchema, PropertySchema, ToolGroup,
    clone_definition};
use crate::text::{
    chars_vec, lower_chars, lower_seq, contains_sub, has_sub, string_from_chars, append_str,
    append_chars, u64_to_chars, i64_to_chars, dec_rep_i64,
};

verus! {

broadcast use vstd::seq::group_seq_axioms, vstd::std_specs::vec::group_vec_axioms;

/// Command execution tool with configurable security.
#[derive(Debug)]
pub struct ExecTool {
    pub definition: ToolDefinition,
    /// Longest allowed execution, in seconds.
    pub max_timeout: u64,
    /// Security mode: `full` allows shell syntax, `restricted` refuses
    /// shell metacharacters.
    pub security_mode: String,
}

/// The reason a command is refused, or nothing when it may run. Patterns are
/// matched case-insensitively (ASCII) anywhere in the command; in restricted
/// mode any shell metacharacter is refused as well.
pub open spec fn dangerous_reason(security_mode: Seq<char>, command: Seq<char>) -> Option<
    Seq<char>,
> {
    let lower = lower_seq(command);
    if has_sub(lower, "rm -rf /"@) {
        Some("Attempted to delete root filesystem"@)
    } else if has_sub(lower, "mkfs"@) {
        Some("Filesystem formatting not allowed"@)
    } else if has_sub(lower, "dd if="@) {
        Some("Raw disk operations not allowed"@)
    } else if has_sub(lower, ":(){:|:&};:"@) {
        Some("Fork bomb detected"@)
    } else if has_sub(lower, "chmod -r 777 /"@) {
        Some("Dangerous permission change"@)
    } else if has_sub(lower, "shutdown"@) {
        Some("System shutdown not allowed"@)
    } else if has_sub(lower, "reboot"@) {
        Some("System reboot not allowed"@)
    } else if has_sub(lower, "init 0"@) {
        Some("System halt not allowed"@)
    } else if has_sub(lower, "init 6"@) {
        Some("System reboot not allowed"@)
    } else if security_mode == "restricted"@ && (exists|i: int|
        0 <= i < command.len() && is_shell_meta(command[i])) {
        Some("Shell metacharacters not allowed in restricted mode"@)
    } else {
        None
    }
}

/// A shell metacharacter, refused in restricted mode.
pub open spec fn is_shell_meta(c: char) -> bool {
    c == '|' || c == ';' || c == '&' || c == '$' || c == '`' || c == '(' || c == ')' || c == '<'
        || c == '>'
}

fn check_pattern(lower: &Vec<char>, pat: &str) -> (r: bool)
    ensures
        r == has_sub(lower@, pat@),
{
    let pv = chars_vec(pat);
    contains_sub(lower, &pv)
}

fn has_meta(cmd: &Vec<char>) -> (r: bool)
    ensures
        r == (exists|i: int| 0 <= i < cmd@.len() && is_shell_meta(cmd@[i])),
{
    let mut i: usize = 0;
    while i < cmd.len()
        invariant
            i <= cmd@.len(),
            forall|j: int| 0 <= j < i ==> !is_shell_meta(cmd@[j]),
        decreases cmd@.len() - i,
    {
        let c = cmd[i];
        if c == '|' || c == ';' || c == '&' || c == '$' || c == '`' || c == '(' || c == ')' || c
            == '<' || c == '>' {
            proof {
                assert(is_shell_meta(cmd@[i as int]));
            }
            return true;
        }
        i = i + 1;
    }
    false
}

impl ExecTool {
    pub fn new() -> (r: ExecTool)
        ensures
            r.definition@.name == "exec"@,
            r.definition@.group == ToolGroup::Exec,
            r.max_timeout == 300,
            r.security_mode@ == "full"@,
    {
        ExecTool::with_config(300, "full".to_owned())
    }

    /// Build the tool with a timeout ceiling and a security mode. The input
    /// contract offers `command` (required), `workdir`, `timeout`, and `env`.
    pub fn with_config(max_timeout: u64, security_mode: String) -> (r: ExecTool)
        ensures
            r.definition@.name == "exec"@,
            r.definition@.group == ToolGroup::Exec,
            r.definition@.input_schema.schema_type == "object"@,
            r.definition@.input_schema.required == seq!["command"@],
            r.definition@.input_schema.properties.len() == 4,
            r.definition@.input_schema.properties[0].0 == "command"@,
            r.definition@.input_schema.properties[0].1.schema_type == "string"@,
            r.definition@.input_schema.properties[1].0 == "workdir"@,
            r.definition@.input_schema.properties[1].1.schema_type == "string"@,
            r.definition@.input_schema.properties[2].0 == "timeout"@,
            r.definition@.input_schema.properties[2].1.schema_type == "integer"@,
            r.definition@.input_schema.properties[2].1.default == Some(JsonData::Int(60)),
            r.definition@.input_schema.properties[3].0 == "env"@,
            r.definition@.input_schema.properties[3].1.schema_type == "object"@,
            r.max_timeout == max_timeout,
            r.security_mode == security_mode,
    {
        let mut timeout_desc = chars_vec("Timeout in seconds (default: 60, max: ");
        let max_chars = u64_to_chars(max_timeout);
        append_chars(&mut timeout_desc, &max_chars);
        timeout_desc.push(')');
        let mut properties: Vec<(String, PropertySchema)> = Vec::new();
        properties.push(
            (
                "command".to_owned(),
                PropertySchema {
                    schema_type: "string".to_owned(),
                    description:
                        "The shell command to execute. Can include pipes, redirects, and shell features.".to_owned(),
                    default: None,
                    items: None,
                    enum_values: None,
                },
            ),
        );
        properties.push(
            (
                "workdir".to_owned(),
                PropertySchema {
                    schema_type: "string".to_owned(),
                    description:
                        "Working directory for command execution (defaults to workspace)".to_owned(),
                    default: None,
                    items: None,
                    enum_values: None,
                },
            ),
        );
        properties.push(
            (
                "timeout".to_owned(),
                PropertySchema {
                    schema_type: "integer".to_owned(),
                    description: string_from_chars(&timeout_desc),
                    default: Some(JsonVal::Int(60)),
                    items: None,
                    enum_values: None,
                },
            ),
        );
        properties.push(
            (
                "env".to_owned(),
                PropertySchema {
                    schema_type: "object".to_owned(),
                    description: "Environment variables to set for the command".to_owned(),
                    default: Some(JsonVal::Obj(Vec::new())),
                    items: None,
                    enum_values: None,
                },
            ),
        );
        let mut required: Vec<String> = Vec::new();
        required.push("command".to_owned());
        proof {
            assert(Seq::new(required@.len(), |i: int| required@[i]@) =~= seq!["command"@]);
        }
        ExecTool {
            definition: ToolDefinition {
                name: "exec".to_owned(),
                description:
                    "Execute a shell command in the workspace. Supports full shell syntax including pipes, redirects, and command chaining. Use for running CLI tools, scripts, and system commands.".to_owned(),
                input_schema: ToolInputSchema {
                    schema_type: "object".to_owned(),
                    properties,
                    required,
                },
                group: ToolGroup::Exec,
            },
            max_timeout,
            security_mode,
        }
    }

    /// The tool's definition, as registered.
    pub fn definition(&self) -> (r: ToolDefinition)
        ensures
            r@ == self.definition@,
    {
        clone_definition(&self.definition)
    }

    /// The reason a command must be blocked, or nothing when it may run.
    pub fn is_dangerous_command(&self, command: &str) -> (r: Option<String>)
        ensures
            match r {
                Some(msg) => dangerous_reason(self.security_mode@, command@) == Some(msg@),
                None => dangerous_reason(self.security_mode@, command@) is None,
            },
    {
        let cmd = chars_vec(command);
        let lower = lower_chars(&cmd);
        if check_pattern(&lower, "rm -rf /") {
            return Some("Attempted to delete root filesystem".to_owned());
        }
        if check_pattern(&lower, "mkfs") {
            return Some("Filesystem formatting not allowed".to_owned());
        }
        if check_pattern(&lower, "dd if=") {
            return Some("Raw disk operations not allowed".to_owned());
        }
        if check_pattern(&lower, ":(){:|:&};:") {
            return Some("Fork bomb detected".to_owned());
        }
        if check_pattern(&lower, "chmod -r 777 /") {
            return Some("Dangerous permission change".to_owned());
        }
        if check_pattern(&lower, "shutdown") {
            return Some("System shutdown not allowed".to_owned());
        }
        if check_pattern(&lower, "reboot") {
            return Some("System reboot not allowed".to_owned());
        }
        if check_pattern(&lower, "init 0") {
            return Some("System halt not allowed".to_owned());
        }
        if check_pattern(&lower, "init 6") {
            return Some("System reboot not allowed".to_owned());
        }
        if crate::text::str_eq(self.security_mode.as_str(), "restricted") {
            if has_meta(&cmd) {
                return Some("Shell metacharacters not allowed in restricted mode".to_owned());
            }
        }
        None
    }
}

impl Default for ExecTool {
    fn default() -> (r: ExecTool)
        ensures
            r.definition@.name == "exec"@,
            r.max_timeout == 300,
            r.security_mode@ == "full"@,
    {
        ExecTool::new()
    }
}

/// The command's combined output: standard output, then standard error behind
/// a separator when both are present; a fallback line when there was none.
pub open spec fn exec_output_text(
    stdout: Seq<char>,
    stderr: Seq<char>,
    exit_code: int,
    success: bool,
) -> Seq<char> {
    if stdout.len() == 0 && stderr.len() == 0 {
        if success {
            "Command completed successfully (exit code: "@ + dec_rep_i64(exit_code) + ")"@
        } else {
            "Command failed with exit code: "@ + dec_rep_i64(exit_code)
        }
    } else if stdout.len() > 0 && stderr.len() > 0 {
        stdout + "\n--- stderr ---\n"@ + stderr
    } else if stdout.len() > 0 {
        stdout
    } else {
        stderr
    }
}

/// Combine a finished command's streams into the text the model will read.
pub fn build_exec_output(stdout: &String, stderr: &String, exit_code: i64, success: bool) -> (r:
    String)
    ensures
        r@ == exec_output_text(stdout@, stderr@, exit_code as int, success),
{
    let out_empty = stdout.as_str().is_empty();
    let err_empty = stderr.as_str().is_empty();
    if out_empty && err_empty {
        let mut text = if success {
            chars_vec("Command completed successfully (exit code: ")
        } else {
            chars_vec("Command failed with exit code: ")
        };
        let code = i64_to_chars(exit_code);
        append_chars(&mut text, &code);
        if success {
            text.push(')');
        }
        proof {
            reveal_strlit(")");
            if success {
                assert(")"@ =~= seq![')']);
                assert(text@ =~= exec_output_text(stdout@, stderr@, exit_code as int, success));
            }
        }
        string_from_chars(&text)
    } else if !out_empty && !err_empty {
        let mut text = chars_vec(stdout.as_str());
        append_str(&mut text, "\n--- stderr ---\n");
        append_str(&mut text, stderr.as_str());
        string_from_chars(&text)
    } else if !out_empty {
        stdout.clone()
    } else {
        stderr.clone()
    }
}

} // verus!
