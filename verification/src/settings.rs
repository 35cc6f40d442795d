//! Settings and channel records as the persistence layer stores them, with
//! the defaulting rules the rows go through and the text of the dynamic
//! channel update statement. Timestamps travel as RFC 3339 text.

use vstd::prelude::*;
use crate::text::{chars_vec, string_from_chars, append_str, append_chars, u64_to_chars, dec_rep};

verus! {

broadcast use vstd::seq::group_seq_axioms, vstd::std_specs::vec::group_vec_axioms;

/// Agent provider settings.
#[derive(Debug)]
pub struct AgentSettings {
    pub id: i64,
    pub endpoint: String,
    pub model_archetype: String,
    pub max_tokens: i32,
    pub enabled: bool,
    pub secret_key: Option<String>,
    pub created_at: String,
    pub updated_at: String,
}

impl AgentSettings {
    /// The fallback settings used when no provider is configured.
    pub fn with_defaults(now: String) -> (r: AgentSettings)
        ensures
            r.id == 0,
            r.endpoint@ == "https://kimi.defirelay.com/api/v1/chat/completions"@,
            r.model_archetype@ == "kimi"@,
            r.max_tokens == 40000,
            r.enabled,
            r.secret_key is None,
            r.created_at@ == now@,
            r.updated_at@ == now@,
    {
        AgentSettings {
            id: 0,
            endpoint: "https://kimi.defirelay.com/api/v1/chat/completions".to_owned(),
            model_archetype: "kimi".to_owned(),
            max_tokens: 40000,
            enabled: true,
            secret_key: None,
            created_at: now.clone(),
            updated_at: now,
        }
    }
}

/// Settings as the API reports them: the key itself never leaves, only
/// whether one is stored.
#[derive(Debug)]
pub struct AgentSettingsResponse {
    pub id: i64,
    pub endpoint: String,
    pub model_archetype: String,
    pub max_tokens: i32,
    pub enabled: bool,
    pub has_secret_key: bool,
    pub created_at: String,
    pub updated_at: String,
}

impl From<AgentSettings> for AgentSettingsResponse {
    fn from(settings: AgentSettings) -> (r: AgentSettingsResponse) {
        AgentSettingsResponse {
            id: settings.id,
            endpoint: settings.endpoint,
            model_archetype: settings.model_archetype,
            max_tokens: settings.max_tokens,
            enabled: settings.enabled,
            has_secret_key: settings.secret_key.is_some(),
            created_at: settings.created_at,
            updated_at: settings.updated_at,
        }
    }
}

impl vstd::std_specs::convert::FromSpecImpl<AgentSettings> for AgentSettingsResponse {
    open spec fn obeys_from_spec() -> bool {
        true
    }

    open spec fn from_spec(settings: AgentSettings) -> AgentSettingsResponse {
        AgentSettingsResponse {
            id: settings.id,
            endpoint: settings.endpoint,
            model_archetype: settings.model_archetype,
            max_tokens: settings.max_tokens,
            enabled: settings.enabled,
            has_secret_key: settings.secret_key is Some,
            created_at: settings.created_at,
            updated_at: settings.updated_at,
        }
    }
}

/// A request to change the provider settings.
#[derive(Debug)]
pub struct UpdateAgentSettingsRequest {
    pub endpoint: String,
    pub model_archetype: String,
    pub max_tokens: i32,
    pub secret_key: Option<String>,
}

/// The archetype a request falls back to.
pub fn default_archetype() -> (r: String)
    ensures
        r@ == "kimi"@,
{
    "kimi".to_owned()
}

/// The token budget a request falls back to.
pub fn default_max_tokens() -> (r: i32)
    ensures
        r == 40000,
{
    40000
}

/// Build settings from a stored row: a missing archetype falls back to
/// `kimi`, a missing budget to 40000, and any non-zero flag means enabled.
pub fn agent_settings_from_row(
    id: i64,
    endpoint: String,
    model_archetype: Option<String>,
    max_tokens: Option<i32>,
    enabled_flag: i32,
    secret_key: Option<String>,
    created_at: String,
    updated_at: String,
) -> (r: AgentSettings)
    ensures
        r.id == id,
        r.endpoint == endpoint,
        r.model_archetype@ == (match model_archetype {
            Some(m) => m@,
            None => "kimi"@,
        }),
        r.max_tokens == (match max_tokens {
            Some(t) => t,
            None => 40000,
        }),
        r.enabled == (enabled_flag != 0),
        r.secret_key == secret_key,
        r.created_at == created_at,
        r.updated_at == updated_at,
{
    AgentSettings {
        id,
        endpoint,
        model_archetype: match model_archetype {
            Some(m) => m,
            None => "kimi".to_owned(),
        },
        max_tokens: match max_tokens {
            Some(t) => t,
            None => 40000,
        },
        enabled: enabled_flag != 0,
        secret_key,
        created_at,
        updated_at,
    }
}

/// An external channel record.
#[derive(Debug)]
pub struct Channel {
    pub id: i64,
    pub channel_type: String,
    pub name: String,
    pub enabled: bool,
    pub bot_token: String,
    pub app_token: Option<String>,
    pub created_at: String,
    pub updated_at: String,
}

/// Build a channel from a stored row: any non-zero flag means enabled.
pub fn channel_from_row(
    id: i64,
    channel_type: String,
    name: String,
    enabled_flag: i32,
    bot_token: String,
    app_token: Option<String>,
    created_at: String,
    updated_at: String,
) -> (r: Channel)
    ensures
        r.id == id,
        r.channel_type == channel_type,
        r.name == name,
        r.enabled == (enabled_flag != 0),
        r.bot_token == bot_token,
        r.app_token == app_token,
        r.created_at == created_at,
        r.updated_at == updated_at,
{
    Channel {
        id,
        channel_type,
        name,
        enabled: enabled_flag != 0,
        bot_token,
        app_token,
        created_at,
        updated_at,
    }
}

/// A fresh channel record before it is stored: disabled until started.
pub fn new_channel(
    channel_type: String,
    name: String,
    bot_token: String,
    app_token: Option<String>,
    id: i64,
    now: String,
) -> (r: Channel)
    ensures
        r.id == id,
        r.channel_type == channel_type,
        r.name == name,
        !r.enabled,
        r.bot_token == bot_token,
        r.app_token == app_token,
        r.created_at@ == now@,
        r.updated_at@ == now@,
{
    Channel {
        id,
        channel_type,
        name,
        enabled: false,
        bot_token,
        app_token,
        created_at: now.clone(),
        updated_at: now,
    }
}

/// One per-channel setting row.
#[derive(Debug)]
pub struct ChannelSetting {
    pub channel_id: i64,
    pub setting_key: String,
    pub setting_value: String,
}

/// One positional assignment, `<column> = ?<index>`.
pub open spec fn assignment_text(column: Seq<char>, index: nat) -> Seq<char> {
    column + " = ?"@ + dec_rep(index)
}

/// The update statement for a channel: `updated_at` first, then each given
/// column in order, with the id parameter last.
pub open spec fn channel_update_sql_text(
    name_set: bool,
    enabled_set: bool,
    bot_set: bool,
    app_set: bool,
) -> Seq<char> {
    let idx_name: nat = 2;
    let idx_enabled: nat = idx_name + (if name_set { 1nat } else { 0nat });
    let idx_bot: nat = idx_enabled + (if enabled_set { 1nat } else { 0nat });
    let idx_app: nat = idx_bot + (if bot_set { 1nat } else { 0nat });
    let idx_id: nat = idx_app + (if app_set { 1nat } else { 0nat });
    "UPDATE external_channels SET "@ + assignment_text("updated_at"@, 1) + (if name_set {
        ", "@ + assignment_text("name"@, idx_name)
    } else {
        Seq::<char>::empty()
    }) + (if enabled_set {
        ", "@ + assignment_text("enabled"@, idx_enabled)
    } else {
        Seq::<char>::empty()
    }) + (if bot_set {
        ", "@ + assignment_text("bot_token"@, idx_bot)
    } else {
        Seq::<char>::empty()
    }) + (if app_set {
        ", "@ + assignment_text("app_token"@, idx_app)
    } else {
        Seq::<char>::empty()
    }) + " WHERE id = ?"@ + dec_rep(idx_id)
}

fn push_assignment(out: &mut Vec<char>, column: &str, index: u64)
    ensures
        final(out)@ == old(out)@ + assignment_text(column@, index as nat),
{
    append_str(out, column);
    append_str(out, " = ?");
    let digits = u64_to_chars(index);
    append_chars(out, &digits);
}

/// The update statement for a channel, with positional parameters numbered in
/// the order the caller binds them: the timestamp, the given columns, the id.
pub fn channel_update_sql(name_set: bool, enabled_set: bool, bot_set: bool, app_set: bool) -> (r:
    String)
    ensures
        r@ == channel_update_sql_text(name_set, enabled_set, bot_set, app_set),
{
    let mut out = chars_vec("UPDATE external_channels SET ");
    push_assignment(&mut out, "updated_at", 1);
    let mut idx: u64 = 2;
    if name_set {
        append_str(&mut out, ", ");
        push_assignment(&mut out, "name", idx);
        idx = idx + 1;
    }
    if enabled_set {
        append_str(&mut out, ", ");
        push_assignment(&mut out, "enabled", idx);
        idx = idx + 1;
    }
    if bot_set {
        append_str(&mut out, ", ");
        push_assignment(&mut out, "bot_token", idx);
        idx = idx + 1;
    }
    if app_set {
        append_str(&mut out, ", ");
        push_assignment(&mut out, "app_token", idx);
        idx = idx + 1;
    }
    append_str(&mut out, " WHERE id = ?");
    let digits = u64_to_chars(idx);
    append_chars(&mut out, &digits);
    string_from_chars(&out)
}

} // verus!
