//! The agent's event stream as the platform sees it, the chunks it streams to
//! browsers, permission levels, and the environment that selects a model provider.
use vstd::prelude::*;
use crate::json::{json_str_at, json_str_field};
use crate::text::{opt_string_view, ends_with, owned, slice_range, chars_of, has_suffix, str_eq, str_trim_end_matches, string_from_chars, trim_end_matches};

verus! {

/// Agent permission level: what the agent's tools may touch.
#[derive(Debug, Clone, Copy, PartialEq, Eq, Structural)]
pub enum AgentPermission {
    /// Writing tools blocked, shell restricted to reading.
    Readonly,
    /// All tools, confined to the working directory.
    ReadWrite,
    /// Unrestricted.
    Bypass,
}

impl AgentPermission {
    /// The level named by a configuration value; anything unknown is read-only.
    pub fn from_config(s: &str) -> (r: AgentPermission)
        ensures
            s@ == "bypassPermissions"@ ==> r == AgentPermission::Bypass,
            s@ == "readwrite"@ ==> r == AgentPermission::ReadWrite,
            s@ != "bypassPermissions"@ && s@ != "readwrite"@ ==> r == AgentPermission::Readonly,
    {
        proof {
            reveal_strlit("readwrite");
            reveal_strlit("bypassPermissions");
            assert("readwrite"@.len() != "bypassPermissions"@.len());
        }
        if str_eq(s, "bypassPermissions") {
            AgentPermission::Bypass
        } else if str_eq(s, "readwrite") {
            AgentPermission::ReadWrite
        } else {
            AgentPermission::Readonly
        }
    }

    /// The value of the CLI's `--permission-mode` flag for this level.
    pub fn cli_flag(self) -> (r: &'static str)
        ensures
            self == AgentPermission::Bypass ==> r@ == "bypassPermissions"@,
            self != AgentPermission::Bypass ==> r@ == "default"@,
    {
        match self {
            AgentPermission::Bypass => "bypassPermissions",
            _ => "default",
        }
    }
}

/// What an agent run reports, event by event.
pub enum AgentEvent {
    Init { session_id: Option<String> },
    Thinking { content: String },
    Text { content: String },
    ToolUse { tool_name: String, content: String },
    ToolResult { tool_name: String, content: String },
    Done { content: String, session_id: Option<String>, duration_ms: u64 },
    Error { message: String },
}

/// An agent event as values.
pub enum EventView {
    Init { session_id: Option<Seq<char>> },
    Thinking { content: Seq<char> },
    Text { content: Seq<char> },
    ToolUse { tool_name: Seq<char>, content: Seq<char> },
    ToolResult { tool_name: Seq<char>, content: Seq<char> },
    Done { content: Seq<char>, session_id: Option<Seq<char>>, duration_ms: u64 },
    Error { message: Seq<char> },
}

impl View for AgentEvent {
    type V = EventView;

    open spec fn view(&self) -> EventView {
        match *self {
            AgentEvent::Init { session_id } => EventView::Init { session_id: opt_string_view(session_id) },
            AgentEvent::Thinking { content } => EventView::Thinking { content: content@ },
            AgentEvent::Text { content } => EventView::Text { content: content@ },
            AgentEvent::ToolUse { tool_name, content } => EventView::ToolUse { tool_name: tool_name@, content: content@ },
            AgentEvent::ToolResult { tool_name, content } => EventView::ToolResult { tool_name: tool_name@, content: content@ },
            AgentEvent::Done { content, session_id, duration_ms } => EventView::Done {
                content: content@,
                session_id: opt_string_view(session_id),
                duration_ms,
            },
            AgentEvent::Error { message } => EventView::Error { message: message@ },
        }
    }
}

pub open spec fn events_view(v: Seq<AgentEvent>) -> Seq<EventView> {
    v.map_values(|e: AgentEvent| e@)
}

/// A chunk of the event stream sent to the browser.
pub enum StreamChunk {
    Init { session_id: Option<String> },
    Thinking { content: String },
    Text { content: String },
    ToolUse { tool_name: String, content: String },
    ToolResult { tool_name: String, content: String },
    Done { content: String, session_id: Option<String>, duration_ms: u64 },
    Error { message: String },
    /// Progress of an RCA investigation phase.
    Step { step: String, status: String, label: String, summary: Option<String>, duration_ms: Option<u64> },
    /// The agent starts a tool call, with the reasoning that led to it.
    StepStart { step_id: String, tool_name: String, reasoning: String, label: String },
    /// What the tool call returned.
    StepData { step_id: String, tool_name: String, data_text: String },
    /// The agent's analysis of the returned data.
    StepAnalysis { step_id: String, content: String },
    /// The step is over.
    StepComplete { step_id: String, summary: String, duration_ms: u64 },
}

/// The chunk that streams an agent event unchanged.
pub open spec fn chunk_of(e: AgentEvent) -> StreamChunk {
    match e {
        AgentEvent::Init { session_id } => StreamChunk::Init { session_id },
        AgentEvent::Thinking { content } => StreamChunk::Thinking { content },
        AgentEvent::Text { content } => StreamChunk::Text { content },
        AgentEvent::ToolUse { tool_name, content } => StreamChunk::ToolUse { tool_name, content },
        AgentEvent::ToolResult { tool_name, content } => StreamChunk::ToolResult { tool_name, content },
        AgentEvent::Done { content, session_id, duration_ms } => StreamChunk::Done { content, session_id, duration_ms },
        AgentEvent::Error { message } => StreamChunk::Error { message },
    }
}

pub fn copy_opt(s: &Option<String>) -> (r: Option<String>)
    ensures
        r == *s,
{
    match s {
        Some(x) => Some(x.clone()),
        None => None,
    }
}

impl StreamChunk {
    /// The chunk that streams `event` to the browser.
    pub fn from_agent_event(event: &AgentEvent) -> (r: StreamChunk)
        ensures
            r == chunk_of(*event),
    {
        match event {
            AgentEvent::Init { session_id } => StreamChunk::Init { session_id: copy_opt(session_id) },
            AgentEvent::Thinking { content } => StreamChunk::Thinking { content: content.clone() },
            AgentEvent::Text { content } => StreamChunk::Text { content: content.clone() },
            AgentEvent::ToolUse { tool_name, content } => StreamChunk::ToolUse {
                tool_name: tool_name.clone(),
                content: content.clone(),
            },
            AgentEvent::ToolResult { tool_name, content } => StreamChunk::ToolResult {
                tool_name: tool_name.clone(),
                content: content.clone(),
            },
            AgentEvent::Done { content, session_id, duration_ms } => StreamChunk::Done {
                content: content.clone(),
                session_id: copy_opt(session_id),
                duration_ms: *duration_ms,
            },
            AgentEvent::Error { message } => StreamChunk::Error { message: message.clone() },
        }
    }
}

// ─── Provider environment ──────────────────────────────────────────────────

pub open spec fn env_view(v: Seq<(String, String)>) -> Seq<(Seq<char>, Seq<char>)> {
    v.map_values(|p: (String, String)| (p.0@, p.1@))
}

/// A gateway base URL without trailing slashes and without a final "/v1".
pub open spec fn gateway_base(u: Seq<char>) -> Seq<char> {
    let b = trim_end_matches(u, "/"@);
    if ends_with(b, "/v1"@) {
        b.take(b.len() - 3)
    } else {
        b
    }
}

/// The environment that points the agent CLI at a provider of type `ptype` configured by the
/// JSON text `config`: Bedrock with its region (default "us-west-2"), or a gateway with its base
/// URL and API key when they are given and not empty.
pub open spec fn provider_env(ptype: Seq<char>, config: Seq<char>) -> Seq<(Seq<char>, Seq<char>)> {
    if ptype == "bedrock"@ {
        seq![
            ("CLAUDE_CODE_USE_BEDROCK"@, "1"@),
            ("AWS_REGION"@, match json_str_at(config, "region"@) {
                Some(r) => r,
                None => "us-west-2"@,
            }),
        ]
    } else if ptype == "gateway"@ {
        (match json_str_at(config, "base_url"@) {
            Some(u) => if u.len() > 0 {
                seq![("ANTHROPIC_BASE_URL"@, gateway_base(u))]
            } else {
                Seq::empty()
            },
            None => Seq::empty(),
        }) + (match json_str_at(config, "api_key"@) {
            Some(k) => if k.len() > 0 {
                seq![("ANTHROPIC_API_KEY"@, k)]
            } else {
                Seq::empty()
            },
            None => Seq::empty(),
        })
    } else {
        Seq::empty()
    }
}

/// The environment for a provider of type `provider_type` with JSON configuration `config`.
pub fn build_provider_env_vars(provider_type: &str, config: &str) -> (r: Vec<(String, String)>)
    ensures
        env_view(r@) == provider_env(provider_type@, config@),
{
    let mut env: Vec<(String, String)> = Vec::new();
    if str_eq(provider_type, "bedrock") {
        env.push((owned("CLAUDE_CODE_USE_BEDROCK"), owned("1")));
        let region = match json_str_field(config, "region") {
            Some(r) => r,
            None => owned("us-west-2"),
        };
        env.push((owned("AWS_REGION"), region));
        proof {
            assert(env_view(env@) =~= provider_env(provider_type@, config@));
        }
    } else if str_eq(provider_type, "gateway") {
        match json_str_field(config, "base_url") {
            Some(u) => {
                if !u.as_str().is_empty() {
                    let t = str_trim_end_matches(u.as_str(), "/");
                    let tv = chars_of(t.as_str());
                    let sfx = chars_of("/v1");
                    proof {
                        reveal_strlit("/v1");
                    }
                    let base = if has_suffix(tv.as_slice(), sfx.as_slice()) {
                        string_from_chars(slice_range(tv.as_slice(), 0, tv.len() - 3).as_slice())
                    } else {
                        t
                    };
                    env.push((owned("ANTHROPIC_BASE_URL"), base));
                }
            },
            None => {},
        }
        let ghost first = env_view(env@);
        match json_str_field(config, "api_key") {
            Some(k) => {
                if !k.as_str().is_empty() {
                    env.push((owned("ANTHROPIC_API_KEY"), k));
                }
            },
            None => {},
        }
        proof {
            assert(env_view(env@) =~= provider_env(provider_type@, config@));
        }
    }
    env
}

/// Provider settings for background runs: the CLI environment and the model, if configured.
pub struct ProviderEnv {
    pub env_vars: Vec<(String, String)>,
    pub model: Option<String>,
}

/// The settings of the first provider of the catalog, given as its type and JSON configuration;
/// nothing without a provider.
pub fn provider_env_of(row: Option<(&str, &str)>) -> (r: ProviderEnv)
    ensures
        match row {
            Some((t, c)) => env_view(r.env_vars@) == provider_env(t@, c@) && match json_str_at(c@, "model"@) {
                Some(m) => r.model matches Some(x) && x@ == m,
                None => r.model is None,
            },
            None => r.env_vars@.len() == 0 && r.model is None,
        },
{
    match row {
        Some((t, c)) => ProviderEnv { env_vars: build_provider_env_vars(t, c), model: json_str_field(c, "model") },
        None => ProviderEnv { env_vars: Vec::new(), model: None },
    }
}

} // verus!
