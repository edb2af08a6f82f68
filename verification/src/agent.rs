//! Running the agent CLI: its arguments, its multimodal input, and the events
//! read back from its output.
use vstd::prelude::*;
use crate::claude::{events_view, AgentEvent, EventView};
use crate::json::{json_pretty, json_pretty_text, json_str_at, json_str_field};
use crate::text::{
    append_lines, present_texts, cat, cat3, contains, join, join_strings, opt_string_view, owned, push_line, str_contains, str_eq,
    strings_view, u64_to_string, dec, capitalized, str_capitalized, upper, str_upper,
};

verus! {

// ─── JSON strings ──────────────────────────────────────────────────────────

pub open spec fn hex_lower(d: int) -> char {
    if d < 10 {
        (48 + d) as char
    } else {
        (87 + d) as char
    }
}

/// How JSON writes one character inside a string: quote, backslash and control characters
/// escaped (the short forms where JSON has them, `\u00xx` otherwise), everything else as it is.
pub open spec fn escape_char(c: char) -> Seq<char> {
    if c == '"' {
        seq!['\\', '"']
    } else if c == '\\' {
        seq!['\\', '\\']
    } else if c == '\u{8}' {
        seq!['\\', 'b']
    } else if c == '\t' {
        seq!['\\', 't']
    } else if c == '\n' {
        seq!['\\', 'n']
    } else if c == '\u{c}' {
        seq!['\\', 'f']
    } else if c == '\r' {
        seq!['\\', 'r']
    } else if (c as int) < 32 {
        seq!['\\', 'u', '0', '0', hex_lower((c as int) / 16), hex_lower((c as int) % 16)]
    } else {
        seq![c]
    }
}

pub open spec fn escaped(s: Seq<char>) -> Seq<char>
    decreases s.len(),
{
    if s.len() == 0 {
        Seq::empty()
    } else {
        escaped(s.drop_last()) + escape_char(s.last())
    }
}

/// `s` as a JSON string literal.
pub open spec fn json_quoted(s: Seq<char>) -> Seq<char> {
    seq!['"'] + escaped(s) + seq!['"']
}

/// Trusted: `serde_json::to_string` on a `str`, which writes the quoted string with the escapes
/// of `escape_char` (serde_json's `format_escaped_str`); serialising a string cannot fail.
#[verifier::external_body]
pub(crate) fn json_quote(s: &str) -> (r: String)
    ensures
        r@ == json_quoted(s@),
{
    serde_json::to_string(s).unwrap_or_default()
}

// ─── The run's configuration ───────────────────────────────────────────────

/// An image attached to a message.
pub struct ImageData {
    /// Base64 content.
    pub data: String,
    pub media_type: String,
}

/// Everything one agent run is started with.
pub struct AgentSessionConfig {
    /// The session to resume; a new session when none.
    pub session_id: Option<String>,
    pub message: String,
    pub system_prompt: Option<String>,
    pub model: String,
    pub max_turns: u32,
    pub permission_mode: String,
    pub allowed_tools: Vec<String>,
    pub disallowed_tools: Vec<String>,
    pub env_vars: Vec<(String, String)>,
    pub mcp_config_path: Option<String>,
    pub images: Vec<ImageData>,
}

/// The agent CLI: where it is, where it runs, and how long a run may take.
pub struct ClaudeAgent {
    pub bin_path: String,
    pub work_dir: String,
    pub timeout_ms: u64,
}

/// What the process is started with.
pub struct RunPlan {
    pub program: String,
    pub args: Vec<String>,
    pub work_dir: String,
    /// The message with its images, written to the process's input when there are images.
    pub stdin: Option<String>,
    /// Inherited variables that would point the CLI elsewhere, removed.
    pub removed_env: Vec<String>,
    /// Variables set: HOME (the work directory, where sessions are kept), then the run's own.
    pub env: Vec<(String, String)>,
    /// Whether a session is resumed: then the output is plain text, else a JSON event stream.
    pub resume: bool,
}

pub open spec fn opt_str(o: Option<&str>) -> Option<Seq<char>> {
    match o {
        Some(s) => Some(s@),
        None => None,
    }
}

pub open spec fn when(b: bool, s: Seq<Seq<char>>) -> Seq<Seq<char>> {
    if b {
        s
    } else {
        Seq::empty()
    }
}

/// The CLI's arguments for a run: print mode, the message unless it comes on the input, JSON
/// events for a new session and text for a resumed one, the limits, the tool lists when not
/// empty, the MCP configuration, the input format for images, the system prompt for a new
/// session, and the session to resume.
pub open spec fn cli_args(
    message: Seq<char>,
    session_id: Option<Seq<char>>,
    system_prompt: Option<Seq<char>>,
    stream_input: bool,
    permission_mode: Seq<char>,
    disallowed: Seq<Seq<char>>,
    allowed: Seq<Seq<char>>,
    mcp_config: Option<Seq<char>>,
    model: Seq<char>,
    max_turns: u32,
) -> Seq<Seq<char>> {
    seq!["-p"@] + when(!stream_input, seq![message]) + (if session_id is None {
        seq!["--output-format"@, "stream-json"@, "--verbose"@]
    } else {
        seq!["--output-format"@, "text"@]
    }) + seq!["--max-turns"@, dec(max_turns as nat), "--model"@, model, "--permission-mode"@, permission_mode]
        + when(disallowed.len() > 0, seq!["--disallowedTools"@, join(disallowed, ","@)])
        + when(allowed.len() > 0, seq!["--allowedTools"@, join(allowed, ","@)])
        + (match mcp_config {
        Some(c) => seq!["--mcp-config"@, c],
        None => Seq::empty(),
    }) + when(stream_input, seq!["--input-format"@, "stream-json"@]) + (match (session_id, system_prompt) {
        (None, Some(p)) => seq!["--system-prompt"@, p],
        _ => Seq::empty(),
    }) + (match session_id {
        Some(s) => seq!["--resume"@, s],
        None => Seq::empty(),
    })
}

fn two(a: &str, b: &str) -> (r: Vec<String>)
    ensures
        strings_view(r@) == seq![a@, b@],
{
    let mut v: Vec<String> = Vec::new();
    push_line(&mut v, owned(a));
    push_line(&mut v, owned(b));
    proof {
        assert(strings_view(v@) =~= seq![a@, b@]);
    }
    v
}

fn none() -> (r: Vec<String>)
    ensures
        strings_view(r@) == Seq::<Seq<char>>::empty(),
{
    let v: Vec<String> = Vec::new();
    proof {
        assert(strings_view(v@) =~= Seq::<Seq<char>>::empty());
    }
    v
}

fn list_flag(flag: &str, items: &Vec<String>) -> (r: Vec<String>)
    ensures
        strings_view(r@) == when(items@.len() > 0, seq![flag@, join(strings_view(items@), ","@)]),
{
    if items.len() > 0 {
        let j = join_strings(items, ",");
        two(flag, j.as_str())
    } else {
        none()
    }
}

fn opt_flag(flag: &str, value: Option<&str>) -> (r: Vec<String>)
    ensures
        strings_view(r@) == match opt_str(value) {
            Some(v) => seq![flag@, v],
            None => Seq::empty(),
        },
{
    match value {
        Some(v) => two(flag, v),
        None => none(),
    }
}

fn head_args(message: &str, new_session: bool, use_stream_input: bool) -> (r: Vec<String>)
    ensures
        strings_view(r@) == seq!["-p"@] + when(!use_stream_input, seq![message@]) + (if new_session {
            seq!["--output-format"@, "stream-json"@, "--verbose"@]
        } else {
            seq!["--output-format"@, "text"@]
        }),
{
    let mut args: Vec<String> = Vec::new();
    push_line(&mut args, owned("-p"));
    if !use_stream_input {
        push_line(&mut args, owned(message));
    }
    let ghost a1 = strings_view(args@);
    proof {
        assert(a1 =~= seq!["-p"@] + when(!use_stream_input, seq![message@]));
    }
    push_line(&mut args, owned("--output-format"));
    if new_session {
        push_line(&mut args, owned("stream-json"));
        push_line(&mut args, owned("--verbose"));
    } else {
        push_line(&mut args, owned("text"));
    }
    proof {
        if new_session {
            assert(strings_view(args@) =~= a1 + seq!["--output-format"@, "stream-json"@, "--verbose"@]);
        } else {
            assert(strings_view(args@) =~= a1 + seq!["--output-format"@, "text"@]);
        }
    }
    args
}

fn limit_args(model: &str, max_turns: u32, permission_mode: &str) -> (r: Vec<String>)
    ensures
        strings_view(r@) == seq!["--max-turns"@, dec(max_turns as nat), "--model"@, model@, "--permission-mode"@, permission_mode@],
{
    let mut args: Vec<String> = Vec::new();
    push_line(&mut args, owned("--max-turns"));
    push_line(&mut args, u64_to_string(max_turns as u64));
    push_line(&mut args, owned("--model"));
    push_line(&mut args, owned(model));
    push_line(&mut args, owned("--permission-mode"));
    push_line(&mut args, owned(permission_mode));
    proof {
        assert(strings_view(args@) =~= seq!["--max-turns"@, dec(max_turns as nat), "--model"@, model@, "--permission-mode"@, permission_mode@]);
    }
    args
}

/// The CLI's arguments for a run (see `cli_args`).
pub fn build_args(
    message: &str,
    session_id: Option<&str>,
    system_prompt: Option<&str>,
    use_stream_input: bool,
    permission_mode: &str,
    disallowed_tools: &Vec<String>,
    allowed_tools: &Vec<String>,
    mcp_config: Option<&str>,
    model: &str,
    max_turns: u32,
) -> (r: Vec<String>)
    ensures
        strings_view(r@) == cli_args(
            message@,
            opt_str(session_id),
            opt_str(system_prompt),
            use_stream_input,
            permission_mode@,
            strings_view(disallowed_tools@),
            strings_view(allowed_tools@),
            opt_str(mcp_config),
            model@,
            max_turns,
        ),
{
    let mut args = head_args(message, session_id.is_none(), use_stream_input);
    append_lines(&mut args, limit_args(model, max_turns, permission_mode));
    append_lines(&mut args, list_flag("--disallowedTools", disallowed_tools));
    append_lines(&mut args, list_flag("--allowedTools", allowed_tools));
    append_lines(&mut args, opt_flag("--mcp-config", mcp_config));
    if use_stream_input {
        append_lines(&mut args, two("--input-format", "stream-json"));
    } else {
        append_lines(&mut args, none());
    }
    let prompt = match session_id {
        None => system_prompt,
        Some(_) => None,
    };
    append_lines(&mut args, opt_flag("--system-prompt", prompt));
    append_lines(&mut args, opt_flag("--resume", session_id));
    proof {
        assert(strings_view(args@) =~= cli_args(
            message@,
            opt_str(session_id),
            opt_str(system_prompt),
            use_stream_input,
            permission_mode@,
            strings_view(disallowed_tools@),
            strings_view(allowed_tools@),
            opt_str(mcp_config),
            model@,
            max_turns,
        ));
    }
    args
}

// ─── Multimodal input ──────────────────────────────────────────────────────

pub open spec fn image_item(img: ImageData) -> Seq<char> {
    "{\"source\":{\"data\":"@ + json_quoted(img.data@) + ",\"media_type\":"@ + json_quoted(img.media_type@)
        + ",\"type\":\"base64\"},\"type\":\"image\"}"@
}

pub open spec fn text_item(message: Seq<char>) -> Seq<char> {
    "{\"text\":"@ + json_quoted(message) + ",\"type\":\"text\"}"@
}

/// The user message the CLI reads on its input: the images, then the text, as one JSON line
/// (keys in order, as serde_json writes them).
pub open spec fn stream_input_text(message: Seq<char>, images: Seq<ImageData>) -> Seq<char> {
    "{\"message\":{\"content\":["@ + join(images.map_values(|i: ImageData| image_item(i)).push(text_item(message)), ","@)
        + "],\"role\":\"user\"},\"type\":\"user\"}"@
}

fn image_json(img: &ImageData) -> (r: String)
    ensures
        r@ == image_item(*img),
{
    let mut s = owned("{\"source\":{\"data\":");
    s.append(json_quote(img.data.as_str()).as_str());
    s.append(",\"media_type\":");
    s.append(json_quote(img.media_type.as_str()).as_str());
    s.append(",\"type\":\"base64\"},\"type\":\"image\"}");
    s
}

/// The CLI's input line for a message with images (see `stream_input_text`).
pub fn build_stream_input(message: &str, images: &Vec<ImageData>) -> (r: String)
    ensures
        r@ == stream_input_text(message@, images@),
{
    let mut items: Vec<String> = Vec::new();
    let mut i: usize = 0;
    while i < images.len()
        invariant
            i <= images.len(),
            strings_view(items@) == images@.take(i as int).map_values(|x: ImageData| image_item(x)),
        decreases images.len() - i,
    {
        push_line(&mut items, image_json(&images[i]));
        proof {
            crate::text::lemma_take_step(images@, i as int);
            crate::text::lemma_map_push(images@.take(i as int), images@[i as int], |x: ImageData| image_item(x));
        }
        i = i + 1;
    }
    proof {
        assert(images@.take(images@.len() as int) =~= images@);
    }
    let mut t = owned("{\"text\":");
    t.append(json_quote(message).as_str());
    t.append(",\"type\":\"text\"}");
    push_line(&mut items, t);
    let body = join_strings(&items, ",");
    cat3("{\"message\":{\"content\":[", body.as_str(), "],\"role\":\"user\"},\"type\":\"user\"}")
}

// ─── Reading the event stream ──────────────────────────────────────────────

/// What a block of a message's `content` holds under its own `content` key.
pub enum BlockContent {
    /// A string.
    Text(String),
    /// An array: for each item, its `text` string if it has one.
    Items(Vec<Option<String>>),
    /// Anything else.
    Other,
}

/// One block of a message.
pub struct ClaudeContentBlock {
    pub block_type: String,
    pub text: Option<String>,
    pub thinking: Option<String>,
    pub name: Option<String>,
    /// A tool call's input, as JSON text.
    pub input: Option<String>,
    pub content: Option<BlockContent>,
    pub tool_name: Option<String>,
}

/// A message: its blocks.
pub struct ClaudeMessage {
    pub content: Vec<ClaudeContentBlock>,
}

/// A run's final result.
pub enum ResultValue {
    /// A string.
    Text(String),
    /// Any other JSON value, as compact JSON text.
    Json(String),
}

/// One decoded line of the CLI's JSON event stream.
pub struct ClaudeEvent {
    pub event_type: String,
    pub subtype: Option<String>,
    pub session_id: Option<String>,
    pub message: Option<ClaudeMessage>,
    pub result: Option<ResultValue>,
    pub duration_ms: Option<u64>,
}

pub open spec fn or_seq(o: Option<String>, d: Seq<char>) -> Seq<char> {
    match o {
        Some(s) => s@,
        None => d,
    }
}

/// How a tool call is shown: the command of a shell call, the file of a file tool, the pattern
/// and directory of a search (the directory "." when not given), and the pretty-printed input of
/// anything else or when the field is missing.
pub open spec fn tool_input_text(tool: Seq<char>, input: Seq<char>) -> Seq<char> {
    let fallback = json_pretty_text(input);
    if tool == "Bash"@ {
        match json_str_at(input, "command"@) {
            Some(c) => c,
            None => fallback,
        }
    } else if tool == "Read"@ || tool == "Write"@ || tool == "Edit"@ {
        match json_str_at(input, "file_path"@) {
            Some(f) => f,
            None => fallback,
        }
    } else if tool == "Grep"@ || tool == "Glob"@ {
        match json_str_at(input, "pattern"@) {
            Some(p) => p + " in "@ + match json_str_at(input, "path"@) {
                Some(d) => d,
                None => "."@,
            },
            None => fallback,
        }
    } else {
        fallback
    }
}

/// How a tool call with JSON input `input` is shown (see `tool_input_text`).
pub fn format_tool_input(tool_name: &str, input: &str) -> (r: String)
    ensures
        r@ == tool_input_text(tool_name@, input@),
{
    if str_eq(tool_name, "Bash") {
        match json_str_field(input, "command") {
            Some(c) => c,
            None => json_pretty(input),
        }
    } else if str_eq(tool_name, "Read") || str_eq(tool_name, "Write") || str_eq(tool_name, "Edit") {
        match json_str_field(input, "file_path") {
            Some(f) => f,
            None => json_pretty(input),
        }
    } else if str_eq(tool_name, "Grep") || str_eq(tool_name, "Glob") {
        match json_str_field(input, "pattern") {
            Some(p) => {
                let dir = match json_str_field(input, "path") {
                    Some(d) => d,
                    None => owned("."),
                };
                cat3(p.as_str(), " in ", dir.as_str())
            },
            None => json_pretty(input),
        }
    } else {
        json_pretty(input)
    }
}

/// The thinking of an assistant message, in order.
pub open spec fn thinking_events(blocks: Seq<ClaudeContentBlock>) -> Seq<EventView>
    decreases blocks.len(),
{
    if blocks.len() == 0 {
        Seq::empty()
    } else {
        let b = blocks.last();
        thinking_events(blocks.drop_last()) + if b.block_type@ == "thinking"@ && b.thinking is Some {
            seq![EventView::Thinking { content: b.thinking.unwrap()@ }]
        } else {
            Seq::empty()
        }
    }
}

/// What one block of an assistant message shows besides thinking.
pub open spec fn block_event(b: ClaudeContentBlock) -> Seq<EventView> {
    if b.block_type@ == "text"@ {
        match b.text {
            Some(t) => seq![EventView::Text { content: t@ }],
            None => Seq::empty(),
        }
    } else if b.block_type@ == "tool_use"@ {
        let name = or_seq(b.name, "unknown"@);
        seq![EventView::ToolUse {
            tool_name: name,
            content: match b.input {
                Some(i) => tool_input_text(name, i@),
                None => Seq::empty(),
            },
        }]
    } else if b.block_type@ == "tool_result"@ {
        seq![EventView::ToolResult { tool_name: or_seq(b.name, "tool"@), content: or_seq(b.text, Seq::empty()) }]
    } else {
        Seq::empty()
    }
}

/// The text, tool calls and tool results of an assistant message, in their order.
pub open spec fn ordered_events(blocks: Seq<ClaudeContentBlock>) -> Seq<EventView>
    decreases blocks.len(),
{
    if blocks.len() == 0 {
        Seq::empty()
    } else {
        ordered_events(blocks.drop_last()) + block_event(blocks.last())
    }
}

/// The result text of a tool-result block of a user message: its string content, the texts of
/// its array content joined by newlines (none when there are none), else its `text`.
pub open spec fn tool_result_text(b: ClaudeContentBlock) -> Option<Seq<char>> {
    match b.content {
        Some(BlockContent::Text(s)) => Some(s@),
        Some(BlockContent::Items(items)) => {
            let texts = present_texts(items@);
            if texts.len() == 0 {
                None
            } else {
                Some(join(texts, seq!['\n']))
            }
        },
        _ => opt_string_view(b.text),
    }
}

/// What one block of a user message shows: a tool result that is not empty.
pub open spec fn user_block_event(b: ClaudeContentBlock) -> Seq<EventView> {
    if b.block_type@ == "tool_result"@ {
        let name = match b.tool_name {
            Some(t) => t@,
            None => or_seq(b.name, "mcp_tool"@),
        };
        match tool_result_text(b) {
            Some(c) => if c.len() > 0 {
                seq![EventView::ToolResult { tool_name: name, content: c }]
            } else {
                Seq::empty()
            },
            None => Seq::empty(),
        }
    } else {
        Seq::empty()
    }
}

pub open spec fn user_events(blocks: Seq<ClaudeContentBlock>) -> Seq<EventView>
    decreases blocks.len(),
{
    if blocks.len() == 0 {
        Seq::empty()
    } else {
        user_events(blocks.drop_last()) + user_block_event(blocks.last())
    }
}

/// The events of one line of the CLI's stream (`None` when the line is not a well-formed
/// event): the session start, an assistant message (its thinking first, the rest in order), the
/// final result, and the tool results that come back in user messages.
pub open spec fn line_events(ev: Option<ClaudeEvent>) -> Seq<EventView> {
    match ev {
        None => Seq::empty(),
        Some(e) => if e.event_type@ == "system"@ {
            if e.subtype matches Some(st) && st@ == "init"@ {
                seq![EventView::Init { session_id: opt_string_view(e.session_id) }]
            } else {
                Seq::empty()
            }
        } else if e.event_type@ == "assistant"@ {
            match e.message {
                Some(m) => thinking_events(m.content@) + ordered_events(m.content@),
                None => Seq::empty(),
            }
        } else if e.event_type@ == "result"@ {
            seq![EventView::Done {
                content: match e.result {
                    Some(ResultValue::Text(s)) => s@,
                    Some(ResultValue::Json(j)) => j@,
                    None => Seq::empty(),
                },
                session_id: opt_string_view(e.session_id),
                duration_ms: match e.duration_ms {
                    Some(d) => d,
                    None => 0,
                },
            }]
        } else if e.event_type@ == "user"@ {
            match e.message {
                Some(m) => user_events(m.content@),
                None => Seq::empty(),
            }
        } else {
            Seq::empty()
        },
    }
}

fn push_event(out: &mut Vec<AgentEvent>, e: AgentEvent)
    ensures
        events_view(final(out)@) == events_view(old(out)@).push(e@),
{
    let ghost before = out@;
    let ghost eg = e;
    out.push(e);
    proof {
        crate::text::lemma_map_push(before, eg, |x: AgentEvent| x@);
    }
}

fn opt_clone(o: &Option<String>) -> (r: Option<String>)
    ensures
        opt_string_view(r) == opt_string_view(*o),
{
    match o {
        Some(s) => Some(s.clone()),
        None => None,
    }
}

fn or_owned(o: &Option<String>, d: &str) -> (r: String)
    ensures
        r@ == or_seq(*o, d@),
{
    match o {
        Some(s) => s.clone(),
        None => owned(d),
    }
}

fn assistant_events(blocks: &Vec<ClaudeContentBlock>) -> (r: Vec<AgentEvent>)
    ensures
        events_view(r@) == thinking_events(blocks@) + ordered_events(blocks@),
{
    let mut thinking: Vec<AgentEvent> = Vec::new();
    let mut ordered: Vec<AgentEvent> = Vec::new();
    let mut i: usize = 0;
    while i < blocks.len()
        invariant
            i <= blocks.len(),
            events_view(thinking@) == thinking_events(blocks@.take(i as int)),
            events_view(ordered@) == ordered_events(blocks@.take(i as int)),
        decreases blocks.len() - i,
    {
        let b = &blocks[i];
        proof {
            crate::text::lemma_take_step(blocks@, i as int);
        }
        let ghost t0 = events_view(thinking@);
        let ghost o0 = events_view(ordered@);
        if str_eq(b.block_type.as_str(), "thinking") {
            match &b.thinking {
                Some(t) => push_event(&mut thinking, AgentEvent::Thinking { content: t.clone() }),
                None => {},
            }
        }
        if str_eq(b.block_type.as_str(), "text") {
            match &b.text {
                Some(t) => push_event(&mut ordered, AgentEvent::Text { content: t.clone() }),
                None => {},
            }
        } else if str_eq(b.block_type.as_str(), "tool_use") {
            let name = or_owned(&b.name, "unknown");
            let input_str = match &b.input {
                Some(v) => format_tool_input(name.as_str(), v.as_str()),
                None => String::new(),
            };
            proof {
                assert(input_str@ =~= match b.input {
                    Some(v) => tool_input_text(name@, v@),
                    None => Seq::empty(),
                });
            }
            push_event(&mut ordered, AgentEvent::ToolUse { tool_name: name, content: input_str });
        } else if str_eq(b.block_type.as_str(), "tool_result") {
            let content = match &b.text {
                Some(t) => t.clone(),
                None => String::new(),
            };
            let name = or_owned(&b.name, "tool");
            push_event(&mut ordered, AgentEvent::ToolResult { tool_name: name, content });
        }
        proof {
            assert(events_view(thinking@) =~= thinking_events(blocks@.take(i + 1)));
            assert(events_view(ordered@) =~= ordered_events(blocks@.take(i + 1)));
        }
        i = i + 1;
    }
    proof {
        assert(blocks@.take(blocks@.len() as int) =~= blocks@);
    }
    let mut all = thinking;
    let ghost tv = events_view(all@);
    let mut j: usize = 0;
    while j < ordered.len()
        invariant
            j <= ordered.len(),
            events_view(all@) == tv + events_view(ordered@.take(j as int)),
        decreases ordered.len() - j,
    {
        let e = copy_event(&ordered[j]);
        push_event(&mut all, e);
        proof {
            crate::text::lemma_take_step(ordered@, j as int);
            crate::text::lemma_map_push(ordered@.take(j as int), ordered@[j as int], |x: AgentEvent| x@);
        }
        j = j + 1;
    }
    proof {
        assert(ordered@.take(ordered@.len() as int) =~= ordered@);
    }
    all
}

fn copy_event(e: &AgentEvent) -> (r: AgentEvent)
    ensures
        r@ == e@,
{
    match e {
        AgentEvent::Init { session_id } => AgentEvent::Init { session_id: opt_clone(session_id) },
        AgentEvent::Thinking { content } => AgentEvent::Thinking { content: content.clone() },
        AgentEvent::Text { content } => AgentEvent::Text { content: content.clone() },
        AgentEvent::ToolUse { tool_name, content } => AgentEvent::ToolUse { tool_name: tool_name.clone(), content: content.clone() },
        AgentEvent::ToolResult { tool_name, content } => AgentEvent::ToolResult { tool_name: tool_name.clone(), content: content.clone() },
        AgentEvent::Done { content, session_id, duration_ms } => AgentEvent::Done {
            content: content.clone(),
            session_id: opt_clone(session_id),
            duration_ms: *duration_ms,
        },
        AgentEvent::Error { message } => AgentEvent::Error { message: message.clone() },
    }
}

fn present_texts_of(items: &Vec<Option<String>>) -> (r: Vec<String>)
    ensures
        strings_view(r@) == present_texts(items@),
{
    let mut out: Vec<String> = Vec::new();
    let mut i: usize = 0;
    while i < items.len()
        invariant
            i <= items.len(),
            strings_view(out@) == present_texts(items@.take(i as int)),
        decreases items.len() - i,
    {
        proof {
            crate::text::lemma_take_step(items@, i as int);
        }
        match &items[i] {
            Some(t) => push_line(&mut out, t.clone()),
            None => {},
        }
        proof {
            assert(strings_view(out@) =~= present_texts(items@.take(i + 1)));
        }
        i = i + 1;
    }
    proof {
        assert(items@.take(items@.len() as int) =~= items@);
    }
    out
}

fn tool_result_of(b: &ClaudeContentBlock) -> (r: Option<String>)
    ensures
        opt_string_view(r) == tool_result_text(*b),
{
    match &b.content {
        Some(BlockContent::Text(s)) => Some(s.clone()),
        Some(BlockContent::Items(items)) => {
            let texts = present_texts_of(items);
            if texts.len() == 0 {
                None
            } else {
                let j = join_strings(&texts, "\n");
                proof {
                    reveal_strlit("\n");
                    assert("\n"@ =~= seq!['\n']);
                }
                Some(j)
            }
        },
        _ => opt_clone(&b.text),
    }
}

fn user_message_events(blocks: &Vec<ClaudeContentBlock>) -> (r: Vec<AgentEvent>)
    ensures
        events_view(r@) == user_events(blocks@),
{
    let mut out: Vec<AgentEvent> = Vec::new();
    let mut i: usize = 0;
    while i < blocks.len()
        invariant
            i <= blocks.len(),
            events_view(out@) == user_events(blocks@.take(i as int)),
        decreases blocks.len() - i,
    {
        let b = &blocks[i];
        proof {
            crate::text::lemma_take_step(blocks@, i as int);
        }
        if str_eq(b.block_type.as_str(), "tool_result") {
            let r = tool_result_of(b);
            let name = match &b.tool_name {
                Some(t) => t.clone(),
                None => or_owned(&b.name, "mcp_tool"),
            };
            match r {
                Some(content) => {
                    if !content.as_str().is_empty() {
                        push_event(&mut out, AgentEvent::ToolResult { tool_name: name, content });
                    }
                },
                None => {},
            }
        }
        proof {
            assert(events_view(out@) =~= user_events(blocks@.take(i + 1)));
        }
        i = i + 1;
    }
    proof {
        assert(blocks@.take(blocks@.len() as int) =~= blocks@);
    }
    out
}

/// The events of one decoded line of the CLI's stream (see `line_events`).
pub fn parse_stream_line(line: Option<&ClaudeEvent>) -> (r: Vec<AgentEvent>)
    ensures
        events_view(r@) == line_events(match line {
            Some(e) => Some(*e),
            None => None,
        }),
{
    let mut events: Vec<AgentEvent> = Vec::new();
    let e = match line {
        Some(e) => e,
        None => {
            proof {
                assert(events_view(events@) =~= Seq::<EventView>::empty());
            }
            return events;
        },
    };
    let t = e.event_type.as_str();
    if str_eq(t, "system") {
        let init = match &e.subtype {
            Some(st) => str_eq(st.as_str(), "init"),
            None => false,
        };
        if init {
            push_event(&mut events, AgentEvent::Init { session_id: opt_clone(&e.session_id) });
        }
    } else if str_eq(t, "assistant") {
        match &e.message {
            Some(m) => {
                events = assistant_events(&m.content);
            },
            None => {},
        }
    } else if str_eq(t, "result") {
        let content = match &e.result {
            Some(ResultValue::Text(s)) => s.clone(),
            Some(ResultValue::Json(j)) => j.clone(),
            None => String::new(),
        };
        let duration_ms = match e.duration_ms {
            Some(d) => d,
            None => 0,
        };
        push_event(&mut events, AgentEvent::Done { content, session_id: opt_clone(&e.session_id), duration_ms });
    } else if str_eq(t, "user") {
        match &e.message {
            Some(m) => {
                events = user_message_events(&m.content);
            },
            None => {},
        }
    }
    proof {
        assert(events_view(events@) =~= line_events(Some(*e)));
    }
    events
}

// ─── Outcome of a run ──────────────────────────────────────────────────────

/// Sent when a resumed session no longer exists, so that the client starts a new one.
pub const SESSION_EXPIRED: &'static str = "SESSION_EXPIRED";

/// What the CLI says when the session to resume is gone.
pub const NO_SESSION_TEXT: &'static str = "No conversation found with session ID";

/// Whether the CLI's output tells that the session to resume is gone.
pub fn is_session_not_found(output: &str) -> (b: bool)
    ensures
        b == contains(output@, NO_SESSION_TEXT@),
{
    str_contains(output, NO_SESSION_TEXT)
}

/// Adds a line of a resumed session's text output to what was read so far.
pub fn append_output_line(full: &mut String, line: &str)
    ensures
        final(full)@ == if old(full)@.len() > 0 { old(full)@ + seq!['\n'] + line@ } else { line@ },
{
    if !full.as_str().is_empty() {
        full.append("\n");
        proof {
            reveal_strlit("\n");
            assert("\n"@ =~= seq!['\n']);
        }
    }
    full.append(line);
}

/// The events of a resumed session once its output `full` is read: the session is gone, or the
/// trimmed text (when not empty) and the end of the run.
pub open spec fn resume_view(full: Seq<char>, session_id: Option<Seq<char>>, duration_ms: u64) -> Seq<EventView> {
    let t = crate::text::trim(full);
    if contains(t, NO_SESSION_TEXT@) {
        seq![EventView::Error { message: SESSION_EXPIRED@ }]
    } else {
        (if t.len() > 0 { seq![EventView::Text { content: t }] } else { Seq::empty() })
            + seq![EventView::Done { content: t, session_id, duration_ms }]
    }
}

pub fn resume_events(full: &str, session_id: Option<String>, duration_ms: u64) -> (r: Vec<AgentEvent>)
    ensures
        events_view(r@) == resume_view(full@, opt_string_view(session_id), duration_ms),
{
    let t = crate::text::str_trim(full);
    let mut out: Vec<AgentEvent> = Vec::new();
    if is_session_not_found(t.as_str()) {
        push_event(&mut out, AgentEvent::Error { message: owned(SESSION_EXPIRED) });
    } else {
        if !t.as_str().is_empty() {
            push_event(&mut out, AgentEvent::Text { content: t.clone() });
        }
        push_event(&mut out, AgentEvent::Done { content: t, session_id, duration_ms });
    }
    proof {
        assert(events_view(out@) =~= resume_view(full@, opt_string_view(session_id), duration_ms));
    }
    out
}

/// The error reported when the CLI titled `title` exits with failure `status` after writing
/// `stderr`: the session is gone, or the first 500 characters of `stderr`, or the status when it
/// wrote nothing.
pub open spec fn exit_failure_view(title: Seq<char>, stderr: Seq<char>, status: Seq<char>) -> EventView {
    let detail = stderr.take(if stderr.len() < 500 { stderr.len() as int } else { 500 });
    if contains(detail, NO_SESSION_TEXT@) {
        EventView::Error { message: SESSION_EXPIRED@ }
    } else if detail.len() == 0 {
        EventView::Error { message: title + " CLI exited with "@ + status }
    } else {
        EventView::Error { message: title + " CLI error: "@ + detail }
    }
}

pub fn exit_failure_event(title: &str, stderr: &str, status: &str) -> (r: AgentEvent)
    ensures
        r@ == exit_failure_view(title@, stderr@, status@),
{
    let detail = crate::text::char_prefix(stderr, 500);
    if is_session_not_found(detail.as_str()) {
        AgentEvent::Error { message: owned(SESSION_EXPIRED) }
    } else if detail.as_str().is_empty() {
        AgentEvent::Error { message: cat3(title, " CLI exited with ", status) }
    } else {
        AgentEvent::Error { message: cat3(title, " CLI error: ", detail.as_str()) }
    }
}

/// The error of a run of the CLI titled `title` that took longer than its time limit.
pub fn timeout_event(title: &str) -> (r: AgentEvent)
    ensures
        r@ == (EventView::Error { message: title@ + " CLI timeout"@ }),
{
    AgentEvent::Error { message: cat(title, " CLI timeout") }
}

/// The error of a failed read of the CLI's output.
pub fn read_error_event(detail: &str) -> (r: AgentEvent)
    ensures
        r@ == (EventView::Error { message: "Read error: "@ + detail@ }),
{
    AgentEvent::Error { message: cat("Read error: ", detail) }
}

/// The error of a failed write of the images to the CLI's input.
pub fn image_write_error_event(detail: &str) -> (r: AgentEvent)
    ensures
        r@ == (EventView::Error { message: "Failed to send images: "@ + detail@ }),
{
    AgentEvent::Error { message: cat("Failed to send images: ", detail) }
}

/// Whether a line of the event stream carries nothing.
pub fn is_blank_line(line: &str) -> (b: bool)
    ensures
        b == (crate::text::trim(line@).len() == 0),
{
    crate::text::str_trim(line).as_str().is_empty()
}

/// Whether the events of a line end the run.
pub fn ends_run(events: &Vec<AgentEvent>) -> (b: bool)
    ensures
        b == exists|i: int| 0 <= i < events@.len() && events@[i] is Done,
{
    let mut i: usize = 0;
    while i < events.len()
        invariant
            i <= events.len(),
            forall|j: int| 0 <= j < i ==> !(events@[j] is Done),
        decreases events.len() - i,
    {
        if let AgentEvent::Done { .. } = &events[i] {
            return true;
        }
        i = i + 1;
    }
    false
}

// ─── Starting a run ────────────────────────────────────────────────────────

pub open spec fn removed_env_names() -> Seq<Seq<char>> {
    seq!["AWS_BEARER_TOKEN_BEDROCK"@, "AWS_BEARER_TOKEN"@, "CLAUDE_CODE_USE_BEDROCK"@, "ANTHROPIC_BASE_URL"@, "ANTHROPIC_API_KEY"@]
}

fn opt_ref(o: &Option<String>) -> (r: Option<&str>)
    ensures
        opt_str(r) == opt_string_view(*o),
{
    match o {
        Some(s) => Some(s.as_str()),
        None => None,
    }
}

/// The agent CLI's command name: the file name of its binary.
pub open spec fn cli_command(bin_path: Seq<char>) -> Seq<char> {
    crate::chat::last_segment_of(bin_path)
}

impl ClaudeAgent {
    /// The CLI's command name.
    pub fn command(&self) -> (r: String)
        ensures
            r@ == cli_command(self.bin_path@),
    {
        crate::chat::download_name(self.bin_path.as_str())
    }

    /// The name of this kind of agent: the command name followed by "-code".
    pub fn name(&self) -> (r: String)
        ensures
            r@ == cli_command(self.bin_path@) + "-code"@,
    {
        let c = self.command();
        cat(c.as_str(), "-code")
    }

    /// The CLI's name in messages: the command name with its first letter upper-case.
    pub fn cli_title(&self) -> (r: String)
        ensures
            r@ == capitalized(cli_command(self.bin_path@)),
    {
        let c = self.command();
        str_capitalized(c.as_str())
    }

    /// The hidden directory the CLI keeps in a workspace: "." and the command name.
    pub fn project_dir(&self) -> (r: String)
        ensures
            r@ == "."@ + cli_command(self.bin_path@),
    {
        let c = self.command();
        cat(".", c.as_str())
    }

    /// The file the CLI loads as project instructions: the command name upper-cased, then ".md".
    pub fn instructions_file(&self) -> (r: String)
        ensures
            r@ == upper(cli_command(self.bin_path@)) + ".md"@,
    {
        let c = self.command();
        let u = str_upper(c.as_str());
        cat(u.as_str(), ".md")
    }

    /// How the CLI is started for `config`.
    pub fn plan(&self, config: &AgentSessionConfig) -> (r: RunPlan)
        ensures
            r.program@ == self.bin_path@,
            r.work_dir@ == self.work_dir@,
            strings_view(r.args@) == cli_args(
                config.message@,
                opt_string_view(config.session_id),
                opt_string_view(config.system_prompt),
                config.images@.len() > 0,
                config.permission_mode@,
                strings_view(config.disallowed_tools@),
                strings_view(config.allowed_tools@),
                opt_string_view(config.mcp_config_path),
                config.model@,
                config.max_turns,
            ),
            r.stdin matches Some(i) ==> config.images@.len() > 0 && i@ == stream_input_text(config.message@, config.images@),
            r.stdin is None <==> config.images@.len() == 0,
            strings_view(r.removed_env@) == removed_env_names(),
            crate::claude::env_view(r.env@) == seq![("HOME"@, self.work_dir@)] + crate::claude::env_view(config.env_vars@),
            r.resume == config.session_id is Some,
    {
        let has_images = config.images.len() > 0;
        let args = build_args(
            config.message.as_str(),
            opt_ref(&config.session_id),
            opt_ref(&config.system_prompt),
            has_images,
            config.permission_mode.as_str(),
            &config.disallowed_tools,
            &config.allowed_tools,
            opt_ref(&config.mcp_config_path),
            config.model.as_str(),
            config.max_turns,
        );
        let stdin = if has_images {
            Some(build_stream_input(config.message.as_str(), &config.images))
        } else {
            None
        };
        let mut removed: Vec<String> = Vec::new();
        push_line(&mut removed, owned("AWS_BEARER_TOKEN_BEDROCK"));
        push_line(&mut removed, owned("AWS_BEARER_TOKEN"));
        push_line(&mut removed, owned("CLAUDE_CODE_USE_BEDROCK"));
        push_line(&mut removed, owned("ANTHROPIC_BASE_URL"));
        push_line(&mut removed, owned("ANTHROPIC_API_KEY"));
        proof {
            assert(strings_view(removed@) =~= removed_env_names());
        }
        let mut env: Vec<(String, String)> = Vec::new();
        env.push((owned("HOME"), self.work_dir.clone()));
        let ghost e0 = crate::claude::env_view(env@);
        proof {
            assert(e0 =~= seq![("HOME"@, self.work_dir@)]);
        }
        let mut i: usize = 0;
        while i < config.env_vars.len()
            invariant
                i <= config.env_vars.len(),
                crate::claude::env_view(env@) == e0 + crate::claude::env_view(config.env_vars@.take(i as int)),
            decreases config.env_vars.len() - i,
        {
            let k = config.env_vars[i].0.clone();
            let v = config.env_vars[i].1.clone();
            let ghost before = env@;
            let ghost pair = (k, v);
            env.push((k, v));
            proof {
                crate::text::lemma_take_step(config.env_vars@, i as int);
                crate::text::lemma_map_push(before, pair, |p: (String, String)| (p.0@, p.1@));
                crate::text::lemma_map_push(config.env_vars@.take(i as int), config.env_vars@[i as int], |p: (String, String)| (p.0@, p.1@));
                assert(crate::claude::env_view(env@) =~= e0 + crate::claude::env_view(config.env_vars@.take(i + 1)));
            }
            i = i + 1;
        }
        proof {
            assert(config.env_vars@.take(config.env_vars@.len() as int) =~= config.env_vars@);
        }
        RunPlan {
            program: self.bin_path.clone(),
            args,
            work_dir: self.work_dir.clone(),
            stdin,
            removed_env: removed,
            env,
            resume: config.session_id.is_some(),
        }
    }
}

} // verus!
