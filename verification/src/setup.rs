//! The files an agent run finds in its workspace: the API helper script, the
//! hook scripts and the settings that register them, the issue context of an
//! investigation, and the MCP server configuration.
use vstd::prelude::*;
use crate::agent::{json_quote, json_quoted};
use crate::auth::Id;
use crate::json::{json_pretty, json_pretty_text, json_same, json_same_value, json_set_string_field, json_with_string_field};
use crate::text::{cat, cat3, owned, replace_all, str_replace_all};

verus! {

// ─── The API helper ────────────────────────────────────────────────────────

pub const OPS_API_HEAD: &'static str = r#"#!/usr/bin/env bash
# ops-api — authenticated Ops API helper (auto-generated, do not edit)
# Usage: ops-api METHOD PATH [JSON_BODY]
# Examples:
#   ops-api GET /api/accounts
#   ops-api POST /api/jira/create '{"summary":"test"}'
set -euo pipefail
METHOD="${1:?Usage: ops-api METHOD PATH [BODY]}"
PATH_ARG="${2:?Usage: ops-api METHOD PATH [BODY]}"
BODY="${3:-}"
BASE=""#;
pub const OPS_API_MID: &'static str = r#""
TOKEN=""#;
pub const OPS_API_TAIL: &'static str = r#""

ARGS=(-sS -X "$METHOD" -H "Authorization: Bearer $TOKEN" -H "Content-Type: application/json")
if [ -n "$BODY" ]; then
  ARGS+=(-d "$BODY")
fi
exec curl "${ARGS[@]}" "$BASE$PATH_ARG"
"#;

/// The helper script that calls the Ops API at `api_base` with the bearer `token`.
pub fn ops_api_script(api_base: &str, token: &str) -> (r: String)
    ensures
        r@ == OPS_API_HEAD@ + api_base@ + OPS_API_MID@ + token@ + OPS_API_TAIL@,
{
    let mut s = cat3(OPS_API_HEAD, api_base, OPS_API_MID);
    s.append(token);
    s.append(OPS_API_TAIL);
    s
}

// ─── Approval enforcement ──────────────────────────────────────────────────

/// Where a script names the agent CLI's directory in the workspace.
pub const PROJECT_MARK: &'static str = "{{project}}";
/// Where a script names the instructions file the agent CLI loads.
pub const INSTRUCTIONS_MARK: &'static str = "{{instructions}}";

pub const APPROVAL_HOOK: &'static str = r#"#!/usr/bin/env bash
# PreToolUse hook: enforce approval flow for AWS write operations.
# Exit 0 = allow, Exit 2 = block (stdout shown to agent as reason).
set -euo pipefail
INPUT=$(cat)
TOOL=$(echo "$INPUT" | jq -r '.tool_name // empty' 2>/dev/null)
[[ "$TOOL" != "Bash" ]] && exit 0

CMD=$(echo "$INPUT" | jq -r '.tool_input.command // empty' 2>/dev/null)
[[ -z "$CMD" ]] && exit 0

# AWS write verbs — block direct execution
if echo "$CMD" | grep -qiE 'aws\s+\S+\s+(create-|delete-|modify-|put-|run-instances|terminate-|update-|start-db|stop-db|reboot-db|allocate-|release-|attach-|detach-|authorize-|revoke-|register-|deregister-)'; then
  cat <<'REASON'
BLOCKED: AWS write operations must go through the Approval Flow.
Follow the steps in {{instructions}}:
1. {{project}}/bin/ops-api POST /api/approvals '{"command":"...","reason":"...","plan_detail":{"prompt":"..."}}' to create an approval (Jira ticket is auto-created)
2. Report the approval ID and Jira key to the user
3. DO NOT execute the infrastructure command directly
REASON
  exit 2
fi

# terraform apply/destroy — also require approval
if echo "$CMD" | grep -qiE 'terraform\s+(apply|destroy)'; then
  echo "BLOCKED: Terraform apply/destroy requires approval. Use the Approval Flow in {{instructions}}."
  exit 2
fi

exit 0
"#;

/// Script `t` with the CLI's directory `project` and instructions file `instructions` put in.
pub open spec fn script_for(t: Seq<char>, project: Seq<char>, instructions: Seq<char>) -> Seq<char> {
    replace_all(replace_all(t, PROJECT_MARK@, project), INSTRUCTIONS_MARK@, instructions)
}

fn fill_script(t: &str, project: &str, instructions: &str) -> (r: String)
    ensures
        r@ == script_for(t@, project@, instructions@),
{
    proof {
        reveal_strlit("{{project}}");
        reveal_strlit("{{instructions}}");
    }
    let a = str_replace_all(t, PROJECT_MARK, project);
    str_replace_all(a.as_str(), INSTRUCTIONS_MARK, instructions)
}

/// The hook that stops the agent from running AWS write commands or Terraform apply/destroy
/// itself, pointing it at the approval flow.
pub fn approval_hook_script(project: &str, instructions: &str) -> (r: String)
    ensures
        r@ == script_for(APPROVAL_HOOK@, project@, instructions@),
{
    fill_script(APPROVAL_HOOK, project, instructions)
}

/// `{"type":"command","command":<path>}`: one hook command.
pub open spec fn hook_command(path: Seq<char>) -> Seq<char> {
    "{\"type\":\"command\",\"command\":"@ + json_quoted(path) + "}"@
}

/// The settings that run the hook at `hook_path` before every shell command.
pub open spec fn approval_settings_doc(hook_path: Seq<char>) -> Seq<char> {
    "{\"hooks\":{\"PreToolUse\":[{\"matcher\":\"Bash\",\"hooks\":["@ + hook_command(hook_path) + "]}]}}"@
}

fn hook_command_of(path: &str) -> (r: String)
    ensures
        r@ == hook_command(path@),
{
    let q = json_quote(path);
    cat3("{\"type\":\"command\",\"command\":", q.as_str(), "}")
}

/// The CLI settings that register the approval hook at `hook_path`, pretty-printed.
pub fn approval_hook_settings(hook_path: &str) -> (r: String)
    ensures
        r@ == json_pretty_text(approval_settings_doc(hook_path@)),
{
    let c = hook_command_of(hook_path);
    let doc = cat3("{\"hooks\":{\"PreToolUse\":[{\"matcher\":\"Bash\",\"hooks\":[", c.as_str(), "]}]}}");
    json_pretty(doc.as_str())
}


// ─── Investigation hooks ───────────────────────────────────────────────────

pub const RCA_LOGS_HOOK: &'static str = r#"#!/usr/bin/env bash
# PostToolUse hook: force retry with keywords when logs are empty but alert has errors.
# Exit 0 = approve, Exit 2 = block (stdout shown to agent as reason).
set -euo pipefail
INPUT=$(cat)
OUTPUT=$(echo "$INPUT" | jq -r '.tool_output // ""')

# Non-empty result → approve and mark logs as found
if ! echo "$OUTPUT" | grep -q "^(No "; then
  STATE="{{project}}/rca-state.json"
  if [ -f "$STATE" ]; then
    TMP=$(mktemp)
    jq '.logs_found = true' "$STATE" > "$TMP" && mv "$TMP" "$STATE"
  fi
  exit 0
fi

# Empty result — check if alert has error keywords
CTX="{{project}}/issue-context.json"
[ ! -f "$CTX" ] && exit 0

HAS_ERRORS=$(jq -r '.error_keywords_in_title // false' "$CTX")
[ "$HAS_ERRORS" != "true" ] && exit 0

# Check retry count — only block twice max to prevent infinite loops
STATE="{{project}}/rca-state.json"
if [ -f "$STATE" ]; then
  RETRY=$(jq -r '.logs_retry_count // 0' "$STATE")
  if [ "$RETRY" -ge 2 ]; then
    exit 0
  fi
fi

# Check if agent already used keywords parameter
TOOL_INPUT=$(echo "$INPUT" | jq -r '.tool_input // "{}"')
HAS_KW=$(echo "$TOOL_INPUT" | jq -r '.keywords // empty')
if [ -n "$HAS_KW" ]; then
  # Already used keywords, still empty — real data gap, allow
  exit 0
fi

# Block: force retry with keywords extracted from alert
KEYWORDS=$(jq -r '.extracted_keywords // [] | join(",")' "$CTX")
if [ -f "$STATE" ]; then
  TMP=$(mktemp)
  jq '.logs_retry_count += 1' "$STATE" > "$TMP" && mv "$TMP" "$STATE"
fi

cat <<MSG
日志搜索返回空结果，但告警明确提到错误关键词。
请用 keywords 参数重试: search_logs(service=同上, keywords="${KEYWORDS}")
不要设 level 过滤器，直接用关键词搜索原始日志文本。
MSG
exit 2
"#;
pub const RCA_TRACES_HOOK: &'static str = r#"#!/usr/bin/env bash
# PostToolUse hook: suggest broader trace search when results are empty.
set -euo pipefail
INPUT=$(cat)
OUTPUT=$(echo "$INPUT" | jq -r '.tool_output // ""')

# Non-empty result → approve and mark traces as found
if ! echo "$OUTPUT" | grep -q "^(No "; then
  STATE="{{project}}/rca-state.json"
  if [ -f "$STATE" ]; then
    TMP=$(mktemp)
    jq '.traces_found = true' "$STATE" > "$TMP" && mv "$TMP" "$STATE"
  fi
  exit 0
fi

# Empty result — check if agent used status=error (default)
CTX="{{project}}/issue-context.json"
[ ! -f "$CTX" ] && exit 0

HAS_ERRORS=$(jq -r '.error_keywords_in_title // false' "$CTX")
[ "$HAS_ERRORS" != "true" ] && exit 0

TOOL_INPUT=$(echo "$INPUT" | jq -r '.tool_input // "{}"')
STATUS=$(echo "$TOOL_INPUT" | jq -r '.status // "error"')

# If searched with status=error and got nothing, suggest broader search
if [ "$STATUS" = "error" ]; then
  cat <<MSG
链路追踪搜索返回空结果。建议：
1. 去掉 status 过滤，搜索全部 trace: search_traces(service=同上, status="")
2. 或者用 min_duration_ms 搜索慢请求: search_traces(service=同上, min_duration_ms=1000, status="")
MSG
  exit 2
fi

# Already tried broader search — allow
exit 0
"#;
pub const RCA_STOP_HOOK: &'static str = r#"#!/usr/bin/env bash
# Stop hook: prevent agent from concluding before finding evidence.
set -euo pipefail

STATE="{{project}}/rca-state.json"
[ ! -f "$STATE" ] && exit 0

HAS_ERRORS=$(jq -r '.error_keywords_in_title // false' "$STATE")
[ "$HAS_ERRORS" != "true" ] && exit 0

LOGS_FOUND=$(jq -r '.logs_found // false' "$STATE")
STOP_COUNT=$(jq -r '.stop_blocked_count // 0' "$STATE")

# Only block once to prevent infinite loop
[ "$STOP_COUNT" -ge 1 ] && exit 0

if [ "$LOGS_FOUND" != "true" ]; then
  TMP=$(mktemp)
  jq '.stop_blocked_count += 1' "$STATE" > "$TMP" && mv "$TMP" "$STATE"
  KEYWORDS=$(jq -r '.extracted_keywords // [] | join(",")' "{{project}}/issue-context.json" 2>/dev/null)
  cat <<MSG
调查不完整：告警包含错误关键词 (${KEYWORDS}) 但你没有找到相关日志证据。
请尝试：
1. search_logs(service=目标服务, keywords="${KEYWORDS}") 不设 level 过滤器
2. 如果 service_name 匹配不到，用 discover_data_sources(label="service_name") 确认实际名称
3. 如果确实无数据，在报告中明确说明"遥测数据缺失，无法确认根因"而非"服务正常"
MSG
  exit 2
fi

exit 0
"#;

pub open spec fn rca_hook_names() -> Seq<Seq<char>> {
    seq!["post-search-logs.sh"@, "post-search-traces.sh"@, "validate-stop.sh"@]
}

pub open spec fn rca_hook_templates() -> Seq<Seq<char>> {
    seq![RCA_LOGS_HOOK@, RCA_TRACES_HOOK@, RCA_STOP_HOOK@]
}

/// The hook scripts of an investigation, by file name: the log-search and trace-search checks
/// and the check before the agent stops; they keep their state in the CLI's directory `project`.
pub fn rca_hook_scripts(project: &str) -> (r: Vec<(String, String)>)
    ensures
        r@.len() == 3,
        forall|i: int| 0 <= i < 3 ==> (#[trigger] r@[i]).0@ == rca_hook_names()[i]
            && r@[i].1@ == script_for(rca_hook_templates()[i], project@, INSTRUCTIONS_MARK@),
{
    let mut v: Vec<(String, String)> = Vec::new();
    v.push((owned("post-search-logs.sh"), fill_script(RCA_LOGS_HOOK, project, INSTRUCTIONS_MARK)));
    v.push((owned("post-search-traces.sh"), fill_script(RCA_TRACES_HOOK, project, INSTRUCTIONS_MARK)));
    v.push((owned("validate-stop.sh"), fill_script(RCA_STOP_HOOK, project, INSTRUCTIONS_MARK)));
    v
}

/// The settings that run the investigation hooks found in `hooks_dir`: the two searches are
/// checked after each call, and the stop check runs before the agent ends.
pub open spec fn rca_settings_doc(hooks_dir: Seq<char>) -> Seq<char> {
    "{\"hooks\":{\"PostToolUse\":[{\"matcher\":\"mcp__opsk-rca__search_logs\",\"hooks\":["@
        + hook_command(hooks_dir + "/post-search-logs.sh"@)
        + "]},{\"matcher\":\"mcp__opsk-rca__search_traces\",\"hooks\":["@
        + hook_command(hooks_dir + "/post-search-traces.sh"@) + "]}],\"Stop\":[{\"hooks\":["@
        + hook_command(hooks_dir + "/validate-stop.sh"@) + "]}]}}"@
}

/// The CLI settings of an investigation, pretty-printed.
pub fn rca_hook_settings(hooks_dir: &str) -> (r: String)
    ensures
        r@ == json_pretty_text(rca_settings_doc(hooks_dir@)),
{
    let logs = hook_command_of(cat(hooks_dir, "/post-search-logs.sh").as_str());
    let traces = hook_command_of(cat(hooks_dir, "/post-search-traces.sh").as_str());
    let stop = hook_command_of(cat(hooks_dir, "/validate-stop.sh").as_str());
    let mut doc = cat3("{\"hooks\":{\"PostToolUse\":[{\"matcher\":\"mcp__opsk-rca__search_logs\",\"hooks\":[", logs.as_str(), "]},{\"matcher\":\"mcp__opsk-rca__search_traces\",\"hooks\":[");
    doc.append(traces.as_str());
    doc.append("]}],\"Stop\":[{\"hooks\":[");
    doc.append(stop.as_str());
    doc.append("]}]}}");
    json_pretty(doc.as_str())
}

/// The keywords as a JSON array of strings.
pub open spec fn json_string_array(items: Seq<Seq<char>>) -> Seq<char> {
    "["@ + crate::text::join(items.map_values(|k: Seq<char>| json_quoted(k)), ","@) + "]"@
}

fn json_array_of(items: &Vec<String>) -> (r: String)
    ensures
        r@ == json_string_array(items@.map_values(|s: String| s@)),
{
    let mut quoted: Vec<String> = Vec::new();
    let mut i: usize = 0;
    while i < items.len()
        invariant
            i <= items.len(),
            crate::text::strings_view(quoted@) == items@.take(i as int).map_values(|s: String| json_quoted(s@)),
        decreases items.len() - i,
    {
        let q = json_quote(items[i].as_str());
        proof {
            crate::text::lemma_take_step(items@, i as int);
            crate::text::lemma_map_push(items@.take(i as int), items@[i as int], |s: String| json_quoted(s@));
            crate::text::lemma_map_push(quoted@, q, |s: String| s@);
        }
        quoted.push(q);
        i = i + 1;
    }
    proof {
        assert(items@.take(items@.len() as int) =~= items@);
        assert(items@.map_values(|s: String| json_quoted(s@)) =~= items@.map_values(|s: String| s@).map_values(
            |k: Seq<char>| json_quoted(k),
        ));
    }
    let body = crate::text::join_strings(&quoted, ",");
    cat3("[", body.as_str(), "]")
}

pub open spec fn opt_json_text(o: Option<Seq<char>>) -> Seq<char> {
    match o {
        Some(s) => json_quoted(s),
        None => "null"@,
    }
}

/// What the hooks read about the issue under investigation: its title, description (null when
/// it has none), severity and source, whether error keywords were found, and those keywords.
pub open spec fn issue_context_doc(
    title: Seq<char>,
    description: Option<Seq<char>>,
    severity: Seq<char>,
    source: Seq<char>,
    keywords: Seq<Seq<char>>,
) -> Seq<char> {
    "{\"title\":"@ + json_quoted(title) + ",\"description\":"@ + opt_json_text(description) + ",\"severity\":"@
        + json_quoted(severity) + ",\"source\":"@ + json_quoted(source) + ",\"error_keywords_in_title\":"@ + (if keywords.len()
        > 0 {
        "true"@
    } else {
        "false"@
    }) + ",\"extracted_keywords\":"@ + json_string_array(keywords) + "}"@
}

/// The issue context of an investigation, pretty-printed (see `issue_context_doc`).
pub fn rca_issue_context(
    title: &str,
    description: Option<&str>,
    severity: &str,
    source: &str,
    keywords: &Vec<String>,
) -> (r: String)
    ensures
        r@ == json_pretty_text(
            issue_context_doc(
                title@,
                match description {
                    Some(d) => Some(d@),
                    None => None,
                },
                severity@,
                source@,
                keywords@.map_values(|s: String| s@),
            ),
        ),
{
    let mut doc = cat("{\"title\":", json_quote(title).as_str());
    doc.append(",\"description\":");
    match description {
        Some(d) => doc.append(json_quote(d).as_str()),
        None => doc.append("null"),
    }
    doc.append(",\"severity\":");
    doc.append(json_quote(severity).as_str());
    doc.append(",\"source\":");
    doc.append(json_quote(source).as_str());
    doc.append(",\"error_keywords_in_title\":");
    doc.append(if keywords.len() > 0 { "true" } else { "false" });
    doc.append(",\"extracted_keywords\":");
    doc.append(json_array_of(keywords).as_str());
    doc.append("}");
    json_pretty(doc.as_str())
}

/// The state the hooks start from: nothing found yet, no retries, no blocked stop.
pub open spec fn initial_state_doc(keywords: Seq<Seq<char>>) -> Seq<char> {
    "{\"error_keywords_in_title\":"@ + (if keywords.len() > 0 { "true"@ } else { "false"@ })
        + ",\"extracted_keywords\":"@ + json_string_array(keywords)
        + ",\"logs_found\":false,\"traces_found\":false,\"logs_retry_count\":0,\"stop_blocked_count\":0}"@
}

/// The initial hook state of an investigation, pretty-printed.
pub fn rca_initial_state(keywords: &Vec<String>) -> (r: String)
    ensures
        r@ == json_pretty_text(initial_state_doc(keywords@.map_values(|s: String| s@))),
{
    let mut doc = cat("{\"error_keywords_in_title\":", if keywords.len() > 0 { "true" } else { "false" });
    doc.append(",\"extracted_keywords\":");
    doc.append(json_array_of(keywords).as_str());
    doc.append(",\"logs_found\":false,\"traces_found\":false,\"logs_retry_count\":0,\"stop_blocked_count\":0}");
    json_pretty(doc.as_str())
}


// ─── MCP servers ───────────────────────────────────────────────────────────

/// An MCP server enabled for the user.  `args`, `headers` and `env` are its stored JSON values,
/// as JSON text.
pub struct McpServerRow {
    pub id: Id,
    pub name: String,
    pub transport_type: String,
    pub url: Option<String>,
    pub command: Option<String>,
    pub args: String,
    pub headers: String,
    pub env: String,
}

impl McpServerRow {
    pub fn copy(&self) -> (r: McpServerRow)
        ensures
            r == *self,
    {
        McpServerRow {
            id: self.id,
            name: self.name.clone(),
            transport_type: self.transport_type.clone(),
            url: copy_opt(&self.url),
            command: copy_opt(&self.command),
            args: self.args.clone(),
            headers: self.headers.clone(),
            env: self.env.clone(),
        }
    }
}

fn copy_opt(o: &Option<String>) -> (r: Option<String>)
    ensures
        r == *o,
{
    match o {
        Some(s) => Some(s.clone()),
        None => None,
    }
}

/// The servers a chat uses: those asked for by id, or all of them when none are named.
pub open spec fn chosen(s: McpServerRow, ids: Option<Seq<Id>>) -> bool {
    match ids {
        Some(v) => v.len() == 0 || v.contains(s.id),
        None => true,
    }
}

pub open spec fn ids_view(ids: Option<&Vec<Id>>) -> Option<Seq<Id>> {
    match ids {
        Some(v) => Some(v@),
        None => None,
    }
}

pub fn select_servers(all: &Vec<McpServerRow>, ids: Option<&Vec<Id>>) -> (r: Vec<McpServerRow>)
    ensures
        r@ == all@.filter(|s: McpServerRow| chosen(s, ids_view(ids))),
{
    let mut out: Vec<McpServerRow> = Vec::new();
    let mut i: usize = 0;
    while i < all.len()
        invariant
            i <= all.len(),
            out@ == all@.take(i as int).filter(|s: McpServerRow| chosen(s, ids_view(ids))),
        decreases all.len() - i,
    {
        let s = &all[i];
        let keep = match ids {
            Some(v) => v.len() == 0 || contains_id(v, s.id),
            None => true,
        };
        proof {
            crate::text::lemma_take_step(all@, i as int);
            assert(all@.take(i + 1).drop_last() == all@.take(i as int));
            reveal(Seq::filter);
        }
        if keep {
            out.push(s.copy());
        }
        i = i + 1;
    }
    proof {
        assert(all@.take(all@.len() as int) =~= all@);
    }
    out
}

fn contains_id(v: &Vec<Id>, x: Id) -> (b: bool)
    ensures
        b == v@.contains(x),
{
    let mut i: usize = 0;
    while i < v.len()
        invariant
            i <= v.len(),
            forall|j: int| 0 <= j < i ==> v@[j] != x,
        decreases v.len() - i,
    {
        if v[i] == x {
            return true;
        }
        i = i + 1;
    }
    false
}

/// A server address as the CLI reaches it: a path on this backend is put after `base`.
pub open spec fn resolved_url(url: Seq<char>, base: Seq<char>) -> Seq<char> {
    if crate::text::starts_with(url, "/"@) {
        crate::text::trim_end_matches(base, "/"@) + url
    } else {
        url
    }
}

/// The headers sent to a server: the platform's own servers (named "opsk-...") also get the
/// user's bearer token when one is given.
pub open spec fn sent_headers(s: McpServerRow, token: Option<Seq<char>>) -> Seq<char> {
    match token {
        Some(t) => if crate::text::starts_with(s.name@, "opsk-"@) {
            match json_with_string_field(s.headers@, "Authorization"@, "Bearer "@ + t) {
                Some(h) => h,
                None => s.headers@,
            }
        } else {
            s.headers@
        },
        None => s.headers@,
    }
}

pub open spec fn unless_same(key: Seq<char>, value: Seq<char>, empty: Seq<char>) -> Seq<char> {
    if json_same_value(value, empty) {
        Seq::empty()
    } else {
        ",\""@ + key + "\":"@ + value
    }
}

/// The CLI's entry for a server: a network server ("sse" or "http") by its address, headers and
/// environment; any other by its command, arguments and environment.  Empty headers, arguments
/// and environments are left out.
pub open spec fn server_entry(s: McpServerRow, base: Seq<char>, token: Option<Seq<char>>) -> Seq<char> {
    if s.transport_type@ == "sse"@ || s.transport_type@ == "http"@ {
        "{\"type\":"@ + json_quoted(s.transport_type@) + (match s.url {
            Some(u) => ",\"url\":"@ + json_quoted(resolved_url(u@, base)),
            None => Seq::empty(),
        }) + unless_same("headers"@, sent_headers(s, token), "{}"@) + unless_same("env"@, s.env@, "{}"@) + "}"@
    } else {
        "{\"command\":"@ + opt_json_text(match s.command {
            Some(c) => Some(c@),
            None => None,
        }) + unless_same("args"@, s.args@, "[]"@) + unless_same("env"@, s.env@, "{}"@) + "}"@
    }
}

fn unless_same_of(key: &str, value: &str, empty: &str) -> (r: String)
    ensures
        r@ == unless_same(key@, value@, empty@),
{
    if json_same(value, empty) {
        String::new()
    } else {
        let mut t = cat3(",\"", key, "\":");
        t.append(value);
        t
    }
}

fn headers_of(s: &McpServerRow, token: Option<&str>) -> (r: String)
    ensures
        r@ == sent_headers(*s, match token { Some(t) => Some(t@), None => None }),
{
    match token {
        Some(t) => {
            if crate::text::str_starts_with(s.name.as_str(), "opsk-") {
                let bearer = cat("Bearer ", t);
                match json_set_string_field(s.headers.as_str(), "Authorization", bearer.as_str()) {
                    Some(h) => h,
                    None => s.headers.clone(),
                }
            } else {
                s.headers.clone()
            }
        },
        None => s.headers.clone(),
    }
}

/// The CLI's entry for server `s` (see `server_entry`), written compactly.
pub fn mcp_server_entry(s: &McpServerRow, base: &str, token: Option<&str>) -> (r: String)
    ensures
        r@ == server_entry(*s, base@, match token { Some(t) => Some(t@), None => None }),
{
    if crate::text::str_eq(s.transport_type.as_str(), "sse") || crate::text::str_eq(s.transport_type.as_str(), "http") {
        let mut out = cat("{\"type\":", json_quote(s.transport_type.as_str()).as_str());
        match &s.url {
            Some(u) => {
                let resolved = if crate::text::str_starts_with(u.as_str(), "/") {
                    cat(crate::text::str_trim_end_matches(base, "/").as_str(), u.as_str())
                } else {
                    u.clone()
                };
                out.append(",\"url\":");
                out.append(json_quote(resolved.as_str()).as_str());
            },
            None => {},
        }
        let h = headers_of(s, token);
        out.append(unless_same_of("headers", h.as_str(), "{}").as_str());
        out.append(unless_same_of("env", s.env.as_str(), "{}").as_str());
        out.append("}");
        out
    } else {
        let mut out = owned("{\"command\":");
        match &s.command {
            Some(c) => out.append(json_quote(c.as_str()).as_str()),
            None => out.append("null"),
        }
        out.append(unless_same_of("args", s.args.as_str(), "[]").as_str());
        out.append(unless_same_of("env", s.env.as_str(), "{}").as_str());
        out.append("}");
        out
    }
}

pub open spec fn entry_member(s: McpServerRow, base: Seq<char>, token: Option<Seq<char>>) -> Seq<char> {
    json_quoted(s.name@) + ":"@ + server_entry(s, base, token)
}

/// The CLI's MCP configuration for `servers`: each server's entry under its name.
pub open spec fn mcp_config_doc(servers: Seq<McpServerRow>, base: Seq<char>, token: Option<Seq<char>>) -> Seq<char> {
    "{\"mcpServers\":{"@ + crate::text::join(servers.map_values(|s: McpServerRow| entry_member(s, base, token)), ","@)
        + "}}"@
}

/// The MCP configuration file of a chat (pretty-printed; none without servers) and the names of
/// its servers.  Paths of this backend are reached through `base`; `token` is the user's token.
pub fn mcp_config(servers: &Vec<McpServerRow>, base: &str, token: Option<&str>) -> (r: (Option<String>, Vec<String>))
    ensures
        crate::text::strings_view(r.1@) == servers@.map_values(|s: McpServerRow| s.name@),
        servers@.len() == 0 ==> r.0 is None,
        servers@.len() > 0 ==> (r.0 matches Some(t) && t@ == json_pretty_text(
            mcp_config_doc(servers@, base@, match token { Some(t) => Some(t@), None => None }),
        )),
{
    let ghost tk = match token { Some(t) => Some(t@), None => None };
    let mut names: Vec<String> = Vec::new();
    let mut members: Vec<String> = Vec::new();
    let mut i: usize = 0;
    while i < servers.len()
        invariant
            i <= servers.len(),
            tk == match token { Some(t) => Some(t@), None => None },
            crate::text::strings_view(names@) == servers@.take(i as int).map_values(|s: McpServerRow| s.name@),
            crate::text::strings_view(members@) == servers@.take(i as int).map_values(
                |s: McpServerRow| entry_member(s, base@, tk),
            ),
        decreases servers.len() - i,
    {
        let s = &servers[i];
        let e = mcp_server_entry(s, base, token);
        let m = cat3(json_quote(s.name.as_str()).as_str(), ":", e.as_str());
        let n = s.name.clone();
        proof {
            crate::text::lemma_take_step(servers@, i as int);
            crate::text::lemma_map_push(servers@.take(i as int), servers@[i as int], |s: McpServerRow| s.name@);
            crate::text::lemma_map_push(
                servers@.take(i as int),
                servers@[i as int],
                |s: McpServerRow| entry_member(s, base@, tk),
            );
            crate::text::lemma_map_push(names@, n, |s: String| s@);
            crate::text::lemma_map_push(members@, m, |s: String| s@);
        }
        names.push(n);
        members.push(m);
        i = i + 1;
    }
    proof {
        assert(servers@.take(servers@.len() as int) =~= servers@);
    }
    if servers.len() == 0 {
        return (None, names);
    }
    let body = crate::text::join_strings(&members, ",");
    let doc = cat3("{\"mcpServers\":{", body.as_str(), "}}");
    (Some(json_pretty(doc.as_str())), names)
}

/// The MCP configuration of an investigation: the platform's analysis server at `url`, with
/// the bearer token when there is one and the issue's time.
pub open spec fn rca_mcp_doc(url: Seq<char>, token: Option<Seq<char>>, issue_time: Seq<char>) -> Seq<char> {
    "{\"mcpServers\":{\"opsk-rca\":{\"type\":\"http\",\"url\":"@ + json_quoted(url) + ",\"headers\":{"@ + (match token {
        Some(t) => "\"Authorization\":"@ + json_quoted("Bearer "@ + t) + ","@,
        None => Seq::empty(),
    }) + "\"X-Issue-Time\":"@ + json_quoted(issue_time) + "}}}}"@
}

/// The MCP configuration file of an investigation anchored at `issue_time` (RFC 3339), reaching
/// this backend at `base_url`; pretty-printed.
pub fn rca_mcp_config(base_url: &str, issue_time: &str, token: Option<&str>) -> (r: String)
    ensures
        r@ == json_pretty_text(
            rca_mcp_doc(
                crate::text::trim_end_matches(base_url@, "/"@) + "/api/mcp/rca?issue_time="@
                    + crate::json::percent_encoded(vstd::utf8::encode_utf8(issue_time@)),
                match token { Some(t) => Some(t@), None => None },
                issue_time@,
            ),
        ),
{
    let url = crate::rca::rca_mcp_url(base_url, issue_time);
    let mut doc = cat3("{\"mcpServers\":{\"opsk-rca\":{\"type\":\"http\",\"url\":", json_quote(url.as_str()).as_str(), ",\"headers\":{");
    match token {
        Some(t) => {
            doc.append("\"Authorization\":");
            doc.append(json_quote(cat("Bearer ", t).as_str()).as_str());
            doc.append(",");
        },
        None => {},
    }
    doc.append("\"X-Issue-Time\":");
    doc.append(json_quote(issue_time).as_str());
    doc.append("}}}}");
    proof {
        let tk = match token { Some(t) => Some(t@), None => None };
        assert(doc@ =~= rca_mcp_doc(url@, tk, issue_time@));
    }
    json_pretty(doc.as_str())
}

} // verus!
