//! What a chat run is set up with and what it records: the project
//! instructions of a user's workspace, the provider settings and tool lists of
//! the agent, and the bookkeeping of the streamed conversation.
use vstd::prelude::*;
use crate::claude::{build_provider_env_vars, chunk_of, env_view, provider_env, AgentEvent, AgentPermission, StreamChunk};
use crate::json::{json_str_at, json_str_field, json_str_list_at, json_str_list_field, json_u64_at, json_u64_field};
use crate::auth::AppError;
use crate::text::{string_list, append_lines, opt_string_view, push_line, strings_view, cat, cat3, chars_of, contains, dec, ends_with, has_char, has_sub, join, join_strings, lemma_map_push, lemma_take_step, owned, slice_from, starts_with, str_ends_with, str_eq, str_starts_with, string_from_chars, u64_to_string, replace_all, str_replace_all};

verus! {

// ─── Project instructions ──────────────────────────────────────────────────

/// Where a template names the API helper the agent runs.
pub const HELPER_MARK: &'static str = "{{ops-api}}";
/// Where a template names the instructions file the agent CLI loads.
pub const INSTRUCTIONS_MARK: &'static str = "{{instructions}}";


pub const MD_INTRO: &'static str = r#"# Ops Agent Instructions

You are Ops AI, a multi-cloud infrastructure operations assistant.
Answer in the user's language. Be concise and actionable.
"#;
pub const MD_MCP_HEAD: &'static str = r#"## MCP Tools Reference

You have MCP tools available. Use them **only when the task matches what the tool does**.
Do NOT call MCP tools speculatively or "just to check" — only when they directly serve the user's request.
"#;
pub const MD_MCP_RULES: &'static str = r#"**Rules:**
1. Match the tool to the task: knowledge/document questions → GraphRAG tools; rollout management → rollout tools; etc.
2. For **infrastructure operations** (create/delete/modify AWS resources), use Bash + AWS CLI + the Approval flow below. Do NOT use MCP tools for infra changes.
3. MCP tools handle auth automatically — no tokens needed.
4. When NO MCP tool matches, use Bash/curl.
"#;
pub const MD_ENV_HEAD: &'static str = r#"## Environment Rules
"#;
pub const MD_ENV_REST: &'static str = r#"- **Credentials**: AWS credentials and the `{{ops-api}}` helper are pre-configured. NEVER echo, print, or verify credentials — just use them directly. NEVER ask the user for credentials.
- **Scope**: When a task requires choosing regions, months, time ranges — always ASK the user first.

## MCP & RAG Image Handling

When RAG tools (e.g. rag_tool) return content containing images in markdown format like `![IMAGE: description](https://...)`, you MUST:
1. **Include the original image URL** as-is in your response using markdown: `![description](url)`
2. **NEVER recreate diagrams** as mermaid/ASCII/text when the original image is available
3. The frontend renders markdown images natively — just pass the URL through

## How to Answer Knowledge Questions

When the user asks about **internal terminology, glossary, abbreviations, runbooks, knowledge base entries, cloud accounts, or security findings**, you MUST query the Ops API.

The knowledge is stored in a database, NOT in local files. Do NOT search or read local files for this information.
"#;
pub const MD_KNOWLEDGE_MCP: &'static str = r#"For knowledge/document queries, prefer the MCP tools listed above. Use these curl commands for operations not covered by MCP tools:"#;
pub const MD_KNOWLEDGE_PLAIN: &'static str = r#"Use these commands (env vars are pre-set):"#;
pub const MD_API: &'static str = r#"
**IMPORTANT**: Always use the `{{ops-api}}` wrapper script instead of raw curl. It handles authentication automatically and avoids output being hidden by security filters.
Usage: `{{ops-api}} METHOD PATH [JSON_BODY]`

### Discovery & Assets
```bash
# Cloud accounts (provider, account_id, regions, role_arn)
{{ops-api}} GET /api/accounts
# Kubernetes clusters (name, cloud, region, status, endpoint)
{{ops-api}} GET /api/clusters
# Service topology (real-time Ingress→Service→Deployment/Rollout graph)
{{ops-api}} GET /api/topology
# Security resources & findings
{{ops-api}} GET /api/resources
{{ops-api}} GET /api/resources/dashboard
```

### Deployments (Argo Rollouts)
```bash
# List rollouts on a cluster
{{ops-api}} GET /api/clusters/{cluster_id}/rollouts
# Get rollout detail (canary steps, containers)
{{ops-api}} GET /api/clusters/{cluster_id}/rollouts/{ns}/{name}
# Promote rollout (step or full)
{{ops-api}} POST /api/clusters/{cluster_id}/rollouts/{ns}/{name}/promote '{"full":false}'
# Rollback rollout
{{ops-api}} POST /api/clusters/{cluster_id}/rollouts/{ns}/{name}/rollback
# Change strategy (canary/blueGreen/rollingUpdate)
{{ops-api}} POST /api/clusters/{cluster_id}/rollouts/{ns}/{name}/strategy '{"strategy":"canary","canarySteps":[{"setWeight":20},{"pause":{}},{"setWeight":50},{"pause":{"duration":"60s"}}]}'
# Analysis runs for a rollout
{{ops-api}} GET /api/clusters/{cluster_id}/rollouts/{ns}/{name}/analysis
# Deployment history (audit log)
{{ops-api}} GET /api/deployment-events
# Filter by cluster: ?cluster_id=UUID  or by rollout: &namespace=X&rollout_name=Y
```

### Issues & Observability
```bash
# Active issues / alerts (filter: ?status=open&severity=critical&issue_type=security)
{{ops-api}} GET /api/issues
# Pending issue count
{{ops-api}} GET /api/issues/count
# Issue detail
{{ops-api}} GET /api/issues/{id}
# Update issue (change status/severity/description)
{{ops-api}} PUT /api/issues/{id} '{"status":"resolved"}'
# Start root cause analysis on an issue (streams SSE)
{{ops-api}} POST /api/issues/{id}/rca
# Telemetry config (Grafana/Mimir/Loki/Tempo endpoints)
{{ops-api}} GET /api/telemetry
# Dashboard stats
{{ops-api}} GET /api/dashboard/stats
```

### Approvals (Check Status)
```bash
# List all approvals (filter: ?status=pending|approved|executing|executed|failed|rejected)
{{ops-api}} GET /api/approvals
# Pending approval count
{{ops-api}} GET /api/approvals/count
```
Use this to check if your previously created approval has been reviewed, is executing, or has completed.
The `execution_result` field contains `{"success":true,"output":"..."}` or `{"success":false,"error":"..."}`.

### Knowledge & Glossary
```bash
# Glossary (internal terminology)
{{ops-api}} GET /api/glossary
# Knowledge base (runbooks, docs)
{{ops-api}} GET /api/knowledge
```

### Integrations
```bash
# Notification channels (Slack, webhook, etc.)
{{ops-api}} GET /api/channels
# LLM providers
{{ops-api}} GET /api/providers
# MCP servers
{{ops-api}} GET /api/mcp
# Scheduled jobs
{{ops-api}} GET /api/scheduled-jobs
# Pipeline repos (Git)
{{ops-api}} GET /api/pipeline/repos
```

## API Usage Rules

- Always call the relevant API FIRST before answering.
- **Empty result handling**: If an API returns `[]` or `null`, that is the definitive answer — the data does not exist. Report this to the user immediately. Do NOT retry the same endpoint with different parameters, do NOT try alternative query approaches, do NOT loop. An empty array means zero records, not an error.
- **Error handling**: Only retry on HTTP 5xx errors (max 1 retry). For 4xx errors, report the error to the user.
"#;
pub const MD_APPROVAL_HEAD: &'static str = r#"### Approval Flow (CRITICAL — must follow for infrastructure changes)

When the user requests **infrastructure changes** (create/delete/modify cloud resources, security fixes, config changes), follow these steps **exactly**. Each step involves a real Bash tool call — **never skip or simulate** the commands.

**Step 1:** Describe to the user what you plan to do (resource, region, account, config).

**Step 2:** Run this in **Bash** using the `ops-api` helper:
```bash
{{ops-api}} POST /api/approvals '{"command":"<short description>","reason":"<why>","plan_detail":{"prompt":"<detailed execution prompt>"}}'
```
Read the JSON response. Extract the `id` field (a UUID like `550e8400-e29b-41d4-a716-446655440000`).
**If the command fails or returns no `id`, tell the user the exact error.** Do not proceed.

**Step 3:** Report to the user with the **actual values** from the Step 2 response:
- Approval ID: `<the id field>`"#;
pub const MD_JIRA_LINE: &'static str = r#"- Jira ticket: `<jira_key field>` (auto-created by the system)"#;
pub const MD_APPROVAL_TAIL: &'static str = r#"- Tell them an admin can approve it in the Ops Approvals page, and it will auto-execute once approved.

**RULES:**
- Never fabricate an approval ID or Jira key. Only report values you received from the API.
- Never say "approval created" without having actually run the command and gotten a response.
- Do NOT execute the infrastructure change yourself — only create the approval record.
- Only create approvals for **write operations** (create/delete/modify). Read-only queries need no approval — just answer directly.
"#;
pub const MD_OBSERVABILITY: &'static str = r#"## Observability

Prediction and RCA instructions are defined in the project {{instructions}}. To get live telemetry endpoints:

```bash
# Fetch configured telemetry provider + endpoints
{{ops-api}} GET /api/telemetry
```
"#;
pub const MD_MULTI_HEAD: &'static str = r#"## AWS Multi-Account Access

Your base credentials authenticate as the management account (hub). To operate in a child account, assume the target role first.
"#;
pub const MD_SWITCH: &'static str = r#"### How to Switch Accounts

```bash
# Assume target account's role
CREDS=$(aws sts assume-role \
  --role-arn "TARGET_ROLE_ARN" \
  --role-session-name "opsk-agent" \
  --query 'Credentials.[AccessKeyId,SecretAccessKey,SessionToken]' \
  --output text)
export AWS_ACCESS_KEY_ID=$(echo $CREDS | awk '{print $1}')
export AWS_SECRET_ACCESS_KEY=$(echo $CREDS | awk '{print $2}')
export AWS_SESSION_TOKEN=$(echo $CREDS | awk '{print $3}')
aws sts get-caller-identity  # verify
```

**Rules:**
- Always `aws sts get-caller-identity` before creating resources.
- To switch back to management: `unset AWS_ACCESS_KEY_ID AWS_SECRET_ACCESS_KEY AWS_SESSION_TOKEN`
- To switch to another child: unset first, then assume the new role.
- Match user's account name (e.g. "Production", "Staging") to the list above.
- Append `--region <region>` to target a specific region.
"#;

pub struct McpToolDoc {
    pub name: Option<String>,
    pub description: Option<String>,
}

/// An MCP server enabled for the user; `tools` is its tool list when it has one.
pub struct McpServerDoc {
    pub name: String,
    pub description: Option<String>,
    pub tools: Option<Vec<McpToolDoc>>,
}

pub struct GlossaryTerm {
    pub term: String,
    pub full_name: Option<String>,
    pub description: Option<String>,
}

/// A cloud account the user can reach, hub (manual) accounts first.
pub struct CloudAccountDoc {
    pub provider: String,
    pub name: String,
    pub account_id: Option<String>,
    pub role_arn: Option<String>,
    pub regions: Vec<String>,
}

pub struct ClusterDoc {
    pub name: String,
    pub cloud: String,
    pub cluster_type: String,
    pub region: Option<String>,
    pub account_id: Option<String>,
    pub status: String,
}

/// What the workspace instructions are written from.
pub struct ClaudeMdInput {
    pub workspace: String,
    /// The agent CLI's hidden directory in the workspace; the helper is `bin/ops-api` there.
    pub project_dir: String,
    /// The file the agent CLI loads as project instructions.
    pub instructions_file: String,
    pub servers: Vec<McpServerDoc>,
    pub has_jira: bool,
    pub glossary: Vec<GlossaryTerm>,
    pub accounts: Vec<CloudAccountDoc>,
    pub clusters: Vec<ClusterDoc>,
}

pub open spec fn or_text(o: Option<String>, d: Seq<char>) -> Seq<char> {
    match o {
        Some(s) => s@,
        None => d,
    }
}


/// A region list as the instructions show it: "ALL" when empty.
pub open spec fn regions_text(regions: Seq<String>) -> Seq<char> {
    if regions.len() == 0 {
        "ALL"@
    } else {
        join(strings_view(regions), ", "@)
    }
}

pub fn fmt_regions(regions: &Vec<String>) -> (r: String)
    ensures
        r@ == regions_text(regions@),
{
    if regions.len() == 0 {
        owned("ALL")
    } else {
        join_strings(regions, ", ")
    }
}

pub open spec fn has_tools(s: McpServerDoc) -> bool {
    s.tools matches Some(t) && t@.len() > 0
}

pub open spec fn tool_lines(server: Seq<char>, tools: Seq<McpToolDoc>) -> Seq<Seq<char>>
    decreases tools.len(),
{
    if tools.len() == 0 {
        Seq::empty()
    } else {
        let t = tools.last();
        tool_lines(server, tools.drop_last()).push(
            "- `mcp__"@ + server + "__"@ + or_text(t.name, "?"@) + "`: "@ + or_text(t.description, Seq::empty()),
        )
    }
}

/// The lines that list the tools of a server: its name and description, one line per tool, a
/// blank line.
pub open spec fn server_lines(s: McpServerDoc) -> Seq<Seq<char>> {
    let desc = or_text(s.description, Seq::empty());
    let head = "**Server: "@ + s.name@ + "**"@ + if desc.len() == 0 { Seq::empty() } else { " — "@ + desc };
    seq![head] + tool_lines(s.name@, match s.tools {
        Some(t) => t@,
        None => Seq::empty(),
    }) + seq![Seq::empty()]
}

pub open spec fn mcp_section(servers: Seq<McpServerDoc>) -> Seq<Seq<char>>
    decreases servers.len(),
{
    if servers.len() == 0 {
        Seq::empty()
    } else {
        mcp_section(servers.drop_last()) + if has_tools(servers.last()) {
            server_lines(servers.last())
        } else {
            Seq::empty()
        }
    }
}

pub open spec fn any_tools(servers: Seq<McpServerDoc>) -> bool {
    exists|i: int| 0 <= i < servers.len() && has_tools(#[trigger] servers[i])
}

pub open spec fn glossary_entries(terms: Seq<GlossaryTerm>) -> Seq<Seq<char>>
    decreases terms.len(),
{
    if terms.len() == 0 {
        Seq::empty()
    } else {
        let t = terms.last();
        glossary_entries(terms.drop_last()).push(
            "- **"@ + t.term@ + "** ("@ + or_text(t.full_name, Seq::empty()) + "): "@ + or_text(t.description, Seq::empty()),
        )
    }
}

pub open spec fn glossary_section(terms: Seq<GlossaryTerm>) -> Seq<Seq<char>> {
    if terms.len() == 0 {
        Seq::empty()
    } else {
        seq!["## Quick Glossary Reference"@, Seq::empty()] + glossary_entries(terms) + seq![Seq::empty()]
    }
}

pub open spec fn aws_of(a: Seq<CloudAccountDoc>) -> Seq<CloudAccountDoc>
    decreases a.len(),
{
    if a.len() == 0 {
        Seq::empty()
    } else if a.last().provider@ == "aws"@ {
        aws_of(a.drop_last()).push(a.last())
    } else {
        aws_of(a.drop_last())
    }
}

pub open spec fn non_aws_of(a: Seq<CloudAccountDoc>) -> Seq<CloudAccountDoc>
    decreases a.len(),
{
    if a.len() == 0 {
        Seq::empty()
    } else if a.last().provider@ != "aws"@ {
        non_aws_of(a.drop_last()).push(a.last())
    } else {
        non_aws_of(a.drop_last())
    }
}

pub open spec fn child_lines(cs: Seq<CloudAccountDoc>) -> Seq<Seq<char>>
    decreases cs.len(),
{
    if cs.len() == 0 {
        Seq::empty()
    } else {
        let c = cs.last();
        child_lines(cs.drop_last()).push(
            dec(cs.len()) + ". **"@ + c.name@ + "** — Account: `"@ + or_text(c.account_id, "-"@) + "`, Regions: ["@
                + regions_text(c.regions@) + "], Role: `"@ + or_text(c.role_arn, "N/A"@) + "`"@,
        )
    }
}

/// The hub-and-spoke instructions for several AWS accounts, the first being the hub.
pub open spec fn multi_account_lines(aws: Seq<CloudAccountDoc>) -> Seq<Seq<char>> {
    let m = aws[0];
    seq![
        MD_MULTI_HEAD@,
        "### Management Account (Hub) — Already Active"@,
        "- **"@ + m.name@ + "** — Account: `"@ + or_text(m.account_id, "-"@) + "`, Regions: ["@ + regions_text(m.regions@)
            + "]"@,
        "- Do NOT create resources here unless the user explicitly names this account."@,
        Seq::empty(),
    ] + (if aws.len() > 1 {
        seq!["### Child Accounts"@] + child_lines(aws.skip(1)) + seq![Seq::empty()]
    } else {
        Seq::empty()
    }) + seq![MD_SWITCH@]
}

pub open spec fn simple_aws_lines(aws: Seq<CloudAccountDoc>) -> Seq<Seq<char>>
    decreases aws.len(),
{
    if aws.len() == 0 {
        Seq::empty()
    } else {
        let a = aws.last();
        simple_aws_lines(aws.drop_last()).push(
            "- "@ + a.name@ + " ("@ + a.provider@ + ") — Account: "@ + or_text(a.account_id, "-"@) + ", Regions: ["@
                + regions_text(a.regions@) + "]"@ + match a.role_arn {
                Some(r) => ", Role: "@ + r@,
                None => Seq::empty(),
            },
        )
    }
}

pub open spec fn other_account_lines(non: Seq<CloudAccountDoc>) -> Seq<Seq<char>>
    decreases non.len(),
{
    if non.len() == 0 {
        Seq::empty()
    } else {
        let a = non.last();
        other_account_lines(non.drop_last()).push(
            "- "@ + a.name@ + " ("@ + a.provider@ + ") — Account: "@ + or_text(a.account_id, "-"@) + ", Regions: ["@
                + regions_text(a.regions@) + "]"@,
        )
    }
}

/// The account part: hub-and-spoke instructions with more than one AWS account, a plain list
/// otherwise, then the other clouds' accounts.
pub open spec fn account_section(accts: Seq<CloudAccountDoc>) -> Seq<Seq<char>> {
    let aws = aws_of(accts);
    let non = non_aws_of(accts);
    (if aws.len() > 1 {
        multi_account_lines(aws)
    } else {
        simple_aws_lines(aws) + if aws.len() > 0 { seq![Seq::empty()] } else { Seq::empty() }
    }) + if non.len() > 0 {
        (if aws.len() == 0 { seq!["## Available Cloud Accounts"@, Seq::empty()] } else { Seq::empty() })
            + other_account_lines(non) + seq![Seq::empty()]
    } else {
        Seq::empty()
    }
}

pub open spec fn cluster_entries(cs: Seq<ClusterDoc>) -> Seq<Seq<char>>
    decreases cs.len(),
{
    if cs.len() == 0 {
        Seq::empty()
    } else {
        let c = cs.last();
        cluster_entries(cs.drop_last()).push(
            "- "@ + c.name@ + " ("@ + c.cloud@ + "/"@ + c.cluster_type@ + ") — Region: "@ + or_text(c.region, "?"@)
                + ", Account: "@ + or_text(c.account_id, "-"@) + ", Status: "@ + c.status@,
        )
    }
}

pub open spec fn cluster_section(cs: Seq<ClusterDoc>) -> Seq<Seq<char>> {
    if cs.len() == 0 {
        Seq::empty()
    } else {
        seq!["## Kubernetes Clusters"@, Seq::empty()] + cluster_entries(cs) + seq![Seq::empty()]
    }
}

/// The API helper's path as the agent runs it from the workspace.
pub open spec fn helper_path(inp: ClaudeMdInput) -> Seq<char> {
    inp.project_dir@ + "/bin/ops-api"@
}

/// Template `t` with the helper's path and the instructions file's name put in.
pub open spec fn filled(t: Seq<char>, helper: Seq<char>, instructions: Seq<char>) -> Seq<char> {
    replace_all(replace_all(t, HELPER_MARK@, helper), INSTRUCTIONS_MARK@, instructions)
}

/// The parts of the project instructions, in order.
pub open spec fn claude_md_parts(inp: ClaudeMdInput) -> Seq<Seq<char>> {
    let mcp = any_tools(inp.servers@);
    seq![MD_INTRO@] + (if mcp {
        seq![MD_MCP_HEAD@] + mcp_section(inp.servers@) + seq![MD_MCP_RULES@]
    } else {
        Seq::empty()
    }) + seq![
        MD_ENV_HEAD@,
        "- **Workspace**: All output files MUST be saved to `"@ + inp.workspace@ + "`"@,
        filled(MD_ENV_REST@, helper_path(inp), inp.instructions_file@),
        if mcp { MD_KNOWLEDGE_MCP@ } else { MD_KNOWLEDGE_PLAIN@ },
        filled(MD_API@, helper_path(inp), inp.instructions_file@),
        filled(MD_APPROVAL_HEAD@, helper_path(inp), inp.instructions_file@),
    ] + (if inp.has_jira { seq![MD_JIRA_LINE@] } else { Seq::empty() }) + seq![MD_APPROVAL_TAIL@]
        + glossary_section(inp.glossary@) + (if inp.accounts@.len() > 0 {
        account_section(inp.accounts@)
    } else {
        Seq::empty()
    }) + cluster_section(inp.clusters@) + seq![filled(MD_OBSERVABILITY@, helper_path(inp), inp.instructions_file@)]
}

/// The project instructions of a user's workspace.
pub open spec fn claude_md_text(inp: ClaudeMdInput) -> Seq<char> {
    join(claude_md_parts(inp), "\n"@)
}

fn or_text_of(o: &Option<String>, d: &str) -> (r: String)
    ensures
        r@ == or_text(*o, d@),
{
    match o {
        Some(s) => s.clone(),
        None => owned(d),
    }
}

fn or_empty_of(o: &Option<String>) -> (r: String)
    ensures
        r@ == or_text(*o, Seq::empty()),
{
    match o {
        Some(s) => s.clone(),
        None => String::new(),
    }
}

fn server_lines_of(s: &McpServerDoc) -> (r: Vec<String>)
    ensures
        strings_view(r@) == server_lines(*s),
{
    let desc = or_empty_of(&s.description);
    let mut head = cat3("**Server: ", s.name.as_str(), "**");
    if !desc.as_str().is_empty() {
        head.append(" — ");
        head.append(desc.as_str());
    }
    let ghost head_v = head@;
    proof {
        let d = or_text(s.description, Seq::empty());
        assert(head_v == "**Server: "@ + s.name@ + "**"@ + if d.len() == 0 { Seq::<char>::empty() } else { " — "@ + d });
    }
    let mut out: Vec<String> = Vec::new();
    push_line(&mut out, head);
    let ghost h = strings_view(out@);
    proof {
        assert(h =~= seq![head_v]);
    }
    match &s.tools {
        Some(tools) => {
            let mut i: usize = 0;
            while i < tools.len()
                invariant
                    i <= tools.len(),
                    strings_view(out@) == h + tool_lines(s.name@, tools@.take(i as int)),
                decreases tools.len() - i,
            {
                proof {
                    lemma_take_step(tools@, i as int);
                }
                let t = &tools[i];
                let mut line = cat3("- `mcp__", s.name.as_str(), "__");
                line.append(or_text_of(&t.name, "?").as_str());
                line.append("`: ");
                line.append(or_empty_of(&t.description).as_str());
                push_line(&mut out, line);
                proof {
                    assert(strings_view(out@) =~= h + tool_lines(s.name@, tools@.take(i + 1)));
                }
                i = i + 1;
            }
            proof {
                assert(tools@.take(tools@.len() as int) =~= tools@);
            }
        },
        None => {
            proof {
                assert(strings_view(out@) =~= h + tool_lines(s.name@, Seq::empty()));
            }
        },
    }
    let ghost mid = strings_view(out@);
    push_line(&mut out, String::new());
    proof {
        let tl = tool_lines(s.name@, match &s.tools {
            Some(t) => t@,
            None => Seq::empty(),
        });
        assert(mid == h + tl);
        assert(strings_view(out@) == mid.push(Seq::<char>::empty()));
        assert(server_lines(*s) == seq![head_v] + tl + seq![Seq::<char>::empty()]);
        assert(strings_view(out@) =~= server_lines(*s));
    }
    out
}

fn server_has_tools(s: &McpServerDoc) -> (b: bool)
    ensures
        b == has_tools(*s),
{
    match &s.tools {
        Some(t) => t.len() > 0,
        None => false,
    }
}

fn mcp_section_of(servers: &Vec<McpServerDoc>) -> (r: (Vec<String>, bool))
    ensures
        strings_view(r.0@) == mcp_section(servers@),
        r.1 == any_tools(servers@),
{
    let mut out: Vec<String> = Vec::new();
    let mut any = false;
    let mut i: usize = 0;
    while i < servers.len()
        invariant
            i <= servers.len(),
            strings_view(out@) == mcp_section(servers@.take(i as int)),
            any == exists|k: int| 0 <= k < i && has_tools(#[trigger] servers@[k]),
        decreases servers.len() - i,
    {
        proof {
            lemma_take_step(servers@, i as int);
        }
        if server_has_tools(&servers[i]) {
            any = true;
            let lines = server_lines_of(&servers[i]);
            append_lines(&mut out, lines);
        }
        proof {
            assert(strings_view(out@) =~= mcp_section(servers@.take(i + 1)));
        }
        i = i + 1;
    }
    proof {
        assert(servers@.take(servers@.len() as int) =~= servers@);
    }
    (out, any)
}

fn glossary_section_of(terms: &Vec<GlossaryTerm>) -> (r: Vec<String>)
    ensures
        strings_view(r@) == glossary_section(terms@),
{
    let mut out: Vec<String> = Vec::new();
    if terms.len() == 0 {
        proof {
            assert(strings_view(out@) =~= Seq::<Seq<char>>::empty());
        }
        return out;
    }
    push_line(&mut out, owned("## Quick Glossary Reference"));
    push_line(&mut out, String::new());
    let ghost h = strings_view(out@);
    let mut i: usize = 0;
    while i < terms.len()
        invariant
            i <= terms.len(),
            strings_view(out@) == h + glossary_entries(terms@.take(i as int)),
        decreases terms.len() - i,
    {
        proof {
            lemma_take_step(terms@, i as int);
        }
        let t = &terms[i];
        let mut line = cat3("- **", t.term.as_str(), "** (");
        line.append(or_empty_of(&t.full_name).as_str());
        line.append("): ");
        line.append(or_empty_of(&t.description).as_str());
        push_line(&mut out, line);
        proof {
            assert(strings_view(out@) =~= h + glossary_entries(terms@.take(i + 1)));
        }
        i = i + 1;
    }
    push_line(&mut out, String::new());
    proof {
        assert(terms@.take(terms@.len() as int) =~= terms@);
        assert(strings_view(out@) =~= glossary_section(terms@));
    }
    out
}

fn cluster_section_of(cs: &Vec<ClusterDoc>) -> (r: Vec<String>)
    ensures
        strings_view(r@) == cluster_section(cs@),
{
    let mut out: Vec<String> = Vec::new();
    if cs.len() == 0 {
        proof {
            assert(strings_view(out@) =~= Seq::<Seq<char>>::empty());
        }
        return out;
    }
    push_line(&mut out, owned("## Kubernetes Clusters"));
    push_line(&mut out, String::new());
    let ghost h = strings_view(out@);
    let mut i: usize = 0;
    while i < cs.len()
        invariant
            i <= cs.len(),
            strings_view(out@) == h + cluster_entries(cs@.take(i as int)),
        decreases cs.len() - i,
    {
        proof {
            lemma_take_step(cs@, i as int);
        }
        let c = &cs[i];
        let mut line = cat3("- ", c.name.as_str(), " (");
        line.append(c.cloud.as_str());
        line.append("/");
        line.append(c.cluster_type.as_str());
        line.append(") — Region: ");
        line.append(or_text_of(&c.region, "?").as_str());
        line.append(", Account: ");
        line.append(or_text_of(&c.account_id, "-").as_str());
        line.append(", Status: ");
        line.append(c.status.as_str());
        push_line(&mut out, line);
        proof {
            assert(strings_view(out@) =~= h + cluster_entries(cs@.take(i + 1)));
        }
        i = i + 1;
    }
    push_line(&mut out, String::new());
    proof {
        assert(cs@.take(cs@.len() as int) =~= cs@);
        assert(strings_view(out@) =~= cluster_section(cs@));
    }
    out
}

/// The accounts at the positions `idx` of `a`.
pub open spec fn pick(a: Seq<CloudAccountDoc>, idx: Seq<usize>) -> Seq<CloudAccountDoc> {
    idx.map_values(|i: usize| a[i as int])
}

fn split_accounts(a: &Vec<CloudAccountDoc>) -> (r: (Vec<usize>, Vec<usize>))
    ensures
        forall|k: int| 0 <= k < r.0@.len() ==> r.0@[k] < a@.len(),
        forall|k: int| 0 <= k < r.1@.len() ==> r.1@[k] < a@.len(),
        pick(a@, r.0@) == aws_of(a@),
        pick(a@, r.1@) == non_aws_of(a@),
{
    let mut aws: Vec<usize> = Vec::new();
    let mut non: Vec<usize> = Vec::new();
    let mut i: usize = 0;
    while i < a.len()
        invariant
            i <= a.len(),
            forall|k: int| 0 <= k < aws@.len() ==> aws@[k] < i,
            forall|k: int| 0 <= k < non@.len() ==> non@[k] < i,
            pick(a@, aws@) == aws_of(a@.take(i as int)),
            pick(a@, non@) == non_aws_of(a@.take(i as int)),
        decreases a.len() - i,
    {
        proof {
            lemma_take_step(a@, i as int);
        }
        let ghost a0 = aws@;
        let ghost n0 = non@;
        if str_eq(a[i].provider.as_str(), "aws") {
            aws.push(i);
            proof {
                lemma_map_push(a0, i, |j: usize| a@[j as int]);
            }
        } else {
            non.push(i);
            proof {
                lemma_map_push(n0, i, |j: usize| a@[j as int]);
            }
        }
        i = i + 1;
    }
    proof {
        assert(a@.take(a@.len() as int) =~= a@);
    }
    (aws, non)
}

fn account_summary(c: &CloudAccountDoc, with_role: bool) -> (r: String)
    ensures
        with_role ==> r@ == "- "@ + c.name@ + " ("@ + c.provider@ + ") — Account: "@ + or_text(c.account_id, "-"@)
            + ", Regions: ["@ + regions_text(c.regions@) + "]"@ + match c.role_arn {
            Some(x) => ", Role: "@ + x@,
            None => Seq::empty(),
        },
        !with_role ==> r@ == "- "@ + c.name@ + " ("@ + c.provider@ + ") — Account: "@ + or_text(c.account_id, "-"@)
            + ", Regions: ["@ + regions_text(c.regions@) + "]"@,
{
    let mut line = cat3("- ", c.name.as_str(), " (");
    line.append(c.provider.as_str());
    line.append(") — Account: ");
    line.append(or_text_of(&c.account_id, "-").as_str());
    line.append(", Regions: [");
    line.append(fmt_regions(&c.regions).as_str());
    line.append("]");
    if with_role {
        match &c.role_arn {
            Some(x) => {
                line.append(", Role: ");
                line.append(x.as_str());
            },
            None => {},
        }
    }
    line
}

fn account_section_of(accts: &Vec<CloudAccountDoc>) -> (r: Vec<String>)
    ensures
        strings_view(r@) == account_section(accts@),
{
    let (aws, non) = split_accounts(accts);
    let ghost aw = aws_of(accts@);
    let ghost nw = non_aws_of(accts@);
    let mut out: Vec<String> = Vec::new();
    if aws.len() > 1 {
        let m = &accts[aws[0]];
        proof {
            assert(aw[0] == accts@[aws@[0] as int]);
        }
        push_line(&mut out, owned(MD_MULTI_HEAD));
        push_line(&mut out, owned("### Management Account (Hub) — Already Active"));
        let mut line = cat3("- **", m.name.as_str(), "** — Account: `");
        line.append(or_text_of(&m.account_id, "-").as_str());
        line.append("`, Regions: [");
        line.append(fmt_regions(&m.regions).as_str());
        line.append("]");
        push_line(&mut out, line);
        push_line(&mut out, owned("- Do NOT create resources here unless the user explicitly names this account."));
        push_line(&mut out, String::new());
        push_line(&mut out, owned("### Child Accounts"));
        let ghost h = strings_view(out@);
        let mut k: usize = 1;
        while k < aws.len()
            invariant
                1 <= k <= aws.len(),
                forall|q: int| 0 <= q < aws@.len() ==> aws@[q] < accts@.len(),
                pick(accts@, aws@) == aw,
                strings_view(out@) == h + child_lines(aw.skip(1).take(k - 1)),
            decreases aws.len() - k,
        {
            let c = &accts[aws[k]];
            proof {
                assert(aw.skip(1).take(k as int) =~= aw.skip(1).take(k - 1).push(aw[k as int]));
                assert(aw[k as int] == accts@[aws@[k as int] as int]);
            }
            let mut line = u64_to_string(k as u64);
            line.append(". **");
            line.append(c.name.as_str());
            line.append("** — Account: `");
            line.append(or_text_of(&c.account_id, "-").as_str());
            line.append("`, Regions: [");
            line.append(fmt_regions(&c.regions).as_str());
            line.append("], Role: `");
            line.append(or_text_of(&c.role_arn, "N/A").as_str());
            line.append("`");
            let ghost lv = line@;
            push_line(&mut out, line);
            proof {
                let cs = aw.skip(1).take(k as int);
                assert(cs.len() == k);
                assert(cs.last() == aw[k as int]);
                assert(cs.drop_last() =~= aw.skip(1).take(k - 1));
                assert(child_lines(cs) == child_lines(cs.drop_last()).push(lv));
                assert(strings_view(out@) =~= h + child_lines(aw.skip(1).take(k as int)));
            }
            k = k + 1;
        }
        push_line(&mut out, String::new());
        push_line(&mut out, owned(MD_SWITCH));
        proof {
            assert(aw.skip(1).take(aws@.len() - 1) =~= aw.skip(1));
            assert(strings_view(out@) =~= multi_account_lines(aw));
        }
    } else {
        let mut k: usize = 0;
        while k < aws.len()
            invariant
                k <= aws.len(),
                forall|q: int| 0 <= q < aws@.len() ==> aws@[q] < accts@.len(),
                pick(accts@, aws@) == aw,
                strings_view(out@) == simple_aws_lines(aw.take(k as int)),
            decreases aws.len() - k,
        {
            proof {
                lemma_take_step(aw, k as int);
                assert(aw[k as int] == accts@[aws@[k as int] as int]);
            }
            push_line(&mut out, account_summary(&accts[aws[k]], true));
            k = k + 1;
        }
        proof {
            assert(aw.take(aw.len() as int) =~= aw);
        }
        if aws.len() > 0 {
            push_line(&mut out, String::new());
        }
    }
    let ghost first = strings_view(out@);
    if non.len() > 0 {
        if aws.len() == 0 {
            push_line(&mut out, owned("## Available Cloud Accounts"));
            push_line(&mut out, String::new());
        }
        let ghost h = strings_view(out@);
        let mut k: usize = 0;
        while k < non.len()
            invariant
                k <= non.len(),
                forall|q: int| 0 <= q < non@.len() ==> non@[q] < accts@.len(),
                pick(accts@, non@) == nw,
                strings_view(out@) == h + other_account_lines(nw.take(k as int)),
            decreases non.len() - k,
        {
            proof {
                lemma_take_step(nw, k as int);
                assert(nw[k as int] == accts@[non@[k as int] as int]);
            }
            push_line(&mut out, account_summary(&accts[non[k]], false));
            proof {
                assert(strings_view(out@) =~= h + other_account_lines(nw.take(k + 1)));
            }
            k = k + 1;
        }
        push_line(&mut out, String::new());
        proof {
            assert(nw.take(nw.len() as int) =~= nw);
        }
    }
    proof {
        assert(strings_view(out@) =~= account_section(accts@));
    }
    out
}

fn fill(t: &str, helper: &str, instructions: &str) -> (r: String)
    ensures
        r@ == filled(t@, helper@, instructions@),
{
    proof {
        reveal_strlit("{{ops-api}}");
        reveal_strlit("{{instructions}}");
    }
    let a = str_replace_all(t, HELPER_MARK, helper);
    str_replace_all(a.as_str(), INSTRUCTIONS_MARK, instructions)
}

/// The project instructions of a user's workspace (see `claude_md_parts`).
#[verifier::rlimit(60)]
pub fn claude_md(inp: &ClaudeMdInput) -> (r: String)
    ensures
        r@ == claude_md_text(*inp),
{
    let (mcp_lines, mcp) = mcp_section_of(&inp.servers);
    let helper = cat(inp.project_dir.as_str(), "/bin/ops-api");
    let instr = inp.instructions_file.as_str();
    let mut parts: Vec<String> = Vec::new();
    push_line(&mut parts, owned(MD_INTRO));
    if mcp {
        push_line(&mut parts, owned(MD_MCP_HEAD));
        append_lines(&mut parts, mcp_lines);
        push_line(&mut parts, owned(MD_MCP_RULES));
    }
    push_line(&mut parts, owned(MD_ENV_HEAD));
    push_line(&mut parts, cat3("- **Workspace**: All output files MUST be saved to `", inp.workspace.as_str(), "`"));
    push_line(&mut parts, fill(MD_ENV_REST, helper.as_str(), instr));
    push_line(&mut parts, if mcp { owned(MD_KNOWLEDGE_MCP) } else { owned(MD_KNOWLEDGE_PLAIN) });
    push_line(&mut parts, fill(MD_API, helper.as_str(), instr));
    push_line(&mut parts, fill(MD_APPROVAL_HEAD, helper.as_str(), instr));
    if inp.has_jira {
        push_line(&mut parts, owned(MD_JIRA_LINE));
    }
    push_line(&mut parts, owned(MD_APPROVAL_TAIL));
    append_lines(&mut parts, glossary_section_of(&inp.glossary));
    if inp.accounts.len() > 0 {
        append_lines(&mut parts, account_section_of(&inp.accounts));
    }
    append_lines(&mut parts, cluster_section_of(&inp.clusters));
    push_line(&mut parts, fill(MD_OBSERVABILITY, helper.as_str(), instr));
    proof {
        assert(strings_view(parts@) =~= claude_md_parts(*inp));
    }
    join_strings(&parts, "\n")
}

// ─── Provider settings ─────────────────────────────────────────────────────

/// Tools a read-only agent may not use unless its provider says otherwise.
pub open spec fn default_disallowed() -> Seq<Seq<char>> {
    seq!["Write"@, "Edit"@, "NotebookEdit"@]
}

pub open spec fn default_allowed() -> Seq<Seq<char>> {
    seq!["Bash"@]
}

/// Every standard CLI tool, pre-approved for a read-write agent.
pub open spec fn all_standard_tools() -> Seq<Seq<char>> {
    seq!["Bash"@, "Read"@, "Write"@, "Edit"@, "Glob"@, "Grep"@, "NotebookEdit"@, "WebFetch"@, "WebSearch"@]
}

/// How a chat agent is run.
pub struct ProviderSettings {
    pub model: String,
    pub timeout_ms: u64,
    pub max_turns: u32,
    pub env_vars: Vec<(String, String)>,
    pub permission_mode: &'static str,
    pub disallowed_tools: Vec<String>,
    pub allowed_tools: Vec<String>,
}

pub open spec fn permission_of(config: Seq<char>) -> AgentPermission {
    let s = match json_str_at(config, "permission_mode"@) {
        Some(p) => p,
        None => "readonly"@,
    };
    if s == "bypassPermissions"@ {
        AgentPermission::Bypass
    } else if s == "readwrite"@ {
        AgentPermission::ReadWrite
    } else {
        AgentPermission::Readonly
    }
}

/// The settings a provider of type `ptype` with JSON configuration `config` gives (`None`: no
/// provider found), falling back to `default_model` and `default_timeout_ms`.
pub open spec fn settings_ok(
    s: ProviderSettings,
    row: Option<(Seq<char>, Seq<char>)>,
    default_model: Seq<char>,
    default_timeout_ms: u64,
) -> bool {
    match row {
        Some((ptype, config)) => {
            let perm = permission_of(config);
            &&& s.model@ == (match json_str_at(config, "model"@) {
                Some(m) => m,
                None => default_model,
            })
            &&& s.timeout_ms == (match json_u64_at(config, "timeout"@) {
                Some(t) => t,
                None => default_timeout_ms,
            })
            &&& s.max_turns == (match json_u64_at(config, "max_turns"@) {
                Some(t) => t,
                None => 25,
            }) as u32
            &&& env_view(s.env_vars@) == provider_env(ptype, config)
            &&& s.permission_mode@ == (if perm == AgentPermission::Bypass { "bypassPermissions"@ } else { "default"@ })
            &&& strings_view(s.disallowed_tools@) == (match perm {
                AgentPermission::Readonly => match json_str_list_at(config, "disallowed_tools"@) {
                    Some(l) => l,
                    None => default_disallowed(),
                },
                _ => Seq::empty(),
            })
            &&& strings_view(s.allowed_tools@) == (match perm {
                AgentPermission::Readonly => default_allowed(),
                AgentPermission::ReadWrite => all_standard_tools(),
                AgentPermission::Bypass => Seq::empty(),
            })
        },
        None => {
            &&& s.model@ == default_model
            &&& s.timeout_ms == default_timeout_ms
            &&& s.max_turns == 25
            &&& s.env_vars@.len() == 0
            &&& s.permission_mode@ == "default"@
            &&& strings_view(s.disallowed_tools@) == default_disallowed()
            &&& strings_view(s.allowed_tools@) == default_allowed()
        },
    }
}


fn no_lines() -> (r: Vec<String>)
    ensures
        strings_view(r@) == Seq::<Seq<char>>::empty(),
{
    let r: Vec<String> = Vec::new();
    proof {
        assert(strings_view(r@) =~= Seq::<Seq<char>>::empty());
    }
    r
}

fn default_disallowed_list() -> (r: Vec<String>)
    ensures
        strings_view(r@) == default_disallowed(),
{
    let items: [&str; 3] = ["Write", "Edit", "NotebookEdit"];
    let r = string_list(&items);
    proof {
        assert(items@.map_values(|s: &str| s@) =~= default_disallowed());
    }
    r
}

fn default_allowed_list() -> (r: Vec<String>)
    ensures
        strings_view(r@) == default_allowed(),
{
    let items: [&str; 1] = ["Bash"];
    let r = string_list(&items);
    proof {
        assert(items@.map_values(|s: &str| s@) =~= default_allowed());
    }
    r
}

fn all_standard_list() -> (r: Vec<String>)
    ensures
        strings_view(r@) == all_standard_tools(),
{
    let items: [&str; 9] = ["Bash", "Read", "Write", "Edit", "Glob", "Grep", "NotebookEdit", "WebFetch", "WebSearch"];
    let r = string_list(&items);
    proof {
        assert(items@.map_values(|s: &str| s@) =~= all_standard_tools());
    }
    r
}

/// The settings for a chat run: the chosen provider's type and JSON configuration when one was
/// found, otherwise the deployment's defaults with a read-only agent.
pub fn provider_settings(row: Option<(&str, &str)>, default_model: &str, default_timeout_ms: u64) -> (s: ProviderSettings)
    ensures
        settings_ok(s, match row {
            Some((t, c)) => Some((t@, c@)),
            None => None,
        }, default_model@, default_timeout_ms),
{
    match row {
        Some((ptype, config)) => {
            let model = match json_str_field(config, "model") {
                Some(m) => m,
                None => owned(default_model),
            };
            let timeout_ms = match json_u64_field(config, "timeout") {
                Some(t) => t,
                None => default_timeout_ms,
            };
            let turns: u64 = match json_u64_field(config, "max_turns") {
                Some(t) => t,
                None => 25,
            };
            let mode = match json_str_field(config, "permission_mode") {
                Some(p) => p,
                None => owned("readonly"),
            };
            let perm = AgentPermission::from_config(mode.as_str());
            let (disallowed, allowed) = match perm {
                AgentPermission::Readonly => {
                    let d = match json_str_list_field(config, "disallowed_tools") {
                        Some(l) => l,
                        None => default_disallowed_list(),
                    };
                    (d, default_allowed_list())
                },
                AgentPermission::ReadWrite => (no_lines(), all_standard_list()),
                AgentPermission::Bypass => (no_lines(), no_lines()),
            };
            ProviderSettings {
                model,
                timeout_ms,
                max_turns: #[verifier::truncate] (turns as u32),
                env_vars: build_provider_env_vars(ptype, config),
                permission_mode: perm.cli_flag(),
                disallowed_tools: disallowed,
                allowed_tools: allowed,
            }
        },
        None => ProviderSettings {
            model: owned(default_model),
            timeout_ms: default_timeout_ms,
            max_turns: 25,
            env_vars: Vec::new(),
            permission_mode: AgentPermission::Readonly.cli_flag(),
            disallowed_tools: default_disallowed_list(),
            allowed_tools: default_allowed_list(),
        },
    }
}

// ─── Tool lists and environment of a run ───────────────────────────────────

/// "mcp__<server>__<tool>", the CLI's name for an MCP tool.
pub open spec fn mcp_tool_name(server: Seq<char>, tool: Seq<char>) -> Seq<char> {
    "mcp__"@ + server + "__"@ + tool
}

pub open spec fn wildcard_lines(names: Seq<String>) -> Seq<Seq<char>>
    decreases names.len(),
{
    if names.len() == 0 {
        Seq::empty()
    } else {
        wildcard_lines(names.drop_last()).push("mcp__"@ + names.last()@ + "__*"@)
    }
}

pub open spec fn disabled_lines(d: Seq<(String, String)>) -> Seq<Seq<char>>
    decreases d.len(),
{
    if d.len() == 0 {
        Seq::empty()
    } else {
        disabled_lines(d.drop_last()).push(mcp_tool_name(d.last().0@, d.last().1@))
    }
}

/// The tools a chat run allows and refuses: the provider's lists, every tool of the enabled MCP
/// servers allowed (unless permissions are bypassed, where an allow list would restrict), and the
/// tools the user disabled, given as (server name, tool) pairs, refused.
pub fn agent_tools(
    allowed: &Vec<String>,
    disallowed: &Vec<String>,
    permission_mode: &str,
    server_names: &Vec<String>,
    disabled: &Vec<(String, String)>,
) -> (r: (Vec<String>, Vec<String>))
    ensures
        strings_view(r.0@) == strings_view(allowed@) + if permission_mode@ != "bypassPermissions"@ {
            wildcard_lines(server_names@)
        } else {
            Seq::empty()
        },
        strings_view(r.1@) == strings_view(disallowed@) + disabled_lines(disabled@),
{
    let mut a: Vec<String> = Vec::new();
    append_lines(&mut a, copy_strings(allowed));
    let ghost a0 = strings_view(a@);
    if !str_eq(permission_mode, "bypassPermissions") {
        let mut i: usize = 0;
        while i < server_names.len()
            invariant
                i <= server_names.len(),
                strings_view(a@) == a0 + wildcard_lines(server_names@.take(i as int)),
            decreases server_names.len() - i,
        {
            proof {
                lemma_take_step(server_names@, i as int);
            }
            push_line(&mut a, cat3("mcp__", server_names[i].as_str(), "__*"));
            proof {
                assert(strings_view(a@) =~= a0 + wildcard_lines(server_names@.take(i + 1)));
            }
            i = i + 1;
        }
        proof {
            assert(server_names@.take(server_names@.len() as int) =~= server_names@);
        }
    } else {
        proof {
            assert(strings_view(a@) =~= a0 + Seq::<Seq<char>>::empty());
        }
    }
    let mut d: Vec<String> = Vec::new();
    append_lines(&mut d, copy_strings(disallowed));
    let ghost d0 = strings_view(d@);
    let mut j: usize = 0;
    while j < disabled.len()
        invariant
            j <= disabled.len(),
            strings_view(d@) == d0 + disabled_lines(disabled@.take(j as int)),
        decreases disabled.len() - j,
    {
        proof {
            lemma_take_step(disabled@, j as int);
        }
        let mut line = cat3("mcp__", disabled[j].0.as_str(), "__");
        line.append(disabled[j].1.as_str());
        push_line(&mut d, line);
        proof {
            assert(strings_view(d@) =~= d0 + disabled_lines(disabled@.take(j + 1)));
        }
        j = j + 1;
    }
    proof {
        assert(disabled@.take(disabled@.len() as int) =~= disabled@);
    }
    (a, d)
}

fn copy_strings(v: &Vec<String>) -> (r: Vec<String>)
    ensures
        strings_view(r@) == strings_view(v@),
{
    let mut out: Vec<String> = Vec::new();
    let mut i: usize = 0;
    while i < v.len()
        invariant
            i <= v.len(),
            strings_view(out@) == strings_view(v@.take(i as int)),
        decreases v.len() - i,
    {
        push_line(&mut out, v[i].clone());
        proof {
            lemma_take_step(v@, i as int);
            lemma_map_push(v@.take(i as int), v@[i as int], |s: String| s@);
        }
        i = i + 1;
    }
    proof {
        assert(v@.take(v@.len() as int) =~= v@);
    }
    out
}

/// A disabled-tool entry "serverId:toolName" split at its first ':'.
pub open spec fn split_entry(e: Seq<char>) -> Option<(Seq<char>, Seq<char>)> {
    if exists|i: int| 0 <= i < e.len() && e[i] == ':' {
        let i = choose|i: int| 0 <= i < e.len() && e[i] == ':' && forall|j: int| 0 <= j < i ==> e[j] != ':';
        Some((e.take(i), e.skip(i + 1)))
    } else {
        None
    }
}

pub fn split_disabled_entry(entry: &str) -> (r: Option<(String, String)>)
    ensures
        match r {
            Some((a, b)) => split_entry(entry@) == Some((a@, b@)),
            None => split_entry(entry@) is None,
        },
{
    let v = crate::text::chars_of(entry);
    let mut i: usize = 0;
    while i < v.len()
        invariant
            i <= v.len(),
            v@ == entry@,
            forall|j: int| 0 <= j < i ==> v@[j] != ':',
        decreases v.len() - i,
    {
        if v[i] == ':' {
            let a = crate::text::string_from_chars(crate::text::slice_range(v.as_slice(), 0, i).as_slice());
            let b = crate::text::string_from_chars(crate::text::slice_from(v.as_slice(), i + 1).as_slice());
            proof {
                let c = choose|c: int| 0 <= c < entry@.len() && entry@[c] == ':' && forall|j: int| 0 <= j < c ==> entry@[j] != ':';
                if c != i {
                    if c < i {
                        assert(v@[c] != ':');
                    } else {
                        assert(entry@[i as int] == ':');
                    }
                }
            }
            return Some((a, b));
        }
        i = i + 1;
    }
    None
}

/// The title of a new chat session: its first message, cut to 50 characters and marked "...".
pub open spec fn session_title(msg: Seq<char>) -> Seq<char> {
    if msg.len() > 50 {
        msg.take(50) + "..."@
    } else {
        msg
    }
}

pub fn make_session_title(msg: &str) -> (r: String)
    ensures
        r@ == session_title(msg@),
{
    let v = crate::text::chars_of(msg);
    if v.len() > 50 {
        let head = crate::text::string_from_chars(crate::text::slice_range(v.as_slice(), 0, 50).as_slice());
        cat(head.as_str(), "...")
    } else {
        owned(msg)
    }
}

/// The session a chat continues: none when a new one is asked for, else the one named, else the
/// user's active session (`active`, looked up only in that case).
pub fn resolve_session(new_session: bool, requested: Option<String>, active: Option<String>) -> (r: Option<String>)
    ensures
        new_session ==> r is None,
        !new_session && requested is Some ==> r == requested,
        !new_session && requested is None ==> r == active,
{
    if new_session {
        None
    } else {
        match requested {
            Some(s) => Some(s),
            None => active,
        }
    }
}

/// The system prompt of a chat: the assistant's role, pointing at the project instructions file
/// `instructions`, then the caller's own prompt if any.
pub fn chat_system_prompt(custom: Option<&str>, instructions: &str) -> (r: String)
    ensures
        r@ == "You are Ops AI, a multi-cloud infrastructure operations assistant.\nAnswer in the user's language. Be concise and actionable.\nFollow all instructions in "@
            + instructions@ + " carefully."@ + match custom {
            Some(c) => "\n\n"@ + c@,
            None => Seq::empty(),
        },
{
    let mut out = cat3("You are Ops AI, a multi-cloud infrastructure operations assistant.\nAnswer in the user's language. Be concise and actionable.\nFollow all instructions in ", instructions, " carefully.");
    match custom {
        Some(c) => {
            out.append("\n\n");
            out.append(c);
        },
        None => {},
    }
    out
}

/// Largest accepted image, in base64 characters (about 5 MB decoded).
pub open spec fn max_image_len() -> nat {
    7 * 1024 * 1024
}

/// The first attached image over the size limit, given the images' base64 lengths.
pub fn oversized_image(lengths: &Vec<usize>) -> (r: Option<usize>)
    ensures
        match r {
            Some(i) => i < lengths@.len() && lengths@[i as int] > max_image_len() && forall|j: int| 0 <= j < i ==> lengths@[j] <= max_image_len(),
            None => forall|j: int| 0 <= j < lengths@.len() ==> lengths@[j] <= max_image_len(),
        },
{
    let mut i: usize = 0;
    while i < lengths.len()
        invariant
            i <= lengths.len(),
            forall|j: int| 0 <= j < i ==> lengths@[j] <= max_image_len(),
        decreases lengths.len() - i,
    {
        if lengths[i] > 7 * 1024 * 1024 {
            return Some(i);
        }
        i = i + 1;
    }
    None
}

/// The AWS environment of a chat run from the hub account (role, profile, regions): the role to
/// assume when one is set, the profile when one is set, and the first region.
pub fn chat_aws_env(role_arn: Option<String>, profile: Option<String>, regions: &Vec<String>) -> (r: Vec<(String, String)>)
    ensures
        env_view(r@) == (match role_arn {
            Some(a) => if a@.len() > 0 {
                seq![("AWS_ROLE_ARN"@, a@), ("AWS_ROLE_SESSION_NAME"@, "opsk-chat"@)]
            } else {
                Seq::empty()
            },
            None => Seq::empty(),
        }) + (match profile {
            Some(p) => if p@.len() > 0 { seq![("AWS_PROFILE"@, p@)] } else { Seq::empty() },
            None => Seq::empty(),
        }) + (if regions@.len() > 0 { seq![("AWS_DEFAULT_REGION"@, regions@[0]@)] } else { Seq::empty() }),
{
    let mut env: Vec<(String, String)> = Vec::new();
    let ghost want = env_view(env@);
    match role_arn {
        Some(a) => {
            if !a.as_str().is_empty() {
                env.push((owned("AWS_ROLE_ARN"), a));
                env.push((owned("AWS_ROLE_SESSION_NAME"), owned("opsk-chat")));
            }
        },
        None => {},
    }
    match profile {
        Some(p) => {
            if !p.as_str().is_empty() {
                env.push((owned("AWS_PROFILE"), p));
            }
        },
        None => {},
    }
    if regions.len() > 0 {
        env.push((owned("AWS_DEFAULT_REGION"), regions[0].clone()));
    }
    proof {
        assert(env_view(env@) =~= (match role_arn {
            Some(a) => if a@.len() > 0 {
                seq![("AWS_ROLE_ARN"@, a@), ("AWS_ROLE_SESSION_NAME"@, "opsk-chat"@)]
            } else {
                Seq::empty()
            },
            None => Seq::empty(),
        }) + (match profile {
            Some(p) => if p@.len() > 0 { seq![("AWS_PROFILE"@, p@)] } else { Seq::empty() },
            None => Seq::empty(),
        }) + (if regions@.len() > 0 { seq![("AWS_DEFAULT_REGION"@, regions@[0]@)] } else { Seq::empty() }));
    }
    env
}

// ─── Conversation bookkeeping ──────────────────────────────────────────────

/// A write to the conversation store that one streamed event asks for.
pub enum Persist {
    /// Record the session (with the title of a new one).
    SaveSession { session_id: String, title: Option<String> },
    /// Attach the already saved user message to the session.
    BackfillUser { session_id: String },
    /// Create the assistant's text message of this turn.
    CreateText { seq: i32, content: String },
    /// Append to the assistant's text message of this turn.
    AppendText { content: String },
    /// Save a thinking, tool-use or tool-result message.
    SaveMessage { seq: i32, msg_type: String, content: String, tool_name: Option<String> },
    /// Close the turn: the text message gets the run's duration.
    SetDuration { duration_ms: u64 },
}

/// A write to the conversation store, as values.
pub enum PersistView {
    SaveSession { session_id: Seq<char>, title: Option<Seq<char>> },
    BackfillUser { session_id: Seq<char> },
    CreateText { seq: i32, content: Seq<char> },
    AppendText { content: Seq<char> },
    SaveMessage { seq: i32, msg_type: Seq<char>, content: Seq<char>, tool_name: Option<Seq<char>> },
    SetDuration { duration_ms: u64 },
}


impl View for Persist {
    type V = PersistView;

    open spec fn view(&self) -> PersistView {
        match *self {
            Persist::SaveSession { session_id, title } => PersistView::SaveSession { session_id: session_id@, title: opt_string_view(title) },
            Persist::BackfillUser { session_id } => PersistView::BackfillUser { session_id: session_id@ },
            Persist::CreateText { seq, content } => PersistView::CreateText { seq, content: content@ },
            Persist::AppendText { content } => PersistView::AppendText { content: content@ },
            Persist::SaveMessage { seq, msg_type, content, tool_name } => PersistView::SaveMessage {
                seq,
                msg_type: msg_type@,
                content: content@,
                tool_name: opt_string_view(tool_name),
            },
            Persist::SetDuration { duration_ms } => PersistView::SetDuration { duration_ms },
        }
    }
}

/// The bookkeeping of one streamed conversation turn.
#[derive(Clone, Copy)]
pub struct ChatLog {
    /// Whether the agent's init event was seen (a resumed session expects none).
    pub init_received: bool,
    /// Whether the assistant's text message of this turn was created.
    pub text_started: bool,
    /// The last sequence number handed out in the session.
    pub seq: i32,
}

/// What one event gives: the chunk to stream (none while waiting for init) and the writes.
pub struct ChatStep {
    pub chunk: Option<StreamChunk>,
    pub actions: Vec<Persist>,
}

/// Whether an event is streamed: everything once init was seen, and init itself.
pub open spec fn passes(s: ChatLog, e: AgentEvent) -> bool {
    s.init_received || e is Init
}

/// Whether an event takes a new sequence number.
pub open spec fn takes_seq(s: ChatLog, e: AgentEvent) -> bool {
    passes(s, e) && match e {
        AgentEvent::Text { .. } => !s.text_started,
        AgentEvent::Thinking { .. } | AgentEvent::ToolUse { .. } | AgentEvent::ToolResult { .. } => true,
        _ => false,
    }
}

/// The bookkeeping after an event.
pub open spec fn next_log(s: ChatLog, e: AgentEvent) -> ChatLog {
    if !passes(s, e) {
        s
    } else {
        ChatLog {
            init_received: true,
            text_started: match e {
                AgentEvent::Text { .. } => true,
                AgentEvent::Done { .. } => false,
                _ => s.text_started,
            },
            seq: if takes_seq(s, e) { (s.seq + 1) as i32 } else { s.seq },
        }
    }
}

/// The writes an event asks for; `title` is the title a new session gets.
pub open spec fn log_actions(s: ChatLog, e: AgentEvent, title: Seq<char>) -> Seq<PersistView> {
    if !passes(s, e) {
        Seq::empty()
    } else {
        let n = (s.seq + 1) as i32;
        match e {
            AgentEvent::Init { session_id: Some(sid) } => seq![
                PersistView::SaveSession { session_id: sid@, title: Some(title) },
                PersistView::BackfillUser { session_id: sid@ },
            ],
            AgentEvent::Text { content } => if s.text_started {
                seq![PersistView::AppendText { content: content@ }]
            } else {
                seq![PersistView::CreateText { seq: n, content: content@ }]
            },
            AgentEvent::Thinking { content } => seq![
                PersistView::SaveMessage { seq: n, msg_type: "thinking"@, content: content@, tool_name: None },
            ],
            AgentEvent::ToolUse { tool_name, content } => seq![
                PersistView::SaveMessage { seq: n, msg_type: "tool_use"@, content: content@, tool_name: Some(tool_name@) },
            ],
            AgentEvent::ToolResult { tool_name, content } => seq![
                PersistView::SaveMessage { seq: n, msg_type: "tool_result"@, content: content@, tool_name: Some(tool_name@) },
            ],
            AgentEvent::Done { session_id, duration_ms, .. } => match session_id {
                Some(sid) => seq![
                    PersistView::SaveSession { session_id: sid@, title: None },
                    PersistView::SetDuration { duration_ms },
                ],
                None => seq![PersistView::SetDuration { duration_ms }],
            },
            _ => Seq::empty(),
        }
    }
}

/// Sequence numbers of a turn only go up: an event that takes a number gets the one after the
/// last handed out, and any other event leaves the last number as it is.
pub proof fn law_sequence_numbers(s: ChatLog, e: AgentEvent)
    requires
        takes_seq(s, e) ==> s.seq < i32::MAX,
    ensures
        next_log(s, e).seq >= s.seq,
        takes_seq(s, e) ==> next_log(s, e).seq == s.seq + 1,
        !takes_seq(s, e) ==> next_log(s, e).seq == s.seq,
{
}

pub open spec fn actions_view(v: Seq<Persist>) -> Seq<PersistView> {
    v.map_values(|a: Persist| a@)
}

impl ChatLog {
    /// The bookkeeping of a turn in a session whose highest sequence number is `max_seq` (0 for
    /// a new one), with the sequence number of the user's message, which is saved first.
    pub fn start(max_seq: i32, resumed: bool) -> (r: (ChatLog, i32))
        requires
            max_seq < i32::MAX,
        ensures
            r.0 == (ChatLog { init_received: resumed, text_started: false, seq: (max_seq + 1) as i32 }),
            r.1 == max_seq + 1,
    {
        (ChatLog { init_received: resumed, text_started: false, seq: max_seq + 1 }, max_seq + 1)
    }

    /// Takes one event of the agent for a conversation whose first user message is `message`.
    pub fn on_event(&mut self, event: &AgentEvent, message: &str) -> (r: ChatStep)
        requires
            takes_seq(*old(self), *event) ==> old(self).seq < i32::MAX,
        ensures
            *final(self) == next_log(*old(self), *event),
            r.chunk == if passes(*old(self), *event) { Some(chunk_of(*event)) } else { None },
            actions_view(r.actions@) == log_actions(*old(self), *event, session_title(message@)),
    {
        let mut actions: Vec<Persist> = Vec::new();
        if !self.init_received {
            match event {
                AgentEvent::Init { .. } => {
                    self.init_received = true;
                },
                _ => {
                    proof {
                        assert(actions_view(actions@) =~= Seq::<PersistView>::empty());
                    }
                    return ChatStep { chunk: None, actions };
                },
            }
        }
        let chunk = StreamChunk::from_agent_event(event);
        match event {
            AgentEvent::Init { session_id: Some(sid) } => {
                actions.push(Persist::SaveSession { session_id: sid.clone(), title: Some(make_session_title(message)) });
                actions.push(Persist::BackfillUser { session_id: sid.clone() });
            },
            AgentEvent::Init { session_id: None } => {},
            AgentEvent::Text { content } => {
                if !self.text_started {
                    self.text_started = true;
                    self.seq = self.seq + 1;
                    actions.push(Persist::CreateText { seq: self.seq, content: content.clone() });
                } else {
                    actions.push(Persist::AppendText { content: content.clone() });
                }
            },
            AgentEvent::Thinking { content } => {
                self.seq = self.seq + 1;
                actions.push(Persist::SaveMessage { seq: self.seq, msg_type: owned("thinking"), content: content.clone(), tool_name: None });
            },
            AgentEvent::ToolUse { tool_name, content } => {
                self.seq = self.seq + 1;
                actions.push(Persist::SaveMessage {
                    seq: self.seq,
                    msg_type: owned("tool_use"),
                    content: content.clone(),
                    tool_name: Some(tool_name.clone()),
                });
            },
            AgentEvent::ToolResult { tool_name, content } => {
                self.seq = self.seq + 1;
                actions.push(Persist::SaveMessage {
                    seq: self.seq,
                    msg_type: owned("tool_result"),
                    content: content.clone(),
                    tool_name: Some(tool_name.clone()),
                });
            },
            AgentEvent::Done { session_id, duration_ms, .. } => {
                match session_id {
                    Some(sid) => {
                        actions.push(Persist::SaveSession { session_id: sid.clone(), title: None });
                    },
                    None => {},
                }
                self.text_started = false;
                actions.push(Persist::SetDuration { duration_ms: *duration_ms });
            },
            AgentEvent::Error { .. } => {},
        }
        proof {
            assert(actions_view(actions@) =~= log_actions(*old(self), *event, session_title(message@)));
        }
        ChatStep { chunk: Some(chunk), actions }
    }
}

// ─── Workspace files ───────────────────────────────────────────────────────

/// Where a workspace path lives: the user's own directory, or the shared scan reports.
#[derive(Debug, Clone, Copy, PartialEq, Eq, Structural)]
pub enum WorkspaceArea {
    User,
    Scans,
}

/// A workspace path is refused when it could leave its directory: it holds ".." or a backslash.
pub open spec fn unsafe_workspace_path(name: Seq<char>) -> bool {
    contains(name, ".."@) || name.contains('\\')
}

/// Checks a workspace path and tells where it lives ("scans/..." is the shared area).
pub fn workspace_area(filename: &str) -> (r: Result<WorkspaceArea, AppError>)
    ensures
        unsafe_workspace_path(filename@) <==> r is Err,
        r matches Err(e) ==> e == AppError::BadRequest(e->BadRequest_0) && e->BadRequest_0@ == "Invalid filename"@,
        r matches Ok(a) ==> (a == WorkspaceArea::Scans <==> starts_with(filename@, "scans/"@)),
{
    let v = chars_of(filename);
    let dots = chars_of("..");
    proof {
        reveal_strlit("..");
    }
    if has_sub(v.as_slice(), dots.as_slice()) || has_char(v.as_slice(), '\\') {
        return Err(AppError::BadRequest(owned("Invalid filename")));
    }
    if str_starts_with(filename, "scans/") {
        Ok(WorkspaceArea::Scans)
    } else {
        Ok(WorkspaceArea::User)
    }
}

/// Whether a directory entry is listed: hidden entries and the agent's own files (its
/// instructions file `instructions` and the API helper) are not.
pub fn listed_entry(name: &str, instructions: &str) -> (b: bool)
    ensures
        b <==> !(starts_with(name@, "."@) || name@ == instructions@ || name@ == "ops-api"@),
{
    !(str_starts_with(name, ".") || str_eq(name, instructions) || str_eq(name, "ops-api"))
}

/// The content type a download is served with, by the file's extension.
pub fn content_type_for(filename: &str) -> (r: &'static str)
    ensures
        r@ == (if ends_with(filename@, ".xlsx"@) {
            "application/vnd.openxmlformats-officedocument.spreadsheetml.sheet"@
        } else if ends_with(filename@, ".csv"@) {
            "text/csv"@
        } else if ends_with(filename@, ".json"@) {
            "application/json"@
        } else if ends_with(filename@, ".pdf"@) {
            "application/pdf"@
        } else {
            "application/octet-stream"@
        }),
{
    if str_ends_with(filename, ".xlsx") {
        "application/vnd.openxmlformats-officedocument.spreadsheetml.sheet"
    } else if str_ends_with(filename, ".csv") {
        "text/csv"
    } else if str_ends_with(filename, ".json") {
        "application/json"
    } else if str_ends_with(filename, ".pdf") {
        "application/pdf"
    } else {
        "application/octet-stream"
    }
}

/// The part of a path after its last '/'.
pub open spec fn last_segment_of(p: Seq<char>) -> Seq<char> {
    if exists|i: int| 0 <= i < p.len() && p[i] == '/' {
        let i = choose|i: int| 0 <= i < p.len() && p[i] == '/' && forall|j: int| i < j < p.len() ==> p[j] != '/';
        p.skip(i + 1)
    } else {
        p
    }
}

/// The name a download is offered under: the file name without its directories.
pub fn download_name(filename: &str) -> (r: String)
    ensures
        r@ == last_segment_of(filename@),
{
    let v = chars_of(filename);
    let mut i: usize = v.len();
    while i > 0
        invariant
            i <= v.len(),
            v@ == filename@,
            forall|j: int| i <= j < v.len() ==> v@[j] != '/',
        decreases i,
    {
        if v[i - 1] == '/' {
            let r = string_from_chars(slice_from(v.as_slice(), i).as_slice());
            proof {
                let k = (i - 1) as int;
                assert(filename@[k] == '/');
                let c = choose|c: int| 0 <= c < filename@.len() && filename@[c] == '/' && forall|j: int| c < j < filename@.len() ==> filename@[j] != '/';
                if c < k {
                    assert(filename@[k] != '/');
                } else if c > k {
                    assert(v@[c] != '/');
                }
            }
            return r;
        }
        i = i - 1;
    }
    owned(filename)
}

/// The header value that offers a file for download.
pub fn attachment_header(filename: &str) -> (r: String)
    ensures
        r@ == "attachment; filename=\""@ + last_segment_of(filename@) + "\""@,
{
    let n = download_name(filename);
    cat3("attachment; filename=\"", n.as_str(), "\"")
}

/// A shared scan report's path in the listing.
pub fn scan_listing_name(name: &str) -> (r: String)
    ensures
        r@ == "scans/"@ + name@,
{
    cat("scans/", name)
}

/// An image attached to a chat message.
pub struct ChatImage {
    /// Base64 content.
    pub data: String,
    pub media_type: String,
    pub name: Option<String>,
}

/// A file of a workspace listing.
pub struct WorkspaceFile {
    /// Its path within the listed directory.
    pub name: String,
    pub size: u64,
    /// When it last changed, as "YYYY-MM-DD HH:MM".
    pub modified: String,
    pub is_dir: bool,
}

pub open spec fn keyed_by_modified(s: Seq<WorkspaceFile>) -> Seq<(WorkspaceFile, String)> {
    s.map_values(|f: WorkspaceFile| (f, f.modified))
}

pub open spec fn files_of(s: Seq<(WorkspaceFile, String)>) -> Seq<WorkspaceFile> {
    s.map_values(|p: (WorkspaceFile, String)| p.0)
}

/// A shared scan report as the listing shows it: its path under "scans/".
pub open spec fn as_scan(f: WorkspaceFile) -> (Seq<char>, u64, Seq<char>, bool) {
    ("scans/"@ + f.name@, f.size, f.modified@, f.is_dir)
}

pub open spec fn file_view(f: WorkspaceFile) -> (Seq<char>, u64, Seq<char>, bool) {
    (f.name@, f.size, f.modified@, f.is_dir)
}

pub open spec fn listing_view(s: Seq<WorkspaceFile>) -> Seq<(Seq<char>, u64, Seq<char>, bool)> {
    s.map_values(|f: WorkspaceFile| file_view(f))
}

/// The user's files, then the shared scan reports under "scans/".
pub open spec fn listing_entries(user: Seq<WorkspaceFile>, scans: Seq<WorkspaceFile>) -> Seq<(Seq<char>, u64, Seq<char>, bool)> {
    listing_view(user) + scans.map_values(|f: WorkspaceFile| as_scan(f))
}

/// The workspace listing: the user's files and the shared scan reports, newest first (files
/// changed in the same minute in the order listed).
pub fn workspace_listing(user_files: Vec<WorkspaceFile>, scan_files: Vec<WorkspaceFile>) -> (r: Vec<WorkspaceFile>)
    ensures
        exists|all: Seq<WorkspaceFile>|
            listing_view(all) == listing_entries(user_files@, scan_files@)
            && r@ == files_of(crate::order::stable_sort(keyed_by_modified(all), true)),
{
    let ghost u0 = user_files@;
    let ghost s0 = scan_files@;
    let mut all: Vec<WorkspaceFile> = user_files;
    let mut scans = scan_files;
    let mut k: usize = 0;
    let n0 = scans.len();
    proof {
        assert(s0.skip(0) =~= s0);
        assert(listing_view(all@) =~= listing_view(u0) + s0.take(0).map_values(|f: WorkspaceFile| as_scan(f)));
    }
    while scans.len() > 0
        invariant
            k + scans@.len() == s0.len(),
            s0.len() == n0,
            scans@ == s0.skip(k as int),
            listing_view(all@) == listing_view(u0) + s0.take(k as int).map_values(|f: WorkspaceFile| as_scan(f)),
        decreases scans@.len(),
    {
        let f = scans.remove(0);
        proof {
            assert(s0[k as int] == f);
            assert(scans@ =~= s0.skip(k + 1));
        }
        let renamed = WorkspaceFile { name: cat("scans/", f.name.as_str()), size: f.size, modified: f.modified, is_dir: f.is_dir };
        let ghost before = all@;
        all.push(renamed);
        proof {
            assert(listing_view(all@) =~= listing_view(before).push(file_view(renamed)));
            assert(s0.take(k + 1).map_values(|f: WorkspaceFile| as_scan(f)) =~= s0.take(k as int).map_values(
                |f: WorkspaceFile| as_scan(f),
            ).push(as_scan(s0[k as int])));
        }
        k = k + 1;
    }
    proof {
        assert(s0.take(s0.len() as int) =~= s0);
    }
    let ghost av = all@;
    let mut keyed: Vec<(WorkspaceFile, String)> = Vec::new();
    let mut done: usize = 0;
    let m0 = all.len();
    proof {
        assert(av.skip(0) =~= av);
    }
    while all.len() > 0
        invariant
            done + all@.len() == av.len(),
            av.len() == m0,
            all@ == av.skip(done as int),
            keyed@ == keyed_by_modified(av.take(done as int)),
        decreases all@.len(),
    {
        let f = all.remove(0);
        let key = f.modified.clone();
        proof {
            assert(av[done as int] == f);
            assert(all@ =~= av.skip(done + 1));
        }
        keyed.push((f, key));
        proof {
            assert(keyed@ =~= keyed_by_modified(av.take(done + 1)));
        }
        done = done + 1;
    }
    proof {
        assert(av.take(av.len() as int) =~= av);
    }
    let sorted = crate::order::sort_by_key(keyed, true);
    let ghost sv = sorted@;
    let mut sorted = sorted;
    let mut out: Vec<WorkspaceFile> = Vec::new();
    let mut j: usize = 0;
    let q0 = sorted.len();
    proof {
        assert(sv.skip(0) =~= sv);
    }
    while sorted.len() > 0
        invariant
            j + sorted@.len() == sv.len(),
            sv.len() == q0,
            sorted@ == sv.skip(j as int),
            out@ == files_of(sv.take(j as int)),
        decreases sorted@.len(),
    {
        let (f, _k) = sorted.remove(0);
        proof {
            assert(sv[j as int].0 == f);
            assert(sorted@ =~= sv.skip(j + 1));
        }
        out.push(f);
        proof {
            assert(out@ =~= files_of(sv.take(j + 1)));
        }
        j = j + 1;
    }
    proof {
        assert(sv.take(sv.len() as int) =~= sv);
    }
    out
}

} // verus!
