//! Root-cause analysis runs: the prompts that start the agent, the keywords
//! and service the alert names, and the step tracker that turns the agent's
//! event stream into the investigation timeline shown to users.
use vstd::prelude::*;
use vstd::string::StringSliceAdditionalSpecFns;
use vstd::utf8::*;
use crate::claude::{copy_opt, AgentEvent, StreamChunk};
use crate::json::{json_pretty, json_pretty_text, json_str_at, json_str_at_path, json_str_field, json_str_field2, percent_encoded, url_encode};
use crate::agent::{json_quote, json_quoted};
use crate::github::group_at;
use crate::pattern::{captures_of, lowercase, matches_view, regex_captures, to_lowercase};
use crate::text::{
    blen, byte_cut, byte_prefix, cat, cat3, contains, dec, owned, str_contains, str_eq, str_trim, str_trim_end_matches,
    trim, trim_end_matches, u64_to_string,
};

verus! {

/// Opening of the RCA system prompt, up to the issue title.
pub const PROMPT_INTRO: &'static str = r#"你是 Ops RCA (Root Cause Analysis) 分析师。你需要像一个资深 SRE 一样，逐步调查以下问题的根本原因。

## 待调查问题
- **标题**: "#;
/// The tool list after the discovery tool, and the investigation rules, up to the first step.
pub const PROMPT_TOOLS: &'static str = r#"
- `check_service_health` — 一次性获取服务的错误率、延迟、CPU/内存/重启等健康概览
- `search_logs` — 按 service/namespace/关键词/level 搜索日志（不需要写 LogQL）
- `search_traces` — 搜索分布式追踪（按 service/status/最小延迟过滤）
- `query_metrics` — 自定义 PromQL 查询（仅在 check_service_health 不够时使用）
- `fetch_source_code` — 从 GitHub 获取源代码

## 调查规则（严格遵守）

**核心规则：每次只调一个工具。分析结果后，再决定下一步。**

**绝对禁止：**
- ❌ 一次性调多个工具
- ❌ 不看结果就决定下一步
- ❌ **调查不相关的服务** — 只查目标服务和直接上下游依赖，最多查 2 个服务
- ❌ **绝对禁止向用户提问或等待输入** — 你是全自动 agent，没有人在另一端
- ❌ 说"请告诉我"、"你想查什么"、"请提供"之类的话
- ❌ 在调查中途停下来输出总结 — 必须持续调用工具直到完成
- ❌ 对 discover_data_sources 返回的所有服务逐个检查
- ❌ 用完全相同的参数重复调用同一个工具

**空结果处理（关键！）：**
- ⚠️ 如果告警标题明确包含错误信息（如 ZeroDivisionError），但 search_logs 返回空，**必须换策略重试**：
  1. 先用 `keywords` 参数（从告警标题/描述提取关键词），不设 `level` 过滤
  2. 如果还是空，去掉所有过滤器搜原始日志，确认 Loki 中是否有该服务的数据
  3. 用 `discover_data_sources` 查 `service_name` label 的实际值，确认服务名拼写是否正确
- ⚠️ 同一工具用**不同参数**调用不算重复调用 — 这是正常的调查策略切换
- ⚠️ **绝不允许**告警说有错误但你结论说"服务健康" — 如果查不到数据，必须在报告中说明数据缺失，而不是得出与告警矛盾的结论

你是一个完全自主的 agent。在整个调查过程中，你不能停下来等待人类输入。
每次分析完一个工具的结果后，必须立即决定并调用下一个工具。
如果某个数据源不可用（如 HTTP 404），跳过它，用其他可用数据源继续调查。
如果所有遥测数据不足，仍然要基于告警元数据给出最佳分析和建议。
调查完成的标志是你输出了完整的报告（包含 Hypotheses、Root Cause、Mitigation 等所有章节）。

### 调查流程

"#;
/// The later investigation steps and the report format.
pub const PROMPT_REPORT: &'static str = r#"

**第二步：聚焦调查（只查目标服务）**
从问题标题和描述中提取关键错误信息（如异常类名、HTTP 状态码、错误消息），用 `search_logs(keywords="提取的关键词")` 精确搜索。
然后用 `search_traces` 查找失败或慢请求。
**绝对禁止**扫描所有 namespace 或逐个检查 discover 返回的服务列表。

**第三步：深入排查**
根据发现灵活深入：
- 错误率高 → `search_logs`（搜 error/exception）
- 延迟异常 → `search_traces`（找慢请求链路）
- 重启频繁 → `search_logs`（搜 OOMKilled/CrashLoopBackOff）
- 日志有文件行号 → `fetch_source_code`
- **只有当**目标服务自身完全正常时，才查询一个最可能的上游依赖服务

每次分析完一个工具结果后，直接调用下一个工具。不要输出总结或解释你的计划。

## 输出格式

在所有调查步骤完成后，用以下**精确格式**输出最终 RCA 报告。标题必须完全匹配（系统会根据标题解析结构）：

### Hypotheses
用编号列表列出你的假设（1-3个），每个假设包含：
1. **假设标题**：一句话概括
   - 支持证据
   - 不确定因素

### Key Findings
用编号列表列出关键发现（2-5个），每个发现：
1. **发现标题**：一句话概括具体技术发现
   - 具体数据/证据
   - Observations: 相关观察点

### Root Cause
> 用 blockquote 包裹 1-2 句话的核心根因结论（这会被高亮展示给用户）

详细解释根因，包含具体的技术细节、时间线和影响。

### Impact
- 受影响的服务/组件
- 用户影响程度和范围
- 持续时间

### Immediate Mitigation
用编号步骤列出立即可执行的修复方案，每步要具体到命令或代码级别：
1. **步骤标题**
   描述
   ```语言
   具体命令或代码
   ```

### Long-term Improvements
用编号列出长期改进方案：
1. **改进标题**：具体描述

注意：每次工具调用都会实时展示给用户，所以你的分析过程就是报告的一部分。"#;
pub const TARGET_HEAD: &'static str = r#"
## 🎯 调查目标（已从告警元数据中提取）
**目标服务: `"#;
pub const TARGET_TAIL: &'static str = r#"`**
你的全部调查必须围绕这个服务展开。不要调查其他不相关的服务。"#;
pub const FIRST_STEP_HEAD: &'static str = r#"**第一步：直接检查目标服务**
目标服务已确定为 `"#;
pub const FIRST_STEP_TAIL: &'static str = r#"`，直接用 `check_service_health` 检查它的健康状态。
不需要先调 discover_data_sources（除非 check_service_health 返回的数据为空）。"#;
pub const FIRST_STEP_DISCOVER: &'static str = r#"**第一步：锁定目标服务**
从问题的标题、描述、告警元数据中提取相关的 service name / namespace。
用 `discover_data_sources` 确认该服务在监控系统中的确切名称。"#;
pub const DISCOVER_OPTIONAL: &'static str = r#"- `discover_data_sources` — 发现监控系统中有哪些 label、service、namespace、metric。仅在目标服务名称不确定时使用"#;
pub const DISCOVER_FIRST: &'static str = r#"- `discover_data_sources` — 发现监控系统中有哪些 label、service、namespace、metric。**必须第一步调用**来确认目标服务"#;

// ─── The issue under investigation ─────────────────────────────────────────

/// What an RCA run reads of an issue.  `rca_result` is the alert metadata as JSON text and
/// `created_at` the creation time as it is displayed.
pub struct IssueFacts {
    pub title: String,
    pub severity: String,
    pub source: String,
    pub issue_type: String,
    pub description: Option<String>,
    pub rca_result: Option<String>,
    pub created_at: String,
}

pub open spec fn opt_view(o: Option<&str>) -> Option<Seq<char>> {
    match o {
        Some(s) => Some(s@),
        None => None,
    }
}

pub open spec fn nonempty(o: Option<Seq<char>>) -> bool {
    o matches Some(s) && s.len() > 0
}

/// The service an alert is about, from its metadata: the label or field "service", then
/// "service_name", then the labels "container", "pod", "job" and "app"; empty values are passed over.
pub open spec fn target_service_of(meta: Option<Seq<char>>) -> Option<Seq<char>> {
    match meta {
        None => None,
        Some(m) => {
            let labeled = |k: Seq<char>| json_str_at_path(m, seq!["labels"@, k]);
            if nonempty(labeled("service"@)) {
                labeled("service"@)
            } else if nonempty(json_str_at(m, "service"@)) {
                json_str_at(m, "service"@)
            } else if nonempty(labeled("service_name"@)) {
                labeled("service_name"@)
            } else if nonempty(json_str_at(m, "service_name"@)) {
                json_str_at(m, "service_name"@)
            } else if nonempty(labeled("container"@)) {
                labeled("container"@)
            } else if nonempty(labeled("pod"@)) {
                labeled("pod"@)
            } else if nonempty(labeled("job"@)) {
                labeled("job"@)
            } else if nonempty(labeled("app"@)) {
                labeled("app"@)
            } else {
                None
            }
        },
    }
}

fn nonempty_field(r: Option<String>) -> (o: Option<String>)
    ensures
        match r {
            Some(s) => if s@.len() > 0 { o == Some(s) } else { o is None },
            None => o is None,
        },
{
    match r {
        Some(s) => if s.as_str().is_empty() { None } else { Some(s) },
        None => None,
    }
}

/// The service named by the alert metadata `meta` (see `target_service_of`).
pub fn extract_target_service(meta: Option<&str>) -> (r: Option<String>)
    ensures
        match r {
            Some(s) => target_service_of(opt_view(meta)) == Some(s@),
            None => target_service_of(opt_view(meta)) is None,
        },
{
    let m = match meta {
        Some(m) => m,
        None => {
            return None;
        },
    };
    if let Some(s) = nonempty_field(json_str_field2(m, "labels", "service")) {
        return Some(s);
    }
    if let Some(s) = nonempty_field(json_str_field(m, "service")) {
        return Some(s);
    }
    if let Some(s) = nonempty_field(json_str_field2(m, "labels", "service_name")) {
        return Some(s);
    }
    if let Some(s) = nonempty_field(json_str_field(m, "service_name")) {
        return Some(s);
    }
    if let Some(s) = nonempty_field(json_str_field2(m, "labels", "container")) {
        return Some(s);
    }
    if let Some(s) = nonempty_field(json_str_field2(m, "labels", "pod")) {
        return Some(s);
    }
    if let Some(s) = nonempty_field(json_str_field2(m, "labels", "job")) {
        return Some(s);
    }
    if let Some(s) = nonempty_field(json_str_field2(m, "labels", "app")) {
        return Some(s);
    }
    None
}

// ─── Prompts ───────────────────────────────────────────────────────────────

pub open spec fn meta_text(i: IssueFacts) -> Seq<char> {
    match i.rca_result {
        Some(m) => json_pretty_text(m@),
        None => "N/A"@,
    }
}

pub open spec fn target_block(t: Option<Seq<char>>) -> Seq<char> {
    match t {
        Some(s) => TARGET_HEAD@ + s + TARGET_TAIL@,
        None => Seq::empty(),
    }
}

pub open spec fn discover_line(t: Option<Seq<char>>) -> Seq<char> {
    if t is Some {
        DISCOVER_OPTIONAL@
    } else {
        DISCOVER_FIRST@
    }
}

pub open spec fn first_step(t: Option<Seq<char>>) -> Seq<char> {
    match t {
        Some(s) => FIRST_STEP_HEAD@ + s + FIRST_STEP_TAIL@,
        None => FIRST_STEP_DISCOVER@,
    }
}

/// The system prompt of an RCA run on issue `i`, aimed at service `t` when one is known.
pub open spec fn system_prompt_text(i: IssueFacts, t: Option<Seq<char>>) -> Seq<char> {
    PROMPT_INTRO@ + i.title@ + "\n- **严重性**: "@ + i.severity@ + "\n- **来源**: "@ + i.source@ + "\n- **类型**: "@
        + i.issue_type@ + "\n- **描述**: "@ + (match i.description {
        Some(d) => d@,
        None => "N/A"@,
    }) + "\n- **告警元数据**:\n```json\n"@ + meta_text(i) + "\n```\n- **创建时间**: "@ + i.created_at@ + "\n"@
        + target_block(t) + "\n\n## 工具\n\n"@ + discover_line(t) + PROMPT_TOOLS@ + first_step(t) + PROMPT_REPORT@
}

/// The system prompt that tells the agent how to investigate `issue`.
pub fn build_system_prompt(issue: &IssueFacts, target: Option<&str>) -> (r: String)
    ensures
        r@ == system_prompt_text(*issue, opt_view(target)),
{
    let meta = match &issue.rca_result {
        Some(m) => json_pretty(m.as_str()),
        None => owned("N/A"),
    };
    let mut out = owned(PROMPT_INTRO);
    out.append(issue.title.as_str());
    out.append("\n- **严重性**: ");
    out.append(issue.severity.as_str());
    out.append("\n- **来源**: ");
    out.append(issue.source.as_str());
    out.append("\n- **类型**: ");
    out.append(issue.issue_type.as_str());
    out.append("\n- **描述**: ");
    match &issue.description {
        Some(d) => out.append(d.as_str()),
        None => out.append("N/A"),
    }
    out.append("\n- **告警元数据**:\n```json\n");
    out.append(meta.as_str());
    out.append("\n```\n- **创建时间**: ");
    out.append(issue.created_at.as_str());
    out.append("\n");
    match target {
        Some(svc) => {
            out.append(TARGET_HEAD);
            out.append(svc);
            out.append(TARGET_TAIL);
        },
        None => {},
    }
    out.append("\n\n## 工具\n\n");
    match target {
        Some(_) => out.append(DISCOVER_OPTIONAL),
        None => out.append(DISCOVER_FIRST),
    }
    out.append(PROMPT_TOOLS);
    match target {
        Some(svc) => {
            out.append(FIRST_STEP_HEAD);
            out.append(svc);
            out.append(FIRST_STEP_TAIL);
        },
        None => out.append(FIRST_STEP_DISCOVER),
    }
    out.append(PROMPT_REPORT);
    out
}

/// The first message of an RCA run: go straight to the target service's health when it is known,
/// otherwise start by discovering the data sources.
pub fn initial_message(target: Option<&str>) -> (r: String)
    ensures
        match target {
            Some(svc) => r@ == "开始自主调查。你是全自动 RCA agent，不会有人回复你。目标服务是 `"@ + svc@
                + "`。第一步：直接调用 check_service_health 检查 `"@ + svc@ + "` 的健康状态。"@,
            None => r@ == "开始自主调查。你是全自动 RCA agent，不会有人回复你。每一步分析完后必须立即调用下一个工具。第一步：调用 discover_data_sources。"@,
        },
{
    match target {
        Some(svc) => {
            let mut out = owned("开始自主调查。你是全自动 RCA agent，不会有人回复你。目标服务是 `");
            out.append(svc);
            out.append("`。第一步：直接调用 check_service_health 检查 `");
            out.append(svc);
            out.append("` 的健康状态。");
            out
        },
        None => owned(
            "开始自主调查。你是全自动 RCA agent，不会有人回复你。每一步分析完后必须立即调用下一个工具。第一步：调用 discover_data_sources。",
        ),
    }
}

/// The address of the RCA tool server for an issue raised at `issue_time` (RFC 3339).
pub fn rca_mcp_url(base_url: &str, issue_time: &str) -> (r: String)
    ensures
        r@ == trim_end_matches(base_url@, "/"@) + "/api/mcp/rca?issue_time="@ + percent_encoded(
            encode_utf8(issue_time@),
        ),
{
    let mut out = str_trim_end_matches(base_url, "/");
    out.append("/api/mcp/rca?issue_time=");
    out.append(url_encode(issue_time).as_str());
    out
}

// ─── Error keywords ────────────────────────────────────────────────────────

/// Error words worth searching the logs for: exception class names, 4xx/5xx codes, OOM kills,
/// timeouts, crashes, panics, segfaults and kill signals (any letter case).
pub const ERROR_KEYWORD_PATTERN: &'static str = r"(?i)([A-Z][a-zA-Z]*(?:Error|Exception|Fault)|(?:\b[45]\d{2}\b)|OOM(?:Killed)?|timeout|crash|panic|segfault|SIGKILL|SIGTERM)";

/// `acc` extended by the matched words of `ms` in order, a word being added only when no word
/// already there equals it letter case aside.
pub open spec fn add_keywords(acc: Seq<Seq<char>>, ms: Seq<Seq<Option<Seq<char>>>>) -> Seq<Seq<char>>
    decreases ms.len(),
{
    if ms.len() == 0 {
        acc
    } else {
        let prev = add_keywords(acc, ms.drop_last());
        match group_at(ms.last(), 0) {
            Some(k) => if exists|j: int| 0 <= j < prev.len() && lowercase(#[trigger] prev[j]) == lowercase(k) {
                prev
            } else {
                prev.push(k)
            },
            None => prev,
        }
    }
}

/// The error keywords of an alert: those of its title, then the new ones of its description.
pub open spec fn error_keywords(title: Seq<char>, description: Option<Seq<char>>) -> Seq<Seq<char>> {
    let first = add_keywords(Seq::empty(), captures_of(ERROR_KEYWORD_PATTERN@, title));
    match description {
        Some(d) => add_keywords(first, captures_of(ERROR_KEYWORD_PATTERN@, d)),
        None => first,
    }
}

fn append_keywords(caps: &Vec<Vec<Option<String>>>, out: &mut Vec<String>, lowered: &mut Vec<String>)
    requires
        old(out)@.len() == old(lowered)@.len(),
        forall|j: int| 0 <= j < old(out)@.len() ==> (#[trigger] old(lowered)@[j])@ == lowercase(old(out)@[j]@),
    ensures
        final(out)@.len() == final(lowered)@.len(),
        forall|j: int| 0 <= j < final(out)@.len() ==> (#[trigger] final(lowered)@[j])@ == lowercase(final(out)@[j]@),
        final(out)@.map_values(|s: String| s@) == add_keywords(old(out)@.map_values(|s: String| s@), matches_view(caps@)),
{
    let ghost start = out@.map_values(|s: String| s@);
    let ghost ms = matches_view(caps@);
    let mut i: usize = 0;
    while i < caps.len()
        invariant
            i <= caps.len(),
            ms == matches_view(caps@),
            out@.len() == lowered@.len(),
            forall|j: int| 0 <= j < out@.len() ==> (#[trigger] lowered@[j])@ == lowercase(out@[j]@),
            out@.map_values(|s: String| s@) == add_keywords(start, ms.take(i as int)),
        decreases caps.len() - i,
    {
        let m = &caps[i];
        let ghost cur = out@.map_values(|s: String| s@);
        proof {
            assert(ms.take(i + 1).drop_last() =~= ms.take(i as int));
            assert(ms.take(i + 1).last() == crate::pattern::match_view(*m));
        }
        if m.len() > 0 {
            match &m[0] {
                Some(kw) => {
                    let low = to_lowercase(kw.as_str());
                    let mut seen = false;
                    let mut j: usize = 0;
                    while j < lowered.len()
                        invariant
                            j <= lowered.len(),
                            seen == exists|k: int| 0 <= k < j && (#[trigger] lowered@[k])@ == low@,
                        decreases lowered.len() - j,
                    {
                        if str_eq(lowered[j].as_str(), low.as_str()) {
                            seen = true;
                        }
                        j = j + 1;
                    }
                    proof {
                        if seen {
                            let k = choose|k: int| 0 <= k < lowered@.len() && (#[trigger] lowered@[k])@ == low@;
                            assert(lowercase(cur[k]) == lowercase(kw@));
                        }
                        if exists|k: int| 0 <= k < cur.len() && lowercase(#[trigger] cur[k]) == lowercase(kw@) {
                            let k = choose|k: int| 0 <= k < cur.len() && lowercase(#[trigger] cur[k]) == lowercase(kw@);
                            assert(lowered@[k]@ == low@);
                        }
                    }
                    if !seen {
                        out.push(kw.clone());
                        lowered.push(low);
                        proof {
                            assert(out@.map_values(|s: String| s@) =~= cur.push(kw@));
                        }
                    }
                },
                None => {},
            }
        }
        i = i + 1;
    }
    proof {
        assert(ms.take(ms.len() as int) =~= ms);
    }
}

/// The error keywords of an alert's title and description (see `error_keywords`).
pub fn extract_error_keywords(title: &str, description: Option<&str>) -> (r: Vec<String>)
    ensures
        r@.map_values(|s: String| s@) == error_keywords(title@, opt_view(description)),
{
    let mut out: Vec<String> = Vec::new();
    let mut lowered: Vec<String> = Vec::new();
    let caps = regex_captures(ERROR_KEYWORD_PATTERN, title);
    proof {
        assert(out@.map_values(|s: String| s@) =~= Seq::<Seq<char>>::empty());
    }
    append_keywords(&caps, &mut out, &mut lowered);
    match description {
        Some(d) => {
            let caps2 = regex_captures(ERROR_KEYWORD_PATTERN, d);
            append_keywords(&caps2, &mut out, &mut lowered);
        },
        None => {},
    }
    out
}

// ─── Step labels ───────────────────────────────────────────────────────────

/// What a tool call is doing, by the tool's name.
pub open spec fn tool_base(n: Seq<char>) -> Seq<char> {
    if contains(n, "discover_data_sources"@) {
        "发现数据源"@
    } else if contains(n, "check_service_health"@) {
        "检查服务健康"@
    } else if contains(n, "search_logs"@) {
        "搜索日志"@
    } else if contains(n, "search_traces"@) {
        "搜索链路追踪"@
    } else if contains(n, "query_metrics"@) {
        "查询指标 (PromQL)"@
    } else if contains(n, "fetch_source_code"@) {
        "获取源代码"@
    } else {
        "调查中"@
    }
}

/// The subject of a tool call, from its JSON input: its "service", "file_path", "label" or
/// "keywords", the first one present.
pub open spec fn tool_detail(input: Seq<char>) -> Option<Seq<char>> {
    if json_str_at(input, "service"@) is Some {
        json_str_at(input, "service"@)
    } else if json_str_at(input, "file_path"@) is Some {
        json_str_at(input, "file_path"@)
    } else if json_str_at(input, "label"@) is Some {
        json_str_at(input, "label"@)
    } else {
        json_str_at(input, "keywords"@)
    }
}

/// The label of a step card for a call of `tool_name` with JSON input `input`.
pub open spec fn tool_label_text(tool_name: Seq<char>, input: Seq<char>) -> Seq<char> {
    match tool_detail(input) {
        Some(d) => tool_base(tool_name) + " — "@ + d,
        None => tool_base(tool_name),
    }
}

pub fn tool_label(tool_name: &str, input: &str) -> (r: String)
    ensures
        r@ == tool_label_text(tool_name@, input@),
{
    let base = if str_contains(tool_name, "discover_data_sources") {
        "发现数据源"
    } else if str_contains(tool_name, "check_service_health") {
        "检查服务健康"
    } else if str_contains(tool_name, "search_logs") {
        "搜索日志"
    } else if str_contains(tool_name, "search_traces") {
        "搜索链路追踪"
    } else if str_contains(tool_name, "query_metrics") {
        "查询指标 (PromQL)"
    } else if str_contains(tool_name, "fetch_source_code") {
        "获取源代码"
    } else {
        "调查中"
    };
    let detail = match json_str_field(input, "service") {
        Some(s) => Some(s),
        None => match json_str_field(input, "file_path") {
            Some(s) => Some(s),
            None => match json_str_field(input, "label") {
                Some(s) => Some(s),
                None => json_str_field(input, "keywords"),
            },
        },
    };
    match detail {
        Some(d) => cat3(base, " — ", d.as_str()),
        None => owned(base),
    }
}

// ─── The investigation timeline ────────────────────────────────────────────

/// A step of the investigation, as it is recorded while the agent works.
pub struct StepRecord {
    pub step_id: String,
    pub tool_name: String,
    pub reasoning: String,
    pub label: String,
    pub analysis: String,
    pub data_text: String,
}

/// A finished step as the saved timeline keeps it, in JSON.
pub open spec fn step_doc(r: StepRecord, duration_ms: u64) -> Seq<char> {
    "{\"stepId\":"@ + json_quoted(r.step_id@) + ",\"toolName\":"@ + json_quoted(r.tool_name@) + ",\"reasoning\":"@
        + json_quoted(r.reasoning@) + ",\"label\":"@ + json_quoted(r.label@) + ",\"status\":\"complete\",\"analysis\":"@
        + json_quoted(r.analysis@) + ",\"dataText\":"@ + json_quoted(r.data_text@) + ",\"durationMs\":"@ + dec(
        duration_ms as nat,
    ) + "}"@
}

impl StepRecord {
    /// The step as the saved timeline keeps it (see `step_doc`), written compactly.
    pub fn to_json(&self, duration_ms: u64) -> (j: String)
        ensures
            j@ == step_doc(*self, duration_ms),
    {
        let mut out = cat("{\"stepId\":", json_quote(self.step_id.as_str()).as_str());
        out.append(",\"toolName\":");
        out.append(json_quote(self.tool_name.as_str()).as_str());
        out.append(",\"reasoning\":");
        out.append(json_quote(self.reasoning.as_str()).as_str());
        out.append(",\"label\":");
        out.append(json_quote(self.label.as_str()).as_str());
        out.append(",\"status\":\"complete\",\"analysis\":");
        out.append(json_quote(self.analysis.as_str()).as_str());
        out.append(",\"dataText\":");
        out.append(json_quote(self.data_text.as_str()).as_str());
        out.append(",\"durationMs\":");
        out.append(u64_to_string(duration_ms).as_str());
        out.append("}");
        out
    }

    pub fn copy(&self) -> (r: StepRecord)
        ensures
            r == *self,
    {
        StepRecord {
            step_id: self.step_id.clone(),
            tool_name: self.tool_name.clone(),
            reasoning: self.reasoning.clone(),
            label: self.label.clone(),
            analysis: self.analysis.clone(),
            data_text: self.data_text.clone(),
        }
    }
}

/// A finished step and how long it took.
pub struct SavedStep {
    pub record: StepRecord,
    pub duration_ms: u64,
}

/// What the run has gathered so far.
pub struct RcaTracker {
    /// The analysis text (capped near 100 000 bytes until the final answer replaces it).
    pub full_text: String,
    pub step_counter: u32,
    /// The step in progress.
    pub current: Option<StepRecord>,
    /// Text the agent wrote before its next tool call.
    pub pending_reasoning: String,
    /// The keys of the tool results already shown.
    pub seen: Vec<String>,
    pub saved: Vec<SavedStep>,
    pub got_done: bool,
}

/// What to do after an event: the chunks to stream, and whether a new step's clock starts.
pub struct RcaUpdate {
    pub chunks: Vec<StreamChunk>,
    pub restart_timer: bool,
}

pub open spec fn step_id_text(n: nat) -> Seq<char> {
    "step_"@ + dec(n)
}

/// The analysis text after appending `content`: appended whole while under 100 000 bytes, cut
/// at that size and marked when it would pass it, ignored once the size is reached.
pub open spec fn capped(full: Seq<char>, content: Seq<char>) -> Seq<char> {
    if blen(full) < 100000 {
        if blen(content) <= 100000 - blen(full) {
            full + content
        } else {
            full + byte_cut(content, 100000 - blen(full)) + "\n\n[OUTPUT TRUNCATED]"@
        }
    } else {
        full
    }
}

/// The cut that `capped` makes falls between characters.
pub open spec fn text_cut_ok(full: Seq<char>, content: Seq<char>) -> bool {
    blen(full) < 100000 && blen(content) > 100000 - blen(full) ==> is_char_boundary(
        encode_utf8(content),
        100000 - blen(full),
    )
}

/// The cuts of a tool result at 200 and 5000 bytes fall between characters.
pub open spec fn result_cut_ok(content: Seq<char>) -> bool {
    &&& blen(content) > 200 ==> is_char_boundary(encode_utf8(content), 200)
    &&& blen(content) > 5000 ==> is_char_boundary(encode_utf8(content), 5000)
}

/// The key that recognises a tool result seen twice: the tool and the result's first 200 bytes.
pub open spec fn dedup_key(tool: Seq<char>, content: Seq<char>) -> Seq<char> {
    tool + ":"@ + if blen(content) > 200 {
        byte_cut(content, 200)
    } else {
        content
    }
}

/// A tool result as a step card shows it: results over 5000 bytes are cut there and marked with
/// their full length.
pub open spec fn shown_result(content: Seq<char>) -> Seq<char> {
    if blen(content) > 5000 {
        byte_cut(content, 5000) + "...\n[truncated, "@ + dec(blen(content) as nat) + " chars total]"@
    } else {
        content
    }
}

pub open spec fn is_complete(c: StreamChunk, id: String, summary: Seq<char>, d: u64) -> bool {
    c matches StreamChunk::StepComplete { step_id, summary: s, duration_ms } && step_id == id && s@ == summary
        && duration_ms == d
}

pub open spec fn is_start(c: StreamChunk, r: StepRecord) -> bool {
    c matches StreamChunk::StepStart { step_id, tool_name, reasoning, label } && step_id == r.step_id && tool_name
        == r.tool_name && reasoning == r.reasoning && label == r.label
}

/// The data chunk of step `r` for a result of tool `tool`.
pub open spec fn is_data(c: StreamChunk, r: StepRecord, tool: String) -> bool {
    c matches StreamChunk::StepData { step_id, tool_name, data_text } && step_id == r.step_id && tool_name
        == tool && data_text == r.data_text
}

/// A fresh step record for a call of `tool`.
pub open spec fn fresh_record(r: StepRecord, n: nat, tool: String, reasoning: Seq<char>, label: Seq<char>) -> bool {
    &&& r.step_id@ == step_id_text(n)
    &&& r.tool_name == tool
    &&& r.reasoning@ == reasoning
    &&& r.label@ == label
    &&& r.analysis@.len() == 0
}

/// What a piece of text written by the agent does: it extends the analysis of the step in
/// progress, or else the reasoning that the next step will show.
pub open spec fn text_step(before: RcaTracker, after: RcaTracker, content: String, u: RcaUpdate) -> bool {
    &&& after.same_log(&before)
    &&& after.step_counter == before.step_counter
    &&& after.full_text@ == capped(before.full_text@, content@)
    &&& !u.restart_timer
    &&& match before.current {
        Some(rec) => after.current matches Some(n) && n.step_id == rec.step_id && n.tool_name == rec.tool_name
            && n.reasoning == rec.reasoning && n.label == rec.label && n.data_text == rec.data_text && n.analysis@
            == rec.analysis@ + content@ && after.pending_reasoning == before.pending_reasoning && u.chunks@.len()
            == 1 && u.chunks@[0] == (StreamChunk::StepAnalysis { step_id: rec.step_id, content: content }),
        None => after.current is None && after.pending_reasoning@ == before.pending_reasoning@ + content@
            && u.chunks@.len() == 0,
    }
}

/// What a tool call does: the step in progress ends (dropped when it never received anything),
/// and a new step starts with the reasoning written since the last one.
pub open spec fn tool_use_step(
    before: RcaTracker,
    after: RcaTracker,
    tool_name: String,
    input: String,
    step_elapsed_ms: u64,
    u: RcaUpdate,
) -> bool {
    &&& after.seen@ == before.seen@
    &&& after.got_done == before.got_done
    &&& after.full_text == before.full_text
    &&& after.pending_reasoning@.len() == 0
    &&& u.restart_timer
    &&& after.current matches Some(n) && fresh_record(
        n,
        after.step_counter as nat,
        tool_name,
        trim(before.pending_reasoning@),
        tool_label_text(tool_name@, input@),
    ) && n.data_text@.len() == 0 && u.chunks@.len() >= 1 && is_start(u.chunks@.last(), n)
    &&& match before.current {
        Some(prev) => if prev.data_text@.len() == 0 && prev.analysis@.len() == 0 {
            &&& after.step_counter == before.step_counter
            &&& after.saved@ == before.saved@
            &&& u.chunks@.len() == 2
            &&& is_complete(u.chunks@[0], prev.step_id, "(skipped)"@, 0)
        } else {
            &&& after.step_counter == before.step_counter + 1
            &&& after.saved@ == before.saved@.push(SavedStep { record: prev, duration_ms: step_elapsed_ms })
            &&& u.chunks@.len() == 2
            &&& is_complete(u.chunks@[0], prev.step_id, Seq::empty(), step_elapsed_ms)
        },
        None => after.step_counter == before.step_counter + 1 && after.saved@ == before.saved@ && u.chunks@.len()
            == 1,
    }
}

/// Whether the result key `key` was shown before.
pub open spec fn seen_before(t: RcaTracker, key: Seq<char>) -> bool {
    exists|j: int| 0 <= j < t.seen@.len() && (#[trigger] t.seen@[j])@ == key
}

/// What a tool result does: a result seen before changes nothing; a new one is shown on the step
/// in progress, or on a new step opened for it.
pub open spec fn tool_result_step(
    before: RcaTracker,
    after: RcaTracker,
    tool_name: String,
    content: String,
    u: RcaUpdate,
) -> bool {
    &&& after.full_text == before.full_text
    &&& after.pending_reasoning == before.pending_reasoning
    &&& after.saved@ == before.saved@
    &&& after.got_done == before.got_done
    &&& seen_before(before, dedup_key(tool_name@, content@)) ==> {
        &&& after.seen@ == before.seen@
        &&& after.current == before.current
        &&& after.step_counter == before.step_counter
        &&& u.chunks@.len() == 0
        &&& !u.restart_timer
    }
    &&& !seen_before(before, dedup_key(tool_name@, content@)) ==> {
        &&& after.seen@.len() == before.seen@.len() + 1
        &&& after.seen@.drop_last() == before.seen@
        &&& after.seen@.last()@ == dedup_key(tool_name@, content@)
        &&& after.current matches Some(n) && n.data_text@ == shown_result(content@) && is_data(
            u.chunks@.last(),
            n,
            tool_name,
        ) && u.chunks@.len() >= 1
        &&& match before.current {
            Some(rec) => after.current matches Some(n) && n.step_id == rec.step_id && n.tool_name == rec.tool_name
                && n.reasoning == rec.reasoning && n.label == rec.label && n.analysis == rec.analysis
                && after.step_counter == before.step_counter && u.chunks@.len() == 1 && !u.restart_timer,
            None => after.current matches Some(n) && fresh_record(
                n,
                after.step_counter as nat,
                tool_name,
                Seq::empty(),
                tool_label_text(tool_name@, ""@),
            ) && after.step_counter == before.step_counter + 1 && u.chunks@.len() == 2 && is_start(
                u.chunks@[0],
                n,
            ) && u.restart_timer,
        }
    }
}

impl RcaTracker {
    pub open spec fn wf(&self) -> bool {
        self.current is Some ==> self.step_counter >= 1
    }

    /// The parts that only the step events change stay as they were.
    pub open spec fn same_log(&self, other: &RcaTracker) -> bool {
        &&& self.seen@ == other.seen@
        &&& self.saved@ == other.saved@
        &&& self.got_done == other.got_done
    }

    /// An empty tracker, and the chunk that announces the start of the investigation.
    pub fn start() -> (r: (RcaTracker, StreamChunk))
        ensures
            r.0.wf(),
            r.0.full_text@.len() == 0 && r.0.step_counter == 0 && r.0.current is None && r.0.pending_reasoning@.len() == 0
                && r.0.seen@.len() == 0 && r.0.saved@.len() == 0 && !r.0.got_done,
            r.1 matches StreamChunk::Step { step, status, label, summary, duration_ms } && step@ == "init"@ && status@
                == "running"@ && label@ == "AI 开始调查..."@ && summary is None && duration_ms is None,
    {
        (
            RcaTracker {
                full_text: String::new(),
                step_counter: 0,
                current: None,
                pending_reasoning: String::new(),
                seen: Vec::new(),
                saved: Vec::new(),
                got_done: false,
            },
            StreamChunk::Step {
                step: owned("init"),
                status: owned("running"),
                label: owned("AI 开始调查..."),
                summary: None,
                duration_ms: None,
            },
        )
    }

    /// Agent text: the analysis of the step in progress, or reasoning towards the next step.
    pub fn on_text(&mut self, content: &String) -> (u: RcaUpdate)
        requires
            old(self).wf(),
            text_cut_ok(old(self).full_text@, content@),
        ensures
            final(self).wf(),
            text_step(*old(self), *final(self), *content, u),
    {
        let mut chunks: Vec<StreamChunk> = Vec::new();
        match &mut self.current {
            Some(rec) => {
                chunks.push(StreamChunk::StepAnalysis { step_id: rec.step_id.clone(), content: content.clone() });
                rec.analysis.append(content.as_str());
            },
            None => {
                self.pending_reasoning.append(content.as_str());
            },
        }
        let fl = self.full_text.as_str().len();
        if fl < 100000 {
            let remaining = 100000 - fl;
            if content.as_str().len() <= remaining {
                self.full_text.append(content.as_str());
            } else {
                let cut = byte_prefix(content.as_str(), remaining);
                self.full_text.append(cut.as_str());
                self.full_text.append("\n\n[OUTPUT TRUNCATED]");
            }
        }
        RcaUpdate { chunks, restart_timer: false }
    }

    /// A tool call: the step in progress ends (dropped when it never received anything), and a
    /// new step starts with the reasoning written since the last one.
    pub fn on_tool_use(&mut self, tool_name: &String, input: &String, step_elapsed_ms: u64) -> (u: RcaUpdate)
        requires
            old(self).wf(),
            old(self).step_counter < u32::MAX,
        ensures
            final(self).wf(),
            tool_use_step(*old(self), *final(self), *tool_name, *input, step_elapsed_ms, u),
    {
        let mut chunks: Vec<StreamChunk> = Vec::new();
        let prev = self.current.take();
        match prev {
            Some(p) => {
                if p.data_text.as_str().is_empty() && p.analysis.as_str().is_empty() {
                    chunks.push(StreamChunk::StepComplete { step_id: p.step_id, summary: owned("(skipped)"), duration_ms: 0 });
                    self.step_counter = self.step_counter - 1;
                } else {
                    chunks.push(StreamChunk::StepComplete {
                        step_id: p.step_id.clone(),
                        summary: String::new(),
                        duration_ms: step_elapsed_ms,
                    });
                    self.saved.push(SavedStep { record: p, duration_ms: step_elapsed_ms });
                }
            },
            None => {},
        }
        self.step_counter = self.step_counter + 1;
        let step_id = cat("step_", u64_to_string(self.step_counter as u64).as_str());
        let reasoning = str_trim(self.pending_reasoning.as_str());
        self.pending_reasoning = String::new();
        let label = tool_label(tool_name.as_str(), input.as_str());
        let rec = StepRecord {
            step_id,
            tool_name: tool_name.clone(),
            reasoning,
            label,
            analysis: String::new(),
            data_text: String::new(),
        };
        chunks.push(StreamChunk::StepStart {
            step_id: rec.step_id.clone(),
            tool_name: rec.tool_name.clone(),
            reasoning: rec.reasoning.clone(),
            label: rec.label.clone(),
        });
        self.current = Some(rec);
        RcaUpdate { chunks, restart_timer: true }
    }

    fn was_seen(&self, key: &str) -> (b: bool)
        ensures
            b == exists|j: int| 0 <= j < self.seen@.len() && (#[trigger] self.seen@[j])@ == key@,
    {
        let mut j: usize = 0;
        while j < self.seen.len()
            invariant
                j <= self.seen.len(),
                forall|k: int| 0 <= k < j ==> (#[trigger] self.seen@[k])@ != key@,
            decreases self.seen.len() - j,
        {
            if str_eq(self.seen[j].as_str(), key) {
                return true;
            }
            j = j + 1;
        }
        false
    }

    /// A tool result: shown once (results seen before are ignored), on the step in progress or
    /// on a new step opened for it.
    pub fn on_tool_result(&mut self, tool_name: &String, content: &String) -> (u: RcaUpdate)
        requires
            old(self).wf(),
            old(self).step_counter < u32::MAX,
            result_cut_ok(content@),
        ensures
            final(self).wf(),
            tool_result_step(*old(self), *final(self), *tool_name, *content, u),
    {
        let mut chunks: Vec<StreamChunk> = Vec::new();
        let head = if content.as_str().len() > 200 { byte_prefix(content.as_str(), 200) } else { content.clone() };
        let key = cat3(tool_name.as_str(), ":", head.as_str());
        if self.was_seen(key.as_str()) {
            return RcaUpdate { chunks, restart_timer: false };
        }
        self.seen.push(key);
        assert(self.seen@.drop_last() =~= old(self).seen@);
        let mut restart = false;
        if self.current.is_none() {
            self.step_counter = self.step_counter + 1;
            let step_id = cat("step_", u64_to_string(self.step_counter as u64).as_str());
            let label = tool_label(tool_name.as_str(), "");
            let rec = StepRecord {
                step_id,
                tool_name: tool_name.clone(),
                reasoning: String::new(),
                label,
                analysis: String::new(),
                data_text: String::new(),
            };
            chunks.push(StreamChunk::StepStart {
                step_id: rec.step_id.clone(),
                tool_name: rec.tool_name.clone(),
                reasoning: rec.reasoning.clone(),
                label: rec.label.clone(),
            });
            self.current = Some(rec);
            restart = true;
        }
        let shown = if content.as_str().len() > 5000 {
            let cut = byte_prefix(content.as_str(), 5000);
            let mut t = cat(cut.as_str(), "...\n[truncated, ");
            t.append(u64_to_string(content.as_str().len() as u64).as_str());
            t.append(" chars total]");
            t
        } else {
            content.clone()
        };
        match &mut self.current {
            Some(rec) => {
                rec.data_text = shown.clone();
                chunks.push(StreamChunk::StepData {
                    step_id: rec.step_id.clone(),
                    tool_name: tool_name.clone(),
                    data_text: shown,
                });
            },
            None => {},
        }
        RcaUpdate { chunks, restart_timer: restart }
    }

    /// Handle one event of the agent run; `step_elapsed_ms` is the time since the current step
    /// started.
    pub fn on_event(&mut self, event: &AgentEvent, step_elapsed_ms: u64) -> (u: RcaUpdate)
        requires
            old(self).wf(),
            old(self).step_counter < u32::MAX,
            event matches AgentEvent::Text { content } ==> text_cut_ok(old(self).full_text@, content@),
            event matches AgentEvent::ToolResult { content, .. } ==> result_cut_ok(content@),
        ensures
            final(self).wf(),
            match *event {
                AgentEvent::Done { content, session_id, duration_ms } => final(self).full_text@ == (if content@.len()
                    > 0 {
                    content@
                } else {
                    old(self).full_text@
                }) && final(self).got_done && final(self).current == old(self).current && final(self).step_counter
                    == old(self).step_counter && final(self).pending_reasoning == old(self).pending_reasoning
                    && final(self).seen@ == old(self).seen@ && final(self).saved@ == old(self).saved@ && u.chunks@ == seq![
                    StreamChunk::Done { content, session_id, duration_ms },
                ] && !u.restart_timer,
                AgentEvent::Error { message } => *final(self) == *old(self) && u.chunks@ == seq![
                    StreamChunk::Error { message },
                ] && !u.restart_timer,
                AgentEvent::Text { content } => text_step(*old(self), *final(self), content, u),
                AgentEvent::ToolUse { tool_name, content } => tool_use_step(
                    *old(self),
                    *final(self),
                    tool_name,
                    content,
                    step_elapsed_ms,
                    u,
                ),
                AgentEvent::ToolResult { tool_name, content } => tool_result_step(
                    *old(self),
                    *final(self),
                    tool_name,
                    content,
                    u,
                ),
                _ => *final(self) == *old(self) && u.chunks@.len() == 0 && !u.restart_timer,
            },
    {
        match event {
            AgentEvent::Text { content } => self.on_text(content),
            AgentEvent::ToolUse { tool_name, content } => self.on_tool_use(tool_name, content, step_elapsed_ms),
            AgentEvent::ToolResult { tool_name, content } => self.on_tool_result(tool_name, content),
            AgentEvent::Done { content, session_id, duration_ms } => {
                if !content.as_str().is_empty() {
                    self.full_text = content.clone();
                }
                self.got_done = true;
                let mut chunks: Vec<StreamChunk> = Vec::new();
                chunks.push(StreamChunk::Done {
                    content: content.clone(),
                    session_id: copy_opt(session_id),
                    duration_ms: *duration_ms,
                });
                RcaUpdate { chunks, restart_timer: false }
            },
            AgentEvent::Error { message } => {
                let mut chunks: Vec<StreamChunk> = Vec::new();
                chunks.push(StreamChunk::Error { message: message.clone() });
                RcaUpdate { chunks, restart_timer: false }
            },
            _ => RcaUpdate { chunks: Vec::new(), restart_timer: false },
        }
    }

    /// The end of the run: the accumulated text when no final answer came, the close of the last
    /// step, and the closing summary "<seconds>s, <n> 个调查步骤".
    pub fn finish(&mut self, step_elapsed_ms: u64, total_elapsed_ms: u64) -> (chunks: Vec<StreamChunk>)
        requires
            old(self).wf(),
        ensures
            final(self).wf(),
            final(self).current is None,
            final(self).full_text == old(self).full_text,
            final(self).step_counter == old(self).step_counter,
            final(self).pending_reasoning == old(self).pending_reasoning,
            final(self).seen@ == old(self).seen@,
            final(self).got_done == old(self).got_done,
            chunks@.len() == (if old(self).got_done { 0int } else { 1int }) + (if old(self).current is Some {
                1int
            } else {
                0int
            }) + 1,
            !old(self).got_done ==> chunks@[0] == (StreamChunk::Done {
                content: old(self).full_text,
                session_id: None,
                duration_ms: total_elapsed_ms,
            }),
            match old(self).current {
                Some(rec) => final(self).saved@ == old(self).saved@.push(SavedStep { record: rec, duration_ms: step_elapsed_ms })
                    && is_complete(chunks@[chunks@.len() - 2], rec.step_id, Seq::empty(), step_elapsed_ms),
                None => final(self).saved@ == old(self).saved@,
            },
            chunks@.last() matches StreamChunk::Step { step, status, label, summary, duration_ms } && step@
                == "complete"@ && status@ == "done"@ && label@ == "调查完成"@ && (summary matches Some(s) && s@
                == dec((total_elapsed_ms / 1000) as nat) + "s, "@ + dec(old(self).step_counter as nat) + " 个调查步骤"@)
                && duration_ms == Some(total_elapsed_ms),
    {
        let mut chunks: Vec<StreamChunk> = Vec::new();
        if !self.got_done {
            chunks.push(StreamChunk::Done { content: self.full_text.clone(), session_id: None, duration_ms: total_elapsed_ms });
        }
        match self.current.take() {
            Some(rec) => {
                chunks.push(StreamChunk::StepComplete {
                    step_id: rec.step_id.clone(),
                    summary: String::new(),
                    duration_ms: step_elapsed_ms,
                });
                self.saved.push(SavedStep { record: rec, duration_ms: step_elapsed_ms });
            },
            None => {},
        }
        let mut summary = u64_to_string(total_elapsed_ms / 1000);
        summary.append("s, ");
        summary.append(u64_to_string(self.step_counter as u64).as_str());
        summary.append(" 个调查步骤");
        chunks.push(StreamChunk::Step {
            step: owned("complete"),
            status: owned("done"),
            label: owned("调查完成"),
            summary: Some(summary),
            duration_ms: Some(total_elapsed_ms),
        });
        chunks
    }
}

/// What a run that could not start the agent CLI titled `title` reports, and the error text it
/// records.
pub fn spawn_failure(title: &str, error: &str) -> (r: (Vec<StreamChunk>, String))
    ensures
        r.1@ == "Failed to spawn "@ + title@ + " CLI for RCA: "@ + error@,
        r.0@.len() == 2,
        r.0@[0] matches StreamChunk::Step { step, status, label, summary, duration_ms } && step@ == "analysis"@
            && status@ == "error"@ && label@ == "分析失败"@ && summary == Some(r.1) && duration_ms is None,
        r.0@[1] == (StreamChunk::Error { message: r.1 }),
{
    let head = cat3("Failed to spawn ", title, " CLI for RCA: ");
    let msg = cat(head.as_str(), error);
    let mut chunks: Vec<StreamChunk> = Vec::new();
    chunks.push(StreamChunk::Step {
        step: owned("analysis"),
        status: owned("error"),
        label: owned("分析失败"),
        summary: Some(msg.clone()),
        duration_ms: None,
    });
    chunks.push(StreamChunk::Error { message: msg.clone() });
    (chunks, msg)
}


// ─── Running investigations ────────────────────────────────────────────────

/// The issues whose investigation is running (each once); the streams that watchers follow
/// are kept beside it, by issue.
pub struct RcaRegistry {
    active: Vec<crate::auth::Id>,
}

impl View for RcaRegistry {
    type V = Set<crate::auth::Id>;

    closed spec fn view(&self) -> Set<crate::auth::Id> {
        self.active@.to_set()
    }
}

impl RcaRegistry {
    /// No investigation running.
    pub fn new() -> (r: RcaRegistry)
        ensures
            r@ == Set::<crate::auth::Id>::empty(),
    {
        let r = RcaRegistry { active: Vec::new() };
        proof {
            assert(r.active@.to_set() =~= Set::<crate::auth::Id>::empty());
        }
        r
    }

    fn position(&self, issue_id: crate::auth::Id) -> (r: Option<usize>)
        ensures
            match r {
                Some(k) => k < self.active@.len() && self.active@[k as int] == issue_id,
                None => !self.active@.contains(issue_id),
            },
    {
        let mut k: usize = 0;
        while k < self.active.len()
            invariant
                k <= self.active.len(),
                forall|j: int| 0 <= j < k ==> self.active@[j] != issue_id,
            decreases self.active.len() - k,
        {
            if self.active[k] == issue_id {
                return Some(k);
            }
            k = k + 1;
        }
        None
    }

    /// Whether the investigation of `issue_id` is running.
    pub fn is_running(&self, issue_id: crate::auth::Id) -> (b: bool)
        ensures
            b == self@.contains(issue_id),
    {
        let p = self.position(issue_id);
        p.is_some()
    }

    /// Records that the investigation of `issue_id` runs.
    pub fn register(&mut self, issue_id: crate::auth::Id)
        ensures
            final(self)@ == old(self)@.insert(issue_id),
    {
        if self.position(issue_id).is_none() {
            let ghost before = self.active@;
            self.active.push(issue_id);
            proof {
                vstd::seq_lib::lemma_seq_contains_after_push(before, issue_id, issue_id);
                assert forall|y: crate::auth::Id| self.active@.contains(y) <==> before.contains(y) || y == issue_id by {
                    vstd::seq_lib::lemma_seq_contains_after_push(before, issue_id, y);
                }
                assert(self.active@.to_set() =~= before.to_set().insert(issue_id));
            }
        } else {
            proof {
                assert(old(self).active@.to_set() =~= old(self).active@.to_set().insert(issue_id));
            }
        }
    }

    /// Records that the investigation of `issue_id` is over.
    pub fn remove(&mut self, issue_id: crate::auth::Id)
        ensures
            final(self)@ == old(self)@.remove(issue_id),
    {
        let ghost before = self.active@;
        let mut kept: Vec<crate::auth::Id> = Vec::new();
        let mut k: usize = 0;
        while k < self.active.len()
            invariant
                k <= self.active.len(),
                self.active@ == before,
                forall|y: crate::auth::Id| kept@.contains(y) <==> before.take(k as int).contains(y) && y != issue_id,
            decreases self.active.len() - k,
        {
            let x = self.active[k];
            let ghost kb = kept@;
            proof {
                assert(before.take(k + 1) =~= before.take(k as int).push(x));
                assert forall|y: crate::auth::Id| before.take(k + 1).contains(y) <==> before.take(k as int).contains(y) || y == x by {
                    vstd::seq_lib::lemma_seq_contains_after_push(before.take(k as int), x, y);
                }
            }
            if x != issue_id {
                kept.push(x);
                proof {
                    assert forall|y: crate::auth::Id| kept@.contains(y) <==> kb.contains(y) || y == x by {
                        vstd::seq_lib::lemma_seq_contains_after_push(kb, x, y);
                    }
                }
            }
            proof {
                assert forall|y: crate::auth::Id| kept@.contains(y) <==> before.take(k + 1).contains(y) && y != issue_id by {
                    assert(kb.contains(y) <==> before.take(k as int).contains(y) && y != issue_id);
                    assert(before.take(k + 1).contains(y) <==> before.take(k as int).contains(y) || y == x);
                }
            }
            k = k + 1;
        }
        proof {
            assert(before.take(before.len() as int) =~= before);
            assert(kept@.to_set() =~= before.to_set().remove(issue_id));
        }
        self.active = kept;
    }
}

/// Starting an investigation makes it running, and finishing it makes it no longer running;
/// other issues are not affected.
pub proof fn law_registry_tracks_runs(s: Set<crate::auth::Id>, issue: crate::auth::Id, other: crate::auth::Id)
    requires
        other != issue,
    ensures
        s.insert(issue).contains(issue),
        !s.remove(issue).contains(issue),
        s.insert(issue).contains(other) == s.contains(other),
        s.remove(issue).contains(other) == s.contains(other),
{
}

/// The running investigations after other runs start (`true`) or end (`false`) in turn.
pub open spec fn apply_runs(s: Set<crate::auth::Id>, ops: Seq<(crate::auth::Id, bool)>) -> Set<crate::auth::Id>
    decreases ops.len(),
{
    if ops.len() == 0 {
        s
    } else {
        let p = apply_runs(s, ops.drop_last());
        if ops.last().1 {
            p.insert(ops.last().0)
        } else {
            p.remove(ops.last().0)
        }
    }
}

/// Registering an issue first and then applying the moves of other runs is the same as applying
/// them and registering it last.
proof fn lemma_runs_keep(s: Set<crate::auth::Id>, issue: crate::auth::Id, ops: Seq<(crate::auth::Id, bool)>)
    requires
        forall|k: int| 0 <= k < ops.len() ==> (#[trigger] ops[k]).0 != issue,
    ensures
        apply_runs(s.insert(issue), ops) == apply_runs(s, ops).insert(issue),
    decreases ops.len(),
{
    if ops.len() > 0 {
        let prev = ops.drop_last();
        assert forall|k: int| 0 <= k < prev.len() implies (#[trigger] prev[k]).0 != issue by {
            assert(prev[k] == ops[k]);
        }
        lemma_runs_keep(s, issue, prev);
        assert(ops.last() == ops[ops.len() - 1]);
        let p = apply_runs(s, prev);
        if ops.last().1 {
            assert(p.insert(issue).insert(ops.last().0) =~= p.insert(ops.last().0).insert(issue));
        } else {
            assert(p.insert(issue).remove(ops.last().0) =~= p.remove(ops.last().0).insert(issue));
        }
    }
}

/// One investigation of `issue` over its whole run (registered, then removed when it ends),
/// while other runs start and end: it is running from its registration to its removal,
/// whatever the others do; it is not running afterwards; and for every other issue the run
/// leaves the registry as if it had never happened.
pub proof fn law_investigation_run(s: Set<crate::auth::Id>, issue: crate::auth::Id, others: Seq<(crate::auth::Id, bool)>)
    requires
        forall|k: int| 0 <= k < others.len() ==> (#[trigger] others[k]).0 != issue,
    ensures
        forall|n: int| 0 <= n <= others.len() ==> #[trigger] apply_runs(s.insert(issue), others.take(n)).contains(issue),
        !apply_runs(s.insert(issue), others).remove(issue).contains(issue),
        forall|x: crate::auth::Id|
            x != issue ==> (#[trigger] apply_runs(s.insert(issue), others).remove(issue).contains(x)) == apply_runs(
                s,
                others,
            ).contains(x),
{
    assert forall|n: int| 0 <= n <= others.len() implies #[trigger] apply_runs(s.insert(issue), others.take(n)).contains(
        issue,
    ) by {
        let t = others.take(n);
        assert forall|k: int| 0 <= k < t.len() implies (#[trigger] t[k]).0 != issue by {
            assert(t[k] == others[k]);
        }
        lemma_runs_keep(s, issue, t);
    }
    lemma_runs_keep(s, issue, others);
}

} // verus!
