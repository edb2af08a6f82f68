//! The investigation tools served to the agent over JSON-RPC: their catalog,
//! the routing of requests, and the reading of a tool call's arguments.
use vstd::prelude::*;
use crate::auth::AppError;
use crate::json::{
    json_i64_at, json_i64_field, json_item_texts_at, json_item_texts_field, json_str_at, json_str_field, json_u64_at,
    json_u64_field, json_value_text_at, json_value_text_field,
};
use crate::agent::{json_quote, json_quoted};
use crate::text::{cat, cat3, owned, push_line, str_eq, string_list, strings_view};

verus! {

// ─── Responses ─────────────────────────────────────────────────────────────

/// The error of a JSON-RPC response.
pub struct JsonRpcError {
    pub code: i32,
    pub message: String,
}

/// A JSON-RPC response; the id and the result are JSON text.
pub struct JsonRpcResponse {
    pub jsonrpc: String,
    pub id: Option<String>,
    pub result: Option<String>,
    pub error: Option<JsonRpcError>,
}

impl JsonRpcResponse {
    /// A successful response to the request `id`.
    pub fn success(id: Option<String>, result: String) -> (r: JsonRpcResponse)
        ensures
            r.jsonrpc@ == "2.0"@,
            r.id == id,
            r.result == Some(result),
            r.error is None,
    {
        JsonRpcResponse { jsonrpc: owned("2.0"), id, result: Some(result), error: None }
    }

    /// A failed response to the request `id`.
    pub fn error(id: Option<String>, code: i32, message: String) -> (r: JsonRpcResponse)
        ensures
            r.jsonrpc@ == "2.0"@,
            r.id == id,
            r.result is None,
            r.error matches Some(e) && e.code == code && e.message == message,
    {
        JsonRpcResponse { jsonrpc: owned("2.0"), id, result: None, error: Some(JsonRpcError { code, message }) }
    }
}

// ─── Tool catalog ──────────────────────────────────────────────────────────

/// The default value of a parameter.
pub enum ParamDefault {
    Int(i64),
    Text(String),
}

/// One parameter of a tool.
pub struct ToolParam {
    pub name: String,
    /// Its JSON type.
    pub kind: String,
    pub description: String,
    pub default: Option<ParamDefault>,
    /// For an array of objects: the string fields each item must have.
    pub item_fields: Vec<String>,
}

/// One tool: its name, what it does, its parameters, and which of them are required.
pub struct ToolDef {
    pub name: String,
    pub description: String,
    pub params: Vec<ToolParam>,
    pub required: Vec<String>,
}

pub enum DefaultView {
    Int(i64),
    Text(Seq<char>),
}

#[verifier::ext_equal]
pub struct ParamView {
    pub name: Seq<char>,
    pub kind: Seq<char>,
    pub description: Seq<char>,
    pub default: Option<DefaultView>,
    pub item_fields: Seq<Seq<char>>,
}

#[verifier::ext_equal]
pub struct ToolView {
    pub name: Seq<char>,
    pub description: Seq<char>,
    pub params: Seq<ParamView>,
    pub required: Seq<Seq<char>>,
}

pub open spec fn default_view(d: Option<ParamDefault>) -> Option<DefaultView> {
    match d {
        Some(ParamDefault::Int(n)) => Some(DefaultView::Int(n)),
        Some(ParamDefault::Text(t)) => Some(DefaultView::Text(t@)),
        None => None,
    }
}

impl View for ToolParam {
    type V = ParamView;

    open spec fn view(&self) -> ParamView {
        ParamView {
            name: self.name@,
            kind: self.kind@,
            description: self.description@,
            default: default_view(self.default),
            item_fields: strings_view(self.item_fields@),
        }
    }
}

impl View for ToolDef {
    type V = ToolView;

    open spec fn view(&self) -> ToolView {
        ToolView {
            name: self.name@,
            description: self.description@,
            params: self.params@.map_values(|p: ToolParam| p@),
            required: strings_view(self.required@),
        }
    }
}

pub open spec fn tools_view(v: Seq<ToolDef>) -> Seq<ToolView> {
    v.map_values(|t: ToolDef| t@)
}

fn add_param(params: &mut Vec<ToolParam>, name: &str, kind: &str, description: &str, default: Option<ParamDefault>, items: &[&str])
    ensures
        final(params)@.map_values(|p: ToolParam| p@) == old(params)@.map_values(|p: ToolParam| p@).push(ParamView {
            name: name@,
            kind: kind@,
            description: description@,
            default: default_view(default),
            item_fields: items@.map_values(|s: &str| s@),
        }),
{
    let p = ToolParam {
        name: owned(name),
        kind: owned(kind),
        description: owned(description),
        default,
        item_fields: string_list(items),
    };
    let ghost before = params@;
    let ghost pg = p;
    params.push(p);
    proof {
        crate::text::lemma_map_push(before, pg, |p: ToolParam| p@);
    }
}

pub const DISCOVER_DATA_SOURCES_DESC: &'static str = "Discover what data exists in the monitoring system. Returns available Loki labels, their values, and available Prometheus metric names. Use this FIRST to understand what services, namespaces, and labels are available before querying.";
pub const DISCOVER_DATA_SOURCES_LABEL_DESC: &'static str = "Optional: get values for a specific Loki label (e.g. 'namespace', 'service_name', 'job'). If empty, returns all available label names.";
pub const DISCOVER_DATA_SOURCES_METRIC_FILTER_DESC: &'static str = "Optional: filter Prometheus metric names containing this string (e.g. 'http', 'error', 'cpu')";
pub const CHECK_SERVICE_HEALTH_DESC: &'static str = "Get a comprehensive health overview of a service: HTTP error rate, request rate, p99 latency, container restarts, CPU/memory usage, pod readiness. Use this to quickly assess if a service has problems.";
pub const CHECK_SERVICE_HEALTH_SERVICE_DESC: &'static str = "Service name (supports fuzzy matching, e.g. 'rca-demo' matches containers/services containing that name)";
pub const CHECK_SERVICE_HEALTH_NAMESPACE_DESC: &'static str = "Kubernetes namespace (optional, helps narrow the search)";
pub const CHECK_SERVICE_HEALTH_MINUTES_DESC: &'static str = "Look-back window in minutes (default: 30)";
pub const SEARCH_LOGS_DESC: &'static str = "Search service logs with automatic LogQL construction. Supports filtering by service, namespace, keywords, and log level. Returns matching log lines.";
pub const SEARCH_LOGS_SERVICE_DESC: &'static str = "Service name to search logs for (fuzzy match)";
pub const SEARCH_LOGS_NAMESPACE_DESC: &'static str = "Kubernetes namespace (optional)";
pub const SEARCH_LOGS_KEYWORDS_DESC: &'static str = "Comma-separated keywords to filter logs (e.g. 'error,timeout,connection refused')";
pub const SEARCH_LOGS_LEVEL_DESC: &'static str = "Log level filter (e.g. 'error', 'warn', 'fatal')";
pub const SEARCH_LOGS_MINUTES_DESC: &'static str = "Look-back window in minutes (default: 60)";
pub const QUERY_METRICS_DESC: &'static str = "Run custom PromQL queries when the standard health check doesn't cover what you need. Use check_service_health first; only use this for specific follow-up queries.";
pub const QUERY_METRICS_QUERIES_DESC: &'static str = "List of {name, promql} objects to query";
pub const QUERY_METRICS_MINUTES_DESC: &'static str = "Look-back window in minutes (default: 30)";
pub const SEARCH_TRACES_DESC: &'static str = "Search for distributed traces. Finds slow or errored requests across services.";
pub const SEARCH_TRACES_SERVICE_DESC: &'static str = "Service name to search traces for";
pub const SEARCH_TRACES_STATUS_DESC: &'static str = "Trace status filter: 'error', 'ok', or empty for all";
pub const SEARCH_TRACES_MIN_DURATION_MS_DESC: &'static str = "Minimum span duration in milliseconds (useful for finding slow requests)";
pub const SEARCH_TRACES_MINUTES_DESC: &'static str = "Look-back window in minutes (default: 30)";
pub const FETCH_SOURCE_CODE_DESC: &'static str = "Fetch source code from the GitHub repository. Use when you've identified a file path and line number from logs or traces and need to examine the actual code.";
pub const FETCH_SOURCE_CODE_FILE_PATH_DESC: &'static str = "Path to the file in the repository";
pub const FETCH_SOURCE_CODE_START_LINE_DESC: &'static str = "Starting line number (0 for entire file)";
pub const FETCH_SOURCE_CODE_END_LINE_DESC: &'static str = "Ending line number (0 for entire file)";

/// The investigation tools offered to the agent, with their parameters.
pub open spec fn rca_tools() -> Seq<ToolView> {
    seq![
        ToolView {
            name: "discover_data_sources"@,
            description: DISCOVER_DATA_SOURCES_DESC@,
            params: seq![
            ParamView { name: "label"@, kind: "string"@, description: DISCOVER_DATA_SOURCES_LABEL_DESC@, default: None, item_fields: seq![] },
            ParamView { name: "metric_filter"@, kind: "string"@, description: DISCOVER_DATA_SOURCES_METRIC_FILTER_DESC@, default: None, item_fields: seq![] },
            ],
            required: seq![],
        },
        ToolView {
            name: "check_service_health"@,
            description: CHECK_SERVICE_HEALTH_DESC@,
            params: seq![
            ParamView { name: "service"@, kind: "string"@, description: CHECK_SERVICE_HEALTH_SERVICE_DESC@, default: None, item_fields: seq![] },
            ParamView { name: "namespace"@, kind: "string"@, description: CHECK_SERVICE_HEALTH_NAMESPACE_DESC@, default: None, item_fields: seq![] },
            ParamView { name: "minutes"@, kind: "integer"@, description: CHECK_SERVICE_HEALTH_MINUTES_DESC@, default: Some(DefaultView::Int(30)), item_fields: seq![] },
            ],
            required: seq!["service"@],
        },
        ToolView {
            name: "search_logs"@,
            description: SEARCH_LOGS_DESC@,
            params: seq![
            ParamView { name: "service"@, kind: "string"@, description: SEARCH_LOGS_SERVICE_DESC@, default: None, item_fields: seq![] },
            ParamView { name: "namespace"@, kind: "string"@, description: SEARCH_LOGS_NAMESPACE_DESC@, default: None, item_fields: seq![] },
            ParamView { name: "keywords"@, kind: "string"@, description: SEARCH_LOGS_KEYWORDS_DESC@, default: None, item_fields: seq![] },
            ParamView { name: "level"@, kind: "string"@, description: SEARCH_LOGS_LEVEL_DESC@, default: None, item_fields: seq![] },
            ParamView { name: "minutes"@, kind: "integer"@, description: SEARCH_LOGS_MINUTES_DESC@, default: Some(DefaultView::Int(60)), item_fields: seq![] },
            ],
            required: seq![],
        },
        ToolView {
            name: "query_metrics"@,
            description: QUERY_METRICS_DESC@,
            params: seq![
            ParamView { name: "queries"@, kind: "array"@, description: QUERY_METRICS_QUERIES_DESC@, default: None, item_fields: seq!["name"@, "promql"@] },
            ParamView { name: "minutes"@, kind: "integer"@, description: QUERY_METRICS_MINUTES_DESC@, default: Some(DefaultView::Int(30)), item_fields: seq![] },
            ],
            required: seq!["queries"@],
        },
        ToolView {
            name: "search_traces"@,
            description: SEARCH_TRACES_DESC@,
            params: seq![
            ParamView { name: "service"@, kind: "string"@, description: SEARCH_TRACES_SERVICE_DESC@, default: None, item_fields: seq![] },
            ParamView { name: "status"@, kind: "string"@, description: SEARCH_TRACES_STATUS_DESC@, default: Some(DefaultView::Text("error"@)), item_fields: seq![] },
            ParamView { name: "min_duration_ms"@, kind: "integer"@, description: SEARCH_TRACES_MIN_DURATION_MS_DESC@, default: None, item_fields: seq![] },
            ParamView { name: "minutes"@, kind: "integer"@, description: SEARCH_TRACES_MINUTES_DESC@, default: Some(DefaultView::Int(30)), item_fields: seq![] },
            ],
            required: seq![],
        },
        ToolView {
            name: "fetch_source_code"@,
            description: FETCH_SOURCE_CODE_DESC@,
            params: seq![
            ParamView { name: "file_path"@, kind: "string"@, description: FETCH_SOURCE_CODE_FILE_PATH_DESC@, default: None, item_fields: seq![] },
            ParamView { name: "start_line"@, kind: "integer"@, description: FETCH_SOURCE_CODE_START_LINE_DESC@, default: Some(DefaultView::Int(0)), item_fields: seq![] },
            ParamView { name: "end_line"@, kind: "integer"@, description: FETCH_SOURCE_CODE_END_LINE_DESC@, default: Some(DefaultView::Int(0)), item_fields: seq![] },
            ],
            required: seq!["file_path"@],
        },
    ]
}

fn discover_data_sources_tool() -> (r: ToolDef)
    ensures
        r@ == rca_tools()[0],
{
    let mut params: Vec<ToolParam> = Vec::new();
    add_param(&mut params, "label", "string", DISCOVER_DATA_SOURCES_LABEL_DESC, None, &[]);
    add_param(&mut params, "metric_filter", "string", DISCOVER_DATA_SOURCES_METRIC_FILTER_DESC, None, &[]);
    let required = string_list(&[]);
    let r = ToolDef { name: owned("discover_data_sources"), description: owned(DISCOVER_DATA_SOURCES_DESC), params, required };
    proof {
        assert(r@ =~~= rca_tools()[0]);
    }
    r
}

fn check_service_health_tool() -> (r: ToolDef)
    ensures
        r@ == rca_tools()[1],
{
    let mut params: Vec<ToolParam> = Vec::new();
    add_param(&mut params, "service", "string", CHECK_SERVICE_HEALTH_SERVICE_DESC, None, &[]);
    add_param(&mut params, "namespace", "string", CHECK_SERVICE_HEALTH_NAMESPACE_DESC, None, &[]);
    add_param(&mut params, "minutes", "integer", CHECK_SERVICE_HEALTH_MINUTES_DESC, Some(ParamDefault::Int(30)), &[]);
    let required = string_list(&["service"]);
    let r = ToolDef { name: owned("check_service_health"), description: owned(CHECK_SERVICE_HEALTH_DESC), params, required };
    proof {
        assert(r@ =~~= rca_tools()[1]);
    }
    r
}

fn search_logs_tool() -> (r: ToolDef)
    ensures
        r@ == rca_tools()[2],
{
    let mut params: Vec<ToolParam> = Vec::new();
    add_param(&mut params, "service", "string", SEARCH_LOGS_SERVICE_DESC, None, &[]);
    add_param(&mut params, "namespace", "string", SEARCH_LOGS_NAMESPACE_DESC, None, &[]);
    add_param(&mut params, "keywords", "string", SEARCH_LOGS_KEYWORDS_DESC, None, &[]);
    add_param(&mut params, "level", "string", SEARCH_LOGS_LEVEL_DESC, None, &[]);
    add_param(&mut params, "minutes", "integer", SEARCH_LOGS_MINUTES_DESC, Some(ParamDefault::Int(60)), &[]);
    let required = string_list(&[]);
    let r = ToolDef { name: owned("search_logs"), description: owned(SEARCH_LOGS_DESC), params, required };
    proof {
        assert(r@ =~~= rca_tools()[2]);
    }
    r
}

fn query_metrics_tool() -> (r: ToolDef)
    ensures
        r@ == rca_tools()[3],
{
    let mut params: Vec<ToolParam> = Vec::new();
    add_param(&mut params, "queries", "array", QUERY_METRICS_QUERIES_DESC, None, &["name", "promql"]);
    add_param(&mut params, "minutes", "integer", QUERY_METRICS_MINUTES_DESC, Some(ParamDefault::Int(30)), &[]);
    let required = string_list(&["queries"]);
    let r = ToolDef { name: owned("query_metrics"), description: owned(QUERY_METRICS_DESC), params, required };
    proof {
        assert(r@ =~~= rca_tools()[3]);
    }
    r
}

fn search_traces_tool() -> (r: ToolDef)
    ensures
        r@ == rca_tools()[4],
{
    let mut params: Vec<ToolParam> = Vec::new();
    add_param(&mut params, "service", "string", SEARCH_TRACES_SERVICE_DESC, None, &[]);
    add_param(&mut params, "status", "string", SEARCH_TRACES_STATUS_DESC, Some(ParamDefault::Text(owned("error"))), &[]);
    add_param(&mut params, "min_duration_ms", "integer", SEARCH_TRACES_MIN_DURATION_MS_DESC, None, &[]);
    add_param(&mut params, "minutes", "integer", SEARCH_TRACES_MINUTES_DESC, Some(ParamDefault::Int(30)), &[]);
    let required = string_list(&[]);
    let r = ToolDef { name: owned("search_traces"), description: owned(SEARCH_TRACES_DESC), params, required };
    proof {
        assert(r@ =~~= rca_tools()[4]);
    }
    r
}

fn fetch_source_code_tool() -> (r: ToolDef)
    ensures
        r@ == rca_tools()[5],
{
    let mut params: Vec<ToolParam> = Vec::new();
    add_param(&mut params, "file_path", "string", FETCH_SOURCE_CODE_FILE_PATH_DESC, None, &[]);
    add_param(&mut params, "start_line", "integer", FETCH_SOURCE_CODE_START_LINE_DESC, Some(ParamDefault::Int(0)), &[]);
    add_param(&mut params, "end_line", "integer", FETCH_SOURCE_CODE_END_LINE_DESC, Some(ParamDefault::Int(0)), &[]);
    let required = string_list(&["file_path"]);
    let r = ToolDef { name: owned("fetch_source_code"), description: owned(FETCH_SOURCE_CODE_DESC), params, required };
    proof {
        assert(r@ =~~= rca_tools()[5]);
    }
    r
}

/// The investigation tools (see `rca_tools`).
pub fn tools_list() -> (r: Vec<ToolDef>)
    ensures
        tools_view(r@) == rca_tools(),
{
    let mut v: Vec<ToolDef> = Vec::new();
    let t = discover_data_sources_tool();
    let ghost before = v@;
    let ghost tg = t;
    v.push(t);
    proof {
        crate::text::lemma_map_push(before, tg, |t: ToolDef| t@);
    }
    let t = check_service_health_tool();
    let ghost before = v@;
    let ghost tg = t;
    v.push(t);
    proof {
        crate::text::lemma_map_push(before, tg, |t: ToolDef| t@);
    }
    let t = search_logs_tool();
    let ghost before = v@;
    let ghost tg = t;
    v.push(t);
    proof {
        crate::text::lemma_map_push(before, tg, |t: ToolDef| t@);
    }
    let t = query_metrics_tool();
    let ghost before = v@;
    let ghost tg = t;
    v.push(t);
    proof {
        crate::text::lemma_map_push(before, tg, |t: ToolDef| t@);
    }
    let t = search_traces_tool();
    let ghost before = v@;
    let ghost tg = t;
    v.push(t);
    proof {
        crate::text::lemma_map_push(before, tg, |t: ToolDef| t@);
    }
    let t = fetch_source_code_tool();
    let ghost before = v@;
    let ghost tg = t;
    v.push(t);
    proof {
        crate::text::lemma_map_push(before, tg, |t: ToolDef| t@);
    }
    proof {
        assert(tools_view(v@) =~~= rca_tools());
    }
    v
}

/// Whether `tool` declares a parameter named `name`.
pub open spec fn declares(tool: ToolView, name: Seq<char>) -> bool {
    exists|p: int| 0 <= p < tool.params.len() && tool.params[p].name == name
}

/// Every parameter a tool requires is one of its declared parameters.
pub proof fn law_required_params_declared()
    ensures
        forall|t: int, k: int|
            0 <= t < rca_tools().len() && 0 <= k < rca_tools()[t].required.len() ==> declares(
                rca_tools()[t],
                #[trigger] rca_tools()[t].required[k],
            ),
{
    let c = rca_tools();
    assert(c[1].params[0].name == c[1].required[0]);
    assert(c[3].params[0].name == c[3].required[0]);
    assert(c[5].params[0].name == c[5].required[0]);
}

// ─── Requests ──────────────────────────────────────────────────────────────

/// The methods served.
#[derive(Debug, Clone, Copy, PartialEq, Eq, Structural)]
pub enum RpcMethod {
    ToolsList,
    ToolsCall,
    Initialize,
    Unknown,
}

pub fn rpc_method(method: &str) -> (r: RpcMethod)
    ensures
        r == (if method@ == "tools/list"@ {
            RpcMethod::ToolsList
        } else if method@ == "tools/call"@ {
            RpcMethod::ToolsCall
        } else if method@ == "initialize"@ {
            RpcMethod::Initialize
        } else {
            RpcMethod::Unknown
        }),
{
    if str_eq(method, "tools/list") {
        RpcMethod::ToolsList
    } else if str_eq(method, "tools/call") {
        RpcMethod::ToolsCall
    } else if str_eq(method, "initialize") {
        RpcMethod::Initialize
    } else {
        RpcMethod::Unknown
    }
}

/// What the server says about itself when a session starts.
pub const INITIALIZE_RESULT: &'static str = "{\"capabilities\":{\"tools\":{}},\"protocolVersion\":\"2024-11-05\",\"serverInfo\":{\"name\":\"opsk-rca\",\"version\":\"2.0.0\"}}";

pub fn initialize_response(id: Option<String>) -> (r: JsonRpcResponse)
    ensures
        r.id == id,
        r.result matches Some(t) && t@ == INITIALIZE_RESULT@,
        r.error is None,
{
    JsonRpcResponse::success(id, owned(INITIALIZE_RESULT))
}

/// The answer to a method the server does not have.
pub fn method_not_found(id: Option<String>, method: &str) -> (r: JsonRpcResponse)
    ensures
        r.id == id,
        r.result is None,
        r.error matches Some(e) && e.code == -32601 && e.message@ == "Method not found: "@ + method@,
{
    JsonRpcResponse::error(id, -32601, cat("Method not found: ", method))
}

/// The result of a tool call that produced `text`: one text content item.
pub open spec fn tool_result_doc(text: Seq<char>) -> Seq<char> {
    "{\"content\":[{\"text\":"@ + json_quoted(text) + ",\"type\":\"text\"}]}"@
}

/// The answer to a tool call: its text, or the failure with code -32000.
pub fn tool_call_response(id: Option<String>, result: Result<String, AppError>) -> (r: JsonRpcResponse)
    ensures
        r.id == id,
        match result {
            Ok(text) => r.error is None && (r.result matches Some(t) && t@ == tool_result_doc(text@)),
            Err(e) => r.result is None && (r.error matches Some(x) && x.code == -32000 && x.message@ == e.spec_message()),
        },
{
    match result {
        Ok(text) => {
            let mut doc = cat("{\"content\":[{\"text\":", json_quote(text.as_str()).as_str());
            doc.append(",\"type\":\"text\"}]}");
            JsonRpcResponse::success(id, doc)
        },
        Err(e) => JsonRpcResponse::error(id, -32000, e.message()),
    }
}

/// The tool a call names (`params.name`), "" when it names none.
pub fn called_tool(params: &str) -> (r: String)
    ensures
        r@ == match json_str_at(params@, "name"@) {
            Some(n) => n,
            None => Seq::empty(),
        },
{
    match json_str_field(params, "name") {
        Some(n) => n,
        None => String::new(),
    }
}

/// The arguments of a call (`params.arguments`) as JSON text, "{}" when it has none.
pub fn call_arguments(params: &str) -> (r: String)
    ensures
        r@ == match json_value_text_at(params@, "arguments"@) {
            Some(a) => a,
            None => "{}"@,
        },
{
    match json_value_text_field(params, "arguments") {
        Some(a) => a,
        None => owned("{}"),
    }
}

/// The query parameters of an investigation request.
pub struct McpRcaQuery {
    /// When the issue happened (RFC 3339).
    pub issue_time: Option<String>,
}

/// The time an investigation is anchored at, as given: the request header first, then the query
/// parameter.
pub fn issue_time(header: Option<String>, query: McpRcaQuery) -> (r: Option<String>)
    ensures
        r == (if header is Some { header } else { query.issue_time }),
{
    match header {
        Some(h) => Some(h),
        None => query.issue_time,
    }
}

// ─── Tool calls ────────────────────────────────────────────────────────────

/// The tools that can be called.
#[derive(Debug, Clone, Copy, PartialEq, Eq, Structural)]
pub enum ToolKind {
    DiscoverDataSources,
    CheckServiceHealth,
    SearchLogs,
    QueryMetrics,
    SearchTraces,
    FetchSourceCode,
}

impl ToolKind {
    /// Whether the tool queries the telemetry services (which must be configured first).
    pub fn needs_telemetry(self) -> (b: bool)
        ensures
            b == (self != ToolKind::FetchSourceCode),
    {
        match self {
            ToolKind::FetchSourceCode => false,
            _ => true,
        }
    }
}

/// The tool named `name`; an unknown name is refused with "Unknown tool: <name>".
pub fn tool_kind(name: &str) -> (r: Result<ToolKind, AppError>)
    ensures
        match r {
            Ok(k) => k == (if name@ == "discover_data_sources"@ {
                ToolKind::DiscoverDataSources
            } else if name@ == "check_service_health"@ {
                ToolKind::CheckServiceHealth
            } else if name@ == "search_logs"@ {
                ToolKind::SearchLogs
            } else if name@ == "query_metrics"@ {
                ToolKind::QueryMetrics
            } else if name@ == "search_traces"@ {
                ToolKind::SearchTraces
            } else {
                ToolKind::FetchSourceCode
            }) && (name@ == "discover_data_sources"@ || name@ == "check_service_health"@ || name@ == "search_logs"@
                || name@ == "query_metrics"@ || name@ == "search_traces"@ || name@ == "fetch_source_code"@),
            Err(e) => e.is_bad_request() && e.spec_message() == "Unknown tool: "@ + name@ && !(name@ == "discover_data_sources"@
                || name@ == "check_service_health"@ || name@ == "search_logs"@ || name@ == "query_metrics"@
                || name@ == "search_traces"@ || name@ == "fetch_source_code"@),
        },
{
    if str_eq(name, "discover_data_sources") {
        Ok(ToolKind::DiscoverDataSources)
    } else if str_eq(name, "check_service_health") {
        Ok(ToolKind::CheckServiceHealth)
    } else if str_eq(name, "search_logs") {
        Ok(ToolKind::SearchLogs)
    } else if str_eq(name, "query_metrics") {
        Ok(ToolKind::QueryMetrics)
    } else if str_eq(name, "search_traces") {
        Ok(ToolKind::SearchTraces)
    } else if str_eq(name, "fetch_source_code") {
        Ok(ToolKind::FetchSourceCode)
    } else {
        Err(AppError::BadRequest(cat("Unknown tool: ", name)))
    }
}

/// A tool call with its arguments read.
pub enum ToolCall {
    /// Labels (or one label's values), and metric names unless only a label's values are asked.
    DiscoverDataSources { label: String, metric_filter: String, with_metrics: bool },
    CheckServiceHealth { service: String, namespace: String, minutes: i64 },
    SearchLogs { service: String, namespace: String, keywords: String, level: String, minutes: i64 },
    /// The (name, PromQL) pairs of the items that have both.
    QueryMetrics { queries: Vec<(String, String)>, minutes: i64 },
    SearchTraces { traceql: String, minutes: i64 },
    FetchSourceCode { file_path: String, start_line: usize, end_line: usize },
}

/// A string argument, `default` when missing.
pub open spec fn str_arg(args: Seq<char>, key: Seq<char>, default: Seq<char>) -> Seq<char> {
    match json_str_at(args, key) {
        Some(v) => v,
        None => default,
    }
}

/// An integer argument, `default` when missing.
pub open spec fn int_arg(args: Seq<char>, key: Seq<char>, default: i64) -> i64 {
    match json_i64_at(args, key) {
        Some(v) => v,
        None => default,
    }
}

fn str_arg_of(args: &str, key: &str, default: &str) -> (r: String)
    ensures
        r@ == str_arg(args@, key@, default@),
{
    match json_str_field(args, key) {
        Some(v) => v,
        None => owned(default),
    }
}

fn int_arg_of(args: &str, key: &str, default: i64) -> (r: i64)
    ensures
        r == int_arg(args@, key@, default),
{
    match json_i64_field(args, key) {
        Some(v) => v,
        None => default,
    }
}

/// The (name, PromQL) pairs of the query items that have both as strings, in order.
pub open spec fn query_pairs(items: Seq<Seq<char>>) -> Seq<(Seq<char>, Seq<char>)>
    decreases items.len(),
{
    if items.len() == 0 {
        Seq::empty()
    } else {
        let it = items.last();
        query_pairs(items.drop_last()) + match (json_str_at(it, "name"@), json_str_at(it, "promql"@)) {
            (Some(n), Some(q)) => seq![(n, q)],
            _ => Seq::empty(),
        }
    }
}

pub open spec fn pairs_view(v: Seq<(String, String)>) -> Seq<(Seq<char>, Seq<char>)> {
    v.map_values(|p: (String, String)| (p.0@, p.1@))
}

fn query_pairs_of(items: &Vec<String>) -> (r: Vec<(String, String)>)
    ensures
        pairs_view(r@) == query_pairs(strings_view(items@)),
{
    let ghost iv = strings_view(items@);
    let mut out: Vec<(String, String)> = Vec::new();
    let mut i: usize = 0;
    while i < items.len()
        invariant
            i <= items.len(),
            iv == strings_view(items@),
            pairs_view(out@) == query_pairs(iv.take(i as int)),
        decreases items.len() - i,
    {
        proof {
            crate::text::lemma_take_step(iv, i as int);
        }
        let n = json_str_field(items[i].as_str(), "name");
        let q = json_str_field(items[i].as_str(), "promql");
        match (n, q) {
            (Some(n), Some(q)) => {
                let ghost before = out@;
                let ghost pg = (n, q);
                out.push((n, q));
                proof {
                    crate::text::lemma_map_push(before, pg, |p: (String, String)| (p.0@, p.1@));
                }
            },
            _ => {},
        }
        proof {
            assert(pairs_view(out@) =~= query_pairs(iv.take(i + 1)));
        }
        i = i + 1;
    }
    proof {
        assert(iv.take(iv.len() as int) =~= iv);
    }
    out
}

/// A call of the tool `kind` with the JSON arguments `args`, its arguments read and defaulted;
/// a missing required argument is refused.
pub fn plan_tool_call(kind: ToolKind, args: &str) -> (r: Result<ToolCall, AppError>)
    ensures
        match kind {
            ToolKind::DiscoverDataSources => r matches Ok(ToolCall::DiscoverDataSources { label, metric_filter, with_metrics })
                && label@ == str_arg(args@, "label"@, Seq::empty())
                && metric_filter@ == str_arg(args@, "metric_filter"@, Seq::empty())
                && with_metrics == (metric_filter@.len() > 0 || label@.len() == 0),
            ToolKind::CheckServiceHealth => match json_str_at(args@, "service"@) {
                Some(sv) => r matches Ok(ToolCall::CheckServiceHealth { service, namespace, minutes })
                    && service@ == sv && namespace@ == str_arg(args@, "namespace"@, Seq::empty())
                    && minutes == int_arg(args@, "minutes"@, 30),
                None => r matches Err(e) && e.is_bad_request() && e.spec_message() == "service is required"@,
            },
            ToolKind::SearchLogs => r matches Ok(ToolCall::SearchLogs { service, namespace, keywords, level, minutes })
                && service@ == str_arg(args@, "service"@, Seq::empty())
                && namespace@ == str_arg(args@, "namespace"@, Seq::empty())
                && keywords@ == str_arg(args@, "keywords"@, Seq::empty())
                && level@ == str_arg(args@, "level"@, Seq::empty())
                && minutes == int_arg(args@, "minutes"@, 60),
            ToolKind::QueryMetrics => match json_item_texts_at(args@, "queries"@) {
                Some(items) => r matches Ok(ToolCall::QueryMetrics { queries, minutes })
                    && pairs_view(queries@) == query_pairs(items) && minutes == int_arg(args@, "minutes"@, 30),
                None => r matches Err(e) && e.is_bad_request() && e.spec_message() == "queries array is required"@,
            },
            ToolKind::SearchTraces => r matches Ok(ToolCall::SearchTraces { traceql, minutes })
                && traceql@ == crate::grafana::traceql_of(
                    str_arg(args@, "service"@, Seq::empty()),
                    str_arg(args@, "status"@, "error"@),
                    json_u64_at(args@, "min_duration_ms"@),
                ) && minutes == int_arg(args@, "minutes"@, 30),
            ToolKind::FetchSourceCode => match json_str_at(args@, "file_path"@) {
                Some(fp) => r matches Ok(ToolCall::FetchSourceCode { file_path, start_line, end_line })
                    && file_path@ == fp
                    && start_line == (match json_u64_at(args@, "start_line"@) { Some(n) => n, None => 0 }) as usize
                    && end_line == (match json_u64_at(args@, "end_line"@) { Some(n) => n, None => 0 }) as usize,
                None => r matches Err(e) && e.is_bad_request() && e.spec_message() == "file_path is required"@,
            },
        },
{
    proof {
        reveal_strlit("");
        assert(""@ =~= Seq::<char>::empty());
    }
    match kind {
        ToolKind::DiscoverDataSources => {
            let label = str_arg_of(args, "label", "");
            let metric_filter = str_arg_of(args, "metric_filter", "");
            let with_metrics = !metric_filter.as_str().is_empty() || label.as_str().is_empty();
            Ok(ToolCall::DiscoverDataSources { label, metric_filter, with_metrics })
        },
        ToolKind::CheckServiceHealth => {
            let service = match json_str_field(args, "service") {
                Some(s) => s,
                None => return Err(AppError::BadRequest(owned("service is required"))),
            };
            let namespace = str_arg_of(args, "namespace", "");
            let minutes = int_arg_of(args, "minutes", 30);
            Ok(ToolCall::CheckServiceHealth { service, namespace, minutes })
        },
        ToolKind::SearchLogs => {
            let service = str_arg_of(args, "service", "");
            let namespace = str_arg_of(args, "namespace", "");
            let keywords = str_arg_of(args, "keywords", "");
            let level = str_arg_of(args, "level", "");
            let minutes = int_arg_of(args, "minutes", 60);
            Ok(ToolCall::SearchLogs { service, namespace, keywords, level, minutes })
        },
        ToolKind::QueryMetrics => {
            let items = match json_item_texts_field(args, "queries") {
                Some(i) => i,
                None => return Err(AppError::BadRequest(owned("queries array is required"))),
            };
            let minutes = int_arg_of(args, "minutes", 30);
            Ok(ToolCall::QueryMetrics { queries: query_pairs_of(&items), minutes })
        },
        ToolKind::SearchTraces => {
            let service = str_arg_of(args, "service", "");
            let status = str_arg_of(args, "status", "error");
            let min_duration = json_u64_field(args, "min_duration_ms");
            let minutes = int_arg_of(args, "minutes", 30);
            let traceql = crate::grafana::trace_query(service.as_str(), status.as_str(), min_duration);
            Ok(ToolCall::SearchTraces { traceql, minutes })
        },
        ToolKind::FetchSourceCode => {
            let file_path = match json_str_field(args, "file_path") {
                Some(f) => f,
                None => return Err(AppError::BadRequest(owned("file_path is required"))),
            };
            let start: u64 = match json_u64_field(args, "start_line") {
                Some(n) => n,
                None => 0,
            };
            let end: u64 = match json_u64_field(args, "end_line") {
                Some(n) => n,
                None => 0,
            };
            Ok(ToolCall::FetchSourceCode {
                file_path,
                start_line: #[verifier::truncate] (start as usize),
                end_line: #[verifier::truncate] (end as usize),
            })
        },
    }
}

/// The refusal of a tool call while no telemetry backend is set up.
pub fn telemetry_missing() -> (e: AppError)
    ensures
        e.is_bad_request(),
        e.spec_message() == "Telemetry (Grafana Cloud) not configured. Please set up telemetry in Settings."@,
{
    AppError::BadRequest(owned("Telemetry (Grafana Cloud) not configured. Please set up telemetry in Settings."))
}

/// The answers of a discovery, one per query made, joined by blank lines.
pub fn discovery_text(parts: &Vec<String>) -> (r: String)
    ensures
        r@ == crate::text::join(strings_view(parts@), "\n\n"@),
{
    crate::text::join_strings(parts, "\n\n")
}

} // verus!
