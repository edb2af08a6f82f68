//! The telemetry queries of an investigation: endpoint bases, LogQL, PromQL and
//! TraceQL expressions, the text made of their answers, and one-line summaries.
use vstd::prelude::*;
use crate::json::{json_str_at, json_str_field};
use crate::pattern::{lowercase, to_lowercase};
use crate::text::{
    append_lines, opt_string_view, present_texts, str_eq, join, join_strings, push_line, split_char, split_from, strings_view, contains, ends_with, str_contains, str_ends_with, str_trim_end_matches, trim_end_matches, cat, cat3, char_prefix, chars_of, idx_of, lines_of, owned, starts_with, str_starts_with, str_trim, text_lines, trim,
    u64_to_string, dec, find_char,
};

verus! {

// ─── Summaries ─────────────────────────────────────────────────────────────

/// The first line of a "Found N ..." answer, else the answer's first 60 characters.
pub open spec fn found_or_truncate(result: Seq<char>, fallback: Seq<char>) -> Seq<char> {
    if starts_with(result, "Found"@) {
        if text_lines(result).len() > 0 {
            text_lines(result)[0]
        } else {
            fallback
        }
    } else {
        result.take(if result.len() < 60 { result.len() as int } else { 60 })
    }
}

fn summarize_found_or_truncate(result: &str, fallback: &str) -> (r: String)
    ensures
        r@ == found_or_truncate(result@, fallback@),
{
    if str_starts_with(result, "Found") {
        let lines = lines_of(result);
        if lines.len() > 0 {
            lines[0].clone()
        } else {
            owned(fallback)
        }
    } else {
        char_prefix(result, 60)
    }
}

/// The number of non-overlapping "###" in `s`, counted from the left.
pub open spec fn count_headings(s: Seq<char>) -> nat
    decreases s.len(),
{
    if s.len() < 3 {
        0
    } else if s[0] == '#' && s[1] == '#' && s[2] == '#' {
        1 + count_headings(s.skip(3))
    } else {
        count_headings(s.skip(1))
    }
}

/// A metrics answer as "N <label> collected", N its "###" sections; a message in parentheses
/// (nothing was queried) cut to 60 characters.
pub open spec fn section_count(result: Seq<char>, label: Seq<char>) -> Seq<char> {
    if result.len() > 0 && result[0] == '(' {
        result.take(if result.len() < 60 { result.len() as int } else { 60 })
    } else {
        dec(count_headings(result)) + " "@ + label + " collected"@
    }
}

fn summarize_section_count(result: &str, label: &str) -> (r: String)
    ensures
        r@ == section_count(result@, label@),
{
    let v = chars_of(result);
    if v.len() > 0 && v[0] == '(' {
        return char_prefix(result, 60);
    }
    let mut count: u64 = 0;
    let mut i: usize = 0;
    proof {
        assert(v@.skip(0) =~= v@);
    }
    while i < v.len()
        invariant
            i <= v.len(),
            v@ == result@,
            count + count_headings(v@.skip(i as int)) == count_headings(v@),
            count <= i,
        decreases v.len() - i,
    {
        proof {
            assert(v@.skip(i as int).skip(1) =~= v@.skip(i + 1));
        }
        if v.len() - i >= 3 && v[i] == '#' && v[i + 1] == '#' && v[i + 2] == '#' {
            proof {
                assert(v@.skip(i as int).skip(3) =~= v@.skip(i + 3));
            }
            count = count + 1;
            i = i + 3;
        } else {
            i = i + 1;
        }
    }
    proof {
        assert(v@.skip(i as int).len() == 0);
    }
    let mut r = u64_to_string(count);
    r.append(" ");
    r.append(label);
    r.append(" collected");
    r
}

/// Summary of a log search.
pub fn summarize_loki(result: &str) -> (r: String)
    ensures
        r@ == found_or_truncate(result@, "Error logs found"@),
{
    summarize_found_or_truncate(result, "Error logs found")
}

/// Summary of a trace search.
pub fn summarize_tempo(result: &str) -> (r: String)
    ensures
        r@ == found_or_truncate(result@, "Error traces found"@),
{
    summarize_found_or_truncate(result, "Error traces found")
}

/// Summary of container metrics.
pub fn summarize_container_resources(result: &str) -> (r: String)
    ensures
        r@ == section_count(result@, "container metrics"@),
{
    summarize_section_count(result, "container metrics")
}

/// Summary of node metrics.
pub fn summarize_node_resources(result: &str) -> (r: String)
    ensures
        r@ == section_count(result@, "node metrics"@),
{
    summarize_section_count(result, "node metrics")
}

/// The text between the first '→' of `line` and the next one (or the end).
pub open spec fn second_piece(line: Seq<char>) -> Seq<char> {
    let rest = line.skip(idx_of(line, '→', 0) + 1);
    rest.take(idx_of(rest, '→', 0))
}

/// Where the first section of a metrics answer ends: at the first "###" heading from line `j`
/// on (the end of the answer when there is none).
pub open spec fn section_end(lines: Seq<Seq<char>>, j: int) -> int
    decreases lines.len() - j,
{
    if j >= lines.len() {
        lines.len() as int
    } else if starts_with(lines[j], "###"@) {
        j
    } else {
        section_end(lines, j + 1)
    }
}

/// The last of the first `k` lines that shows a value ('→'), if any.
pub open spec fn last_arrow(lines: Seq<Seq<char>>, k: int) -> Option<int>
    decreases k,
{
    if k <= 0 {
        None
    } else if lines[k - 1].contains('→') {
        Some(k - 1)
    } else {
        last_arrow(lines, k - 1)
    }
}

/// The summary of a metrics answer: the latest value of its first section (the error rate),
/// that is the value after '→' on the section's last line showing one; else the first line.
pub open spec fn mimir_summary(lines: Seq<Seq<char>>) -> Seq<char> {
    match last_arrow(lines, section_end(lines, 1)) {
        Some(j) => "Latest error_rate: "@ + trim(second_piece(lines[j])),
        None => if lines.len() > 0 {
            lines[0]
        } else {
            "Metrics fetched"@
        },
    }
}

/// Summary of metrics: the latest value of the first section shown, else the first line.
pub fn summarize_mimir(result: &str) -> (r: String)
    ensures
        r@ == mimir_summary(text_lines(result@)),
{
    let lines = lines_of(result);
    let ghost lv = lines@.map_values(|l: String| l@);
    assert(lv == text_lines(result@));
    let mut end: usize = 1;
    if lines.len() == 0 {
        end = 0;
    }
    while end < lines.len() && !str_starts_with(lines[end].as_str(), "###")
        invariant
            1 <= end <= lines.len() || (end == 0 && lines.len() == 0),
            lv == lines@.map_values(|l: String| l@),
            section_end(lv, 1) == section_end(lv, end as int),
        decreases lines.len() - end,
    {
        end = end + 1;
    }
    assert(section_end(lv, 1) == end);
    let mut k: usize = end;
    while k > 0
        invariant
            k <= end <= lines.len(),
            lv == lines@.map_values(|l: String| l@),
            last_arrow(lv, end as int) == last_arrow(lv, k as int),
            section_end(lv, 1) == end,
            lv == text_lines(result@),
        decreases k,
    {
        let v = chars_of(lines[k - 1].as_str());
        let a = find_char(v.as_slice(), '→', 0);
        proof {
            assert(lv[k - 1] == v@);
        }
        if a < v.len() {
            let rest = crate::text::slice_from(v.as_slice(), a + 1);
            let c = find_char(rest.as_slice(), '→', 0);
            let piece = crate::text::slice_range(rest.as_slice(), 0, c);
            let t = str_trim(crate::text::string_from_chars(piece.as_slice()).as_str());
            proof {
                assert(v@.contains('→'));
                assert(last_arrow(lv, k as int) == Some((k - 1) as int));
                assert(rest@ == v@.skip(a + 1));
                assert(piece@ == rest@.take(c as int));
                assert(t@ == trim(second_piece(lv[k - 1])));
            }
            return cat("Latest error_rate: ", t.as_str());
        }
        proof {
            assert(!v@.contains('→'));
        }
        k = k - 1;
    }
    if lines.len() > 0 {
        lines[0].clone()
    } else {
        owned("Metrics fetched")
    }
}

// ─── Endpoints ─────────────────────────────────────────────────────────────

/// `b` without the first of the write-only paths it ends with.
pub open spec fn strip_push_path(b: Seq<char>) -> Seq<char> {
    if ends_with(b, "/api/prom/push"@) {
        b.take(b.len() - "/api/prom/push"@.len())
    } else if ends_with(b, "/api/prom"@) {
        b.take(b.len() - "/api/prom"@.len())
    } else if ends_with(b, "/push"@) {
        b.take(b.len() - "/push"@.len())
    } else if ends_with(b, "/api/v1/push"@) {
        b.take(b.len() - "/api/v1/push"@.len())
    } else {
        b
    }
}

/// The base URL that queries go to: the endpoint without trailing slashes and without a
/// write-only path, with the service's prefix added for a Grafana Cloud host that lacks it.
pub open spec fn query_base_of(endpoint: Seq<char>, prefix: Seq<char>) -> Seq<char> {
    let base = trim_end_matches(strip_push_path(trim_end_matches(endpoint, "/"@)), "/"@);
    if contains(base, ".grafana.net"@) && !ends_with(base, prefix) {
        base + prefix
    } else {
        base
    }
}

fn cut_suffix(b: String, suffix: &str) -> (r: (String, bool))
    ensures
        r.1 == ends_with(b@, suffix@),
        r.1 ==> r.0@ == b@.take(b@.len() - suffix@.len()),
        !r.1 ==> r.0@ == b@,
{
    let v = chars_of(b.as_str());
    let sv = chars_of(suffix);
    if crate::text::has_suffix(v.as_slice(), sv.as_slice()) {
        let w = crate::text::slice_range(v.as_slice(), 0, v.len() - sv.len());
        (crate::text::string_from_chars(w.as_slice()), true)
    } else {
        (b, false)
    }
}

/// The base URL of queries to `endpoint` (see `query_base_of`).
pub fn query_base(endpoint: &str, service_prefix: &str) -> (r: String)
    ensures
        r@ == query_base_of(endpoint@, service_prefix@),
{
    let b0 = str_trim_end_matches(endpoint, "/");
    let (b1, hit) = cut_suffix(b0, "/api/prom/push");
    let b2 = if hit {
        b1
    } else {
        let (c1, hit2) = cut_suffix(b1, "/api/prom");
        if hit2 {
            c1
        } else {
            let (d1, hit3) = cut_suffix(c1, "/push");
            if hit3 {
                d1
            } else {
                let (e1, _) = cut_suffix(d1, "/api/v1/push");
                e1
            }
        }
    };
    let base = str_trim_end_matches(b2.as_str(), "/");
    if str_contains(base.as_str(), ".grafana.net") && !str_ends_with(base.as_str(), service_prefix) {
        cat(base.as_str(), service_prefix)
    } else {
        base
    }
}

// ─── Query expressions ─────────────────────────────────────────────────────

/// A named query.
pub struct NamedQuery {
    pub name: String,
    pub expr: String,
}

pub open spec fn queries_view(v: Seq<NamedQuery>) -> Seq<(Seq<char>, Seq<char>)> {
    v.map_values(|q: NamedQuery| (q.name@, q.expr@))
}

fn add_query(v: &mut Vec<NamedQuery>, name: &str, expr: String)
    ensures
        queries_view(final(v)@) == queries_view(old(v)@).push((name@, expr@)),
{
    let ghost before = v@;
    let q = NamedQuery { name: owned(name), expr };
    let ghost qg = q;
    v.push(q);
    proof {
        crate::text::lemma_map_push(before, qg, |q: NamedQuery| (q.name@, q.expr@));
    }
}

/// The LogQL of a service's recent error logs.
pub fn loki_errors_query(service: &str) -> (r: String)
    ensures
        r@ == "{service=\""@ + service@ + "\"} |= \"error\" | json | level=\"error\""@,
{
    cat3("{service=\"", service, "\"} |= \"error\" | json | level=\"error\"")
}

/// The TraceQL of a service's recent error traces.
pub fn tempo_errors_query(service: &str) -> (r: String)
    ensures
        r@ == "{status=error && resource.service.name=\""@ + service@ + "\"}"@,
{
    cat3("{status=error && resource.service.name=\"", service, "\"}")
}

/// The application metrics of a service: error rate, order rate and p99 latency.
pub fn mimir_metric_queries(service: &str) -> (r: Vec<NamedQuery>)
    ensures
        queries_view(r@) == seq![
            ("error_rate"@, "rate(orders_errors_total{service=\""@ + service@ + "\"}[2m])"@),
            ("total_orders"@, "rate(orders_total{service=\""@ + service@ + "\"}[2m])"@),
            ("p99_latency"@, "histogram_quantile(0.99, rate(order_processing_duration_ms_bucket{service=\""@ + service@ + "\"}[2m]))"@),
        ],
{
    let mut v: Vec<NamedQuery> = Vec::new();
    add_query(&mut v, "error_rate", cat3("rate(orders_errors_total{service=\"", service, "\"}[2m])"));
    add_query(&mut v, "total_orders", cat3("rate(orders_total{service=\"", service, "\"}[2m])"));
    add_query(&mut v, "p99_latency", cat3("histogram_quantile(0.99, rate(order_processing_duration_ms_bucket{service=\"", service, "\"}[2m]))"));
    proof {
        assert(queries_view(v@) =~= seq![
            ("error_rate"@, "rate(orders_errors_total{service=\""@ + service@ + "\"}[2m])"@),
            ("total_orders"@, "rate(orders_total{service=\""@ + service@ + "\"}[2m])"@),
            ("p99_latency"@, "histogram_quantile(0.99, rate(order_processing_duration_ms_bucket{service=\""@ + service@ + "\"}[2m]))"@),
        ]);
    }
    v
}

/// The resource metrics of a service's containers: CPU, memory and its limit, restarts and
/// out-of-memory kills.
pub fn container_resource_queries(service: &str) -> (r: Vec<NamedQuery>)
    ensures
        queries_view(r@) == seq![
            ("container_cpu_usage"@, "rate(container_cpu_usage_seconds_total{container=\""@ + service@ + "\"}[2m])"@),
            ("container_memory_bytes"@, "container_memory_working_set_bytes{container=\""@ + service@ + "\"}"@),
            ("container_memory_limit"@, "kube_pod_container_resource_limits{container=\""@ + service@ + "\", resource=\"memory\"}"@),
            ("container_restarts"@, "kube_pod_container_status_restarts_total{container=\""@ + service@ + "\"}"@),
            ("container_oom_killed"@, "kube_pod_container_status_last_terminated_reason{container=\""@ + service@ + "\", reason=\"OOMKilled\"}"@),
        ],
{
    let mut v: Vec<NamedQuery> = Vec::new();
    add_query(&mut v, "container_cpu_usage", cat3("rate(container_cpu_usage_seconds_total{container=\"", service, "\"}[2m])"));
    add_query(&mut v, "container_memory_bytes", cat3("container_memory_working_set_bytes{container=\"", service, "\"}"));
    add_query(&mut v, "container_memory_limit", cat3("kube_pod_container_resource_limits{container=\"", service, "\", resource=\"memory\"}"));
    add_query(&mut v, "container_restarts", cat3("kube_pod_container_status_restarts_total{container=\"", service, "\"}"));
    add_query(&mut v, "container_oom_killed", cat3("kube_pod_container_status_last_terminated_reason{container=\"", service, "\", reason=\"OOMKilled\"}"));
    proof {
        assert(queries_view(v@) =~= seq![
            ("container_cpu_usage"@, "rate(container_cpu_usage_seconds_total{container=\""@ + service@ + "\"}[2m])"@),
            ("container_memory_bytes"@, "container_memory_working_set_bytes{container=\""@ + service@ + "\"}"@),
            ("container_memory_limit"@, "kube_pod_container_resource_limits{container=\""@ + service@ + "\", resource=\"memory\"}"@),
            ("container_restarts"@, "kube_pod_container_status_restarts_total{container=\""@ + service@ + "\"}"@),
            ("container_oom_killed"@, "kube_pod_container_status_last_terminated_reason{container=\""@ + service@ + "\", reason=\"OOMKilled\"}"@),
        ]);
    }
    v
}

pub const NODE_CPU_QUERY: &'static str = "1 - avg(rate(node_cpu_seconds_total{mode=\"idle\"}[2m])) by (instance)";
pub const NODE_MEMORY_QUERY: &'static str = "1 - (node_memory_MemAvailable_bytes / node_memory_MemTotal_bytes)";
pub const NODE_DISK_IO_QUERY: &'static str = "rate(node_disk_io_time_seconds_total[2m])";
pub const NODE_RX_QUERY: &'static str = "rate(node_network_receive_bytes_total{device!~\"lo|veth.*|docker.*|flannel.*|cni.*\"}[2m])";
pub const NODE_TX_QUERY: &'static str = "rate(node_network_transmit_bytes_total{device!~\"lo|veth.*|docker.*|flannel.*|cni.*\"}[2m])";
pub const NODE_DISK_SPACE_QUERY: &'static str = "1 - (node_filesystem_avail_bytes{mountpoint=\"/\",fstype!~\"tmpfs|fuse.*\"} / node_filesystem_size_bytes{mountpoint=\"/\",fstype!~\"tmpfs|fuse.*\"})";

/// The node metrics: CPU, memory, disk I/O, network and disk space.
pub fn node_resource_queries() -> (r: Vec<NamedQuery>)
    ensures
        queries_view(r@) == seq![
            ("node_cpu_usage"@, NODE_CPU_QUERY@),
            ("node_memory_usage"@, NODE_MEMORY_QUERY@),
            ("node_disk_io_util"@, NODE_DISK_IO_QUERY@),
            ("node_network_receive_bytes"@, NODE_RX_QUERY@),
            ("node_network_transmit_bytes"@, NODE_TX_QUERY@),
            ("node_disk_space_usage"@, NODE_DISK_SPACE_QUERY@),
        ],
{
    let mut v: Vec<NamedQuery> = Vec::new();
    add_query(&mut v, "node_cpu_usage", owned(NODE_CPU_QUERY));
    add_query(&mut v, "node_memory_usage", owned(NODE_MEMORY_QUERY));
    add_query(&mut v, "node_disk_io_util", owned(NODE_DISK_IO_QUERY));
    add_query(&mut v, "node_network_receive_bytes", owned(NODE_RX_QUERY));
    add_query(&mut v, "node_network_transmit_bytes", owned(NODE_TX_QUERY));
    add_query(&mut v, "node_disk_space_usage", owned(NODE_DISK_SPACE_QUERY));
    proof {
        assert(queries_view(v@) =~= seq![
            ("node_cpu_usage"@, NODE_CPU_QUERY@),
            ("node_memory_usage"@, NODE_MEMORY_QUERY@),
            ("node_disk_io_util"@, NODE_DISK_IO_QUERY@),
            ("node_network_receive_bytes"@, NODE_RX_QUERY@),
            ("node_network_transmit_bytes"@, NODE_TX_QUERY@),
            ("node_disk_space_usage"@, NODE_DISK_SPACE_QUERY@),
        ]);
    }
    v
}

/// `a` + the service pattern + `b` + the namespace filter + `c`.
pub open spec fn svc_expr(a: Seq<char>, svc: Seq<char>, b: Seq<char>, ns: Seq<char>, c: Seq<char>) -> Seq<char> {
    a + svc + b + ns + c
}

fn svc_query(a: &str, svc: &str, b: &str, ns: &str, c: &str) -> (r: String)
    ensures
        r@ == svc_expr(a@, svc@, b@, ns@, c@),
{
    let mut r = cat3(a, svc, b);
    r.append(ns);
    r.append(c);
    r
}

/// The namespace filter of a health query: none, or ", namespace=\"<ns>\"".
pub open spec fn ns_filter_of(namespace: Seq<char>) -> Seq<char> {
    if namespace.len() == 0 {
        Seq::empty()
    } else {
        ", namespace=\""@ + namespace + "\""@
    }
}

/// The health queries of a service (matched by substring) in a namespace: HTTP error rate and
/// request rate, p99 latency, container restarts, CPU and memory, and pod readiness.
pub open spec fn health_queries(svc: Seq<char>, namespace: Seq<char>) -> Seq<(Seq<char>, Seq<char>)> {
    let ns = ns_filter_of(namespace);
    seq![
        ("http_error_rate"@, svc_expr("sum(rate(http_requests_total{service=~\".*"@, svc, ".*\""@, ns,
            ", status=~\"5..\"}[5m])) / sum(rate(http_requests_total{service=~\".*"@ + svc + ".*\""@ + ns + "}[5m]))"@)),
        ("http_request_rate"@, svc_expr("sum(rate(http_requests_total{service=~\".*"@, svc, ".*\""@, ns, "}[5m]))"@)),
        ("p99_latency"@, svc_expr("histogram_quantile(0.99, sum(rate(http_request_duration_seconds_bucket{service=~\".*"@, svc, ".*\""@, ns, "}[5m])) by (le))"@)),
        ("container_restarts"@, svc_expr("sum(kube_pod_container_status_restarts_total{container=~\".*"@, svc, ".*\""@, ns, "})"@)),
        ("container_cpu"@, svc_expr("sum(rate(container_cpu_usage_seconds_total{container=~\".*"@, svc, ".*\""@, ns, "}[5m]))"@)),
        ("container_memory_mb"@, svc_expr("sum(container_memory_working_set_bytes{container=~\".*"@, svc, ".*\""@, ns, "}) / 1024 / 1024"@)),
        ("pod_ready"@, svc_expr("sum(kube_pod_status_ready{pod=~\".*"@, svc, ".*\""@, ns, ", condition=\"true\"})"@)),
    ]
}

/// The health queries of a service (see `health_queries`).
pub fn service_health_queries(service: &str, namespace: &str) -> (r: Vec<NamedQuery>)
    ensures
        queries_view(r@) == health_queries(service@, namespace@),
{
    let ns = if namespace.is_empty() {
        String::new()
    } else {
        cat3(", namespace=\"", namespace, "\"")
    };
    proof {
        assert(ns@ =~= ns_filter_of(namespace@));
    }
    let nsr = ns.as_str();
    let mut v: Vec<NamedQuery> = Vec::new();
    let tail = svc_query(", status=~\"5..\"}[5m])) / sum(rate(http_requests_total{service=~\".*", service, ".*\"", nsr, "}[5m]))");
    add_query(&mut v, "http_error_rate", svc_query("sum(rate(http_requests_total{service=~\".*", service, ".*\"", nsr, tail.as_str()));
    add_query(&mut v, "http_request_rate", svc_query("sum(rate(http_requests_total{service=~\".*", service, ".*\"", nsr, "}[5m]))"));
    add_query(&mut v, "p99_latency", svc_query("histogram_quantile(0.99, sum(rate(http_request_duration_seconds_bucket{service=~\".*", service, ".*\"", nsr, "}[5m])) by (le))"));
    add_query(&mut v, "container_restarts", svc_query("sum(kube_pod_container_status_restarts_total{container=~\".*", service, ".*\"", nsr, "})"));
    add_query(&mut v, "container_cpu", svc_query("sum(rate(container_cpu_usage_seconds_total{container=~\".*", service, ".*\"", nsr, "}[5m]))"));
    add_query(&mut v, "container_memory_mb", svc_query("sum(container_memory_working_set_bytes{container=~\".*", service, ".*\"", nsr, "}) / 1024 / 1024"));
    add_query(&mut v, "pod_ready", svc_query("sum(kube_pod_status_ready{pod=~\".*", service, ".*\"", nsr, ", condition=\"true\"})"));
    proof {
        assert(queries_view(v@) =~= health_queries(service@, namespace@));
    }
    v
}

// ─── Log search ────────────────────────────────────────────────────────────

/// The stream selectors of a log search: the service by substring and the namespace, or any
/// service when neither is given.
pub open spec fn log_selectors(service: Seq<char>, namespace: Seq<char>) -> Seq<Seq<char>> {
    let a = if service.len() > 0 { seq!["service_name=~\".*"@ + service + ".*\""@] } else { Seq::empty() };
    let b = if namespace.len() > 0 { seq!["namespace=\""@ + namespace + "\""@] } else { Seq::empty() };
    if a.len() + b.len() == 0 {
        seq!["service_name=~\".+\""@]
    } else {
        a + b
    }
}

/// A line filter for each keyword of the pieces (trimmed; empty ones passed over).
pub open spec fn keyword_filters(pieces: Seq<Seq<char>>) -> Seq<char>
    decreases pieces.len(),
{
    if pieces.len() == 0 {
        Seq::empty()
    } else {
        let k = trim(pieces.last());
        keyword_filters(pieces.drop_last()) + if k.len() > 0 { " |= \""@ + k + "\""@ } else { Seq::empty() }
    }
}

/// The line filters of comma-separated keywords.
pub open spec fn keyword_pipeline(keywords: Seq<char>) -> Seq<char> {
    if keywords.len() == 0 {
        Seq::empty()
    } else {
        keyword_filters(split_from(keywords, ',', 0))
    }
}

pub open spec fn selector_text(service: Seq<char>, namespace: Seq<char>) -> Seq<char> {
    "{"@ + join(log_selectors(service, namespace), ", "@) + "}"@
}

/// The LogQL of a log search: the selectors, the keyword filters, and a JSON level filter.
pub open spec fn logql_of(service: Seq<char>, namespace: Seq<char>, keywords: Seq<char>, level: Seq<char>) -> Seq<char> {
    selector_text(service, namespace) + keyword_pipeline(keywords) + if level.len() > 0 {
        " | json | level=~\"(?i)"@ + level + "\""@
    } else {
        Seq::empty()
    }
}

/// The LogQL tried when a level filter found nothing: the level matched in the raw line.
pub open spec fn fallback_logql_of(service: Seq<char>, namespace: Seq<char>, keywords: Seq<char>, level: Seq<char>) -> Seq<char> {
    selector_text(service, namespace) + keyword_pipeline(keywords) + " |~ \"(?i)"@ + level + "\""@
}

fn selectors(service: &str, namespace: &str) -> (r: String)
    ensures
        r@ == selector_text(service@, namespace@),
{
    let mut parts: Vec<String> = Vec::new();
    if !service.is_empty() {
        push_line(&mut parts, cat3("service_name=~\".*", service, ".*\""));
    }
    if !namespace.is_empty() {
        push_line(&mut parts, cat3("namespace=\"", namespace, "\""));
    }
    if parts.len() == 0 {
        push_line(&mut parts, owned("service_name=~\".+\""));
    }
    proof {
        assert(strings_view(parts@) =~= log_selectors(service@, namespace@));
    }
    let j = join_strings(&parts, ", ");
    cat3("{", j.as_str(), "}")
}

fn keyword_text(keywords: &str) -> (r: String)
    ensures
        r@ == keyword_pipeline(keywords@),
{
    let mut out = String::new();
    if keywords.is_empty() {
        return out;
    }
    let pieces = split_char(keywords, ',');
    let ghost pv = strings_view(pieces@);
    let mut i: usize = 0;
    while i < pieces.len()
        invariant
            i <= pieces.len(),
            pv == strings_view(pieces@),
            out@ == keyword_filters(pv.take(i as int)),
        decreases pieces.len() - i,
    {
        let k = str_trim(pieces[i].as_str());
        proof {
            crate::text::lemma_take_step(pv, i as int);
            assert(pv.take(i + 1).drop_last() =~= pv.take(i as int));
        }
        if !k.as_str().is_empty() {
            out.append(" |= \"");
            out.append(k.as_str());
            out.append("\"");
        }
        i = i + 1;
    }
    proof {
        assert(pv.take(pv.len() as int) =~= pv);
    }
    out
}

/// The LogQL of a log search (see `logql_of`).
pub fn log_query(service: &str, namespace: &str, keywords: &str, level: &str) -> (r: String)
    ensures
        r@ == logql_of(service@, namespace@, keywords@, level@),
{
    let mut q = selectors(service, namespace);
    q.append(keyword_text(keywords).as_str());
    if !level.is_empty() {
        q.append(" | json | level=~\"(?i)");
        q.append(level);
        q.append("\"");
    }
    q
}

/// The LogQL of the plain-text retry of a log search (see `fallback_logql_of`).
pub fn fallback_log_query(service: &str, namespace: &str, keywords: &str, level: &str) -> (r: String)
    ensures
        r@ == fallback_logql_of(service@, namespace@, keywords@, level@),
{
    let mut q = selectors(service, namespace);
    q.append(keyword_text(keywords).as_str());
    q.append(" |~ \"(?i)");
    q.append(level);
    q.append("\"");
    q
}

/// Whether a log answer found nothing (or the query failed).
pub open spec fn found_nothing(text: Seq<char>) -> bool {
    starts_with(text, "(No"@) || starts_with(text, "(Loki"@)
}

/// Whether a log search with a level filter is retried on the raw lines.
pub fn needs_log_fallback(level: &str, text: &str) -> (b: bool)
    ensures
        b == (level@.len() > 0 && found_nothing(text@)),
{
    !level.is_empty() && (str_starts_with(text, "(No") || str_starts_with(text, "(Loki"))
}

/// The report of a log search: the query, then its answer.
pub fn log_search_text(logql: &str, text: &str) -> (r: String)
    ensures
        r@ == "LogQL: "@ + logql@ + "\n\n"@ + text@,
{
    let mut r = cat3("LogQL: ", logql, "\n\n");
    r.append(text);
    r
}

/// The report of a retried log search: the retry's answer when it found something, else the
/// first answer with both queries shown.
pub open spec fn retried_log_report(logql: Seq<char>, text: Seq<char>, fallback: Seq<char>, fallback_text: Seq<char>) -> Seq<char> {
    if !found_nothing(fallback_text) {
        "LogQL: "@ + fallback + " (fallback from JSON parse)\n\n"@ + fallback_text
    } else {
        "LogQL: "@ + logql + "\n(also tried: "@ + fallback + ")\n\n"@ + text
    }
}

pub fn retried_log_text(logql: &str, text: &str, fallback: &str, fallback_text: &str) -> (r: String)
    ensures
        r@ == retried_log_report(logql@, text@, fallback@, fallback_text@),
{
    if !(str_starts_with(fallback_text, "(No") || str_starts_with(fallback_text, "(Loki")) {
        let mut r = cat3("LogQL: ", fallback, " (fallback from JSON parse)\n\n");
        r.append(fallback_text);
        r
    } else {
        let mut r = cat3("LogQL: ", logql, "\n(also tried: ");
        r.append(fallback);
        r.append(")\n\n");
        r.append(text);
        r
    }
}

// ─── Trace search ──────────────────────────────────────────────────────────

/// The conditions of a trace search: the service by substring, the status, a least duration.
pub open spec fn trace_conditions(service: Seq<char>, status: Seq<char>, min_duration_ms: Option<u64>) -> Seq<Seq<char>> {
    (if service.len() > 0 { seq!["resource.service.name=~\".*"@ + service + ".*\""@] } else { Seq::empty() })
        + (if status.len() > 0 { seq!["status="@ + status] } else { Seq::empty() })
        + match min_duration_ms {
        Some(ms) => seq!["duration>"@ + dec(ms as nat) + "ms"@],
        None => Seq::empty(),
    }
}

/// The TraceQL of a trace search: its conditions joined by " && ", "{}" when there are none.
pub open spec fn traceql_of(service: Seq<char>, status: Seq<char>, min_duration_ms: Option<u64>) -> Seq<char> {
    let c = trace_conditions(service, status, min_duration_ms);
    if c.len() == 0 {
        "{}"@
    } else {
        "{"@ + join(c, " && "@) + "}"@
    }
}

pub fn trace_query(service: &str, status: &str, min_duration_ms: Option<u64>) -> (r: String)
    ensures
        r@ == traceql_of(service@, status@, min_duration_ms),
{
    let mut c: Vec<String> = Vec::new();
    if !service.is_empty() {
        push_line(&mut c, cat3("resource.service.name=~\".*", service, ".*\""));
    }
    if !status.is_empty() {
        push_line(&mut c, cat("status=", status));
    }
    match min_duration_ms {
        Some(ms) => {
            let d = u64_to_string(ms);
            push_line(&mut c, cat3("duration>", d.as_str(), "ms"));
        },
        None => {},
    }
    proof {
        assert(strings_view(c@) =~= trace_conditions(service@, status@, min_duration_ms));
    }
    if c.len() == 0 {
        owned("{}")
    } else {
        let j = join_strings(&c, " && ");
        cat3("{", j.as_str(), "}")
    }
}

/// The report of a trace search: the query, then its answer.
pub fn trace_search_text(traceql: &str, text: &str) -> (r: String)
    ensures
        r@ == "TraceQL: "@ + traceql@ + "\n\n"@ + text@,
{
    let mut r = cat3("TraceQL: ", traceql, "\n\n");
    r.append(text);
    r
}

// ─── Answers ───────────────────────────────────────────────────────────────

/// "(<source> not configured)".
pub fn not_configured_text(source: &str) -> (r: String)
    ensures
        r@ == "("@ + source@ + " not configured)"@,
{
    cat3("(", source, " not configured)")
}

/// "(<source> query failed: HTTP <status>)".
pub fn query_failed_text(source: &str, status: &str) -> (r: String)
    ensures
        r@ == "("@ + source@ + " query failed: HTTP "@ + status@ + ")"@,
{
    let mut r = cat3("(", source, " query failed: HTTP ");
    r.append(status);
    r.append(")");
    r
}

/// "(<source> query error: <error>)".
pub fn query_error_text(source: &str, error: &str) -> (r: String)
    ensures
        r@ == "("@ + source@ + " query error: "@ + error@ + ")"@,
{
    let mut r = cat3("(", source, " query error: ");
    r.append(error);
    r.append(")");
    r
}

/// The newest 30 entries of a log stream, newest first.
pub open spec fn newest_entries(e: Seq<Option<String>>) -> Seq<Option<String>> {
    let n = e.len();
    Seq::new(if n < 30 { n } else { 30 }, |j: int| e[n - 1 - j])
}

/// The log lines of an answer, stream by stream.
pub open spec fn loki_lines(streams: Seq<Vec<Option<String>>>) -> Seq<Seq<char>>
    decreases streams.len(),
{
    if streams.len() == 0 {
        Seq::empty()
    } else {
        loki_lines(streams.drop_last()) + present_texts(newest_entries(streams.last()@))
    }
}

/// A log answer as text: the number of lines found and the lines, or that none were found.
pub open spec fn loki_text(streams: Seq<Vec<Option<String>>>) -> Seq<char> {
    let lines = loki_lines(streams);
    if lines.len() == 0 {
        "(No error logs found in the last query window)"@
    } else {
        "Found "@ + dec(lines.len()) + " error log entries:\n\n"@ + join(lines, seq!['\n'])
    }
}

fn newest_lines(e: &Vec<Option<String>>, out: &mut Vec<String>)
    ensures
        strings_view(final(out)@) == strings_view(old(out)@) + present_texts(newest_entries(e@)),
{
    let ghost start = strings_view(out@);
    let ghost ne = newest_entries(e@);
    let n = e.len();
    let k: usize = if n < 30 { n } else { 30 };
    let mut j: usize = 0;
    while j < k
        invariant
            j <= k,
            n == e@.len(),
            k == ne.len(),
            ne == newest_entries(e@),
            strings_view(out@) == start + present_texts(ne.take(j as int)),
        decreases k - j,
    {
        proof {
            crate::text::lemma_take_step(ne, j as int);
            assert(ne[j as int] == e@[n - 1 - j]);
        }
        match &e[n - 1 - j] {
            Some(t) => push_line(out, t.clone()),
            None => {},
        }
        proof {
            assert(strings_view(out@) =~= start + present_texts(ne.take(j + 1)));
        }
        j = j + 1;
    }
    proof {
        assert(ne.take(k as int) =~= ne);
    }
}

/// A log answer as text (see `loki_text`).
pub fn format_loki_results(streams: &Vec<Vec<Option<String>>>) -> (r: String)
    ensures
        r@ == loki_text(streams@),
{
    let mut lines: Vec<String> = Vec::new();
    let mut i: usize = 0;
    while i < streams.len()
        invariant
            i <= streams.len(),
            strings_view(lines@) == loki_lines(streams@.take(i as int)),
        decreases streams.len() - i,
    {
        proof {
            crate::text::lemma_take_step(streams@, i as int);
        }
        newest_lines(&streams[i], &mut lines);
        i = i + 1;
    }
    proof {
        assert(streams@.take(streams@.len() as int) =~= streams@);
    }
    if lines.len() == 0 {
        owned("(No error logs found in the last query window)")
    } else {
        let n = u64_to_string(lines.len() as u64);
        let body = join_strings(&lines, "\n");
        proof {
            reveal_strlit("\n");
            assert("\n"@ =~= seq!['\n']);
        }
        let mut r = cat3("Found ", n.as_str(), " error log entries:\n\n");
        r.append(body.as_str());
        r
    }
}

/// One point of a metric series: its time in seconds, the time as the answer wrote it, and the
/// value.
pub struct MimirPoint {
    pub secs: i64,
    pub ts_text: String,
    pub value: String,
}

/// One series of a metrics answer: its labels as JSON text ("" when it has none) and its points
/// (`None` for a point without a numeric time and a string value).
pub struct MimirSeries {
    pub labels: String,
    pub points: Vec<Option<MimirPoint>>,
}

/// `n` (below 100) in two digits.
pub open spec fn two_digits(n: int) -> Seq<char> {
    seq![crate::text::digit_char((n / 10) as nat), crate::text::digit_char((n % 10) as nat)]
}

/// The UTC time of day of a Unix time, as "HH:MM:SS".
pub open spec fn hms(secs: int) -> Seq<char> {
    let d = secs % 86400;
    two_digits(d / 3600) + seq![':'] + two_digits((d % 3600) / 60) + seq![':'] + two_digits(d % 60)
}

/// The UTC time of day of the Unix time `secs` as chrono writes it ("%H:%M:%S"), when chrono
/// can represent that time: from the first day of year -262143 to the last of year 262142.
pub open spec fn utc_time_of_day(secs: i64) -> Option<Seq<char>> {
    if -8334601228800 <= secs <= 8210266876799 {
        Some(hms(secs as int))
    } else {
        None
    }
}

/// Trusted: `chrono::DateTime::from_timestamp(secs, 0)`, formatted with "%H:%M:%S".  chrono
/// places the time of day at `secs` modulo a day (`rem_euclid`), and represents the days of
/// the years `MIN_YEAR` (-262143) to `MAX_YEAR` (262142), that is the times
/// -8334601228800 to 8210266876799.
#[verifier::external_body]
fn utc_hms(secs: i64) -> (r: Option<String>)
    ensures
        opt_string_view(r) == utc_time_of_day(secs),
{
    chrono::DateTime::from_timestamp(secs, 0).map(|dt| dt.format("%H:%M:%S").to_string())
}

/// The last five points of a series.
pub open spec fn last_points(p: Seq<Option<MimirPoint>>) -> Seq<Option<MimirPoint>> {
    p.skip(if p.len() > 5 { p.len() - 5 } else { 0 })
}

/// The lines of points: "  <time> → <value>", the time of day, or the time as written when it
/// has none.
pub open spec fn point_lines(p: Seq<Option<MimirPoint>>) -> Seq<Seq<char>>
    decreases p.len(),
{
    if p.len() == 0 {
        Seq::empty()
    } else {
        point_lines(p.drop_last()) + match p.last() {
            Some(pt) => seq!["  "@ + match utc_time_of_day(pt.secs) {
                Some(t) => t,
                None => pt.ts_text@,
            } + " → "@ + pt.value@],
            None => Seq::empty(),
        }
    }
}

/// The lines of a series: its labels (when not empty), then its latest values; nothing when it
/// has no values.
pub open spec fn series_lines(s: MimirSeries) -> Seq<Seq<char>> {
    let vals = point_lines(last_points(s.points@));
    if vals.len() == 0 {
        Seq::empty()
    } else {
        (if s.labels@.len() > 0 && s.labels@ != "{}"@ { seq!["Labels: "@ + s.labels@] } else { Seq::empty() })
            + seq!["Recent values:"@] + vals
    }
}

pub open spec fn all_series_lines(ss: Seq<MimirSeries>) -> Seq<Seq<char>>
    decreases ss.len(),
{
    if ss.len() == 0 {
        Seq::empty()
    } else {
        all_series_lines(ss.drop_last()) + series_lines(ss.last())
    }
}

/// A metrics answer as text: a "### <name>" heading, then each series.
pub open spec fn mimir_text(name: Seq<char>, series: Seq<MimirSeries>) -> Seq<char> {
    join(seq!["### "@ + name] + all_series_lines(series), seq!['\n'])
}

fn point_text(pt: &MimirPoint) -> (r: String)
    ensures
        r@ == "  "@ + match utc_time_of_day(pt.secs) {
            Some(t) => t,
            None => pt.ts_text@,
        } + " → "@ + pt.value@,
{
    let t = match utc_hms(pt.secs) {
        Some(t) => t,
        None => pt.ts_text.clone(),
    };
    let mut r = cat3("  ", t.as_str(), " → ");
    r.append(pt.value.as_str());
    r
}

fn series_text(s: &MimirSeries, out: &mut Vec<String>)
    ensures
        strings_view(final(out)@) == strings_view(old(out)@) + series_lines(*s),
{
    let ghost lp = last_points(s.points@);
    let n = s.points.len();
    let from: usize = if n > 5 { n - 5 } else { 0 };
    let mut vals: Vec<String> = Vec::new();
    let mut j: usize = from;
    while j < n
        invariant
            from <= j <= n,
            n == s.points@.len(),
            lp == s.points@.skip(from as int),
            strings_view(vals@) == point_lines(lp.take(j - from)),
        decreases n - j,
    {
        proof {
            crate::text::lemma_take_step(lp, j - from);
            assert(lp[j - from] == s.points@[j as int]);
        }
        match &s.points[j] {
            Some(pt) => push_line(&mut vals, point_text(pt)),
            None => {},
        }
        proof {
            assert(lp.take(j - from + 1) =~= lp.take(j + 1 - from));
            assert(strings_view(vals@) =~= point_lines(lp.take(j + 1 - from)));
        }
        j = j + 1;
    }
    proof {
        assert(lp.take(n - from) =~= lp);
    }
    let ghost before = strings_view(out@);
    if vals.len() > 0 {
        if !s.labels.as_str().is_empty() && !str_eq(s.labels.as_str(), "{}") {
            push_line(out, cat("Labels: ", s.labels.as_str()));
        }
        push_line(out, owned("Recent values:"));
        append_lines(out, vals);
        proof {
            assert(strings_view(out@) =~= before + series_lines(*s));
        }
    } else {
        proof {
            assert(strings_view(out@) =~= before + series_lines(*s));
        }
    }
}

/// A metrics answer as text (see `mimir_text`).
pub fn format_mimir_result(name: &str, series: &Vec<MimirSeries>) -> (r: String)
    ensures
        r@ == mimir_text(name@, series@),
{
    let mut lines: Vec<String> = Vec::new();
    push_line(&mut lines, cat("### ", name));
    let ghost head = strings_view(lines@);
    let mut i: usize = 0;
    while i < series.len()
        invariant
            i <= series.len(),
            head == seq!["### "@ + name@],
            strings_view(lines@) == head + all_series_lines(series@.take(i as int)),
        decreases series.len() - i,
    {
        proof {
            crate::text::lemma_take_step(series@, i as int);
        }
        series_text(&series[i], &mut lines);
        proof {
            assert(strings_view(lines@) =~= head + all_series_lines(series@.take(i + 1)));
        }
        i = i + 1;
    }
    proof {
        assert(series@.take(series@.len() as int) =~= series@);
        reveal_strlit("\n");
        assert("\n"@ =~= seq!['\n']);
    }
    join_strings(&lines, "\n")
}

/// An attribute of a span: its key and its string value, when present.
pub struct SpanAttr {
    pub key: Option<String>,
    pub value: Option<String>,
}

/// One trace of a search answer.
pub struct TempoTrace {
    pub trace_id: Option<String>,
    pub root_service: Option<String>,
    pub root_name: Option<String>,
    pub duration_ms: Option<u64>,
    pub start_time: Option<String>,
    /// The attributes of each span of each span set.
    pub span_sets: Vec<Vec<Vec<SpanAttr>>>,
}

pub open spec fn or_text(o: Option<String>, d: Seq<char>) -> Seq<char> {
    match o {
        Some(s) => s@,
        None => d,
    }
}

/// "  key: value" for each attribute with a key and a value that are not empty.
pub open spec fn attr_lines(a: Seq<SpanAttr>) -> Seq<Seq<char>>
    decreases a.len(),
{
    if a.len() == 0 {
        Seq::empty()
    } else {
        let k = or_text(a.last().key, Seq::empty());
        let v = or_text(a.last().value, Seq::empty());
        attr_lines(a.drop_last()) + if k.len() > 0 && v.len() > 0 { seq!["  "@ + k + ": "@ + v] } else { Seq::empty() }
    }
}

pub open spec fn span_lines(spans: Seq<Vec<SpanAttr>>) -> Seq<Seq<char>>
    decreases spans.len(),
{
    if spans.len() == 0 {
        Seq::empty()
    } else {
        span_lines(spans.drop_last()) + attr_lines(spans.last()@)
    }
}

pub open spec fn set_lines(sets: Seq<Vec<Vec<SpanAttr>>>) -> Seq<Seq<char>>
    decreases sets.len(),
{
    if sets.len() == 0 {
        Seq::empty()
    } else {
        set_lines(sets.drop_last()) + span_lines(sets.last()@)
    }
}

/// The heading of a trace: its id, root service and span, duration and start ("unknown", 0 and
/// "" where missing).
pub open spec fn trace_heading(t: TempoTrace) -> Seq<char> {
    "\n- TraceID: "@ + or_text(t.trace_id, "unknown"@) + "\n  Service: "@ + or_text(t.root_service, "unknown"@)
        + " | Span: "@ + or_text(t.root_name, "unknown"@) + " | Duration: "@ + dec(
        match t.duration_ms {
            Some(d) => d as nat,
            None => 0,
        },
    ) + "ms\n  StartTime: "@ + or_text(t.start_time, Seq::empty())
}

pub open spec fn traces_lines(ts: Seq<TempoTrace>) -> Seq<Seq<char>>
    decreases ts.len(),
{
    if ts.len() == 0 {
        Seq::empty()
    } else {
        traces_lines(ts.drop_last()) + seq![trace_heading(ts.last())] + set_lines(ts.last().span_sets@)
    }
}

/// A trace answer as text: how many traces, then the first ten with their attributes.
pub open spec fn tempo_text(traces: Option<Seq<TempoTrace>>) -> Seq<char> {
    match traces {
        Some(ts) => if ts.len() > 0 {
            join(
                seq!["Found "@ + dec(ts.len()) + " error traces:"@] + traces_lines(ts.take(if ts.len() < 10 { ts.len() as int } else { 10 })),
                seq!['\n'],
            )
        } else {
            "(No error traces found in the last query window)"@
        },
        None => "(No error traces found in the last query window)"@,
    }
}

fn or_string(o: &Option<String>, d: &str) -> (r: String)
    ensures
        r@ == or_text(*o, d@),
{
    match o {
        Some(s) => s.clone(),
        None => owned(d),
    }
}

fn push_attr_lines(a: &Vec<SpanAttr>, out: &mut Vec<String>)
    ensures
        strings_view(final(out)@) == strings_view(old(out)@) + attr_lines(a@),
{
    let ghost start = strings_view(out@);
    let mut i: usize = 0;
    while i < a.len()
        invariant
            i <= a.len(),
            strings_view(out@) == start + attr_lines(a@.take(i as int)),
        decreases a.len() - i,
    {
        proof {
            crate::text::lemma_take_step(a@, i as int);
        }
        let k = match &a[i].key {
            Some(k) => k.clone(),
            None => String::new(),
        };
        let v = match &a[i].value {
            Some(v) => v.clone(),
            None => String::new(),
        };
        if !k.as_str().is_empty() && !v.as_str().is_empty() {
            let mut line = cat3("  ", k.as_str(), ": ");
            line.append(v.as_str());
            push_line(out, line);
        }
        proof {
            assert(strings_view(out@) =~= start + attr_lines(a@.take(i + 1)));
        }
        i = i + 1;
    }
    proof {
        assert(a@.take(a@.len() as int) =~= a@);
    }
}

fn push_span_lines(spans: &Vec<Vec<SpanAttr>>, out: &mut Vec<String>)
    ensures
        strings_view(final(out)@) == strings_view(old(out)@) + span_lines(spans@),
{
    let ghost start = strings_view(out@);
    let mut i: usize = 0;
    while i < spans.len()
        invariant
            i <= spans.len(),
            strings_view(out@) == start + span_lines(spans@.take(i as int)),
        decreases spans.len() - i,
    {
        proof {
            crate::text::lemma_take_step(spans@, i as int);
        }
        push_attr_lines(&spans[i], out);
        proof {
            assert(strings_view(out@) =~= start + span_lines(spans@.take(i + 1)));
        }
        i = i + 1;
    }
    proof {
        assert(spans@.take(spans@.len() as int) =~= spans@);
    }
}

fn push_set_lines(sets: &Vec<Vec<Vec<SpanAttr>>>, out: &mut Vec<String>)
    ensures
        strings_view(final(out)@) == strings_view(old(out)@) + set_lines(sets@),
{
    let ghost start = strings_view(out@);
    let mut i: usize = 0;
    while i < sets.len()
        invariant
            i <= sets.len(),
            strings_view(out@) == start + set_lines(sets@.take(i as int)),
        decreases sets.len() - i,
    {
        proof {
            crate::text::lemma_take_step(sets@, i as int);
        }
        push_span_lines(&sets[i], out);
        proof {
            assert(strings_view(out@) =~= start + set_lines(sets@.take(i + 1)));
        }
        i = i + 1;
    }
    proof {
        assert(sets@.take(sets@.len() as int) =~= sets@);
    }
}

fn heading_of(t: &TempoTrace) -> (r: String)
    ensures
        r@ == trace_heading(*t),
{
    let mut h = cat("\n- TraceID: ", or_string(&t.trace_id, "unknown").as_str());
    h.append("\n  Service: ");
    h.append(or_string(&t.root_service, "unknown").as_str());
    h.append(" | Span: ");
    h.append(or_string(&t.root_name, "unknown").as_str());
    h.append(" | Duration: ");
    let d: u64 = match t.duration_ms {
        Some(d) => d,
        None => 0,
    };
    h.append(u64_to_string(d).as_str());
    h.append("ms\n  StartTime: ");
    let st = match &t.start_time {
        Some(s) => s.clone(),
        None => String::new(),
    };
    h.append(st.as_str());
    h
}

/// A trace answer as text (see `tempo_text`).
pub fn format_tempo_results(traces: Option<&Vec<TempoTrace>>) -> (r: String)
    ensures
        r@ == tempo_text(match traces {
            Some(t) => Some(t@),
            None => None,
        }),
{
    let ts = match traces {
        Some(t) => t,
        None => return owned("(No error traces found in the last query window)"),
    };
    if ts.len() == 0 {
        return owned("(No error traces found in the last query window)");
    }
    let mut lines: Vec<String> = Vec::new();
    let n = u64_to_string(ts.len() as u64);
    push_line(&mut lines, cat3("Found ", n.as_str(), " error traces:"));
    let ghost head = strings_view(lines@);
    let k: usize = if ts.len() < 10 { ts.len() } else { 10 };
    let ghost shown = ts@.take(k as int);
    let mut i: usize = 0;
    while i < k
        invariant
            i <= k <= ts@.len(),
            shown == ts@.take(k as int),
            strings_view(lines@) == head + traces_lines(shown.take(i as int)),
        decreases k - i,
    {
        proof {
            crate::text::lemma_take_step(shown, i as int);
        }
        push_line(&mut lines, heading_of(&ts[i]));
        push_set_lines(&ts[i].span_sets, &mut lines);
        proof {
            assert(strings_view(lines@) =~= head + traces_lines(shown.take(i + 1)));
        }
        i = i + 1;
    }
    proof {
        assert(shown.take(k as int) =~= shown);
        reveal_strlit("\n");
        assert("\n"@ =~= seq!['\n']);
        assert(head == seq!["Found "@ + dec(ts@.len()) + " error traces:"@]);
        assert(strings_view(lines@) == seq!["Found "@ + dec(ts@.len()) + " error traces:"@] + traces_lines(
            ts@.take(if ts@.len() < 10 { ts@.len() as int } else { 10 }),
        ));
    }
    join_strings(&lines, "\n")
}

// ─── Discovery ─────────────────────────────────────────────────────────────

/// The names of a label-list answer: its string items joined by ", " ("" without a list).
pub open spec fn names_text(data: Option<Seq<Option<String>>>) -> Seq<char> {
    match data {
        Some(d) => join(present_texts(d), ", "@),
        None => Seq::empty(),
    }
}

fn names_of(data: Option<&Vec<Option<String>>>) -> (r: String)
    ensures
        r@ == names_text(match data {
            Some(d) => Some(d@),
            None => None,
        }),
{
    match data {
        Some(d) => {
            let mut names: Vec<String> = Vec::new();
            let mut i: usize = 0;
            while i < d.len()
                invariant
                    i <= d.len(),
                    strings_view(names@) == present_texts(d@.take(i as int)),
                decreases d.len() - i,
            {
                proof {
                    crate::text::lemma_take_step(d@, i as int);
                }
                match &d[i] {
                    Some(t) => push_line(&mut names, t.clone()),
                    None => {},
                }
                proof {
                    assert(strings_view(names@) =~= present_texts(d@.take(i + 1)));
                }
                i = i + 1;
            }
            proof {
                assert(d@.take(d@.len() as int) =~= d@);
            }
            join_strings(&names, ", ")
        },
        None => String::new(),
    }
}

/// The labels found, as shown to the agent.
pub fn loki_labels_text(data: Option<&Vec<Option<String>>>) -> (r: String)
    ensures
        r@ == "Available Loki labels: "@ + names_text(match data {
            Some(d) => Some(d@),
            None => None,
        }),
{
    cat("Available Loki labels: ", names_of(data).as_str())
}

/// The values found for a label, as shown to the agent.
pub fn loki_label_values_text(label: &str, data: Option<&Vec<Option<String>>>) -> (r: String)
    ensures
        r@ == "Values for label '"@ + label@ + "': "@ + names_text(match data {
            Some(d) => Some(d@),
            None => None,
        }),
{
    let mut r = cat3("Values for label '", label, "': ");
    r.append(names_of(data).as_str());
    r
}

/// The metric names that match a filter, compared in lower case (all of them for no filter).
pub open spec fn matching_names(names: Seq<Seq<char>>, filter: Seq<char>) -> Seq<Seq<char>>
    decreases names.len(),
{
    if names.len() == 0 {
        Seq::empty()
    } else {
        let n = names.last();
        matching_names(names.drop_last(), filter) + if filter.len() == 0 || contains(lowercase(n), lowercase(filter)) {
            seq![n]
        } else {
            Seq::empty()
        }
    }
}

/// The metric names found, as shown to the agent: how many match the filter and the first 50.
pub open spec fn metrics_found_text(matching: Seq<Seq<char>>, filter: Seq<char>) -> Seq<char> {
    if matching.len() == 0 {
        "Mimir is reachable but no metrics found matching '"@ + filter + "'"@
    } else {
        "Found "@ + dec(matching.len()) + " metrics"@ + (if filter.len() == 0 {
            Seq::empty()
        } else {
            " matching '"@ + filter + "'"@
        }) + ":\n"@ + join(matching.take(if matching.len() < 50 { matching.len() as int } else { 50 }), seq!['\n'])
    }
}

/// The metric names of a label-values answer that match `filter` (see `metrics_found_text`).
pub fn metric_names_text(data: Option<&Vec<Option<String>>>, filter: &str) -> (r: String)
    ensures
        r@ == metrics_found_text(
            matching_names(match data {
                Some(d) => present_texts(d@),
                None => Seq::empty(),
            }, filter@),
            filter@,
        ),
{
    let mut names: Vec<String> = Vec::new();
    match data {
        Some(d) => {
            let mut i: usize = 0;
            while i < d.len()
                invariant
                    i <= d.len(),
                    strings_view(names@) == present_texts(d@.take(i as int)),
                decreases d.len() - i,
            {
                proof {
                    crate::text::lemma_take_step(d@, i as int);
                }
                match &d[i] {
                    Some(t) => push_line(&mut names, t.clone()),
                    None => {},
                }
                proof {
                    assert(strings_view(names@) =~= present_texts(d@.take(i + 1)));
                }
                i = i + 1;
            }
            proof {
                assert(d@.take(d@.len() as int) =~= d@);
            }
        },
        None => {
            proof {
                assert(strings_view(names@) =~= Seq::<Seq<char>>::empty());
            }
        },
    }
    let ghost nv = strings_view(names@);
    let lf = to_lowercase(filter);
    let mut matching: Vec<String> = Vec::new();
    let mut i: usize = 0;
    while i < names.len()
        invariant
            i <= names.len(),
            nv == strings_view(names@),
            lf@ == lowercase(filter@),
            strings_view(matching@) == matching_names(nv.take(i as int), filter@),
        decreases names.len() - i,
    {
        proof {
            crate::text::lemma_take_step(nv, i as int);
        }
        let keep = filter.is_empty() || str_contains(to_lowercase(names[i].as_str()).as_str(), lf.as_str());
        if keep {
            push_line(&mut matching, names[i].clone());
        }
        proof {
            assert(strings_view(matching@) =~= matching_names(nv.take(i + 1), filter@));
        }
        i = i + 1;
    }
    proof {
        assert(nv.take(nv.len() as int) =~= nv);
    }
    if matching.len() == 0 {
        let mut r = cat3("Mimir is reachable but no metrics found matching '", filter, "'");
        return r;
    }
    let ghost mv = strings_view(matching@);
    let k: usize = if matching.len() < 50 { matching.len() } else { 50 };
    let mut shown: Vec<String> = Vec::new();
    let mut j: usize = 0;
    while j < k
        invariant
            j <= k <= matching@.len(),
            mv == strings_view(matching@),
            strings_view(shown@) == mv.take(j as int),
        decreases k - j,
    {
        push_line(&mut shown, matching[j].clone());
        proof {
            assert(strings_view(shown@) =~= mv.take(j + 1));
        }
        j = j + 1;
    }
    let mut r = cat3("Found ", u64_to_string(matching.len() as u64).as_str(), " metrics");
    if !filter.is_empty() {
        r.append(" matching '");
        r.append(filter);
        r.append("'");
    }
    r.append(":\n");
    proof {
        reveal_strlit("\n");
        assert("\n"@ =~= seq!['\n']);
    }
    r.append(join_strings(&shown, "\n").as_str());
    r
}

/// The answer when the metric-name list failed with `labels_status` but the probe query for
/// "up" found `count` series.
pub fn probe_works_text(labels_status: &str, count: u64) -> (r: String)
    ensures
        r@ == "Mimir labels API returned HTTP "@ + labels_status@ + " but query API works. Found "@ + dec(count as nat)
            + " 'up' series. Use check_service_health or query_metrics for specific queries."@,
{
    let mut r = cat3("Mimir labels API returned HTTP ", labels_status, " but query API works. Found ");
    r.append(u64_to_string(count).as_str());
    r.append(" 'up' series. Use check_service_health or query_metrics for specific queries.");
    r
}

/// The answer when both the metric-name list and the probe query failed.
pub fn unreachable_text(labels_status: &str, probe_status: Option<&str>, probe_error: &str, base: &str) -> (r: String)
    ensures
        r@ == "(Mimir not reachable: labels="@ + labels_status@ + match probe_status {
            Some(q) => ", query="@ + q@,
            None => ", error="@ + probe_error@,
        } + ", url="@ + base@ + ")"@,
{
    let mut r = cat("(Mimir not reachable: labels=", labels_status);
    match probe_status {
        Some(q) => {
            r.append(", query=");
            r.append(q);
        },
        None => {
            r.append(", error=");
            r.append(probe_error);
        },
    }
    r.append(", url=");
    r.append(base);
    r.append(")");
    r
}

// ─── Batches of metric queries ─────────────────────────────────────────────

/// What came back for one query.
pub enum Answer<T> {
    /// A successful answer.
    Body(T),
    /// An HTTP error status, as text.
    Status(String),
    /// A failed request, as text.
    Failed(String),
}

/// One metric query of a batch and what came back.
pub struct NamedOutcome {
    pub name: String,
    pub outcome: Answer<Vec<MimirSeries>>,
}

/// What a query of a batch adds to the report: its text unless `skip_empty` drops a result
/// without data or a failure.
pub open spec fn outcome_entry(o: NamedOutcome, skip_empty: bool) -> Seq<Seq<char>> {
    match o.outcome {
        Answer::Body(series) => {
            let t = mimir_text(o.name@, series@);
            if !skip_empty || text_lines(t).len() > 1 {
                seq![t]
            } else {
                Seq::empty()
            }
        },
        Answer::Status(st) => if !skip_empty { seq![o.name@ + ": HTTP "@ + st@] } else { Seq::empty() },
        Answer::Failed(e) => if !skip_empty { seq![o.name@ + ": error "@ + e@] } else { Seq::empty() },
    }
}

pub open spec fn outcome_entries(os: Seq<NamedOutcome>, skip_empty: bool) -> Seq<Seq<char>>
    decreases os.len(),
{
    if os.len() == 0 {
        Seq::empty()
    } else {
        outcome_entries(os.drop_last(), skip_empty) + outcome_entry(os.last(), skip_empty)
    }
}

/// The texts of a batch joined by blank lines, or that there is no data.
pub open spec fn batch_text_of(texts: Seq<Seq<char>>) -> Seq<char> {
    if texts.len() == 0 {
        "(No metrics data available)"@
    } else {
        join(texts, "\n\n"@)
    }
}

/// The report of a batch of metric queries.
pub fn mimir_report(outcomes: &Vec<NamedOutcome>, skip_empty: bool) -> (r: String)
    ensures
        r@ == batch_text_of(outcome_entries(outcomes@, skip_empty)),
{
    let mut texts: Vec<String> = Vec::new();
    let mut i: usize = 0;
    while i < outcomes.len()
        invariant
            i <= outcomes.len(),
            strings_view(texts@) == outcome_entries(outcomes@.take(i as int), skip_empty),
        decreases outcomes.len() - i,
    {
        proof {
            crate::text::lemma_take_step(outcomes@, i as int);
        }
        let o = &outcomes[i];
        match &o.outcome {
            Answer::Body(series) => {
                let t = format_mimir_result(o.name.as_str(), series);
                if !skip_empty || lines_of(t.as_str()).len() > 1 {
                    push_line(&mut texts, t);
                }
            },
            Answer::Status(st) => {
                if !skip_empty {
                    push_line(&mut texts, cat3(o.name.as_str(), ": HTTP ", st.as_str()));
                }
            },
            Answer::Failed(e) => {
                if !skip_empty {
                    push_line(&mut texts, cat3(o.name.as_str(), ": error ", e.as_str()));
                }
            },
        }
        proof {
            assert(strings_view(texts@) =~= outcome_entries(outcomes@.take(i + 1), skip_empty));
        }
        i = i + 1;
    }
    proof {
        assert(outcomes@.take(outcomes@.len() as int) =~= outcomes@);
    }
    batch_text(&texts)
}

/// The texts of a batch joined by blank lines (see `batch_text_of`).
pub fn batch_text(texts: &Vec<String>) -> (r: String)
    ensures
        r@ == batch_text_of(strings_view(texts@)),
{
    if texts.len() == 0 {
        owned("(No metrics data available)")
    } else {
        join_strings(texts, "\n\n")
    }
}

/// The text of one metric query: its result, or why there is none.
pub open spec fn single_text(name: Seq<char>, outcome: Answer<Vec<MimirSeries>>) -> Seq<char> {
    match outcome {
        Answer::Body(series) => mimir_text(name, series@),
        Answer::Status(st) => "(Mimir query failed: HTTP "@ + st@ + ")"@,
        Answer::Failed(e) => "(Mimir query error: "@ + e@ + ")"@,
    }
}

pub fn mimir_single_text(name: &str, outcome: &Answer<Vec<MimirSeries>>) -> (r: String)
    ensures
        r@ == single_text(name@, *outcome),
{
    match outcome {
        Answer::Body(series) => format_mimir_result(name, series),
        Answer::Status(st) => {
            let mut r = cat("(Mimir query failed: HTTP ", st.as_str());
            r.append(")");
            r
        },
        Answer::Failed(e) => {
            let mut r = cat("(Mimir query error: ", e.as_str());
            r.append(")");
            r
        },
    }
}

// ─── Connection settings ───────────────────────────────────────────────────

/// Where the telemetry services are and how to authenticate.
pub struct GrafanaConfig {
    pub loki_url: String,
    pub loki_user: String,
    pub mimir_url: String,
    pub mimir_user: String,
    pub tempo_url: String,
    pub tempo_user: String,
    pub api_token: String,
}

/// A string setting of the telemetry configuration; "" when missing.
pub open spec fn cfg_text(config: Seq<char>, key: Seq<char>) -> Seq<char> {
    match json_str_at(config, key) {
        Some(v) => v,
        None => Seq::empty(),
    }
}

fn cfg_str(config: &str, key: &str) -> (r: String)
    ensures
        r@ == cfg_text(config@, key@),
{
    match json_str_field(config, key) {
        Some(v) => v,
        None => String::new(),
    }
}

/// The settings read from the JSON configuration; none without an API token.
pub fn grafana_config(config: &str) -> (r: Option<GrafanaConfig>)
    ensures
        r is None <==> cfg_text(config@, "api_token"@).len() == 0,
        r matches Some(g) ==> {
            &&& g.api_token@ == cfg_text(config@, "api_token"@)
            &&& g.loki_url@ == cfg_text(config@, "loki_endpoint_url"@)
            &&& g.loki_user@ == cfg_text(config@, "loki_user_id"@)
            &&& g.mimir_url@ == cfg_text(config@, "mimir_endpoint_url"@)
            &&& g.mimir_user@ == cfg_text(config@, "mimir_user_id"@)
            &&& g.tempo_url@ == cfg_text(config@, "tempo_endpoint_url"@)
            &&& g.tempo_user@ == cfg_text(config@, "tempo_user_id"@)
        },
{
    let api_token = cfg_str(config, "api_token");
    if api_token.as_str().is_empty() {
        return None;
    }
    Some(GrafanaConfig {
        loki_url: cfg_str(config, "loki_endpoint_url"),
        loki_user: cfg_str(config, "loki_user_id"),
        mimir_url: cfg_str(config, "mimir_endpoint_url"),
        mimir_user: cfg_str(config, "mimir_user_id"),
        tempo_url: cfg_str(config, "tempo_endpoint_url"),
        tempo_user: cfg_str(config, "tempo_user_id"),
        api_token,
    })
}


/// The window a query covers, in Unix seconds: it ends at the anchor (the issue's time) when
/// one is given, else at `now`, and starts `minutes` earlier.
pub fn resolve_time_range(minutes: i64, anchor: Option<i64>, now: i64) -> (r: (i64, i64))
    requires
        ({
            let end = match anchor { Some(a) => a, None => now };
            i64::MIN <= end - minutes * 60 <= i64::MAX && i64::MIN <= minutes * 60 <= i64::MAX
        }),
    ensures
        r.1 == (match anchor { Some(a) => a, None => now }),
        r.0 == r.1 - minutes * 60,
{
    let end = match anchor {
        Some(a) => a,
        None => now,
    };
    let span = minutes * 60;
    (end - span, end)
}

} // verus!
