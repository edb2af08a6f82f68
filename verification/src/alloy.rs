//! The configuration of the Alloy collector: where it ships metrics, logs and
//! traces, written in its own configuration language.
use vstd::prelude::*;
use crate::json::{json_str_at, json_str_field};
use crate::text::{cat, contains, owned, str_contains, str_trim_end_matches, str_trim_start_matches, trim_end_matches, trim_start_matches};

verus! {

pub const CONFIGMAP_NAME: &'static str = "alloy";
pub const CONFIGMAP_KEY: &'static str = "config.alloy";
pub const NAMESPACE: &'static str = "monitoring";
pub const DAEMONSET_NAME: &'static str = "alloy";

pub const ALLOY_HEAD: &'static str = r#"// ─── Kubernetes Discovery ───────────────────────────
discovery.kubernetes "pods" {
  role = "pod"
}

discovery.kubernetes "nodes" {
  role = "node"
}

// ─── Node metrics (kubelet /metrics endpoint) ───────
discovery.relabel "kubelet" {
  targets = discovery.kubernetes.nodes.targets

  rule {
    target_label  = "__address__"
    replacement   = "kubernetes.default.svc:443"
  }
  rule {
    source_labels = ["__meta_kubernetes_node_name"]
    target_label  = "__metrics_path__"
    replacement   = "/api/v1/nodes/${1}/proxy/metrics"
  }
  rule {
    source_labels = ["__meta_kubernetes_node_name"]
    target_label  = "node"
  }
}

prometheus.scrape "kubelet" {
  targets      = discovery.relabel.kubelet.output
  scheme       = "https"
  scrape_interval = "30s"
  bearer_token_file = "/var/run/secrets/kubernetes.io/serviceaccount/token"
  tls_config {
    ca_file              = "/var/run/secrets/kubernetes.io/serviceaccount/ca.crt"
    insecure_skip_verify = true
  }
  forward_to = [prometheus.relabel.filter.receiver]
}

// ─── Container metrics (cadvisor) ───────────────────
discovery.relabel "cadvisor" {
  targets = discovery.kubernetes.nodes.targets

  rule {
    target_label  = "__address__"
    replacement   = "kubernetes.default.svc:443"
  }
  rule {
    source_labels = ["__meta_kubernetes_node_name"]
    target_label  = "__metrics_path__"
    replacement   = "/api/v1/nodes/${1}/proxy/metrics/cadvisor"
  }
  rule {
    source_labels = ["__meta_kubernetes_node_name"]
    target_label  = "node"
  }
}

prometheus.scrape "cadvisor" {
  targets      = discovery.relabel.cadvisor.output
  scheme       = "https"
  scrape_interval = "30s"
  bearer_token_file = "/var/run/secrets/kubernetes.io/serviceaccount/token"
  tls_config {
    ca_file              = "/var/run/secrets/kubernetes.io/serviceaccount/ca.crt"
    insecure_skip_verify = true
  }
  forward_to = [prometheus.relabel.filter.receiver]
}

// ─── Application metrics (pods with prometheus.io annotations) ───
discovery.relabel "pod_metrics" {
  targets = discovery.kubernetes.pods.targets

  rule {
    source_labels = ["__meta_kubernetes_pod_annotation_prometheus_io_scrape"]
    regex         = "true"
    action        = "keep"
  }
  rule {
    source_labels = ["__meta_kubernetes_pod_annotation_prometheus_io_scheme"]
    target_label  = "____scheme__"
    regex         = "(https?)"
  }
  rule {
    source_labels = ["__meta_kubernetes_pod_annotation_prometheus_io_path"]
    target_label  = "__metrics_path__"
    regex         = "(.+)"
  }
  rule {
    source_labels = ["__address__", "__meta_kubernetes_pod_annotation_prometheus_io_port"]
    regex         = "([^:]+)(?:\\d+)?;(\\d+)"
    target_label  = "__address__"
    replacement   = "${1}:${2}"
  }
  rule {
    source_labels = ["__meta_kubernetes_namespace"]
    target_label  = "namespace"
  }
  rule {
    source_labels = ["__meta_kubernetes_pod_name"]
    target_label  = "pod"
  }
  rule {
    source_labels = ["__meta_kubernetes_pod_container_name"]
    target_label  = "container"
  }
  rule {
    source_labels = ["__meta_kubernetes_pod_node_name"]
    target_label  = "node"
  }
}

prometheus.scrape "pods" {
  targets      = discovery.relabel.pod_metrics.output
  scrape_interval = "30s"
  forward_to   = [prometheus.relabel.filter.receiver]
}

// ─── kube-state-metrics ──────────────────────────────
prometheus.scrape "kube_state_metrics" {
  targets = [{
    __address__ = "kube-state-metrics.monitoring.svc:8080",
  }]
  scrape_interval = "30s"
  forward_to = [prometheus.relabel.filter.receiver]
}

// ─── Metric filter: keep only metrics needed for RCA / dashboards ─────
prometheus.relabel "filter" {
  rule {
    source_labels = ["__name__"]
    regex = "up|container_cpu_usage_seconds_total|container_memory_working_set_bytes|container_network_receive_bytes_total|container_network_transmit_bytes_total|kube_pod_container_status_restarts_total|kube_pod_status_phase|kube_pod_info|kube_pod_container_status_ready|kube_deployment_status_replicas_available|kube_deployment_spec_replicas|kubelet_running_pods|node_cpu_seconds_total|node_memory_MemAvailable_bytes|node_memory_MemTotal_bytes|http_requests_total|http_request_duration_seconds_bucket|http_request_duration_seconds_count|http_request_duration_seconds_sum|http_server_requests_seconds_bucket|http_server_requests_seconds_count|http_server_requests_seconds_sum|process_cpu_seconds_total|process_resident_memory_bytes|rca_demo_.*"
    action = "keep"
  }
  forward_to = [prometheus.remote_write.mimir.receiver]
}

// ─── Remote write to Mimir ─────────────────────────
prometheus.remote_write "mimir" {
  endpoint {
    url = ""#;
pub const ALLOY_AFTER_MIMIR: &'static str = r#"""#;
pub const ALLOY_LOGS: &'static str = r#"
  }
}

// ─── Logs: collect from all pods ────────────────────
loki.source.kubernetes "pods" {
  targets    = discovery.kubernetes.pods.targets
  forward_to = [loki.write.default.receiver]
}

loki.write "default" {
  endpoint {
    url = ""#;
pub const ALLOY_AFTER_LOKI: &'static str = r#"""#;
pub const ALLOY_TRACES: &'static str = r#"
  }
}

// ─── Traces: receive OTLP ───────────────────────────
otelcol.receiver.otlp "default" {
  grpc {
    endpoint = "0.0.0.0:4317"
  }
  http {
    endpoint = "0.0.0.0:4318"
  }
  output {
    traces = ["#;
pub const ALLOY_TAIL: &'static str = r#"]
  }
}
"#;
pub const ALLOY_END: &'static str = r#"
"#;
pub const AUTH_OPEN: &'static str = r#"
    basic_auth {
      username = ""#;
pub const AUTH_PASSWORD: &'static str = r#""
      password = ""#;
pub const AUTH_CLOSE: &'static str = r#""
    }"#;
pub const TEMPO_CLOUD_OPEN: &'static str = r#"
// ─── Traces: forward to Grafana Cloud Tempo (OTLP gRPC + BasicAuth) ───
otelcol.auth.basic "tempo" {
  username = ""#;
pub const TEMPO_CLOUD_PASSWORD: &'static str = r#""
  password = ""#;
pub const TEMPO_CLOUD_ENDPOINT: &'static str = r#""
}

otelcol.exporter.otlp "tempo" {
  client {
    endpoint = ""#;
pub const TEMPO_CLOUD_CLOSE: &'static str = r#""
    auth     = otelcol.auth.basic.tempo.handler
  }
}"#;
pub const TEMPO_LOCAL_OPEN: &'static str = r#"
// ─── Traces: forward to Tempo (gRPC) ───
otelcol.exporter.otlp "tempo" {
  client {
    endpoint = ""#;
pub const TEMPO_LOCAL_CLOSE: &'static str = r#""
    tls {
      insecure = true
    }
  }
}"#;

pub const TRACES_OUTPUT: &'static str = "otelcol.exporter.otlp.tempo.input";

/// The configuration used while no telemetry backend is set up: discovery only.
pub const DEFAULT_CONFIG: &'static str = r#"// No telemetry backend configured — collecting but not shipping.
// Configure a telemetry provider in the Ops UI to enable shipping.

discovery.kubernetes "pods" {
  role = "pod"
}

discovery.kubernetes "nodes" {
  role = "node"
}
"#;

/// A string setting of the telemetry configuration, `default` when missing.
pub open spec fn setting(config: Seq<char>, key: Seq<char>, default: Seq<char>) -> Seq<char> {
    match json_str_at(config, key) {
        Some(v) => v,
        None => default,
    }
}

fn setting_of(config: &str, key: &str, default: &str) -> (r: String)
    ensures
        r@ == setting(config@, key@, default@),
{
    match json_str_field(config, key) {
        Some(v) => v,
        None => owned(default),
    }
}

/// Where metrics are pushed: a URL that already names a push path as it is, an API base with
/// "/push" added, anything else with "/api/v1/push" added.
pub open spec fn mimir_push_url(url: Seq<char>) -> Seq<char> {
    if contains(url, "/push"@) {
        url
    } else if contains(url, "/api/prom"@) || contains(url, "/api/v1"@) {
        trim_end_matches(url, "/"@) + "/push"@
    } else {
        trim_end_matches(url, "/"@) + "/api/v1/push"@
    }
}

/// Where logs are pushed: a URL that names a push path as it is, else "/loki/api/v1/push" added.
pub open spec fn loki_push_url(url: Seq<char>) -> Seq<char> {
    if contains(url, "/push"@) {
        url
    } else {
        trim_end_matches(url, "/"@) + "/loki/api/v1/push"@
    }
}

/// The gRPC endpoint of traces: the in-cluster Tempo by default, else the URL without scheme
/// and trailing slashes, with port 443 added for a Grafana Cloud host without a port.
pub open spec fn tempo_endpoint(url: Seq<char>) -> Seq<char> {
    if url.len() == 0 {
        "tempo.monitoring.svc:4317"@
    } else {
        let s = trim_end_matches(trim_start_matches(trim_start_matches(url, "http://"@), "https://"@), "/"@);
        if contains(s, "grafana.net"@) && !s.contains(':') {
            s + ":443"@
        } else {
            s
        }
    }
}

/// The credentials block of a remote endpoint, for the cloud when a user is given.
pub open spec fn auth_block(cloud: bool, user: Seq<char>, token: Seq<char>) -> Seq<char> {
    if cloud && user.len() > 0 {
        AUTH_OPEN@ + user + AUTH_PASSWORD@ + token + AUTH_CLOSE@
    } else {
        Seq::empty()
    }
}

/// The trace exporter: authenticated for the cloud when a user is given, else plain gRPC.
pub open spec fn tempo_block(cloud: bool, user: Seq<char>, token: Seq<char>, endpoint: Seq<char>) -> Seq<char> {
    if cloud && user.len() > 0 {
        TEMPO_CLOUD_OPEN@ + user + TEMPO_CLOUD_PASSWORD@ + token + TEMPO_CLOUD_ENDPOINT@ + endpoint + TEMPO_CLOUD_CLOSE@
    } else {
        TEMPO_LOCAL_OPEN@ + endpoint + TEMPO_LOCAL_CLOSE@
    }
}

/// The collector configuration for the telemetry settings `config` (JSON text): mode "cloud"
/// (the default) with an API token sends credentials.
pub open spec fn alloy_config_text(config: Seq<char>) -> Seq<char> {
    let token = setting(config, "api_token"@, Seq::empty());
    let cloud = setting(config, "mode"@, "cloud"@) == "cloud"@ && token.len() > 0;
    ALLOY_HEAD@ + mimir_push_url(setting(config, "mimir_endpoint_url"@, Seq::empty())) + ALLOY_AFTER_MIMIR@
        + auth_block(cloud, setting(config, "mimir_user_id"@, Seq::empty()), token) + ALLOY_LOGS@
        + loki_push_url(setting(config, "loki_endpoint_url"@, Seq::empty())) + ALLOY_AFTER_LOKI@
        + auth_block(cloud, setting(config, "loki_user_id"@, Seq::empty()), token) + ALLOY_TRACES@ + TRACES_OUTPUT@
        + ALLOY_TAIL@ + tempo_block(
        cloud,
        setting(config, "tempo_user_id"@, Seq::empty()),
        token,
        tempo_endpoint(setting(config, "tempo_endpoint_url"@, Seq::empty())),
    ) + ALLOY_END@
}

fn mimir_push(url: &str) -> (r: String)
    ensures
        r@ == mimir_push_url(url@),
{
    if str_contains(url, "/push") {
        owned(url)
    } else if str_contains(url, "/api/prom") || str_contains(url, "/api/v1") {
        cat(str_trim_end_matches(url, "/").as_str(), "/push")
    } else {
        cat(str_trim_end_matches(url, "/").as_str(), "/api/v1/push")
    }
}

fn loki_push(url: &str) -> (r: String)
    ensures
        r@ == loki_push_url(url@),
{
    if str_contains(url, "/push") {
        owned(url)
    } else {
        cat(str_trim_end_matches(url, "/").as_str(), "/loki/api/v1/push")
    }
}

fn tempo_grpc(url: &str) -> (r: String)
    ensures
        r@ == tempo_endpoint(url@),
{
    if url.is_empty() {
        return owned("tempo.monitoring.svc:4317");
    }
    let a = str_trim_start_matches(url, "http://");
    let b = str_trim_start_matches(a.as_str(), "https://");
    let s = str_trim_end_matches(b.as_str(), "/");
    let sv = crate::text::chars_of(s.as_str());
    if str_contains(s.as_str(), "grafana.net") && !crate::text::has_char(sv.as_slice(), ':') {
        cat(s.as_str(), ":443")
    } else {
        s
    }
}

fn auth(cloud: bool, user: &str, token: &str) -> (r: String)
    ensures
        r@ == auth_block(cloud, user@, token@),
{
    if cloud && !user.is_empty() {
        let mut r = cat(AUTH_OPEN, user);
        r.append(AUTH_PASSWORD);
        r.append(token);
        r.append(AUTH_CLOSE);
        r
    } else {
        String::new()
    }
}

fn tempo(cloud: bool, user: &str, token: &str, endpoint: &str) -> (r: String)
    ensures
        r@ == tempo_block(cloud, user@, token@, endpoint@),
{
    if cloud && !user.is_empty() {
        let mut r = cat(TEMPO_CLOUD_OPEN, user);
        r.append(TEMPO_CLOUD_PASSWORD);
        r.append(token);
        r.append(TEMPO_CLOUD_ENDPOINT);
        r.append(endpoint);
        r.append(TEMPO_CLOUD_CLOSE);
        r
    } else {
        let mut r = cat(TEMPO_LOCAL_OPEN, endpoint);
        r.append(TEMPO_LOCAL_CLOSE);
        r
    }
}

/// `p` occurs in `a + p + b`.
proof fn lemma_occurs_between(a: Seq<char>, p: Seq<char>, b: Seq<char>)
    ensures
        contains(a + p + b, p),
{
    let t = a + p + b;
    assert(t.subrange(a.len() as int, (a.len() + p.len()) as int) =~= p);
    assert(crate::text::occurs_at(t, p, a.len() as int));
}

/// Where each endpoint's part sits in the thirteen pieces of a configuration: the Mimir URL
/// with its credentials, the Loki URL with its credentials, and the trace exporter.
proof fn lemma_config_parts(
    h: Seq<char>,
    m: Seq<char>,
    am: Seq<char>,
    mb: Seq<char>,
    lg: Seq<char>,
    l: Seq<char>,
    al: Seq<char>,
    lb: Seq<char>,
    tr: Seq<char>,
    to: Seq<char>,
    tl: Seq<char>,
    tb: Seq<char>,
    en: Seq<char>,
)
    ensures
        contains(h + m + am + mb + lg + l + al + lb + tr + to + tl + tb + en, m + am + mb),
        contains(h + m + am + mb + lg + l + al + lb + tr + to + tl + tb + en, l + al + lb),
        contains(h + m + am + mb + lg + l + al + lb + tr + to + tl + tb + en, tb),
{
    let t = h + m + am + mb + lg + l + al + lb + tr + to + tl + tb + en;
    assert(t =~= h + (m + am + mb) + (lg + l + al + lb + tr + to + tl + tb + en));
    lemma_occurs_between(h, m + am + mb, lg + l + al + lb + tr + to + tl + tb + en);
    assert(t =~= (h + m + am + mb + lg) + (l + al + lb) + (tr + to + tl + tb + en));
    lemma_occurs_between(h + m + am + mb + lg, l + al + lb, tr + to + tl + tb + en);
    assert(t =~= (h + m + am + mb + lg + l + al + lb + tr + to + tl) + tb + en);
    lemma_occurs_between(h + m + am + mb + lg + l + al + lb + tr + to + tl, tb, en);
}

/// A text that contains `p + q` contains `p`.
proof fn lemma_contains_prefix(t: Seq<char>, p: Seq<char>, q: Seq<char>)
    requires
        contains(t, p + q),
    ensures
        contains(t, p),
{
    let i = choose|i: int| crate::text::occurs_at(t, p + q, i);
    assert(t.subrange(i, i + p.len()) =~= (p + q).subrange(0, p.len() as int));
    assert((p + q).subrange(0, p.len() as int) =~= p);
    assert(crate::text::occurs_at(t, p, i));
}

/// In the cloud mode (the default) with an API token, each backend's remote endpoint carries
/// its own user and the token: the Mimir push URL is followed by a credentials block naming
/// `mimir_user_id`, the Loki push URL by one naming `loki_user_id`, and the Tempo exporter
/// names `tempo_user_id`.
pub proof fn law_each_backend_its_own_user(config: Seq<char>, token: Seq<char>)
    requires
        json_str_at(config, "mode"@) is None || json_str_at(config, "mode"@) == Some("cloud"@),
        json_str_at(config, "api_token"@) == Some(token),
        token.len() > 0,
    ensures
        json_str_at(config, "mimir_user_id"@) matches Some(u) ==> u.len() > 0 ==> contains(
            alloy_config_text(config),
            mimir_push_url(setting(config, "mimir_endpoint_url"@, Seq::empty())) + ALLOY_AFTER_MIMIR@ + AUTH_OPEN@
                + u + AUTH_PASSWORD@ + token + AUTH_CLOSE@,
        ),
        json_str_at(config, "loki_user_id"@) matches Some(u) ==> u.len() > 0 ==> contains(
            alloy_config_text(config),
            loki_push_url(setting(config, "loki_endpoint_url"@, Seq::empty())) + ALLOY_AFTER_LOKI@ + AUTH_OPEN@ + u
                + AUTH_PASSWORD@ + token + AUTH_CLOSE@,
        ),
        json_str_at(config, "tempo_user_id"@) matches Some(u) ==> u.len() > 0 ==> contains(
            alloy_config_text(config),
            TEMPO_CLOUD_OPEN@ + u + TEMPO_CLOUD_PASSWORD@ + token,
        ),
{
    let mimir_user = setting(config, "mimir_user_id"@, Seq::empty());
    let loki_user = setting(config, "loki_user_id"@, Seq::empty());
    let tempo_user = setting(config, "tempo_user_id"@, Seq::empty());
    let ep = tempo_endpoint(setting(config, "tempo_endpoint_url"@, Seq::empty()));
    let m = mimir_push_url(setting(config, "mimir_endpoint_url"@, Seq::empty()));
    let l = loki_push_url(setting(config, "loki_endpoint_url"@, Seq::empty()));
    assert(setting(config, "mode"@, "cloud"@) == "cloud"@);
    assert(setting(config, "api_token"@, Seq::empty()) == token);
    let mb = auth_block(true, mimir_user, token);
    let lb = auth_block(true, loki_user, token);
    let tb = tempo_block(true, tempo_user, token, ep);
    let t = alloy_config_text(config);
    assert(t == ALLOY_HEAD@ + m + ALLOY_AFTER_MIMIR@ + mb + ALLOY_LOGS@ + l + ALLOY_AFTER_LOKI@ + lb + ALLOY_TRACES@
        + TRACES_OUTPUT@ + ALLOY_TAIL@ + tb + ALLOY_END@);
    lemma_config_parts(
        ALLOY_HEAD@,
        m,
        ALLOY_AFTER_MIMIR@,
        mb,
        ALLOY_LOGS@,
        l,
        ALLOY_AFTER_LOKI@,
        lb,
        ALLOY_TRACES@,
        TRACES_OUTPUT@,
        ALLOY_TAIL@,
        tb,
        ALLOY_END@,
    );
    if mimir_user.len() > 0 {
        assert(m + ALLOY_AFTER_MIMIR@ + mb =~= m + ALLOY_AFTER_MIMIR@ + AUTH_OPEN@ + mimir_user + AUTH_PASSWORD@ + token
            + AUTH_CLOSE@);
    }
    if loki_user.len() > 0 {
        assert(l + ALLOY_AFTER_LOKI@ + lb =~= l + ALLOY_AFTER_LOKI@ + AUTH_OPEN@ + loki_user + AUTH_PASSWORD@ + token
            + AUTH_CLOSE@);
    }
    if tempo_user.len() > 0 {
        let p = TEMPO_CLOUD_OPEN@ + tempo_user + TEMPO_CLOUD_PASSWORD@ + token;
        assert(tb =~= p + (TEMPO_CLOUD_ENDPOINT@ + ep + TEMPO_CLOUD_CLOSE@));
        lemma_contains_prefix(t, p, TEMPO_CLOUD_ENDPOINT@ + ep + TEMPO_CLOUD_CLOSE@);
    }
}

/// `s + p` contains `p`.
proof fn lemma_ends_occurs(s: Seq<char>, p: Seq<char>)
    ensures
        contains(s + p, p),
{
    lemma_occurs_between(s, p, Seq::empty());
    assert(s + p + Seq::<char>::empty() =~= s + p);
}

/// Metrics and logs are always pushed to a push path, and a push URL is its own push URL: each
/// of them names "/push", and working it out again changes nothing.
pub proof fn law_push_urls(url: Seq<char>)
    ensures
        contains(mimir_push_url(url), "/push"@),
        contains(loki_push_url(url), "/push"@),
        mimir_push_url(mimir_push_url(url)) == mimir_push_url(url),
        loki_push_url(loki_push_url(url)) == loki_push_url(url),
{
    let base = trim_end_matches(url, "/"@);
    let m = mimir_push_url(url);
    let l = loki_push_url(url);
    if contains(url, "/push"@) {
        assert(m == url && l == url);
    } else {
        lemma_push_paths();
        assert(l == base + "/loki/api/v1/push"@);
        lemma_push_suffix(base, "/loki/api/v1"@, "/loki/api/v1/push"@);
        if contains(url, "/api/prom"@) || contains(url, "/api/v1"@) {
            assert(m == base + "/push"@);
            lemma_ends_occurs(base, "/push"@);
        } else {
            assert(m == base + "/api/v1/push"@);
            lemma_push_suffix(base, "/api/v1"@, "/api/v1/push"@);
        }
    }
}

/// `base + tail` names "/push" when `tail` is `head` followed by "/push".
proof fn lemma_push_suffix(base: Seq<char>, head: Seq<char>, tail: Seq<char>)
    requires
        tail == head + "/push"@,
    ensures
        contains(base + tail, "/push"@),
{
    lemma_ends_occurs(base + head, "/push"@);
    assert(base + tail =~= base + head + "/push"@);
}

/// The text "/api/v1/push" is "/api/v1" and "/push", and likewise for Loki's push path.
proof fn lemma_push_paths()
    ensures
        "/api/v1/push"@ == "/api/v1"@ + "/push"@,
        "/loki/api/v1/push"@ == "/loki/api/v1"@ + "/push"@,
{
    reveal_strlit("/push");
    reveal_strlit("/api/v1/push");
    reveal_strlit("/loki/api/v1/push");
    reveal_strlit("/api/v1");
    reveal_strlit("/loki/api/v1");
    assert("/api/v1/push"@ =~= "/api/v1"@ + "/push"@);
    assert("/loki/api/v1/push"@ =~= "/loki/api/v1"@ + "/push"@);
}

/// The collector configuration for the telemetry settings `config` (see `alloy_config_text`).
pub fn generate_config(config: &str) -> (r: String)
    ensures
        r@ == alloy_config_text(config@),
{
    let mode = setting_of(config, "mode", "cloud");
    let token = setting_of(config, "api_token", "");
    proof {
        reveal_strlit("");
        assert(""@ =~= Seq::<char>::empty());
    }
    let cloud = crate::text::str_eq(mode.as_str(), "cloud") && !token.as_str().is_empty();
    let mut r = owned(ALLOY_HEAD);
    r.append(mimir_push(setting_of(config, "mimir_endpoint_url", "").as_str()).as_str());
    r.append(ALLOY_AFTER_MIMIR);
    r.append(auth(cloud, setting_of(config, "mimir_user_id", "").as_str(), token.as_str()).as_str());
    r.append(ALLOY_LOGS);
    r.append(loki_push(setting_of(config, "loki_endpoint_url", "").as_str()).as_str());
    r.append(ALLOY_AFTER_LOKI);
    r.append(auth(cloud, setting_of(config, "loki_user_id", "").as_str(), token.as_str()).as_str());
    r.append(ALLOY_TRACES);
    r.append(TRACES_OUTPUT);
    r.append(ALLOY_TAIL);
    let ep = tempo_grpc(setting_of(config, "tempo_endpoint_url", "").as_str());
    r.append(tempo(cloud, setting_of(config, "tempo_user_id", "").as_str(), token.as_str(), ep.as_str()).as_str());
    r.append(ALLOY_END);
    r
}

/// The configuration used while no telemetry backend is set up.
pub fn generate_default_config() -> (r: String)
    ensures
        r@ == DEFAULT_CONFIG@,
{
    owned(DEFAULT_CONFIG)
}


/// The collector configuration to apply: the one of the first enabled telemetry backend (its
/// settings as JSON text), or the default one when none is enabled.
pub fn alloy_config_for(first_enabled: Option<&str>) -> (r: String)
    ensures
        r@ == match first_enabled {
            Some(c) => alloy_config_text(c@),
            None => DEFAULT_CONFIG@,
        },
{
    match first_enabled {
        Some(c) => generate_config(c),
        None => generate_default_config(),
    }
}

} // verus!
