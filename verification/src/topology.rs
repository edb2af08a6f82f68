//! The topology graph of a Kubernetes cluster: Ingress → Service →
//! Deployment/Rollout → Pod → Node, with a health status on every node.
//!
//! The resources come in as plain records of what the graph reads of them.
use vstd::prelude::*;
use crate::claude::copy_opt;
use crate::json::{json_i64_at, json_i64_field, json_str_at_path, json_str_field2, json_value_text_at, json_value_text_field};
use crate::rollout::status_int;
use crate::text::{
    cat, dec_int, i64_to_string, join, join_strings, lemma_map_push, lemma_take_step, opt_string_view, owned, str_eq,
};

verus! {

// ─── Resources as the graph reads them ─────────────────────────────────────

pub struct OwnerRef {
    pub kind: String,
    pub name: String,
}

pub struct NodeInfo {
    pub name: Option<String>,
    /// Status of the node's "Ready" condition, when it has one.
    pub ready_status: Option<String>,
    pub cpu: Option<String>,
    pub memory: Option<String>,
    pub instance_type: Option<String>,
    pub zone: Option<String>,
}

pub struct DeploymentInfo {
    pub namespace: Option<String>,
    pub name: Option<String>,
    pub replicas: Option<i32>,
    pub ready_replicas: Option<i32>,
    pub available_replicas: Option<i32>,
    /// Labels of the pod template, when it has metadata with labels.
    pub template_labels: Option<Vec<(String, String)>>,
}

pub struct ReplicaSetInfo {
    pub namespace: Option<String>,
    pub name: Option<String>,
    pub owners: Vec<OwnerRef>,
}

pub struct RolloutInfo {
    pub namespace: Option<String>,
    pub name: Option<String>,
    pub phase: Option<String>,
    pub replicas: Option<i64>,
    pub ready_replicas: Option<i64>,
    pub canary: bool,
    pub blue_green: bool,
}

/// Whether the rollout document `doc` has `spec`.`strategy`.`key` (whatever its value).
pub open spec fn has_strategy(doc: Seq<char>, key: Seq<char>) -> bool {
    match json_value_text_at(doc, "spec"@) {
        Some(a) => match json_value_text_at(a, "strategy"@) {
            Some(b) => json_value_text_at(b, key) is Some,
            None => false,
        },
        None => false,
    }
}

/// The integer under `spec`.`key` of `doc`.
pub open spec fn spec_int(doc: Seq<char>, key: Seq<char>) -> Option<i64> {
    match json_value_text_at(doc, "spec"@) {
        Some(a) => json_i64_at(a, key),
        None => None,
    }
}

fn strategy_present(doc: &str, key: &str) -> (b: bool)
    ensures
        b == has_strategy(doc@, key@),
{
    match json_value_text_field(doc, "spec") {
        Some(a) => match json_value_text_field(a.as_str(), "strategy") {
            Some(b) => json_value_text_field(b.as_str(), key).is_some(),
            None => false,
        },
        None => false,
    }
}

impl RolloutInfo {
    /// The rollout in namespace `namespace` named `name` whose object (as JSON) is `doc`: its
    /// phase and ready count from its status, its desired count from its spec, and which
    /// strategies its spec names.
    pub fn from_json(namespace: Option<String>, name: Option<String>, doc: &str) -> (r: RolloutInfo)
        ensures
            r.namespace == namespace,
            r.name == name,
            opt_string_view(r.phase) == json_str_at_path(doc@, seq!["status"@, "phase"@]),
            r.replicas == spec_int(doc@, "replicas"@),
            r.ready_replicas == status_int(doc@, "readyReplicas"@),
            r.canary == has_strategy(doc@, "canary"@),
            r.blue_green == has_strategy(doc@, "blueGreen"@),
    {
        let phase = json_str_field2(doc, "status", "phase");
        let replicas = match json_value_text_field(doc, "spec") {
            Some(a) => json_i64_field(a.as_str(), "replicas"),
            None => None,
        };
        let ready_replicas = match json_value_text_field(doc, "status") {
            Some(a) => json_i64_field(a.as_str(), "readyReplicas"),
            None => None,
        };
        RolloutInfo {
            namespace,
            name,
            phase,
            replicas,
            ready_replicas,
            canary: strategy_present(doc, "canary"),
            blue_green: strategy_present(doc, "blueGreen"),
        }
    }
}

pub struct PodInfo {
    pub namespace: Option<String>,
    pub name: Option<String>,
    pub phase: Option<String>,
    pub node_name: Option<String>,
    pub pod_ip: Option<String>,
    /// The waiting reason of each container status (`None` for a container not waiting).
    pub waiting_reasons: Vec<Option<String>>,
    /// Number of containers in the pod spec, when the pod has a spec.
    pub container_count: Option<usize>,
    pub owners: Vec<OwnerRef>,
}

pub struct ServiceInfo {
    pub namespace: Option<String>,
    pub name: Option<String>,
    pub service_type: Option<String>,
    pub ports: Vec<i32>,
    pub selector: Option<Vec<(String, String)>>,
}

pub struct IngressPath {
    pub path: Option<String>,
    pub service: Option<String>,
}

pub struct IngressRule {
    pub host: Option<String>,
    /// The HTTP paths of the rule, when it has an HTTP part.
    pub paths: Option<Vec<IngressPath>>,
}

pub struct IngressInfo {
    pub namespace: Option<String>,
    pub name: Option<String>,
    pub rules: Option<Vec<IngressRule>>,
}

/// Everything listed from one cluster.
pub struct ClusterResources {
    pub nodes: Vec<NodeInfo>,
    pub deployments: Vec<DeploymentInfo>,
    pub replica_sets: Vec<ReplicaSetInfo>,
    pub rollouts: Vec<RolloutInfo>,
    pub pods: Vec<PodInfo>,
    pub services: Vec<ServiceInfo>,
    pub ingresses: Vec<IngressInfo>,
}

// ─── The graph ─────────────────────────────────────────────────────────────

pub struct TopoNode {
    pub id: String,
    pub label: String,
    pub subtitle: Option<String>,
    /// "ingress", "service", "deployment", "rollout", "pod" or "node".
    pub kind: String,
    pub namespace: String,
    pub cluster: String,
    pub cluster_id: String,
    /// "healthy", "warning", "critical" or "unknown".
    pub status: String,
    pub replicas: Option<String>,
    pub node_name: Option<String>,
    pub cpu: Option<String>,
    pub memory: Option<String>,
    pub ip: Option<String>,
    pub containers: Option<i32>,
}

pub struct TopoEdge {
    pub id: String,
    pub source: String,
    pub target: String,
    pub label: Option<String>,
}

pub open spec fn ov(o: Option<String>) -> Option<Seq<char>> {
    match o {
        Some(s) => Some(s@),
        None => None,
    }
}

/// A node of the graph as plain values.
pub struct NodeView {
    pub id: Seq<char>,
    pub label: Seq<char>,
    pub subtitle: Option<Seq<char>>,
    pub kind: Seq<char>,
    pub namespace: Seq<char>,
    pub cluster: Seq<char>,
    pub cluster_id: Seq<char>,
    pub status: Seq<char>,
    pub replicas: Option<Seq<char>>,
    pub node_name: Option<Seq<char>>,
    pub cpu: Option<Seq<char>>,
    pub memory: Option<Seq<char>>,
    pub ip: Option<Seq<char>>,
    pub containers: Option<i32>,
}

/// An edge of the graph as plain values.
pub struct EdgeView {
    pub id: Seq<char>,
    pub source: Seq<char>,
    pub target: Seq<char>,
    pub label: Option<Seq<char>>,
}

impl View for TopoNode {
    type V = NodeView;

    open spec fn view(&self) -> NodeView {
        NodeView {
            id: self.id@,
            label: self.label@,
            subtitle: ov(self.subtitle),
            kind: self.kind@,
            namespace: self.namespace@,
            cluster: self.cluster@,
            cluster_id: self.cluster_id@,
            status: self.status@,
            replicas: ov(self.replicas),
            node_name: ov(self.node_name),
            cpu: ov(self.cpu),
            memory: ov(self.memory),
            ip: ov(self.ip),
            containers: self.containers,
        }
    }
}

impl View for TopoEdge {
    type V = EdgeView;

    open spec fn view(&self) -> EdgeView {
        EdgeView { id: self.id@, source: self.source@, target: self.target@, label: ov(self.label) }
    }
}

pub open spec fn nodes_view(v: Seq<TopoNode>) -> Seq<NodeView> {
    v.map_values(|n: TopoNode| n@)
}

pub open spec fn edges_view(v: Seq<TopoEdge>) -> Seq<EdgeView> {
    v.map_values(|e: TopoEdge| e@)
}

/// The cluster a graph is built for.
pub struct ClusterCtx {
    pub cluster_name: String,
    pub cluster_id: String,
}

/// A node of `ctx`'s cluster with no extra details.
pub open spec fn plain_node(
    ctx: ClusterCtx,
    id: Seq<char>,
    label: Seq<char>,
    subtitle: Option<Seq<char>>,
    kind: Seq<char>,
    ns: Seq<char>,
    status: Seq<char>,
) -> NodeView {
    NodeView {
        id,
        label,
        subtitle,
        kind,
        namespace: ns,
        cluster: ctx.cluster_name@,
        cluster_id: ctx.cluster_id@,
        status,
        replicas: None,
        node_name: None,
        cpu: None,
        memory: None,
        ip: None,
        containers: None,
    }
}

impl ClusterCtx {
    /// A node of this cluster with the given identity and status and no extra details.
    pub fn node(&self, id: String, label: String, subtitle: Option<String>, kind: &str, namespace: &str, status: &str) -> (r: TopoNode)
        ensures
            r@ == plain_node(*self, id@, label@, ov(subtitle), kind@, namespace@, status@),
    {
        TopoNode {
            id,
            label,
            subtitle,
            kind: owned(kind),
            namespace: owned(namespace),
            cluster: self.cluster_name.clone(),
            cluster_id: self.cluster_id.clone(),
            status: owned(status),
            replicas: None,
            node_name: None,
            cpu: None,
            memory: None,
            ip: None,
            containers: None,
        }
    }
}

// ─── Namespaces left out ───────────────────────────────────────────────────

/// System and platform namespaces, which the graph leaves out.
pub open spec fn excluded_namespaces() -> Seq<Seq<char>> {
    seq![
        "kube-system"@, "kube-public"@, "kube-node-lease"@, "argo-rollouts"@, "argocd"@, "cert-manager"@,
        "external-secrets"@, "monitoring"@, "grafana"@, "loki"@, "mimir"@, "tempo"@, "ingress-nginx"@,
        "karpenter"@,
    ]
}

pub fn is_excluded_ns(ns: &str) -> (b: bool)
    ensures
        b == excluded_namespaces().contains(ns@),
{
    let names: [&str; 14] = [
        "kube-system", "kube-public", "kube-node-lease", "argo-rollouts", "argocd", "cert-manager",
        "external-secrets", "monitoring", "grafana", "loki", "mimir", "tempo", "ingress-nginx", "karpenter",
    ];
    let ghost ex = excluded_namespaces();
    proof {
        assert(names@.map_values(|s: &str| s@) =~= ex);
    }
    let mut i: usize = 0;
    while i < 14
        invariant
            i <= 14,
            ex == excluded_namespaces(),
            names@.map_values(|s: &str| s@) == ex,
            forall|j: int| 0 <= j < i ==> ex[j] != ns@,
        decreases 14 - i,
    {
        if str_eq(names[i], ns) {
            proof {
                assert(ex[i as int] == ns@);
            }
            return true;
        }
        i = i + 1;
    }
    false
}

// ─── What each resource contributes ────────────────────────────────────────

pub open spec fn ns_of(o: Option<String>) -> Seq<char> {
    match o {
        Some(s) => s@,
        None => "default"@,
    }
}

pub open spec fn name_of(o: Option<String>) -> Seq<char> {
    match o {
        Some(s) => s@,
        None => "unknown"@,
    }
}

pub open spec fn node_health(ready: Option<String>) -> Seq<char> {
    match ready {
        Some(s) => if s@ == "True"@ { "healthy"@ } else { "critical"@ },
        None => "unknown"@,
    }
}

pub open spec fn node_subtitle(it: Option<String>, z: Option<String>) -> Option<Seq<char>> {
    match (it, z) {
        (Some(i), Some(z)) => Some(i@ + " · "@ + z@),
        (Some(i), None) => Some(i@),
        (None, Some(z)) => Some(z@),
        (None, None) => None,
    }
}

/// The graph node of a cluster node.
pub open spec fn k8s_node_view(ctx: ClusterCtx, n: NodeInfo) -> NodeView {
    let base = plain_node(
        ctx,
        ctx.cluster_id@ + "/node/"@ + name_of(n.name),
        name_of(n.name),
        node_subtitle(n.instance_type, n.zone),
        "node"@,
        "_cluster_"@,
        node_health(n.ready_status),
    );
    NodeView { cpu: ov(n.cpu), memory: ov(n.memory), ..base }
}

pub open spec fn deploy_id(ctx: ClusterCtx, ns: Seq<char>, name: Seq<char>) -> Seq<char> {
    ctx.cluster_id@ + "/deploy/"@ + ns + "/"@ + name
}

pub open spec fn rollout_id(ctx: ClusterCtx, ns: Seq<char>, name: Seq<char>) -> Seq<char> {
    ctx.cluster_id@ + "/rollout/"@ + ns + "/"@ + name
}

pub open spec fn pod_id(ctx: ClusterCtx, ns: Seq<char>, name: Seq<char>) -> Seq<char> {
    ctx.cluster_id@ + "/pod/"@ + ns + "/"@ + name
}

pub open spec fn svc_id(ctx: ClusterCtx, ns: Seq<char>, name: Seq<char>) -> Seq<char> {
    ctx.cluster_id@ + "/svc/"@ + ns + "/"@ + name
}

pub open spec fn ingress_id(ctx: ClusterCtx, ns: Seq<char>, name: Seq<char>) -> Seq<char> {
    ctx.cluster_id@ + "/ingress/"@ + ns + "/"@ + name
}

pub open spec fn or_i32(o: Option<i32>, d: i32) -> i32 {
    match o {
        Some(x) => x,
        None => d,
    }
}

pub open spec fn or_i64(o: Option<i64>, d: i64) -> i64 {
    match o {
        Some(x) => x,
        None => d,
    }
}

/// A deployment is healthy with all its replicas available, degraded with some ready, and
/// critical with none.
pub open spec fn deploy_health(d: DeploymentInfo) -> Seq<char> {
    let desired = or_i32(d.replicas, 1);
    if or_i32(d.available_replicas, 0) >= desired {
        "healthy"@
    } else if or_i32(d.ready_replicas, 0) > 0 {
        "warning"@
    } else {
        "critical"@
    }
}

pub open spec fn deploy_view(ctx: ClusterCtx, d: DeploymentInfo) -> NodeView {
    let ns = ns_of(d.namespace);
    let name = name_of(d.name);
    let counts = dec_int(or_i32(d.ready_replicas, 0) as int) + "/"@ + dec_int(or_i32(d.replicas, 1) as int);
    NodeView {
        replicas: Some(counts),
        ..plain_node(ctx, deploy_id(ctx, ns, name), name, Some(counts + " ready"@), "deployment"@, ns, deploy_health(d))
    }
}

pub open spec fn rollout_health(phase: Seq<char>) -> Seq<char> {
    if phase == "Healthy"@ {
        "healthy"@
    } else if phase == "Progressing"@ || phase == "Paused"@ {
        "warning"@
    } else if phase == "Degraded"@ {
        "critical"@
    } else {
        "unknown"@
    }
}

pub open spec fn rollout_phase(r: RolloutInfo) -> Seq<char> {
    match r.phase {
        Some(p) => p@,
        None => "Unknown"@,
    }
}

pub open spec fn rollout_strategy(r: RolloutInfo) -> Seq<char> {
    if r.canary {
        "canary"@
    } else if r.blue_green {
        "blueGreen"@
    } else {
        "unknown"@
    }
}

pub open spec fn rollout_view(ctx: ClusterCtx, r: RolloutInfo) -> NodeView {
    let ns = ns_of(r.namespace);
    let name = name_of(r.name);
    NodeView {
        replicas: Some(dec_int(or_i64(r.ready_replicas, 0) as int) + "/"@ + dec_int(or_i64(r.replicas, 1) as int)),
        ..plain_node(
            ctx,
            rollout_id(ctx, ns, name),
            name,
            Some(rollout_phase(r) + " · "@ + rollout_strategy(r)),
            "rollout"@,
            ns,
            rollout_health(rollout_phase(r)),
        )
    }
}

pub open spec fn is_crash_reason(r: Option<String>) -> bool {
    r matches Some(x) && x@ == "CrashLoopBackOff"@
}

pub open spec fn crash_looping(reasons: Seq<Option<String>>) -> bool {
    exists|i: int| 0 <= i < reasons.len() && is_crash_reason(#[trigger] reasons[i])
}

pub open spec fn pod_phase(p: PodInfo) -> Seq<char> {
    match p.phase {
        Some(x) => x@,
        None => "Unknown"@,
    }
}

/// A crash-looping pod is critical; otherwise its phase decides.
pub open spec fn pod_health(p: PodInfo) -> Seq<char> {
    if crash_looping(p.waiting_reasons@) {
        "critical"@
    } else if pod_phase(p) == "Running"@ || pod_phase(p) == "Succeeded"@ {
        "healthy"@
    } else if pod_phase(p) == "Pending"@ {
        "warning"@
    } else if pod_phase(p) == "Failed"@ {
        "critical"@
    } else {
        "unknown"@
    }
}

pub open spec fn pod_view(ctx: ClusterCtx, p: PodInfo) -> NodeView {
    let ns = ns_of(p.namespace);
    let name = name_of(p.name);
    let subtitle = match p.node_name {
        Some(nn) => pod_phase(p) + " · "@ + nn@,
        None => pod_phase(p),
    };
    NodeView {
        node_name: ov(p.node_name),
        ip: ov(p.pod_ip),
        containers: match p.container_count {
            Some(c) => if c <= i32::MAX { Some(c as i32) } else { None },
            None => None,
        },
        ..plain_node(ctx, pod_id(ctx, ns, name), name, Some(subtitle), "pod"@, ns, pod_health(p))
    }
}

/// The owner of kind `kind` that the last listing of replica set `ns`/`rs` names last.
pub open spec fn last_owner(owners: Seq<OwnerRef>, kind: Seq<char>) -> Option<Seq<char>>
    decreases owners.len(),
{
    if owners.len() == 0 {
        None
    } else if owners.last().kind@ == kind {
        Some(owners.last().name@)
    } else {
        last_owner(owners.drop_last(), kind)
    }
}

/// The workload of kind `kind` owning replica set `ns`/`rs`: the last such owner recorded, as a
/// map filled in listing order keeps it.
pub open spec fn rs_owner(rss: Seq<ReplicaSetInfo>, kind: Seq<char>, ns: Seq<char>, rs: Seq<char>) -> Option<Seq<char>>
    decreases rss.len(),
{
    if rss.len() == 0 {
        None
    } else {
        let r = rss.last();
        if ns_of(r.namespace) == ns && name_of(r.name) == rs && last_owner(r.owners@, kind) is Some {
            last_owner(r.owners@, kind)
        } else {
            rs_owner(rss.drop_last(), kind, ns, rs)
        }
    }
}

pub open spec fn edge(id: Seq<char>, source: Seq<char>, target: Seq<char>, label: Option<Seq<char>>) -> EdgeView {
    EdgeView { id, source, target, label }
}

/// The edges from the workloads owning the replica sets in `owners` to pod `ns`/`name`.
pub open spec fn owner_edges(ctx: ClusterCtx, rss: Seq<ReplicaSetInfo>, ns: Seq<char>, name: Seq<char>, owners: Seq<OwnerRef>) -> Seq<EdgeView>
    decreases owners.len(),
{
    if owners.len() == 0 {
        Seq::empty()
    } else {
        let prev = owner_edges(ctx, rss, ns, name, owners.drop_last());
        let o = owners.last();
        if o.kind@ == "ReplicaSet"@ {
            let d = match rs_owner(rss, "Deployment"@, ns, o.name@) {
                Some(dn) => seq![edge("e-deploy-"@ + ns + "-"@ + dn + "-pod-"@ + name, deploy_id(ctx, ns, dn), pod_id(ctx, ns, name), None)],
                None => Seq::empty(),
            };
            let r = match rs_owner(rss, "Rollout"@, ns, o.name@) {
                Some(rn) => seq![edge("e-rollout-"@ + ns + "-"@ + rn + "-pod-"@ + name, rollout_id(ctx, ns, rn), pod_id(ctx, ns, name), None)],
                None => Seq::empty(),
            };
            prev + d + r
        } else {
            prev
        }
    }
}

/// The edges of a pod: to its node, then from the workloads that own it.
pub open spec fn pod_edges(ctx: ClusterCtx, rss: Seq<ReplicaSetInfo>, p: PodInfo) -> Seq<EdgeView> {
    let ns = ns_of(p.namespace);
    let name = name_of(p.name);
    (match p.node_name {
        Some(nn) => seq![edge("e-pod-"@ + ns + "-"@ + name + "-node-"@ + nn@, pod_id(ctx, ns, name), ctx.cluster_id@ + "/node/"@ + nn@, None)],
        None => Seq::empty(),
    }) + owner_edges(ctx, rss, ns, name, p.owners@)
}

/// The value of `key` in a label list (its first entry for that key).
pub open spec fn label_value(labels: Seq<(String, String)>, key: Seq<char>) -> Option<Seq<char>>
    decreases labels.len(),
{
    if labels.len() == 0 {
        None
    } else if labels[0].0@ == key {
        Some(labels[0].1@)
    } else {
        label_value(labels.skip(1), key)
    }
}

/// Every entry of the selector is among the labels.
pub open spec fn selects(selector: Seq<(String, String)>, labels: Seq<(String, String)>) -> bool {
    forall|i: int| 0 <= i < selector.len() ==> label_value(labels, (#[trigger] selector[i]).0@) == Some(selector[i].1@)
}

pub open spec fn ports_text(ports: Seq<i32>) -> Seq<char> {
    join(ports.map_values(|p: i32| dec_int(p as int)), ","@)
}

pub open spec fn service_view(ctx: ClusterCtx, s: ServiceInfo) -> NodeView {
    let ns = ns_of(s.namespace);
    let name = name_of(s.name);
    let t = match s.service_type {
        Some(x) => x@,
        None => "ClusterIP"@,
    };
    plain_node(ctx, svc_id(ctx, ns, name), name, Some(t + " · :"@ + ports_text(s.ports@)), "service"@, ns, "healthy"@)
}

/// The edges from a service (selecting with `sel`) to the deployments of its namespace whose pod
/// template carries every selected label.
pub open spec fn selector_edges(ctx: ClusterCtx, s: ServiceInfo, sel: Seq<(String, String)>, ds: Seq<DeploymentInfo>) -> Seq<EdgeView>
    decreases ds.len(),
{
    if ds.len() == 0 {
        Seq::empty()
    } else {
        let prev = selector_edges(ctx, s, sel, ds.drop_last());
        let d = ds.last();
        let ns = ns_of(s.namespace);
        let sid = svc_id(ctx, ns, name_of(s.name));
        if ns_of(d.namespace) == ns && (d.template_labels matches Some(l) && selects(sel, l@)) {
            prev.push(edge("e-"@ + sid + "-deploy-"@ + name_of(d.name), sid, deploy_id(ctx, ns, name_of(d.name)), None))
        } else {
            prev
        }
    }
}

/// The edges of a service: to the deployments it selects, and to the rollout of the same name
/// when the graph has one (services without a selector have none).
pub open spec fn service_edges(ctx: ClusterCtx, s: ServiceInfo, ds: Seq<DeploymentInfo>, ids: Seq<Seq<char>>) -> Seq<EdgeView> {
    let ns = ns_of(s.namespace);
    let name = name_of(s.name);
    let sid = svc_id(ctx, ns, name);
    match s.selector {
        Some(sel) => selector_edges(ctx, s, sel@, ds) + if ids.contains(rollout_id(ctx, ns, name)) {
            seq![edge("e-"@ + sid + "-rollout-"@ + name, sid, rollout_id(ctx, ns, name), None)]
        } else {
            Seq::empty()
        },
        None => Seq::empty(),
    }
}

pub open spec fn rule_hosts(rules: Seq<IngressRule>) -> Seq<Seq<char>>
    decreases rules.len(),
{
    if rules.len() == 0 {
        Seq::empty()
    } else {
        rule_hosts(rules.drop_last()) + match rules.last().host {
            Some(h) => seq![h@],
            None => Seq::empty(),
        }
    }
}

pub open spec fn ingress_view(ctx: ClusterCtx, g: IngressInfo) -> NodeView {
    let ns = ns_of(g.namespace);
    let name = name_of(g.name);
    let hosts = match g.rules {
        Some(r) => rule_hosts(r@),
        None => Seq::empty(),
    };
    plain_node(
        ctx,
        ingress_id(ctx, ns, name),
        name,
        if hosts.len() == 0 { None } else { Some(join(hosts, ", "@)) },
        "ingress"@,
        ns,
        "healthy"@,
    )
}

pub open spec fn path_edges(ctx: ClusterCtx, ns: Seq<char>, gid: Seq<char>, paths: Seq<IngressPath>) -> Seq<EdgeView>
    decreases paths.len(),
{
    if paths.len() == 0 {
        Seq::empty()
    } else {
        path_edges(ctx, ns, gid, paths.drop_last()) + match paths.last().service {
            Some(svc) => seq![edge("e-"@ + gid + "-"@ + svc@, gid, svc_id(ctx, ns, svc@), Some(match paths.last().path {
                Some(p) => p@,
                None => "/*"@,
            }))],
            None => Seq::empty(),
        }
    }
}

pub open spec fn rules_edges(ctx: ClusterCtx, ns: Seq<char>, gid: Seq<char>, rules: Seq<IngressRule>) -> Seq<EdgeView>
    decreases rules.len(),
{
    if rules.len() == 0 {
        Seq::empty()
    } else {
        rules_edges(ctx, ns, gid, rules.drop_last()) + match rules.last().paths {
            Some(ps) => path_edges(ctx, ns, gid, ps@),
            None => Seq::empty(),
        }
    }
}

/// The edges of an ingress: to the backend service of each HTTP path, labelled with the path.
pub open spec fn ingress_edges(ctx: ClusterCtx, g: IngressInfo) -> Seq<EdgeView> {
    let ns = ns_of(g.namespace);
    match g.rules {
        Some(r) => rules_edges(ctx, ns, ingress_id(ctx, ns, name_of(g.name)), r@),
        None => Seq::empty(),
    }
}

// ─── Sections of the graph ─────────────────────────────────────────────────

pub open spec fn node_section(ctx: ClusterCtx, ns: Seq<NodeInfo>) -> Seq<NodeView>
    decreases ns.len(),
{
    if ns.len() == 0 {
        Seq::empty()
    } else {
        node_section(ctx, ns.drop_last()).push(k8s_node_view(ctx, ns.last()))
    }
}

pub open spec fn deploy_section(ctx: ClusterCtx, ds: Seq<DeploymentInfo>) -> Seq<NodeView>
    decreases ds.len(),
{
    if ds.len() == 0 {
        Seq::empty()
    } else if excluded_namespaces().contains(ns_of(ds.last().namespace)) {
        deploy_section(ctx, ds.drop_last())
    } else {
        deploy_section(ctx, ds.drop_last()).push(deploy_view(ctx, ds.last()))
    }
}

pub open spec fn rollout_section(ctx: ClusterCtx, rs: Seq<RolloutInfo>) -> Seq<NodeView>
    decreases rs.len(),
{
    if rs.len() == 0 {
        Seq::empty()
    } else if excluded_namespaces().contains(ns_of(rs.last().namespace)) {
        rollout_section(ctx, rs.drop_last())
    } else {
        rollout_section(ctx, rs.drop_last()).push(rollout_view(ctx, rs.last()))
    }
}

pub open spec fn pod_section(ctx: ClusterCtx, ps: Seq<PodInfo>) -> Seq<NodeView>
    decreases ps.len(),
{
    if ps.len() == 0 {
        Seq::empty()
    } else if excluded_namespaces().contains(ns_of(ps.last().namespace)) {
        pod_section(ctx, ps.drop_last())
    } else {
        pod_section(ctx, ps.drop_last()).push(pod_view(ctx, ps.last()))
    }
}

pub open spec fn pod_edge_section(ctx: ClusterCtx, rss: Seq<ReplicaSetInfo>, ps: Seq<PodInfo>) -> Seq<EdgeView>
    decreases ps.len(),
{
    if ps.len() == 0 {
        Seq::empty()
    } else if excluded_namespaces().contains(ns_of(ps.last().namespace)) {
        pod_edge_section(ctx, rss, ps.drop_last())
    } else {
        pod_edge_section(ctx, rss, ps.drop_last()) + pod_edges(ctx, rss, ps.last())
    }
}

pub open spec fn service_section(ctx: ClusterCtx, ss: Seq<ServiceInfo>) -> Seq<NodeView>
    decreases ss.len(),
{
    if ss.len() == 0 {
        Seq::empty()
    } else if excluded_namespaces().contains(ns_of(ss.last().namespace)) {
        service_section(ctx, ss.drop_last())
    } else {
        service_section(ctx, ss.drop_last()).push(service_view(ctx, ss.last()))
    }
}

pub open spec fn service_edge_section(ctx: ClusterCtx, ss: Seq<ServiceInfo>, ds: Seq<DeploymentInfo>, ids: Seq<Seq<char>>) -> Seq<EdgeView>
    decreases ss.len(),
{
    if ss.len() == 0 {
        Seq::empty()
    } else if excluded_namespaces().contains(ns_of(ss.last().namespace)) {
        service_edge_section(ctx, ss.drop_last(), ds, ids)
    } else {
        service_edge_section(ctx, ss.drop_last(), ds, ids) + service_edges(ctx, ss.last(), ds, ids)
    }
}

pub open spec fn ingress_section(ctx: ClusterCtx, gs: Seq<IngressInfo>) -> Seq<NodeView>
    decreases gs.len(),
{
    if gs.len() == 0 {
        Seq::empty()
    } else if excluded_namespaces().contains(ns_of(gs.last().namespace)) {
        ingress_section(ctx, gs.drop_last())
    } else {
        ingress_section(ctx, gs.drop_last()).push(ingress_view(ctx, gs.last()))
    }
}

pub open spec fn ingress_edge_section(ctx: ClusterCtx, gs: Seq<IngressInfo>) -> Seq<EdgeView>
    decreases gs.len(),
{
    if gs.len() == 0 {
        Seq::empty()
    } else if excluded_namespaces().contains(ns_of(gs.last().namespace)) {
        ingress_edge_section(ctx, gs.drop_last())
    } else {
        ingress_edge_section(ctx, gs.drop_last()) + ingress_edges(ctx, gs.last())
    }
}

/// The nodes that precede the services: cluster nodes, deployments, rollouts and pods.
pub open spec fn workload_nodes(ctx: ClusterCtx, res: ClusterResources) -> Seq<NodeView> {
    node_section(ctx, res.nodes@) + deploy_section(ctx, res.deployments@) + rollout_section(ctx, res.rollouts@)
        + pod_section(ctx, res.pods@)
}

pub open spec fn ids_of(ns: Seq<NodeView>) -> Seq<Seq<char>> {
    ns.map_values(|n: NodeView| n.id)
}

/// All nodes of the cluster's graph, tier by tier.
pub open spec fn graph_nodes(ctx: ClusterCtx, res: ClusterResources) -> Seq<NodeView> {
    workload_nodes(ctx, res) + service_section(ctx, res.services@) + ingress_section(ctx, res.ingresses@)
}

/// All edges of the cluster's graph: pod edges, service edges, ingress edges.
pub open spec fn graph_edges(ctx: ClusterCtx, res: ClusterResources) -> Seq<EdgeView> {
    pod_edge_section(ctx, res.replica_sets@, res.pods@) + service_edge_section(
        ctx,
        res.services@,
        res.deployments@,
        ids_of(workload_nodes(ctx, res)),
    ) + ingress_edge_section(ctx, res.ingresses@)
}

// ─── Building the graph ────────────────────────────────────────────────────

fn ns_text(o: &Option<String>) -> (r: String)
    ensures
        r@ == ns_of(*o),
{
    match o {
        Some(s) => s.clone(),
        None => owned("default"),
    }
}

fn name_text(o: &Option<String>) -> (r: String)
    ensures
        r@ == name_of(*o),
{
    match o {
        Some(s) => s.clone(),
        None => owned("unknown"),
    }
}

fn path_id(cid: &str, tier: &str, ns: &str, name: &str) -> (r: String)
    ensures
        r@ == cid@ + tier@ + ns@ + "/"@ + name@,
{
    let mut out = owned(cid);
    out.append(tier);
    out.append(ns);
    out.append("/");
    out.append(name);
    out
}

fn int_text(x: i64) -> (r: String)
    ensures
        r@ == dec_int(x as int),
{
    i64_to_string(x)
}

fn k8s_node_of(ctx: &ClusterCtx, n: &NodeInfo) -> (r: TopoNode)
    ensures
        r@ == k8s_node_view(*ctx, *n),
{
    let name = name_text(&n.name);
    let health = match &n.ready_status {
        Some(s) => if str_eq(s.as_str(), "True") { "healthy" } else { "critical" },
        None => "unknown",
    };
    let subtitle = match (&n.instance_type, &n.zone) {
        (Some(i), Some(z)) => Some(crate::text::cat3(i.as_str(), " · ", z.as_str())),
        (Some(i), None) => Some(i.clone()),
        (None, Some(z)) => Some(z.clone()),
        (None, None) => None,
    };
    let mut id = ctx.cluster_id.clone();
    id.append("/node/");
    id.append(name.as_str());
    let mut node = ctx.node(id, name, subtitle, "node", "_cluster_", health);
    node.cpu = copy_opt(&n.cpu);
    node.memory = copy_opt(&n.memory);
    node
}

fn deploy_node_of(ctx: &ClusterCtx, d: &DeploymentInfo) -> (r: TopoNode)
    ensures
        r@ == deploy_view(*ctx, *d),
{
    let ns = ns_text(&d.namespace);
    let name = name_text(&d.name);
    let desired: i32 = match d.replicas {
        Some(x) => x,
        None => 1,
    };
    let ready: i32 = match d.ready_replicas {
        Some(x) => x,
        None => 0,
    };
    let available: i32 = match d.available_replicas {
        Some(x) => x,
        None => 0,
    };
    let health = if available >= desired {
        "healthy"
    } else if ready > 0 {
        "warning"
    } else {
        "critical"
    };
    let counts = crate::text::cat3(int_text(ready as i64).as_str(), "/", int_text(desired as i64).as_str());
    let id = path_id(ctx.cluster_id.as_str(), "/deploy/", ns.as_str(), name.as_str());
    let mut node = ctx.node(id, name, Some(cat(counts.as_str(), " ready")), "deployment", ns.as_str(), health);
    node.replicas = Some(counts);
    node
}

fn rollout_node_of(ctx: &ClusterCtx, r: &RolloutInfo) -> (n: TopoNode)
    ensures
        n@ == rollout_view(*ctx, *r),
{
    let ns = ns_text(&r.namespace);
    let name = name_text(&r.name);
    let phase = match &r.phase {
        Some(p) => p.clone(),
        None => owned("Unknown"),
    };
    let desired: i64 = match r.replicas {
        Some(x) => x,
        None => 1,
    };
    let ready: i64 = match r.ready_replicas {
        Some(x) => x,
        None => 0,
    };
    let p = phase.as_str();
    let health = if str_eq(p, "Healthy") {
        "healthy"
    } else if str_eq(p, "Progressing") || str_eq(p, "Paused") {
        "warning"
    } else if str_eq(p, "Degraded") {
        "critical"
    } else {
        "unknown"
    };
    let strategy = if r.canary {
        "canary"
    } else if r.blue_green {
        "blueGreen"
    } else {
        "unknown"
    };
    let id = path_id(ctx.cluster_id.as_str(), "/rollout/", ns.as_str(), name.as_str());
    let mut node = ctx.node(id, name, Some(crate::text::cat3(p, " · ", strategy)), "rollout", ns.as_str(), health);
    node.replicas = Some(crate::text::cat3(int_text(ready).as_str(), "/", int_text(desired).as_str()));
    node
}

fn is_crash_looping(reasons: &Vec<Option<String>>) -> (b: bool)
    ensures
        b == crash_looping(reasons@),
{
    let mut i: usize = 0;
    while i < reasons.len()
        invariant
            i <= reasons.len(),
            forall|j: int| 0 <= j < i ==> !is_crash_reason(#[trigger] reasons@[j]),
        decreases reasons.len() - i,
    {
        match &reasons[i] {
            Some(r) => {
                if str_eq(r.as_str(), "CrashLoopBackOff") {
                    return true;
                }
            },
            None => {},
        }
        i = i + 1;
    }
    false
}

fn pod_node_of(ctx: &ClusterCtx, p: &PodInfo) -> (n: TopoNode)
    ensures
        n@ == pod_view(*ctx, *p),
{
    let ns = ns_text(&p.namespace);
    let name = name_text(&p.name);
    let phase = match &p.phase {
        Some(x) => x.clone(),
        None => owned("Unknown"),
    };
    let ph = phase.as_str();
    let health = if is_crash_looping(&p.waiting_reasons) {
        "critical"
    } else if str_eq(ph, "Running") || str_eq(ph, "Succeeded") {
        "healthy"
    } else if str_eq(ph, "Pending") {
        "warning"
    } else if str_eq(ph, "Failed") {
        "critical"
    } else {
        "unknown"
    };
    let subtitle = match &p.node_name {
        Some(nn) => crate::text::cat3(ph, " · ", nn.as_str()),
        None => owned(ph),
    };
    let id = path_id(ctx.cluster_id.as_str(), "/pod/", ns.as_str(), name.as_str());
    let mut node = ctx.node(id, name, Some(subtitle), "pod", ns.as_str(), health);
    node.node_name = copy_opt(&p.node_name);
    node.ip = copy_opt(&p.pod_ip);
    node.containers = match p.container_count {
        Some(c) => if c <= 2147483647 { Some(c as i32) } else { None },
        None => None,
    };
    node
}

fn last_owner_of(owners: &Vec<OwnerRef>, kind: &str) -> (r: Option<String>)
    ensures
        ov(r) == last_owner(owners@, kind@),
{
    let mut k: usize = owners.len();
    proof {
        assert(owners@.take(owners@.len() as int) =~= owners@);
    }
    while k > 0
        invariant
            k <= owners.len(),
            last_owner(owners@, kind@) == last_owner(owners@.take(k as int), kind@),
        decreases k,
    {
        proof {
            assert(owners@.take(k as int).drop_last() =~= owners@.take(k - 1));
        }
        if str_eq(owners[k - 1].kind.as_str(), kind) {
            return Some(owners[k - 1].name.clone());
        }
        k = k - 1;
    }
    None
}

fn rs_owner_of(rss: &Vec<ReplicaSetInfo>, kind: &str, ns: &str, rs: &str) -> (r: Option<String>)
    ensures
        ov(r) == rs_owner(rss@, kind@, ns@, rs@),
{
    let mut k: usize = rss.len();
    proof {
        assert(rss@.take(rss@.len() as int) =~= rss@);
    }
    while k > 0
        invariant
            k <= rss.len(),
            rs_owner(rss@, kind@, ns@, rs@) == rs_owner(rss@.take(k as int), kind@, ns@, rs@),
        decreases k,
    {
        proof {
            assert(rss@.take(k as int).drop_last() =~= rss@.take(k - 1));
        }
        let r = &rss[k - 1];
        let same = str_eq(ns_text(&r.namespace).as_str(), ns) && str_eq(name_text(&r.name).as_str(), rs);
        if same {
            match last_owner_of(&r.owners, kind) {
                Some(o) => {
                    return Some(o);
                },
                None => {},
            }
        }
        k = k - 1;
    }
    None
}

fn mk_edge(id: String, source: String, target: String, label: Option<String>) -> (e: TopoEdge)
    ensures
        e@ == edge(id@, source@, target@, ov(label)),
{
    TopoEdge { id, source, target, label }
}

fn push_pod_edges(ctx: &ClusterCtx, rss: &Vec<ReplicaSetInfo>, p: &PodInfo, edges: &mut Vec<TopoEdge>)
    ensures
        edges_view(final(edges)@) == edges_view(old(edges)@) + pod_edges(*ctx, rss@, *p),
{
    let ns = ns_text(&p.namespace);
    let name = name_text(&p.name);
    let cid = ctx.cluster_id.as_str();
    let pid = path_id(cid, "/pod/", ns.as_str(), name.as_str());
    let ghost start = edges_view(edges@);
    match &p.node_name {
        Some(nn) => {
            let mut id = owned("e-pod-");
            id.append(ns.as_str());
            id.append("-");
            id.append(name.as_str());
            id.append("-node-");
            id.append(nn.as_str());
            let mut target = owned(cid);
            target.append("/node/");
            target.append(nn.as_str());
            edges.push(mk_edge(id, pid.clone(), target, None));
        },
        None => {},
    }
    let ghost mid = edges_view(edges@);
    proof {
        assert(mid =~= start + match p.node_name {
            Some(nn) => seq![edge("e-pod-"@ + ns@ + "-"@ + name@ + "-node-"@ + nn@, pod_id(*ctx, ns@, name@), ctx.cluster_id@ + "/node/"@ + nn@, None)],
            None => Seq::<EdgeView>::empty(),
        });
    }
    let owners = &p.owners;
    let mut i: usize = 0;
    while i < owners.len()
        invariant
            i <= owners.len(),
            owners@ == p.owners@,
            ns@ == ns_of(p.namespace),
            name@ == name_of(p.name),
            cid@ == ctx.cluster_id@,
            pid@ == pod_id(*ctx, ns@, name@),
            edges_view(edges@) == mid + owner_edges(*ctx, rss@, ns@, name@, owners@.take(i as int)),
        decreases owners.len() - i,
    {
        let o = &owners[i];
        proof {
            assert(owners@.take(i + 1).drop_last() =~= owners@.take(i as int));
        }
        let ghost before = edges_view(edges@);
        if str_eq(o.kind.as_str(), "ReplicaSet") {
            let ghost d_part = match rs_owner(rss@, "Deployment"@, ns@, o.name@) {
                Some(dn) => seq![edge("e-deploy-"@ + ns@ + "-"@ + dn + "-pod-"@ + name@, deploy_id(*ctx, ns@, dn), pod_id(*ctx, ns@, name@), None)],
                None => Seq::<EdgeView>::empty(),
            };
            let ghost r_part = match rs_owner(rss@, "Rollout"@, ns@, o.name@) {
                Some(rn) => seq![edge("e-rollout-"@ + ns@ + "-"@ + rn + "-pod-"@ + name@, rollout_id(*ctx, ns@, rn), pod_id(*ctx, ns@, name@), None)],
                None => Seq::<EdgeView>::empty(),
            };
            match rs_owner_of(rss, "Deployment", ns.as_str(), o.name.as_str()) {
                Some(dn) => {
                    let mut id = owned("e-deploy-");
                    id.append(ns.as_str());
                    id.append("-");
                    id.append(dn.as_str());
                    id.append("-pod-");
                    id.append(name.as_str());
                    edges.push(mk_edge(id, path_id(cid, "/deploy/", ns.as_str(), dn.as_str()), pid.clone(), None));
                },
                None => {},
            }
            proof {
                assert(edges_view(edges@) =~= before + d_part);
            }
            let ghost before2 = edges_view(edges@);
            match rs_owner_of(rss, "Rollout", ns.as_str(), o.name.as_str()) {
                Some(rn) => {
                    let mut id = owned("e-rollout-");
                    id.append(ns.as_str());
                    id.append("-");
                    id.append(rn.as_str());
                    id.append("-pod-");
                    id.append(name.as_str());
                    edges.push(mk_edge(id, path_id(cid, "/rollout/", ns.as_str(), rn.as_str()), pid.clone(), None));
                },
                None => {},
            }
            proof {
                assert(edges_view(edges@) =~= before2 + r_part);
                assert(owner_edges(*ctx, rss@, ns@, name@, owners@.take(i + 1)) == owner_edges(
                    *ctx,
                    rss@,
                    ns@,
                    name@,
                    owners@.take(i as int),
                ) + d_part + r_part);
                assert(edges_view(edges@) =~= mid + owner_edges(*ctx, rss@, ns@, name@, owners@.take(i + 1)));
            }
        } else {
            proof {
                assert(owner_edges(*ctx, rss@, ns@, name@, owners@.take(i + 1)) == owner_edges(
                    *ctx,
                    rss@,
                    ns@,
                    name@,
                    owners@.take(i as int),
                ));
            }
        }
        i = i + 1;
    }
    proof {
        assert(owners@.take(owners@.len() as int) =~= owners@);
        assert(edges_view(edges@) =~= start + pod_edges(*ctx, rss@, *p));
    }
}

fn label_value_of(labels: &Vec<(String, String)>, key: &str) -> (r: Option<String>)
    ensures
        ov(r) == label_value(labels@, key@),
{
    let mut i: usize = 0;
    proof {
        assert(labels@.skip(0) =~= labels@);
    }
    while i < labels.len()
        invariant
            i <= labels.len(),
            label_value(labels@, key@) == label_value(labels@.skip(i as int), key@),
        decreases labels.len() - i,
    {
        proof {
            assert(labels@.skip(i as int).skip(1) =~= labels@.skip(i + 1));
            assert(labels@.skip(i as int)[0] == labels@[i as int]);
        }
        if str_eq(labels[i].0.as_str(), key) {
            return Some(labels[i].1.clone());
        }
        i = i + 1;
    }
    None
}

fn selects_all(selector: &Vec<(String, String)>, labels: &Vec<(String, String)>) -> (b: bool)
    ensures
        b == selects(selector@, labels@),
{
    let mut i: usize = 0;
    while i < selector.len()
        invariant
            i <= selector.len(),
            forall|j: int| 0 <= j < i ==> label_value(labels@, (#[trigger] selector@[j]).0@) == Some(selector@[j].1@),
        decreases selector.len() - i,
    {
        match label_value_of(labels, selector[i].0.as_str()) {
            Some(v) => {
                if !str_eq(v.as_str(), selector[i].1.as_str()) {
                    return false;
                }
            },
            None => {
                return false;
            },
        }
        i = i + 1;
    }
    true
}

fn ports_of(ports: &Vec<i32>) -> (r: String)
    ensures
        r@ == ports_text(ports@),
{
    let mut parts: Vec<String> = Vec::new();
    let mut i: usize = 0;
    while i < ports.len()
        invariant
            i <= ports.len(),
            parts@.map_values(|p: String| p@) == ports@.take(i as int).map_values(|p: i32| dec_int(p as int)),
        decreases ports.len() - i,
    {
        let t = int_text(ports[i] as i64);
        let ghost before = parts@;
        let ghost tg = t;
        parts.push(t);
        proof {
            lemma_take_step(ports@, i as int);
            lemma_map_push(before, tg, |p: String| p@);
            lemma_map_push(ports@.take(i as int), ports@[i as int], |p: i32| dec_int(p as int));
        }
        i = i + 1;
    }
    proof {
        assert(ports@.take(ports@.len() as int) =~= ports@);
    }
    join_strings(&parts, ",")
}

fn service_node_of(ctx: &ClusterCtx, s: &ServiceInfo) -> (n: TopoNode)
    ensures
        n@ == service_view(*ctx, *s),
{
    let ns = ns_text(&s.namespace);
    let name = name_text(&s.name);
    let t = match &s.service_type {
        Some(x) => x.clone(),
        None => owned("ClusterIP"),
    };
    let sub = crate::text::cat3(t.as_str(), " · :", ports_of(&s.ports).as_str());
    let id = path_id(ctx.cluster_id.as_str(), "/svc/", ns.as_str(), name.as_str());
    ctx.node(id, name, Some(sub), "service", ns.as_str(), "healthy")
}

fn has_id(ids: &Vec<String>, id: &str) -> (b: bool)
    ensures
        b == ids@.map_values(|s: String| s@).contains(id@),
{
    let mut i: usize = 0;
    while i < ids.len()
        invariant
            i <= ids.len(),
            forall|j: int| 0 <= j < i ==> (#[trigger] ids@[j])@ != id@,
        decreases ids.len() - i,
    {
        if str_eq(ids[i].as_str(), id) {
            proof {
                assert(ids@.map_values(|s: String| s@)[i as int] == id@);
            }
            return true;
        }
        i = i + 1;
    }
    proof {
        let v = ids@.map_values(|s: String| s@);
        if v.contains(id@) {
            let j = choose|j: int| 0 <= j < v.len() && #[trigger] v[j] == id@;
            assert(ids@[j]@ == id@);
        }
    }
    false
}

fn push_service_edges(
    ctx: &ClusterCtx,
    s: &ServiceInfo,
    ds: &Vec<DeploymentInfo>,
    ids: &Vec<String>,
    edges: &mut Vec<TopoEdge>,
)
    ensures
        edges_view(final(edges)@) == edges_view(old(edges)@) + service_edges(
            *ctx,
            *s,
            ds@,
            ids@.map_values(|x: String| x@),
        ),
{
    let sel = match &s.selector {
        Some(sel) => sel,
        None => {
            proof {
                assert(edges_view(edges@) =~= edges_view(edges@) + Seq::<EdgeView>::empty());
            }
            return;
        },
    };
    let ns = ns_text(&s.namespace);
    let name = name_text(&s.name);
    let cid = ctx.cluster_id.as_str();
    let sid = path_id(cid, "/svc/", ns.as_str(), name.as_str());
    let ghost start = edges_view(edges@);
    let mut i: usize = 0;
    while i < ds.len()
        invariant
            i <= ds.len(),
            s.selector == Some(*sel),
            ns@ == ns_of(s.namespace),
            name@ == name_of(s.name),
            cid@ == ctx.cluster_id@,
            sid@ == svc_id(*ctx, ns@, name@),
            edges_view(edges@) == start + selector_edges(*ctx, *s, sel@, ds@.take(i as int)),
        decreases ds.len() - i,
    {
        let d = &ds[i];
        proof {
            lemma_take_step(ds@, i as int);
        }
        let same_ns = str_eq(ns_text(&d.namespace).as_str(), ns.as_str());
        let hit = same_ns && match &d.template_labels {
            Some(l) => selects_all(sel, l),
            None => false,
        };
        if hit {
            let d_name = name_text(&d.name);
            let mut id = owned("e-");
            id.append(sid.as_str());
            id.append("-deploy-");
            id.append(d_name.as_str());
            let e = mk_edge(id, sid.clone(), path_id(cid, "/deploy/", ns.as_str(), d_name.as_str()), None);
            let ghost before = edges@;
            let ghost eg = e;
            edges.push(e);
            proof {
                lemma_map_push(before, eg, |e: TopoEdge| e@);
            }
        }
        proof {
            assert(edges_view(edges@) =~= start + selector_edges(*ctx, *s, sel@, ds@.take(i + 1)));
        }
        i = i + 1;
    }
    proof {
        assert(ds@.take(ds@.len() as int) =~= ds@);
    }
    let ghost mid = edges_view(edges@);
    let rid = path_id(cid, "/rollout/", ns.as_str(), name.as_str());
    if has_id(ids, rid.as_str()) {
        let mut id = owned("e-");
        id.append(sid.as_str());
        id.append("-rollout-");
        id.append(name.as_str());
        let e = mk_edge(id, sid.clone(), rid, None);
        let ghost before = edges@;
        let ghost eg = e;
        edges.push(e);
        proof {
            lemma_map_push(before, eg, |e: TopoEdge| e@);
        }
    }
    proof {
        assert(edges_view(edges@) =~= start + service_edges(*ctx, *s, ds@, ids@.map_values(|x: String| x@)));
    }
}

fn hosts_of(rules: &Vec<IngressRule>) -> (r: Vec<String>)
    ensures
        r@.map_values(|h: String| h@) == rule_hosts(rules@),
{
    let mut out: Vec<String> = Vec::new();
    let mut i: usize = 0;
    while i < rules.len()
        invariant
            i <= rules.len(),
            out@.map_values(|h: String| h@) == rule_hosts(rules@.take(i as int)),
        decreases rules.len() - i,
    {
        proof {
            assert(rules@.take(i + 1).drop_last() =~= rules@.take(i as int));
        }
        match &rules[i].host {
            Some(h) => {
                out.push(h.clone());
            },
            None => {},
        }
        proof {
            assert(out@.map_values(|h: String| h@) =~= rule_hosts(rules@.take(i + 1)));
        }
        i = i + 1;
    }
    proof {
        assert(rules@.take(rules@.len() as int) =~= rules@);
    }
    out
}

fn ingress_node_of(ctx: &ClusterCtx, g: &IngressInfo) -> (n: TopoNode)
    ensures
        n@ == ingress_view(*ctx, *g),
{
    let ns = ns_text(&g.namespace);
    let name = name_text(&g.name);
    let hosts = match &g.rules {
        Some(r) => hosts_of(r),
        None => Vec::new(),
    };
    let subtitle = if hosts.len() == 0 { None } else { Some(join_strings(&hosts, ", ")) };
    let id = path_id(ctx.cluster_id.as_str(), "/ingress/", ns.as_str(), name.as_str());
    ctx.node(id, name, subtitle, "ingress", ns.as_str(), "healthy")
}

fn push_ingress_edges(ctx: &ClusterCtx, g: &IngressInfo, edges: &mut Vec<TopoEdge>)
    ensures
        edges_view(final(edges)@) == edges_view(old(edges)@) + ingress_edges(*ctx, *g),
{
    let rules = match &g.rules {
        Some(r) => r,
        None => {
            proof {
                assert(edges_view(edges@) =~= edges_view(edges@) + Seq::<EdgeView>::empty());
            }
            return;
        },
    };
    let ns = ns_text(&g.namespace);
    let name = name_text(&g.name);
    let cid = ctx.cluster_id.as_str();
    let gid = path_id(cid, "/ingress/", ns.as_str(), name.as_str());
    let ghost start = edges_view(edges@);
    let mut i: usize = 0;
    while i < rules.len()
        invariant
            i <= rules.len(),
            ns@ == ns_of(g.namespace),
            cid@ == ctx.cluster_id@,
            gid@ == ingress_id(*ctx, ns@, name_of(g.name)),
            edges_view(edges@) == start + rules_edges(*ctx, ns@, gid@, rules@.take(i as int)),
        decreases rules.len() - i,
    {
        proof {
            assert(rules@.take(i + 1).drop_last() =~= rules@.take(i as int));
        }
        let ghost before = edges_view(edges@);
        match &rules[i].paths {
            Some(paths) => {
                let mut j: usize = 0;
                while j < paths.len()
                    invariant
                        j <= paths.len(),
                        cid@ == ctx.cluster_id@,
                        edges_view(edges@) == before + path_edges(*ctx, ns@, gid@, paths@.take(j as int)),
                    decreases paths.len() - j,
                {
                    proof {
                        lemma_take_step(paths@, j as int);
                    }
                    let pth = &paths[j];
                    match &pth.service {
                        Some(svc) => {
                            let mut id = owned("e-");
                            id.append(gid.as_str());
                            id.append("-");
                            id.append(svc.as_str());
                            let label = match &pth.path {
                                Some(p) => p.clone(),
                                None => owned("/*"),
                            };
                            let e = mk_edge(id, gid.clone(), path_id(cid, "/svc/", ns.as_str(), svc.as_str()), Some(label));
                            let ghost before2 = edges@;
                            let ghost eg = e;
                            edges.push(e);
                            proof {
                                lemma_map_push(before2, eg, |e: TopoEdge| e@);
                            }
                        },
                        None => {},
                    }
                    proof {
                        assert(edges_view(edges@) =~= before + path_edges(*ctx, ns@, gid@, paths@.take(j + 1)));
                    }
                    j = j + 1;
                }
                proof {
                    assert(paths@.take(paths@.len() as int) =~= paths@);
                }
            },
            None => {},
        }
        proof {
            assert(edges_view(edges@) =~= start + rules_edges(*ctx, ns@, gid@, rules@.take(i + 1)));
        }
        i = i + 1;
    }
    proof {
        assert(rules@.take(rules@.len() as int) =~= rules@);
    }
}

/// The topology graph of one cluster: its nodes tier by tier (cluster nodes, deployments,
/// rollouts, pods, services, ingresses) and the edges between them, system namespaces left out.
pub fn build_topology(ctx: &ClusterCtx, res: &ClusterResources) -> (r: (Vec<TopoNode>, Vec<TopoEdge>))
    ensures
        nodes_view(r.0@) == graph_nodes(*ctx, *res),
        edges_view(r.1@) == graph_edges(*ctx, *res),
{
    let mut nodes: Vec<TopoNode> = Vec::new();
    let mut edges: Vec<TopoEdge> = Vec::new();

    let mut i: usize = 0;
    while i < res.nodes.len()
        invariant
            i <= res.nodes.len(),
            nodes_view(nodes@) == node_section(*ctx, res.nodes@.take(i as int)),
        decreases res.nodes.len() - i,
    {
        proof {
            assert(res.nodes@.take(i + 1).drop_last() =~= res.nodes@.take(i as int));
        }
        nodes.push(k8s_node_of(ctx, &res.nodes[i]));
        proof {
            assert(nodes_view(nodes@) =~= node_section(*ctx, res.nodes@.take(i + 1)));
        }
        i = i + 1;
    }
    proof {
        assert(res.nodes@.take(res.nodes@.len() as int) =~= res.nodes@);
    }
    let ghost n1 = nodes_view(nodes@);

    let mut i: usize = 0;
    while i < res.deployments.len()
        invariant
            i <= res.deployments.len(),
            nodes_view(nodes@) == n1 + deploy_section(*ctx, res.deployments@.take(i as int)),
        decreases res.deployments.len() - i,
    {
        proof {
            lemma_take_step(res.deployments@, i as int);
        }
        let d = &res.deployments[i];
        if !is_excluded_ns(ns_text(&d.namespace).as_str()) {
            let n = deploy_node_of(ctx, d);
            let ghost before = nodes@;
            let ghost ng = n;
            nodes.push(n);
            proof {
                lemma_map_push(before, ng, |n: TopoNode| n@);
            }
        }
        proof {
            assert(nodes_view(nodes@) =~= n1 + deploy_section(*ctx, res.deployments@.take(i + 1)));
        }
        i = i + 1;
    }
    proof {
        assert(res.deployments@.take(res.deployments@.len() as int) =~= res.deployments@);
    }
    let ghost n2 = nodes_view(nodes@);

    let mut i: usize = 0;
    while i < res.rollouts.len()
        invariant
            i <= res.rollouts.len(),
            nodes_view(nodes@) == n2 + rollout_section(*ctx, res.rollouts@.take(i as int)),
        decreases res.rollouts.len() - i,
    {
        proof {
            lemma_take_step(res.rollouts@, i as int);
        }
        let ro = &res.rollouts[i];
        if !is_excluded_ns(ns_text(&ro.namespace).as_str()) {
            let n = rollout_node_of(ctx, ro);
            let ghost before = nodes@;
            let ghost ng = n;
            nodes.push(n);
            proof {
                lemma_map_push(before, ng, |n: TopoNode| n@);
            }
        }
        proof {
            assert(nodes_view(nodes@) =~= n2 + rollout_section(*ctx, res.rollouts@.take(i + 1)));
        }
        i = i + 1;
    }
    proof {
        assert(res.rollouts@.take(res.rollouts@.len() as int) =~= res.rollouts@);
    }
    let ghost n3 = nodes_view(nodes@);

    let mut i: usize = 0;
    while i < res.pods.len()
        invariant
            i <= res.pods.len(),
            nodes_view(nodes@) == n3 + pod_section(*ctx, res.pods@.take(i as int)),
            edges_view(edges@) == pod_edge_section(*ctx, res.replica_sets@, res.pods@.take(i as int)),
        decreases res.pods.len() - i,
    {
        proof {
            lemma_take_step(res.pods@, i as int);
        }
        let p = &res.pods[i];
        if !is_excluded_ns(ns_text(&p.namespace).as_str()) {
            let n = pod_node_of(ctx, p);
            let ghost before = nodes@;
            let ghost ng = n;
            nodes.push(n);
            proof {
                lemma_map_push(before, ng, |n: TopoNode| n@);
            }
            push_pod_edges(ctx, &res.replica_sets, p, &mut edges);
        }
        proof {
            assert(nodes_view(nodes@) =~= n3 + pod_section(*ctx, res.pods@.take(i + 1)));
        }
        i = i + 1;
    }
    proof {
        assert(res.pods@.take(res.pods@.len() as int) =~= res.pods@);
        assert(nodes_view(nodes@) =~= workload_nodes(*ctx, *res));
    }
    let ghost n4 = nodes_view(nodes@);
    let ghost e1 = edges_view(edges@);

    let mut ids: Vec<String> = Vec::new();
    let mut k: usize = 0;
    while k < nodes.len()
        invariant
            k <= nodes.len(),
            ids@.map_values(|x: String| x@) == ids_of(nodes_view(nodes@.take(k as int))),
        decreases nodes.len() - k,
    {
        let id = nodes[k].id.clone();
        let ghost before = ids@;
        let ghost idg = id;
        ids.push(id);
        proof {
            lemma_take_step(nodes@, k as int);
            lemma_map_push(before, idg, |x: String| x@);
            lemma_map_push(nodes@.take(k as int), nodes@[k as int], |n: TopoNode| n@);
            lemma_map_push(nodes_view(nodes@.take(k as int)), nodes@[k as int]@, |n: NodeView| n.id);
        }
        k = k + 1;
    }
    proof {
        assert(nodes@.take(nodes@.len() as int) =~= nodes@);
    }

    let mut i: usize = 0;
    while i < res.services.len()
        invariant
            i <= res.services.len(),
            ids@.map_values(|x: String| x@) == ids_of(n4),
            n4 == workload_nodes(*ctx, *res),
            nodes_view(nodes@) == n4 + service_section(*ctx, res.services@.take(i as int)),
            edges_view(edges@) == e1 + service_edge_section(
                *ctx,
                res.services@.take(i as int),
                res.deployments@,
                ids_of(n4),
            ),
        decreases res.services.len() - i,
    {
        proof {
            lemma_take_step(res.services@, i as int);
        }
        let s = &res.services[i];
        if !is_excluded_ns(ns_text(&s.namespace).as_str()) {
            let n = service_node_of(ctx, s);
            let ghost before = nodes@;
            let ghost ng = n;
            nodes.push(n);
            proof {
                lemma_map_push(before, ng, |n: TopoNode| n@);
            }
            push_service_edges(ctx, s, &res.deployments, &ids, &mut edges);
        }
        proof {
            assert(nodes_view(nodes@) =~= n4 + service_section(*ctx, res.services@.take(i + 1)));
            assert(edges_view(edges@) =~= e1 + service_edge_section(
                *ctx,
                res.services@.take(i + 1),
                res.deployments@,
                ids_of(n4),
            ));
        }
        i = i + 1;
    }
    proof {
        assert(res.services@.take(res.services@.len() as int) =~= res.services@);
    }
    let ghost n5 = nodes_view(nodes@);
    let ghost e2 = edges_view(edges@);

    let mut i: usize = 0;
    while i < res.ingresses.len()
        invariant
            i <= res.ingresses.len(),
            nodes_view(nodes@) == n5 + ingress_section(*ctx, res.ingresses@.take(i as int)),
            edges_view(edges@) == e2 + ingress_edge_section(*ctx, res.ingresses@.take(i as int)),
        decreases res.ingresses.len() - i,
    {
        proof {
            lemma_take_step(res.ingresses@, i as int);
        }
        let g = &res.ingresses[i];
        if !is_excluded_ns(ns_text(&g.namespace).as_str()) {
            let n = ingress_node_of(ctx, g);
            let ghost before = nodes@;
            let ghost ng = n;
            nodes.push(n);
            proof {
                lemma_map_push(before, ng, |n: TopoNode| n@);
            }
            push_ingress_edges(ctx, g, &mut edges);
        }
        proof {
            assert(nodes_view(nodes@) =~= n5 + ingress_section(*ctx, res.ingresses@.take(i + 1)));
            assert(edges_view(edges@) =~= e2 + ingress_edge_section(*ctx, res.ingresses@.take(i + 1)));
        }
        i = i + 1;
    }
    proof {
        assert(res.ingresses@.take(res.ingresses@.len() as int) =~= res.ingresses@);
        assert(nodes_view(nodes@) =~= graph_nodes(*ctx, *res));
        assert(edges_view(edges@) =~= graph_edges(*ctx, *res));
    }
    (nodes, edges)
}

// ─── Requests ──────────────────────────────────────────────────────────────

/// What a topology request asks for: a fresh build, and one cluster (by id) or all.
pub struct TopologyQuery {
    pub force_refresh: Option<bool>,
    pub cluster_id: Option<String>,
}

/// The clusters a topology request covers, and whether cached graphs are dropped first.
pub enum TopologyScope {
    AllClusters { refresh: bool },
    OneCluster { id: crate::auth::Id, key: String, refresh: bool },
}

/// The scope of a request; a cluster id that is not a UUID is refused.
pub fn topology_scope(q: &TopologyQuery) -> (r: Result<TopologyScope, crate::auth::AppError>)
    ensures
        ({
            let refresh = match q.force_refresh {
                Some(b) => b,
                None => false,
            };
            match q.cluster_id {
                None => r matches Ok(TopologyScope::AllClusters { refresh: f }) && f == refresh,
                Some(c) => match crate::auth::uuid_value(c@) {
                    Some(id) => r matches Ok(TopologyScope::OneCluster { id: i, key, refresh: f }) && i == id && key@ == c@
                        && f == refresh,
                    None => r matches Err(e) && e.is_bad_request() && e.spec_message() == "Invalid cluster_id"@,
                },
            }
        }),
{
    let refresh = match q.force_refresh {
        Some(b) => b,
        None => false,
    };
    match &q.cluster_id {
        None => Ok(TopologyScope::AllClusters { refresh }),
        Some(c) => match crate::auth::parse_uuid(c.as_str()) {
            Some(id) => Ok(TopologyScope::OneCluster { id, key: c.clone(), refresh }),
            None => Err(crate::auth::AppError::BadRequest(owned("Invalid cluster_id"))),
        },
    }
}

/// The refusal of a cluster that does not exist, is not active, or belongs to another tenant.
pub fn cluster_not_found() -> (e: crate::auth::AppError)
    ensures
        e.is_not_found(),
        e.spec_message() == "Cluster not found"@,
{
    crate::auth::AppError::NotFound(owned("Cluster not found"))
}

/// The graph of the clusters covered.
pub struct TopologyResponse {
    pub nodes: Vec<TopoNode>,
    pub edges: Vec<TopoEdge>,
}

pub open spec fn nodes_of(parts: Seq<Option<(Vec<TopoNode>, Vec<TopoEdge>)>>) -> Seq<TopoNode>
    decreases parts.len(),
{
    if parts.len() == 0 {
        Seq::empty()
    } else {
        nodes_of(parts.drop_last()) + match parts.last() {
            Some((n, _)) => n@,
            None => Seq::empty(),
        }
    }
}

pub open spec fn edges_of(parts: Seq<Option<(Vec<TopoNode>, Vec<TopoEdge>)>>) -> Seq<TopoEdge>
    decreases parts.len(),
{
    if parts.len() == 0 {
        Seq::empty()
    } else {
        edges_of(parts.drop_last()) + match parts.last() {
            Some((_, e)) => e@,
            None => Seq::empty(),
        }
    }
}

/// The graphs of the clusters, cluster after cluster; a cluster whose graph could not be read
/// (`None`) adds nothing.
pub fn merge_topologies(parts: Vec<Option<(Vec<TopoNode>, Vec<TopoEdge>)>>) -> (r: TopologyResponse)
    ensures
        r.nodes@ == nodes_of(parts@),
        r.edges@ == edges_of(parts@),
{
    let ghost all = parts@;
    let mut parts = parts;
    let n0 = parts.len();
    proof {
        assert(all.skip(0) =~= all);
        assert(all.len() == n0);
    }
    let mut nodes: Vec<TopoNode> = Vec::new();
    let mut edges: Vec<TopoEdge> = Vec::new();
    let mut done: usize = 0;
    while parts.len() > 0
        invariant
            done + parts@.len() == all.len(),
            all.len() <= usize::MAX,
            parts@ == all.skip(done as int),
            nodes@ == nodes_of(all.take(done as int)),
            edges@ == edges_of(all.take(done as int)),
        decreases parts@.len(),
    {
        let part = parts.remove(0);
        proof {
            assert(all.take(done + 1).drop_last() =~= all.take(done as int));
            assert(all[done as int] == part);
            assert(parts@ =~= all.skip(done + 1));
        }
        match part {
            Some((n, e)) => {
                let mut n = n;
                let mut e = e;
                nodes.append(&mut n);
                edges.append(&mut e);
            },
            None => {},
        }
        done = done + 1;
    }
    proof {
        assert(all.take(all.len() as int) =~= all);
    }
    TopologyResponse { nodes, edges }
}

/// Each rollout outside the system namespaces has its node in the rollout tier.
proof fn lemma_rollout_in_section(ctx: ClusterCtx, rs: Seq<RolloutInfo>, k: int)
    requires
        0 <= k < rs.len(),
        !excluded_namespaces().contains(ns_of(rs[k].namespace)),
    ensures
        rollout_section(ctx, rs).contains(rollout_view(ctx, rs[k])),
    decreases rs.len(),
{
    let prev = rs.drop_last();
    if k < rs.len() - 1 {
        assert(prev[k] == rs[k]);
        lemma_rollout_in_section(ctx, prev, k);
        let j = choose|j: int| 0 <= j < rollout_section(ctx, prev).len() && rollout_section(ctx, prev)[j]
            == rollout_view(ctx, rs[k]);
        assert(rollout_section(ctx, rs)[j] == rollout_view(ctx, rs[k]));
    } else {
        assert(rs.last() == rs[k]);
        let sec = rollout_section(ctx, rs);
        assert(sec[sec.len() - 1] == rollout_view(ctx, rs[k]));
    }
}

/// Every rollout outside the system namespaces is a node of its cluster's graph, with its id and
/// the kind "rollout", and with a health given by its phase: "Healthy" is healthy,
/// "Progressing" and "Paused" warn, "Degraded" is critical, and any other phase (or none) is
/// unknown.
pub proof fn law_rollout_health(ctx: ClusterCtx, res: ClusterResources, k: int)
    requires
        0 <= k < res.rollouts@.len(),
        !excluded_namespaces().contains(ns_of(res.rollouts@[k].namespace)),
    ensures
        exists|j: int|
            0 <= j < graph_nodes(ctx, res).len() && {
                let v = #[trigger] graph_nodes(ctx, res)[j];
                let r = res.rollouts@[k];
                &&& v.id == ctx.cluster_id@ + "/rollout/"@ + ns_of(r.namespace) + "/"@ + name_of(r.name)
                &&& v.kind == "rollout"@
                &&& (r.phase matches Some(p) && p@ == "Healthy"@ ==> v.status == "healthy"@)
                &&& (r.phase matches Some(p) && (p@ == "Progressing"@ || p@ == "Paused"@) ==> v.status
                    == "warning"@)
                &&& (r.phase matches Some(p) && p@ == "Degraded"@ ==> v.status == "critical"@)
                &&& (r.phase matches Some(p) && p@ != "Healthy"@ && p@ != "Progressing"@ && p@ != "Paused"@ && p@
                    != "Degraded"@ ==> v.status == "unknown"@)
                &&& (r.phase is None ==> v.status == "unknown"@)
            },
{
    reveal_strlit("Unknown");
    reveal_strlit("Healthy");
    reveal_strlit("Progressing");
    reveal_strlit("Paused");
    reveal_strlit("Degraded");
    let r = res.rollouts@[k];
    lemma_rollout_in_section(ctx, res.rollouts@, k);
    let sec = rollout_section(ctx, res.rollouts@);
    let i = choose|i: int| 0 <= i < sec.len() && sec[i] == rollout_view(ctx, r);
    let a = node_section(ctx, res.nodes@) + deploy_section(ctx, res.deployments@);
    let w = workload_nodes(ctx, res);
    assert(w == a + sec + pod_section(ctx, res.pods@));
    assert(w[a.len() + i] == sec[i]);
    let g = graph_nodes(ctx, res);
    assert(g[a.len() + i] == w[a.len() + i]);
    let v = g[a.len() + i];
    assert(v == rollout_view(ctx, r));
    assert(v.id == ctx.cluster_id@ + "/rollout/"@ + ns_of(r.namespace) + "/"@ + name_of(r.name));
    assert(v.kind == "rollout"@);
    assert(v.status == rollout_health(rollout_phase(r)));
    assert("Unknown"@ != "Healthy"@ && "Unknown"@ != "Progressing"@ && "Unknown"@ != "Paused"@ && "Unknown"@
        != "Degraded"@) by {
        assert("Unknown"@[0] != "Healthy"@[0]);
        assert("Unknown"@[0] != "Paused"@[0]);
        assert("Unknown"@[0] != "Progressing"@[0]);
    }
}

/// The health of the other workloads: a deployment is healthy when its available replicas reach
/// the desired count (1 when unset), warns when some are ready, and is critical when none is; a
/// pod is critical when a container waits in "CrashLoopBackOff", else healthy when running or
/// succeeded, warning when pending, critical when failed, unknown otherwise; a node is healthy
/// when its Ready condition is "True", critical when it has another status, unknown without one.
pub proof fn law_workload_health(ctx: ClusterCtx, d: DeploymentInfo, p: PodInfo, n: NodeInfo)
    ensures
        ({
            let desired: int = match d.replicas { Some(x) => x as int, None => 1 };
            let available: int = match d.available_replicas { Some(x) => x as int, None => 0 };
            let ready_count: int = match d.ready_replicas { Some(x) => x as int, None => 0 };
            &&& available >= desired ==> deploy_view(ctx, d).status == "healthy"@
            &&& available < desired && ready_count > 0 ==> deploy_view(ctx, d).status == "warning"@
            &&& available < desired && ready_count <= 0 ==> deploy_view(ctx, d).status == "critical"@
        }),
        ({
            let crash = exists|i: int|
                0 <= i < p.waiting_reasons@.len() && (#[trigger] p.waiting_reasons@[i] matches Some(x) && x@
                    == "CrashLoopBackOff"@);
            &&& crash ==> pod_view(ctx, p).status == "critical"@
            &&& !crash && (p.phase matches Some(x) && (x@ == "Running"@ || x@ == "Succeeded"@)) ==> pod_view(
                ctx,
                p,
            ).status == "healthy"@
            &&& !crash && (p.phase matches Some(x) && x@ == "Pending"@) ==> pod_view(ctx, p).status == "warning"@
            &&& !crash && (p.phase matches Some(x) && x@ == "Failed"@) ==> pod_view(ctx, p).status == "critical"@
            &&& !crash && p.phase is None ==> pod_view(ctx, p).status == "unknown"@
        }),
        n.ready_status matches Some(s) && s@ == "True"@ ==> k8s_node_view(ctx, n).status == "healthy"@,
        n.ready_status matches Some(s) && s@ != "True"@ ==> k8s_node_view(ctx, n).status == "critical"@,
        n.ready_status is None ==> k8s_node_view(ctx, n).status == "unknown"@,
{
    reveal_strlit("Unknown");
    reveal_strlit("Running");
    reveal_strlit("Succeeded");
    reveal_strlit("Pending");
    reveal_strlit("Failed");
    assert("Running"@[0] != "Pending"@[0] && "Running"@[0] != "Failed"@[0] && "Succeeded"@[0] != "Pending"@[0]
        && "Succeeded"@[0] != "Failed"@[0] && "Pending"@[0] != "Failed"@[0]);
    assert("Unknown"@[0] != "Running"@[0] && "Unknown"@[0] != "Succeeded"@[0] && "Unknown"@[0] != "Pending"@[0]
        && "Unknown"@[0] != "Failed"@[0]);
}

} // verus!
