//! Issues raised by alerts: severity levels, de-duplication and what follows
//! the creation of an issue.
use vstd::prelude::*;
use crate::agent::{json_quote, json_quoted};
use crate::pattern::{lowercase, to_lowercase};
use crate::text::{cat, cat3, is_ascii_text, lower, opt_string_view, owned, str_eq, upper};

verus! {

/// The platform's severity for a provider's severity name (compared in lower case): critical,
/// high, low, or medium for anything else.
pub open spec fn severity_class(s: Seq<char>) -> Seq<char> {
    if s == "critical"@ || s == "p1"@ || s == "availability"@ {
        "critical"@
    } else if s == "high"@ || s == "warning"@ || s == "p2"@ || s == "error"@ || s == "resource_contention"@ {
        "high"@
    } else if s == "low"@ || s == "info"@ || s == "p4"@ || s == "p5"@ || s == "custom_alert"@ {
        "low"@
    } else {
        "medium"@
    }
}

/// The platform's severity is one of critical, high, medium and low, written in ASCII lower
/// case, and it is its own severity: normalising it again gives it back.
pub proof fn law_severity_normal_form(raw: Seq<char>)
    ensures
        severity_class(lowercase(raw)) == "critical"@ || severity_class(lowercase(raw)) == "high"@
            || severity_class(lowercase(raw)) == "medium"@ || severity_class(lowercase(raw)) == "low"@,
        is_ascii_text(severity_class(lowercase(raw))),
        severity_class(lower(severity_class(lowercase(raw)))) == severity_class(lowercase(raw)),
{
    reveal_strlit("critical");
    reveal_strlit("high");
    reveal_strlit("medium");
    reveal_strlit("low");
    reveal_strlit("p1");
    reveal_strlit("availability");
    reveal_strlit("warning");
    reveal_strlit("p2");
    reveal_strlit("error");
    reveal_strlit("resource_contention");
    reveal_strlit("info");
    reveal_strlit("p4");
    reveal_strlit("p5");
    reveal_strlit("custom_alert");
    let o = severity_class(lowercase(raw));
    assert(lower(o) =~= o);
}

/// Severity names are compared without regard to ASCII case: an ASCII name written in capitals
/// gets the same severity as written in any other case.
pub proof fn law_severity_ignores_ascii_case(raw: Seq<char>)
    requires
        is_ascii_text(raw),
    ensures
        is_ascii_text(upper(raw)),
        lower(upper(raw)) == lower(raw),
        severity_class(lower(upper(raw))) == severity_class(lower(raw)),
{
    assert forall|i: int| 0 <= i < upper(raw).len() implies (#[trigger] upper(raw)[i] as u32) < 128 by {
        assert((raw[i] as u32) < 128);
    }
    assert(lower(upper(raw)) =~= lower(raw));
}

/// The provider severity names the platform knows, written in any ASCII case: "critical", "p1"
/// and "availability" are critical; "high", "warning", "p2", "error" and "resource_contention"
/// are high; "low", "info", "p4", "p5" and "custom_alert" are low; every other name is medium.
pub proof fn law_severity_names(raw: Seq<char>)
    requires
        is_ascii_text(raw),
    ensures
        lower(raw) == "critical"@ || lower(raw) == "p1"@ || lower(raw) == "availability"@ ==> severity_class(
            lower(raw),
        ) == "critical"@,
        lower(raw) == "high"@ || lower(raw) == "warning"@ || lower(raw) == "p2"@ || lower(raw) == "error"@ || lower(raw)
            == "resource_contention"@ ==> severity_class(lower(raw)) == "high"@,
        lower(raw) == "low"@ || lower(raw) == "info"@ || lower(raw) == "p4"@ || lower(raw) == "p5"@ || lower(raw)
            == "custom_alert"@ ==> severity_class(lower(raw)) == "low"@,
        !(lower(raw) == "critical"@ || lower(raw) == "p1"@ || lower(raw) == "availability"@ || lower(raw) == "high"@
            || lower(raw) == "warning"@ || lower(raw) == "p2"@ || lower(raw) == "error"@ || lower(raw)
            == "resource_contention"@ || lower(raw) == "low"@ || lower(raw) == "info"@ || lower(raw) == "p4"@
            || lower(raw) == "p5"@ || lower(raw) == "custom_alert"@) ==> severity_class(lower(raw)) == "medium"@,
{
    reveal_strlit("critical");
    reveal_strlit("p1");
    reveal_strlit("availability");
    reveal_strlit("high");
    reveal_strlit("warning");
    reveal_strlit("p2");
    reveal_strlit("error");
    reveal_strlit("resource_contention");
    reveal_strlit("low");
    reveal_strlit("info");
    reveal_strlit("p4");
    reveal_strlit("p5");
    reveal_strlit("custom_alert");
    assert("p2"@[1] != "p1"@[1] && "p4"@[1] != "p1"@[1] && "p4"@[1] != "p2"@[1] && "p5"@[1] != "p1"@[1]
        && "p5"@[1] != "p2"@[1]);
    assert("info"@[0] != "high"@[0] && "custom_alert"@[0] != "availability"@[0]);
}

/// The platform's severity for the provider's severity `raw`.
pub fn normalize_severity(raw: &str) -> (r: &'static str)
    ensures
        r@ == severity_class(lowercase(raw@)),
        is_ascii_text(raw@) ==> r@ == severity_class(lower(raw@)),
        is_ascii_text(r@) && severity_class(lower(r@)) == r@,
{
    proof {
        law_severity_normal_form(raw@);
    }
    let l = to_lowercase(raw);
    let s = l.as_str();
    if str_eq(s, "critical") || str_eq(s, "p1") || str_eq(s, "availability") {
        "critical"
    } else if str_eq(s, "high") || str_eq(s, "warning") || str_eq(s, "p2") || str_eq(s, "error") || str_eq(
        s,
        "resource_contention",
    ) {
        "high"
    } else if str_eq(s, "low") || str_eq(s, "info") || str_eq(s, "p4") || str_eq(s, "p5") || str_eq(s, "custom_alert") {
        "low"
    } else {
        "medium"
    }
}

/// The JSON document an issue's stored alert data must contain to be the same alert:
/// {"fingerprint": key}.
pub open spec fn fingerprint_doc(dedup_key: Seq<char>) -> Seq<char> {
    "{\"fingerprint\":"@ + json_quoted(dedup_key) + "}"@
}

pub fn fingerprint_filter(dedup_key: &str) -> (r: String)
    ensures
        r@ == fingerprint_doc(dedup_key@),
{
    let q = json_quote(dedup_key);
    cat3("{\"fingerprint\":", q.as_str(), "}")
}

/// What is done with an alert first.
pub enum AlertStart {
    /// The alert is over: resolve the open issues of the source that hold `filter`.
    ResolveMatching { filter: String },
    /// A new alert: count the open issues of the source that hold `filter`.
    CountDuplicates { filter: String },
}

pub fn alert_start(is_resolved: bool, dedup_key: &str) -> (r: AlertStart)
    ensures
        is_resolved ==> (r matches AlertStart::ResolveMatching { filter } && filter@ == fingerprint_doc(dedup_key@)),
        !is_resolved ==> (r matches AlertStart::CountDuplicates { filter } && filter@ == fingerprint_doc(dedup_key@)),
{
    if is_resolved {
        AlertStart::ResolveMatching { filter: fingerprint_filter(dedup_key) }
    } else {
        AlertStart::CountDuplicates { filter: fingerprint_filter(dedup_key) }
    }
}

/// Whether a new alert raises an issue: only when no open issue holds the same alert.
pub fn raises_issue(existing: i64) -> (b: bool)
    ensures
        b == (existing <= 0),
{
    existing <= 0
}

/// What follows the creation of an issue.
pub enum IssueFollowUp {
    /// Tell the tenant's admins.
    NotifyAdmins { kind: String, title: String, description: String, data: String },
    /// Pause the progressing rollouts of a namespace.
    PauseRollouts { namespace: String },
    /// Start a root-cause analysis of the new issue.
    StartRca,
}

/// The notification data: {"severity": .., "source": ..}.
pub open spec fn notify_data(severity: Seq<char>, source: Seq<char>) -> Seq<char> {
    "{\"severity\":"@ + json_quoted(severity) + ",\"source\":"@ + json_quoted(source) + "}"@
}

/// A follow-up as values.
pub enum FollowUpView {
    NotifyAdmins { kind: Seq<char>, title: Seq<char>, description: Seq<char>, data: Seq<char> },
    PauseRollouts { namespace: Seq<char> },
    StartRca,
}

impl View for IssueFollowUp {
    type V = FollowUpView;

    open spec fn view(&self) -> FollowUpView {
        match *self {
            IssueFollowUp::NotifyAdmins { kind, title, description, data } => FollowUpView::NotifyAdmins {
                kind: kind@,
                title: title@,
                description: description@,
                data: data@,
            },
            IssueFollowUp::PauseRollouts { namespace } => FollowUpView::PauseRollouts { namespace: namespace@ },
            IssueFollowUp::StartRca => FollowUpView::StartRca,
        }
    }
}

pub open spec fn follow_ups_view(v: Seq<IssueFollowUp>) -> Seq<FollowUpView> {
    v.map_values(|f: IssueFollowUp| f@)
}

/// The follow-ups of a new issue, in order: with a notification channel, the admins are told
/// ("[source] title — severity"); a critical or high alert whose namespace is known pauses that
/// namespace's rollouts; with automatic analysis switched on, an analysis starts.
pub open spec fn follow_ups(
    source: Seq<char>,
    title: Seq<char>,
    severity: Seq<char>,
    can_notify: bool,
    namespace: Option<Seq<char>>,
    auto_rca: bool,
) -> Seq<FollowUpView> {
    (if can_notify {
        seq![FollowUpView::NotifyAdmins {
            kind: "issue_created"@,
            title,
            description: "["@ + source + "] "@ + title + " — "@ + severity,
            data: notify_data(severity, source),
        }]
    } else {
        Seq::empty()
    }) + (match namespace {
        Some(ns) => if severity == "critical"@ || severity == "high"@ {
            seq![FollowUpView::PauseRollouts { namespace: ns }]
        } else {
            Seq::empty()
        },
        None => Seq::empty(),
    }) + (if auto_rca { seq![FollowUpView::StartRca] } else { Seq::empty() })
}

/// The follow-ups of a new issue (see `follow_ups`).
pub fn issue_follow_ups(
    source: &str,
    title: &str,
    severity: &str,
    can_notify: bool,
    alert_namespace: Option<String>,
    auto_rca: bool,
) -> (r: Vec<IssueFollowUp>)
    ensures
        follow_ups_view(r@) == follow_ups(source@, title@, severity@, can_notify, opt_string_view(alert_namespace), auto_rca),
{
    let mut out: Vec<IssueFollowUp> = Vec::new();
    if can_notify {
        let mut description = cat3("[", source, "] ");
        description.append(title);
        description.append(" — ");
        description.append(severity);
        let mut data = cat("{\"severity\":", json_quote(severity).as_str());
        data.append(",\"source\":");
        data.append(json_quote(source).as_str());
        data.append("}");
        out.push(IssueFollowUp::NotifyAdmins { kind: owned("issue_created"), title: owned(title), description, data });
    }
    if str_eq(severity, "critical") || str_eq(severity, "high") {
        match alert_namespace {
            Some(ns) => out.push(IssueFollowUp::PauseRollouts { namespace: ns }),
            None => {},
        }
    }
    if auto_rca {
        out.push(IssueFollowUp::StartRca);
    }
    proof {
        assert(follow_ups_view(out@) =~= follow_ups(source@, title@, severity@, can_notify, opt_string_view(alert_namespace), auto_rca));
    }
    out
}

} // verus!
