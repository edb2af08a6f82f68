//! Change detection for Argo Rollouts: the per-cluster watch keeps the last
//! state of every rollout and reports what changed; the manager keeps one watch
//! per active cluster.
use vstd::prelude::*;
use crate::auth::Id;
use crate::json::{
    json_i64_at, json_i64_field, json_item_texts_at, json_item_texts_field, json_str_at, json_str_at_path, json_str_field,
    json_str_field2, json_value_text_at, json_value_text_field,
};
use crate::text::{
    cat, dec_int, i64_to_string, join, join_strings, opt_string_view, owned, starts_with, str_eq, strings_view,
};

verus! {

/// What is compared between two states of a rollout.
pub struct RolloutSnapshot {
    pub phase: String,
    pub current_step: i64,
    pub replicas: i64,
    pub ready_replicas: i64,
    pub image: String,
}

impl RolloutSnapshot {
    pub fn copy(&self) -> (r: RolloutSnapshot)
        ensures
            r == *self,
    {
        RolloutSnapshot {
            phase: self.phase.clone(),
            current_step: self.current_step,
            replicas: self.replicas,
            ready_replicas: self.ready_replicas,
            image: self.image.clone(),
        }
    }

    /// The snapshot of a rollout whose status and spec give these fields; missing ones read as
    /// phase "Unknown", step and replica counts 0, and no image.
    pub fn from_fields(
        phase: Option<String>,
        current_step: Option<i64>,
        replicas: Option<i64>,
        ready_replicas: Option<i64>,
        image: Option<String>,
    ) -> (r: RolloutSnapshot)
        ensures
            r.phase@ == (match phase { Some(p) => p@, None => "Unknown"@ }),
            r.current_step == (match current_step { Some(x) => x, None => 0 }),
            r.replicas == (match replicas { Some(x) => x, None => 0 }),
            r.ready_replicas == (match ready_replicas { Some(x) => x, None => 0 }),
            r.image@ == (match image { Some(i) => i@, None => Seq::<char>::empty() }),
    {
        RolloutSnapshot {
            phase: match phase {
                Some(p) => p,
                None => owned("Unknown"),
            },
            current_step: match current_step {
                Some(x) => x,
                None => 0,
            },
            replicas: match replicas {
                Some(x) => x,
                None => 0,
            },
            ready_replicas: match ready_replicas {
                Some(x) => x,
                None => 0,
            },
            image: match image {
                Some(i) => i,
                None => String::new(),
            },
        }
    }
}

/// The integer under `status`.`key` of the rollout document `doc`.
pub open spec fn status_int(doc: Seq<char>, key: Seq<char>) -> Option<i64> {
    match json_value_text_at(doc, "status"@) {
        Some(s) => json_i64_at(s, key),
        None => None,
    }
}

/// The image of the first container of the rollout document `doc`
/// (`spec`.`template`.`spec`.`containers`[0].`image`).
pub open spec fn first_image(doc: Seq<char>) -> Option<Seq<char>> {
    match json_value_text_at(doc, "spec"@) {
        Some(a) => match json_value_text_at(a, "template"@) {
            Some(b) => match json_value_text_at(b, "spec"@) {
                Some(c) => match json_item_texts_at(c, "containers"@) {
                    Some(items) => if items.len() > 0 {
                        json_str_at(items[0], "image"@)
                    } else {
                        None
                    },
                    None => None,
                },
                None => None,
            },
            None => None,
        },
        None => None,
    }
}

/// The integer under `status`.`key` of `doc`.
fn status_field(doc: &str, key: &str) -> (r: Option<i64>)
    ensures
        r == status_int(doc@, key@),
{
    match json_value_text_field(doc, "status") {
        Some(s) => json_i64_field(s.as_str(), key),
        None => None,
    }
}

/// The image of the first container of `doc`.
fn image_field(doc: &str) -> (r: Option<String>)
    ensures
        opt_string_view(r) == first_image(doc@),
{
    let a = match json_value_text_field(doc, "spec") {
        Some(a) => a,
        None => return None,
    };
    let b = match json_value_text_field(a.as_str(), "template") {
        Some(b) => b,
        None => return None,
    };
    let c = match json_value_text_field(b.as_str(), "spec") {
        Some(c) => c,
        None => return None,
    };
    match json_item_texts_field(c.as_str(), "containers") {
        Some(items) => {
            if items.len() > 0 {
                proof {
                    assert(strings_view(items@)[0] == items@[0]@);
                }
                json_str_field(items[0].as_str(), "image")
            } else {
                None
            }
        },
        None => None,
    }
}

/// The snapshot of the rollout whose object (as JSON) is `doc`: phase, step and replica counts
/// from its status, the image of the first container of its pod template.
pub fn snapshot_of_json(doc: &str) -> (r: RolloutSnapshot)
    ensures
        r.phase@ == (match json_str_at_path(doc@, seq!["status"@, "phase"@]) {
            Some(p) => p,
            None => "Unknown"@,
        }),
        r.current_step == (match status_int(doc@, "currentStepIndex"@) {
            Some(x) => x,
            None => 0,
        }),
        r.replicas == (match status_int(doc@, "replicas"@) {
            Some(x) => x,
            None => 0,
        }),
        r.ready_replicas == (match status_int(doc@, "readyReplicas"@) {
            Some(x) => x,
            None => 0,
        }),
        r.image@ == (match first_image(doc@) {
            Some(i) => i,
            None => Seq::<char>::empty(),
        }),
{
    RolloutSnapshot::from_fields(
        json_str_field2(doc, "status", "phase"),
        status_field(doc, "currentStepIndex"),
        status_field(doc, "replicas"),
        status_field(doc, "readyReplicas"),
        image_field(doc),
    )
}

/// Two snapshots differ in some compared field.
pub open spec fn differs(a: RolloutSnapshot, b: RolloutSnapshot) -> bool {
    a.phase@ != b.phase@ || a.current_step != b.current_step || a.replicas != b.replicas || a.ready_replicas
        != b.ready_replicas || a.image@ != b.image@
}

fn snapshots_differ(a: &RolloutSnapshot, b: &RolloutSnapshot) -> (r: bool)
    ensures
        r == differs(*a, *b),
{
    !str_eq(a.phase.as_str(), b.phase.as_str()) || a.current_step != b.current_step || a.replicas != b.replicas
        || a.ready_replicas != b.ready_replicas || !str_eq(a.image.as_str(), b.image.as_str())
}

pub open spec fn arrow() -> Seq<char> {
    " → "@
}

/// The change lines between two states: phase, step, image, then replicas (ready/total).
pub open spec fn change_lines(o: RolloutSnapshot, n: RolloutSnapshot) -> Seq<Seq<char>> {
    (if o.phase@ != n.phase@ { seq!["phase: "@ + o.phase@ + arrow() + n.phase@] } else { Seq::empty() })
        + (if o.current_step != n.current_step {
        seq!["step: "@ + dec_int(o.current_step as int) + arrow() + dec_int(n.current_step as int)]
    } else {
        Seq::empty()
    }) + (if o.image@ != n.image@ { seq!["image: "@ + o.image@ + arrow() + n.image@] } else { Seq::empty() }) + (
    if o.replicas != n.replicas || o.ready_replicas != n.ready_replicas {
        seq![
            "replicas: "@ + dec_int(o.ready_replicas as int) + "/"@ + dec_int(o.replicas as int) + arrow() + dec_int(
                n.ready_replicas as int,
            ) + "/"@ + dec_int(n.replicas as int),
        ]
    } else {
        Seq::empty()
    })
}

/// The kind of change, by the first field that changed.
pub open spec fn change_kind(o: RolloutSnapshot, n: RolloutSnapshot) -> Seq<char> {
    if o.phase@ != n.phase@ {
        "phase_change"@
    } else if o.current_step != n.current_step {
        "step_advance"@
    } else if o.image@ != n.image@ {
        "image_update"@
    } else {
        "replica_change"@
    }
}

/// The lines describing what changed between two states of a rollout, and the kind of change.
pub fn compute_changes(old: &RolloutSnapshot, new: &RolloutSnapshot) -> (r: (Vec<String>, &'static str))
    ensures
        r.0@.map_values(|s: String| s@) == change_lines(*old, *new),
        r.1@ == change_kind(*old, *new),
{
    let mut changes: Vec<String> = Vec::new();
    let ghost want = change_lines(*old, *new);
    let phase_changed = !str_eq(old.phase.as_str(), new.phase.as_str());
    let image_changed = !str_eq(old.image.as_str(), new.image.as_str());
    if phase_changed {
        let mut t = owned("phase: ");
        t.append(old.phase.as_str());
        t.append(" → ");
        t.append(new.phase.as_str());
        changes.push(t);
    }
    if old.current_step != new.current_step {
        let mut t = owned("step: ");
        t.append(i64_to_string(old.current_step).as_str());
        t.append(" → ");
        t.append(i64_to_string(new.current_step).as_str());
        changes.push(t);
    }
    if image_changed {
        let mut t = owned("image: ");
        t.append(old.image.as_str());
        t.append(" → ");
        t.append(new.image.as_str());
        changes.push(t);
    }
    if old.replicas != new.replicas || old.ready_replicas != new.ready_replicas {
        let mut t = owned("replicas: ");
        t.append(i64_to_string(old.ready_replicas).as_str());
        t.append("/");
        t.append(i64_to_string(old.replicas).as_str());
        t.append(" → ");
        t.append(i64_to_string(new.ready_replicas).as_str());
        t.append("/");
        t.append(i64_to_string(new.replicas).as_str());
        changes.push(t);
    }
    proof {
        assert(changes@.map_values(|s: String| s@) =~= want);
    }
    let action = if phase_changed {
        "phase_change"
    } else if old.current_step != new.current_step {
        "step_advance"
    } else if image_changed {
        "image_update"
    } else {
        "replica_change"
    };
    (changes, action)
}

// ─── The per-cluster watch ─────────────────────────────────────────────────

pub open spec fn keys_unique(e: Seq<(String, RolloutSnapshot)>) -> bool {
    forall|i: int, j: int| 0 <= i < j < e.len() ==> (#[trigger] e[i]).0@ != (#[trigger] e[j]).0@
}

/// The states recorded in `e`, by key.
pub open spec fn known_of(e: Seq<(String, RolloutSnapshot)>) -> Map<Seq<char>, RolloutSnapshot> {
    Map::new(
        |k: Seq<char>| exists|i: int| 0 <= i < e.len() && (#[trigger] e[i]).0@ == k,
        |k: Seq<char>| e[choose|i: int| 0 <= i < e.len() && (#[trigger] e[i]).0@ == k].1,
    )
}

proof fn lemma_known_at(e: Seq<(String, RolloutSnapshot)>, i: int)
    requires
        keys_unique(e),
        0 <= i < e.len(),
    ensures
        known_of(e).dom().contains(e[i].0@),
        known_of(e)[e[i].0@] == e[i].1,
{
    let k = e[i].0@;
    assert(known_of(e).dom().contains(k));
    let c = choose|c: int| 0 <= c < e.len() && (#[trigger] e[c]).0@ == k;
    if c != i {
        if c < i {
            assert(e[c].0@ != e[i].0@);
        } else {
            assert(e[i].0@ != e[c].0@);
        }
    }
}

proof fn lemma_push_contains<A>(s: Seq<A>, x: A, y: A)
    ensures
        s.push(x).contains(y) <==> (s.contains(y) || x == y),
{
    if s.push(x).contains(y) {
        let j = choose|j: int| 0 <= j < s.push(x).len() && s.push(x)[j] == y;
        if j < s.len() {
            assert(s[j] == y);
        }
    }
    if s.contains(y) {
        let j = choose|j: int| 0 <= j < s.len() && s[j] == y;
        assert(s.push(x)[j] == y);
    }
    if x == y {
        assert(s.push(x)[s.len() as int] == y);
    }
}

/// What the watch stream reports.  Rollouts are named by namespace and name, as listed (either
/// may be missing).
pub enum WatchEvent {
    /// A fresh initial listing starts.
    Init,
    /// A rollout of the initial listing.
    InitApply { namespace: Option<String>, name: Option<String>, snapshot: RolloutSnapshot },
    /// The initial listing is complete.
    InitDone,
    /// A rollout was created or changed.
    Apply { namespace: Option<String>, name: Option<String>, snapshot: RolloutSnapshot },
    /// A rollout was deleted.
    Delete { namespace: Option<String>, name: Option<String> },
}

/// What the watch reports onwards.
pub enum WatchAction {
    /// A known rollout changed after the initial listing.
    Changed { namespace: String, name: String, changes: Vec<String>, action: String, snapshot: RolloutSnapshot },
    /// A known rollout was deleted after the initial listing.
    Deleted { namespace: String, name: String },
}

pub open spec fn ns_or_default(o: Option<String>) -> Seq<char> {
    match o {
        Some(s) => s@,
        None => "default"@,
    }
}

pub open spec fn name_or_unknown(o: Option<String>) -> Seq<char> {
    match o {
        Some(s) => s@,
        None => "unknown"@,
    }
}

/// The key of a rollout: "namespace/name".
pub open spec fn rollout_key(ns: Option<String>, name: Option<String>) -> Seq<char> {
    ns_or_default(ns) + "/"@ + name_or_unknown(name)
}

/// The key an event names ("" for the events of the listing as a whole).
pub open spec fn event_key(e: WatchEvent) -> Seq<char> {
    match e {
        WatchEvent::InitApply { namespace, name, .. } => rollout_key(namespace, name),
        WatchEvent::Apply { namespace, name, .. } => rollout_key(namespace, name),
        WatchEvent::Delete { namespace, name } => rollout_key(namespace, name),
        _ => Seq::empty(),
    }
}

/// The known states and whether the initial listing is over, after event `e`.
pub open spec fn watch_next(known: Map<Seq<char>, RolloutSnapshot>, done: bool, e: WatchEvent) -> (
    Map<Seq<char>, RolloutSnapshot>,
    bool,
) {
    match e {
        WatchEvent::Init => (Map::empty(), false),
        WatchEvent::InitDone => (known, true),
        WatchEvent::InitApply { snapshot, .. } => (known.insert(event_key(e), snapshot), done),
        WatchEvent::Apply { snapshot, .. } => (known.insert(event_key(e), snapshot), done),
        WatchEvent::Delete { .. } => (known.remove(event_key(e)), done),
    }
}

/// Whether event `e` is reported onwards: a change of a known rollout's compared fields, or
/// the deletion of a known rollout, once the initial listing is over.
pub open spec fn reported(known: Map<Seq<char>, RolloutSnapshot>, done: bool, e: WatchEvent) -> bool {
    match e {
        WatchEvent::Apply { snapshot, .. } => done && known.dom().contains(event_key(e)) && differs(
            known[event_key(e)],
            snapshot,
        ),
        WatchEvent::Delete { .. } => done && known.dom().contains(event_key(e)),
        _ => false,
    }
}

/// The state of a watch that started fresh and has seen the events `es`.
pub open spec fn watch_state(es: Seq<WatchEvent>) -> (Map<Seq<char>, RolloutSnapshot>, bool)
    decreases es.len(),
{
    if es.len() == 0 {
        (Map::empty(), false)
    } else {
        let p = watch_state(es.drop_last());
        watch_next(p.0, p.1, es.last())
    }
}

/// Event `e` records a state of the rollout `key`.
pub open spec fn records(e: WatchEvent, key: Seq<char>) -> bool {
    (e is InitApply || e is Apply) && event_key(e) == key
}

/// The last known state of each rollout of a cluster, and whether the initial listing is over.
pub struct WatchState {
    pub entries: Vec<(String, RolloutSnapshot)>,
    pub init_done: bool,
}

impl WatchState {
    pub open spec fn wf(&self) -> bool {
        keys_unique(self.entries@)
    }

    /// The known states, by key.
    pub open spec fn known(&self) -> Map<Seq<char>, RolloutSnapshot> {
        known_of(self.entries@)
    }

    pub fn new() -> (r: WatchState)
        ensures
            r.wf(),
            r.known() == Map::<Seq<char>, RolloutSnapshot>::empty(),
            !r.init_done,
    {
        let r = WatchState { entries: Vec::new(), init_done: false };
        proof {
            assert(r.known() =~= Map::<Seq<char>, RolloutSnapshot>::empty());
        }
        r
    }

    fn position(&self, key: &str) -> (r: Option<usize>)
        requires
            self.wf(),
        ensures
            r is None <==> !self.known().dom().contains(key@),
            r matches Some(i) ==> i < self.entries@.len() && self.entries@[i as int].0@ == key@ && self.known()[key@]
                == self.entries@[i as int].1,
    {
        let mut i: usize = 0;
        while i < self.entries.len()
            invariant
                i <= self.entries.len(),
                self.wf(),
                forall|j: int| 0 <= j < i ==> (#[trigger] self.entries@[j]).0@ != key@,
            decreases self.entries.len() - i,
        {
            if str_eq(self.entries[i].0.as_str(), key) {
                proof {
                    lemma_known_at(self.entries@, i as int);
                }
                return Some(i);
            }
            i = i + 1;
        }
        None
    }

    /// Record `snap` as the state of `key`.
    fn put(&mut self, key: String, snap: RolloutSnapshot)
        requires
            old(self).wf(),
        ensures
            final(self).wf(),
            final(self).init_done == old(self).init_done,
            final(self).known() == old(self).known().insert(key@, snap),
    {
        let ghost k = key@;
        let ghost before = self.entries@;
        let ghost old_known = self.known();
        let pos = self.position(key.as_str());
        let ghost idx: int = match pos {
            Some(i) => i as int,
            None => before.len() as int,
        };
        match pos {
            Some(i) => {
                self.entries.set(i, (key, snap));
            },
            None => {
                self.entries.push((key, snap));
            },
        }
        proof {
            let e = self.entries@;
            assert(e[idx].0@ == k && e[idx].1 == snap);
            assert forall|c: int| 0 <= c < e.len() && c != idx implies #[trigger] e[c] == before[c] by {}
            assert forall|a: int, b: int| 0 <= a < b < e.len() implies (#[trigger] e[a]).0@ != (#[trigger] e[b]).0@ by {
                if a != idx && b != idx {
                    assert(e[a] == before[a] && e[b] == before[b]);
                } else if a == idx {
                    assert(e[b] == before[b]);
                    if pos is Some {
                        assert(before[a].0@ == k);
                    } else {
                        lemma_known_at(before, b);
                    }
                } else {
                    assert(e[a] == before[a]);
                    if pos is Some {
                        assert(before[b].0@ == k);
                    } else {
                        lemma_known_at(before, a);
                    }
                }
            }
            assert forall|q: Seq<char>| #[trigger] known_of(e).dom().contains(q) <==> old_known.insert(k, snap).dom().contains(q) by {
                if known_of(e).dom().contains(q) {
                    let c = choose|c: int| 0 <= c < e.len() && (#[trigger] e[c]).0@ == q;
                    if c != idx {
                        lemma_known_at(before, c);
                    }
                }
                if old_known.dom().contains(q) {
                    let c = choose|c: int| 0 <= c < before.len() && (#[trigger] before[c]).0@ == q;
                    if c != idx {
                        lemma_known_at(e, c);
                    } else {
                        lemma_known_at(e, idx);
                    }
                }
                if q == k {
                    lemma_known_at(e, idx);
                }
            }
            assert forall|q: Seq<char>| known_of(e).dom().contains(q) implies #[trigger] known_of(e)[q] == old_known.insert(k, snap)[q] by {
                let c = choose|c: int| 0 <= c < e.len() && (#[trigger] e[c]).0@ == q;
                lemma_known_at(e, c);
                if c != idx {
                    lemma_known_at(before, c);
                    assert(q != k);
                } else {
                    assert(q == k);
                }
            }
            assert(known_of(e) =~= old_known.insert(k, snap));
        }
    }

    /// Forget the state of `key`; tells whether it was known.
    fn forget(&mut self, key: &str) -> (was: bool)
        requires
            old(self).wf(),
        ensures
            final(self).wf(),
            final(self).init_done == old(self).init_done,
            was == old(self).known().dom().contains(key@),
            final(self).known() == old(self).known().remove(key@),
    {
        let ghost before = self.entries@;
        let ghost old_known = self.known();
        match self.position(key) {
            None => {
                proof {
                    assert(self.known() =~= old_known.remove(key@));
                }
                false
            },
            Some(i) => {
                self.entries.remove(i);
                proof {
                    let k = key@;
                    let e = self.entries@;
                    assert forall|c: int| 0 <= c < e.len() implies #[trigger] e[c] == before[if c < i { c } else { c + 1 }] by {}
                    assert forall|a: int, b: int| 0 <= a < b < e.len() implies (#[trigger] e[a]).0@ != (#[trigger] e[b]).0@ by {
                        let ba = if a < i { a } else { a + 1 };
                        let bb = if b < i { b } else { b + 1 };
                        assert(e[a] == before[ba] && e[b] == before[bb]);
                    }
                    assert forall|q: Seq<char>| #[trigger] known_of(e).dom().contains(q) <==> old_known.remove(k).dom().contains(q) by {
                        if known_of(e).dom().contains(q) {
                            let c = choose|c: int| 0 <= c < e.len() && (#[trigger] e[c]).0@ == q;
                            let bc = if c < i { c } else { c + 1 };
                            assert(e[c] == before[bc]);
                            lemma_known_at(before, bc);
                            if q == k {
                                if bc < i {
                                    assert(before[bc].0@ != before[i as int].0@);
                                } else {
                                    assert(before[i as int].0@ != before[bc].0@);
                                }
                            }
                        }
                        if old_known.dom().contains(q) && q != k {
                            let c = choose|c: int| 0 <= c < before.len() && (#[trigger] before[c]).0@ == q;
                            assert(c != i);
                            let nc = if c < i { c } else { c - 1 };
                            assert(e[nc] == before[c]);
                        }
                    }
                    assert forall|q: Seq<char>| known_of(e).dom().contains(q) implies #[trigger] known_of(e)[q] == old_known.remove(k)[q] by {
                        let c = choose|c: int| 0 <= c < e.len() && (#[trigger] e[c]).0@ == q;
                        let bc = if c < i { c } else { c + 1 };
                        assert(e[c] == before[bc]);
                        lemma_known_at(e, c);
                        lemma_known_at(before, bc);
                    }
                    assert(known_of(e) =~= old_known.remove(k));
                }
                true
            },
        }
    }
}

fn key_of(ns: &Option<String>, name: &Option<String>) -> (r: (String, String, String))
    ensures
        r.0@ == ns_or_default(*ns),
        r.1@ == name_or_unknown(*name),
        r.2@ == rollout_key(*ns, *name),
{
    let n = match ns {
        Some(s) => s.clone(),
        None => owned("default"),
    };
    let m = match name {
        Some(s) => s.clone(),
        None => owned("unknown"),
    };
    let k = crate::text::cat3(n.as_str(), "/", m.as_str());
    (n, m, k)
}

impl WatchState {
    /// Handle one watch event.  During the initial listing states are only recorded; afterwards a
    /// change of a known rollout and the deletion of a known rollout are reported.
    pub fn on_event(&mut self, event: WatchEvent) -> (r: Option<WatchAction>)
        requires
            old(self).wf(),
        ensures
            final(self).wf(),
            (final(self).known(), final(self).init_done) == watch_next(old(self).known(), old(self).init_done, event),
            r is Some <==> reported(old(self).known(), old(self).init_done, event),
            match event {
                WatchEvent::Init => final(self).known() == Map::<Seq<char>, RolloutSnapshot>::empty() && !final(self).init_done
                    && r is None,
                WatchEvent::InitDone => final(self).known() == old(self).known() && final(self).init_done && r is None,
                WatchEvent::InitApply { namespace, name, snapshot } => final(self).known() == old(self).known().insert(
                    rollout_key(namespace, name),
                    snapshot,
                ) && final(self).init_done == old(self).init_done && r is None,
                WatchEvent::Apply { namespace, name, snapshot } => {
                    let key = rollout_key(namespace, name);
                    &&& final(self).known() == old(self).known().insert(key, snapshot)
                    &&& final(self).init_done == old(self).init_done
                    &&& if old(self).init_done && old(self).known().dom().contains(key) && differs(
                        old(self).known()[key],
                        snapshot,
                    ) {
                        r matches Some(WatchAction::Changed { namespace: ns, name: nm, changes, action, snapshot: s }) && ns@
                            == ns_or_default(namespace) && nm@ == name_or_unknown(name) && changes@.map_values(
                            |c: String| c@,
                        ) == change_lines(old(self).known()[key], snapshot) && action@ == change_kind(
                            old(self).known()[key],
                            snapshot,
                        ) && s == snapshot
                    } else {
                        r is None
                    }
                },
                WatchEvent::Delete { namespace, name } => {
                    let key = rollout_key(namespace, name);
                    &&& final(self).known() == old(self).known().remove(key)
                    &&& final(self).init_done == old(self).init_done
                    &&& if old(self).init_done && old(self).known().dom().contains(key) {
                        r matches Some(WatchAction::Deleted { namespace: ns, name: nm }) && ns@ == ns_or_default(namespace)
                            && nm@ == name_or_unknown(name)
                    } else {
                        r is None
                    }
                },
            },
    {
        match event {
            WatchEvent::Init => {
                self.entries = Vec::new();
                self.init_done = false;
                proof {
                    assert(self.known() =~= Map::<Seq<char>, RolloutSnapshot>::empty());
                }
                None
            },
            WatchEvent::InitDone => {
                self.init_done = true;
                None
            },
            WatchEvent::InitApply { namespace, name, snapshot } => {
                let (_n, _m, key) = key_of(&namespace, &name);
                self.put(key, snapshot);
                None
            },
            WatchEvent::Apply { namespace, name, snapshot } => {
                let (n, m, key) = key_of(&namespace, &name);
                let mut action: Option<WatchAction> = None;
                if self.init_done {
                    match self.position(key.as_str()) {
                        Some(i) => {
                            let old_snap = &self.entries[i].1;
                            if snapshots_differ(old_snap, &snapshot) {
                                let (changes, kind) = compute_changes(old_snap, &snapshot);
                                action = Some(WatchAction::Changed {
                                    namespace: n,
                                    name: m,
                                    changes,
                                    action: owned(kind),
                                    snapshot: snapshot.copy(),
                                });
                            }
                        },
                        None => {},
                    }
                }
                self.put(key, snapshot);
                action
            },
            WatchEvent::Delete { namespace, name } => {
                let (n, m, key) = key_of(&namespace, &name);
                let was = self.forget(key.as_str());
                if was && self.init_done {
                    Some(WatchAction::Deleted { namespace: n, name: m })
                } else {
                    None
                }
            },
        }
    }
}

/// `s` with every '_' turned into a space.
pub open spec fn underscores_to_spaces(s: Seq<char>) -> Seq<char> {
    s.map_values(|c: char| if c == '_' { ' ' } else { c })
}

fn spaced(s: &str) -> (r: String)
    ensures
        r@ == underscores_to_spaces(s@),
{
    let v = crate::text::chars_of(s);
    let mut w: Vec<char> = Vec::new();
    let mut i: usize = 0;
    while i < v.len()
        invariant
            i <= v.len(),
            v@ == s@,
            w@ == underscores_to_spaces(v@.take(i as int)),
        decreases v.len() - i,
    {
        w.push(if v[i] == '_' { ' ' } else { v[i] });
        proof {
            assert(w@ =~= underscores_to_spaces(v@.take(i + 1)));
        }
        i = i + 1;
    }
    proof {
        assert(v@.take(v@.len() as int) =~= v@);
    }
    crate::text::string_from_chars(w.as_slice())
}

/// The title and text of the notice about a watch action on cluster `cluster_name`.
pub fn action_notice(cluster_name: &str, a: &WatchAction) -> (r: (String, String))
    ensures
        match *a {
            WatchAction::Changed { namespace, name, changes, action, .. } => r.0@ == namespace@ + "/"@ + name@ + " — "@
                + underscores_to_spaces(action@) && r.1@ == "Cluster: "@ + cluster_name@ + " | "@ + join(
                changes@.map_values(|c: String| c@),
                ", "@,
            ),
            WatchAction::Deleted { namespace, name } => r.0@ == namespace@ + "/"@ + name@ + " — deleted"@ && r.1@
                == "Cluster: "@ + cluster_name@,
        },
{
    match a {
        WatchAction::Changed { namespace, name, changes, action, .. } => {
            let mut t = crate::text::cat3(namespace.as_str(), "/", name.as_str());
            t.append(" — ");
            t.append(spaced(action.as_str()).as_str());
            let mut d = cat("Cluster: ", cluster_name);
            d.append(" | ");
            d.append(join_strings(changes, ", ").as_str());
            (t, d)
        },
        WatchAction::Deleted { namespace, name } => {
            let mut t = crate::text::cat3(namespace.as_str(), "/", name.as_str());
            t.append(" — deleted");
            (t, cat("Cluster: ", cluster_name))
        },
    }
}

// ─── The manager ───────────────────────────────────────────────────────────

/// What the manager does on one pass: watches of clusters no longer active are aborted, finished
/// watches are dropped, and a watch is started for every active cluster left without one.
pub struct WatcherPlan {
    pub abort: Vec<Id>,
    pub drop_finished: Vec<Id>,
    pub spawn: Vec<Id>,
}

pub open spec fn kept(watchers: Seq<(Id, bool)>, active: Seq<Id>, c: Id) -> bool {
    exists|i: int| 0 <= i < watchers.len() && (#[trigger] watchers[i]).0 == c && active.contains(c) && !watchers[i].1
}

/// Plan a pass of the manager over the running watches (cluster, finished?) and the active
/// clusters, in listing order.
pub fn plan_watchers(watchers: &Vec<(Id, bool)>, active: &Vec<Id>) -> (p: WatcherPlan)
    ensures
        forall|c: Id| p.abort@.contains(c) <==> (exists|i: int| 0 <= i < watchers@.len() && (#[trigger] watchers@[i]).0 == c) && !active@.contains(c),
        forall|c: Id| p.drop_finished@.contains(c) <==> (exists|i: int| 0 <= i < watchers@.len() && (#[trigger] watchers@[i]).0 == c && watchers@[i].1) && active@.contains(c),
        forall|c: Id| p.spawn@.contains(c) <==> active@.contains(c) && !kept(watchers@, active@, c),
        forall|i: int, j: int| 0 <= i < j < p.spawn@.len() ==> p.spawn@[i] != p.spawn@[j],
{
    let mut abort: Vec<Id> = Vec::new();
    let mut drop_finished: Vec<Id> = Vec::new();
    let mut keep: Vec<Id> = Vec::new();
    let mut i: usize = 0;
    while i < watchers.len()
        invariant
            i <= watchers.len(),
            forall|c: Id| abort@.contains(c) <==> (exists|k: int| 0 <= k < i && (#[trigger] watchers@[k]).0 == c) && !active@.contains(c),
            forall|c: Id| drop_finished@.contains(c) <==> (exists|k: int| 0 <= k < i && (#[trigger] watchers@[k]).0 == c && watchers@[k].1) && active@.contains(c),
            forall|c: Id| keep@.contains(c) <==> exists|k: int| 0 <= k < i && (#[trigger] watchers@[k]).0 == c && active@.contains(c) && !watchers@[k].1,
        decreases watchers.len() - i,
    {
        let (c, finished) = watchers[i];
        let is_active = crate::provider::contains_id(active, c);
        let ghost a0 = abort@;
        let ghost d0 = drop_finished@;
        let ghost k0 = keep@;
        if !is_active {
            abort.push(c);
        } else if finished {
            drop_finished.push(c);
        } else {
            keep.push(c);
        }
        proof {
            assert forall|x: Id| abort@.contains(x) <==> (exists|k: int| 0 <= k < i + 1 && (#[trigger] watchers@[k]).0 == x) && !active@.contains(x) by {
                if !is_active {
                    lemma_push_contains(a0, c, x);
                }
                if x == c {
                    assert(watchers@[i as int].0 == x);
                }
                if exists|k: int| 0 <= k < i + 1 && (#[trigger] watchers@[k]).0 == x {
                    let k = choose|k: int| 0 <= k < i + 1 && (#[trigger] watchers@[k]).0 == x;
                    if k < i {
                        assert(exists|k2: int| 0 <= k2 < i && (#[trigger] watchers@[k2]).0 == x);
                    }
                }
            }
            assert forall|x: Id| drop_finished@.contains(x) <==> (exists|k: int| 0 <= k < i + 1 && (#[trigger] watchers@[k]).0 == x && watchers@[k].1) && active@.contains(x) by {
                if is_active && finished {
                    lemma_push_contains(d0, c, x);
                }
                if x == c {
                    assert(watchers@[i as int].0 == x);
                }
                if exists|k: int| 0 <= k < i + 1 && (#[trigger] watchers@[k]).0 == x && watchers@[k].1 {
                    let k = choose|k: int| 0 <= k < i + 1 && (#[trigger] watchers@[k]).0 == x && watchers@[k].1;
                    if k < i {
                        assert(exists|k2: int| 0 <= k2 < i && (#[trigger] watchers@[k2]).0 == x && watchers@[k2].1);
                    }
                }
            }
            assert forall|x: Id| keep@.contains(x) <==> exists|k: int| 0 <= k < i + 1 && (#[trigger] watchers@[k]).0 == x && active@.contains(x) && !watchers@[k].1 by {
                if is_active && !finished {
                    lemma_push_contains(k0, c, x);
                }
                if x == c {
                    assert(watchers@[i as int].0 == x);
                }
                if exists|k: int| 0 <= k < i + 1 && (#[trigger] watchers@[k]).0 == x && active@.contains(x) && !watchers@[k].1 {
                    let k = choose|k: int| 0 <= k < i + 1 && (#[trigger] watchers@[k]).0 == x && active@.contains(x) && !watchers@[k].1;
                    if k < i {
                        assert(exists|k2: int| 0 <= k2 < i && (#[trigger] watchers@[k2]).0 == x && active@.contains(x) && !watchers@[k2].1);
                    }
                }
            }
        }
        i = i + 1;
    }
    let mut spawn: Vec<Id> = Vec::new();
    let mut j: usize = 0;
    while j < active.len()
        invariant
            j <= active.len(),
            forall|c: Id| keep@.contains(c) <==> kept(watchers@, active@, c),
            forall|c: Id| spawn@.contains(c) <==> (exists|k: int| 0 <= k < j && active@[k] == c) && !kept(watchers@, active@, c),
            forall|a: int, b: int| 0 <= a < b < spawn@.len() ==> spawn@[a] != spawn@[b],
        decreases active.len() - j,
    {
        let c = active[j];
        let ghost s0 = spawn@;
        let in_keep = crate::provider::contains_id(&keep, c);
        let in_spawn = crate::provider::contains_id(&spawn, c);
        if !in_keep && !in_spawn {
            spawn.push(c);
        }
        proof {
            assert forall|x: Id| spawn@.contains(x) <==> (exists|k: int| 0 <= k < j + 1 && active@[k] == x) && !kept(watchers@, active@, x) by {
                if !in_keep && !in_spawn {
                    lemma_push_contains(s0, c, x);
                }
                if x == c {
                    assert(active@[j as int] == x);
                }
                if exists|k: int| 0 <= k < j + 1 && active@[k] == x {
                    let k = choose|k: int| 0 <= k < j + 1 && active@[k] == x;
                    if k < j {
                        assert(exists|k2: int| 0 <= k2 < j && active@[k2] == x);
                    }
                }
            }
            assert forall|a: int, b: int| 0 <= a < b < spawn@.len() implies spawn@[a] != spawn@[b] by {
                if b == s0.len() {
                    assert(s0[a] == spawn@[a]);
                    assert(s0.contains(spawn@[a]));
                }
            }
        }
        j = j + 1;
    }
    proof {
        assert forall|c: Id| spawn@.contains(c) <==> active@.contains(c) && !kept(watchers@, active@, c) by {
            if active@.contains(c) {
                let k = choose|k: int| 0 <= k < active@.len() && active@[k] == c;
            }
        }
    }
    WatcherPlan { abort, drop_finished, spawn }
}

/// How long a cluster watch waits before it is opened again, and the wait after that: a clean end
/// of the stream restarts the wait at 5 seconds; each wait doubles the next, up to 300 seconds.
pub fn retry_delay(delay_secs: u64, ended_cleanly: bool) -> (r: (u64, u64))
    requires
        delay_secs <= 300,
    ensures
        r.0 == (if ended_cleanly { 5 } else { delay_secs }),
        r.1 == (if 2 * r.0 < 300 { 2 * r.0 } else { 300 }),
{
    let wait = if ended_cleanly { 5 } else { delay_secs };
    let next = if 2 * wait < 300 { 2 * wait } else { 300 };
    (wait, next)
}

/// After the first `n` events of a fresh watch, the initial listing is over only if some
/// earlier event ended a listing and no new listing began since.
proof fn lemma_listing_over(es: Seq<WatchEvent>, n: int)
    requires
        0 <= n <= es.len(),
    ensures
        watch_state(es.take(n)).1 ==> exists|j: int|
            0 <= j < n && es[j] is InitDone && forall|i: int| j < i < n ==> !(#[trigger] es[i] is Init),
    decreases n,
{
    if n > 0 {
        lemma_listing_over(es, n - 1);
        assert(es.take(n).drop_last() =~= es.take(n - 1));
        assert(es.take(n).last() == es[n - 1]);
        if watch_state(es.take(n)).1 && !(es[n - 1] is InitDone) {
            let j = choose|j: int|
                0 <= j < n - 1 && es[j] is InitDone && forall|i: int| j < i < n - 1 ==> !(#[trigger] es[i] is Init);
            assert forall|i: int| j < i < n implies !(#[trigger] es[i] is Init) by {
                if i == n - 1 {
                }
            }
        }
    }
}

/// After the first `n` events of a fresh watch, every known rollout was recorded by one of them.
proof fn lemma_known_recorded(es: Seq<WatchEvent>, n: int, key: Seq<char>)
    requires
        0 <= n <= es.len(),
    ensures
        watch_state(es.take(n)).0.dom().contains(key) ==> exists|j: int| 0 <= j < n && #[trigger] records(es[j], key),
    decreases n,
{
    if n > 0 {
        lemma_known_recorded(es, n - 1, key);
        assert(es.take(n).drop_last() =~= es.take(n - 1));
        assert(es.take(n).last() == es[n - 1]);
        if watch_state(es.take(n)).0.dom().contains(key) && !records(es[n - 1], key) {
            let j = choose|j: int| 0 <= j < n - 1 && #[trigger] records(es[j], key);
            assert(records(es[j], key));
        }
    }
}

/// Over a whole watch from a fresh start, the `k`-th event is reported only when it is a change
/// or deletion of a rollout that an earlier event recorded, after an end of the initial listing
/// with no new listing begun since; a listing event, a change before the listing is over, or an
/// unchanged state is never reported.
pub proof fn law_watch_reports(es: Seq<WatchEvent>, k: int)
    requires
        0 <= k < es.len(),
        reported(watch_state(es.take(k)).0, watch_state(es.take(k)).1, es[k]),
    ensures
        es[k] is Apply || es[k] is Delete,
        es[k] matches WatchEvent::Apply { snapshot, .. } ==> differs(watch_state(es.take(k)).0[event_key(es[k])], snapshot),
        exists|j: int| 0 <= j < k && es[j] is InitDone && forall|i: int| j < i < k ==> !(#[trigger] es[i] is Init),
        exists|j: int| 0 <= j < k && #[trigger] records(es[j], event_key(es[k])),
{
    lemma_listing_over(es, k);
    lemma_known_recorded(es, k, event_key(es[k]));
}

/// `line` begins with the text `p`, and its first character is that of `p`.
proof fn lemma_begins(line: Seq<char>, p: Seq<char>, rest: Seq<char>)
    requires
        line == p + rest,
        p.len() > 0,
    ensures
        starts_with(line, p),
        line[0] == p[0],
{
    assert(line.take(p.len() as int) =~= p);
    assert(line[0] == p[0]);
}

/// The kind of a change names the first field that changed, in the order phase, step, image,
/// replica counts; and it is the field of the first change line.
pub proof fn law_change_kind_names_first_change(o: RolloutSnapshot, n: RolloutSnapshot)
    ensures
        o.phase@ != n.phase@ ==> change_kind(o, n) == "phase_change"@,
        o.phase@ == n.phase@ && o.current_step != n.current_step ==> change_kind(o, n) == "step_advance"@,
        o.phase@ == n.phase@ && o.current_step == n.current_step && o.image@ != n.image@ ==> change_kind(o, n)
            == "image_update"@,
        o.phase@ == n.phase@ && o.current_step == n.current_step && o.image@ == n.image@ ==> change_kind(o, n)
            == "replica_change"@,
        change_lines(o, n).len() > 0 ==> {
            let first = change_lines(o, n)[0];
            &&& (change_kind(o, n) == "phase_change"@ <==> starts_with(first, "phase: "@))
            &&& (change_kind(o, n) == "step_advance"@ <==> starts_with(first, "step: "@))
            &&& (change_kind(o, n) == "image_update"@ <==> starts_with(first, "image: "@))
            &&& (change_kind(o, n) == "replica_change"@ <==> starts_with(first, "replicas: "@))
        },
{
    reveal_strlit("phase_change");
    reveal_strlit("step_advance");
    reveal_strlit("image_update");
    reveal_strlit("replica_change");
    reveal_strlit("phase: ");
    reveal_strlit("step: ");
    reveal_strlit("image: ");
    reveal_strlit("replicas: ");
    assert("phase_change"@[0] == 'p' && "step_advance"@[0] == 's' && "image_update"@[0] == 'i'
        && "replica_change"@[0] == 'r');
    assert("phase: "@[0] == 'p' && "step: "@[0] == 's' && "image: "@[0] == 'i' && "replicas: "@[0] == 'r');
    let lines = change_lines(o, n);
    if lines.len() > 0 {
        let first = lines[0];
        if o.phase@ != n.phase@ {
            assert(first == "phase: "@ + o.phase@ + arrow() + n.phase@);
            assert(first =~= "phase: "@ + (o.phase@ + arrow() + n.phase@));
            lemma_begins(first, "phase: "@, o.phase@ + arrow() + n.phase@);
        } else if o.current_step != n.current_step {
            let d = dec_int(o.current_step as int) + arrow() + dec_int(n.current_step as int);
            assert(first == "step: "@ + dec_int(o.current_step as int) + arrow() + dec_int(n.current_step as int));
            assert(first =~= "step: "@ + d);
            lemma_begins(
                first,
                "step: "@,
                dec_int(o.current_step as int) + arrow() + dec_int(n.current_step as int),
            );
        } else if o.image@ != n.image@ {
            let line = "image: "@ + o.image@ + arrow() + n.image@;
            let tail = if o.replicas != n.replicas || o.ready_replicas != n.ready_replicas {
                seq![
                    "replicas: "@ + dec_int(o.ready_replicas as int) + "/"@ + dec_int(o.replicas as int) + arrow()
                        + dec_int(n.ready_replicas as int) + "/"@ + dec_int(n.replicas as int),
                ]
            } else {
                Seq::empty()
            };
            assert(lines =~= seq![line] + tail);
            assert(first == line);
            assert(first =~= "image: "@ + (o.image@ + arrow() + n.image@));
            lemma_begins(first, "image: "@, o.image@ + arrow() + n.image@);
        } else {
            let r = dec_int(o.ready_replicas as int) + "/"@ + dec_int(o.replicas as int) + arrow() + dec_int(
                n.ready_replicas as int,
            ) + "/"@ + dec_int(n.replicas as int);
            assert(lines =~= seq!["replicas: "@ + dec_int(o.ready_replicas as int) + "/"@ + dec_int(o.replicas as int)
                + arrow() + dec_int(n.ready_replicas as int) + "/"@ + dec_int(n.replicas as int)]);
            assert(first =~= "replicas: "@ + r);
            lemma_begins(
                first,
                "replicas: "@,
                dec_int(o.ready_replicas as int) + "/"@ + dec_int(o.replicas as int) + arrow() + dec_int(
                    n.ready_replicas as int,
                ) + "/"@ + dec_int(n.replicas as int),
            );
        }
        assert(starts_with(first, "phase: "@) ==> first[0] == 'p');
        assert(starts_with(first, "step: "@) ==> first[0] == 's');
        assert(starts_with(first, "image: "@) ==> first[0] == 'i');
        assert(starts_with(first, "replicas: "@) ==> first[0] == 'r');
    }
}

/// Two states give change lines exactly when they differ in a compared field, and then one line
/// for each of phase, step and image that changed, plus one for the replica counts.
pub proof fn law_change_lines_count(o: RolloutSnapshot, n: RolloutSnapshot)
    ensures
        change_lines(o, n).len() > 0 <==> differs(o, n),
        change_lines(o, n).len() == (if o.phase@ != n.phase@ { 1int } else { 0int }) + (if o.current_step
            != n.current_step { 1int } else { 0int }) + (if o.image@ != n.image@ { 1int } else { 0int }) + (if o.replicas
            != n.replicas || o.ready_replicas != n.ready_replicas { 1int } else { 0int }),
{
}

} // verus!
