//! Approval workflow for operations that an agent wants to run: members ask,
//! admins of the same tenant approve or reject (never their own requests), an
//! approved plan is executed, and an admin marks the final result.
//!
//! Status moves: pending → approved | rejected | withdrawn;
//! approved → executing → executed | failed; approved | executed | failed → completed | failed.
use vstd::prelude::*;
use crate::auth::{AppError, AuthUser, Id};
use crate::agent::{json_quote, json_quoted};
use crate::json::{json_str_at, json_str_field, json_value_text_at, json_value_text_field};
use crate::text::{
    byte_prefix, cat, char_prefix, join, join_strings, owned, str_eq, str_trim_end_matches, trim_end_matches,
};
use vstd::string::StringSliceAdditionalSpecFns;
use vstd::utf8::*;

verus! {

/// The record of an execution that ended with output `out`: {"output": out}.
pub open spec fn output_doc(out: Seq<char>) -> Seq<char> {
    "{\"output\":"@ + json_quoted(out) + "}"@
}

/// The record of an execution that ended with error `e`: {"error": e}.
pub open spec fn error_doc(e: Seq<char>) -> Seq<char> {
    "{\"error\":"@ + json_quoted(e) + "}"@
}

/// An approval request.  `plan_detail` is the agent's plan as JSON text; times are Unix
/// seconds.
pub struct Approval {
    pub id: Id,
    pub command: String,
    pub reason: Option<String>,
    pub requested_by: Id,
    pub tenant_id: Option<Id>,
    pub status: String,
    pub reviewed_by: Option<Id>,
    /// When it was approved or rejected.
    pub reviewed_at: Option<i64>,
    /// When its execution started.
    pub executed_at: Option<i64>,
    /// What the execution left behind, as a JSON document.
    pub execution_result: Option<String>,
    pub created_at: i64,
    pub jira_key: Option<String>,
    pub plan_detail: Option<String>,
    pub marked_by: Option<Id>,
    /// When the requester withdrew it.
    pub withdrawn_at: Option<i64>,
}

fn copy_opt_string(s: &Option<String>) -> (r: Option<String>)
    ensures
        r == *s,
{
    match s {
        Some(x) => Some(x.clone()),
        None => None,
    }
}


impl Approval {
    /// A copy of the request.
    pub fn copy(&self) -> (r: Approval)
        ensures
            r == *self,
    {
        Approval {
            id: self.id,
            command: self.command.clone(),
            reason: copy_opt_string(&self.reason),
            requested_by: self.requested_by,
            tenant_id: self.tenant_id,
            status: self.status.clone(),
            reviewed_by: self.reviewed_by,
            reviewed_at: self.reviewed_at,
            executed_at: self.executed_at,
            execution_result: copy_opt_string(&self.execution_result),
            created_at: self.created_at,
            jira_key: copy_opt_string(&self.jira_key),
            plan_detail: copy_opt_string(&self.plan_detail),
            marked_by: self.marked_by,
            withdrawn_at: self.withdrawn_at,
        }
    }
}

/// Who a notice goes to: one user, or the users of the tenant holding a permission.
pub enum Audience {
    User(Id),
    PermissionHolders { permission: String, exclude: Option<Id> },
}

/// A notification to send about an approval.
pub struct Notice {
    pub audience: Audience,
    pub tenant_id: Option<Id>,
    pub event: String,
    pub title: String,
    pub message: String,
    pub approval_id: Id,
}

/// A Jira transition to request for an approval's ticket.
pub struct JiraTransition {
    pub key: String,
    pub target: String,
}

/// What a successful review changes besides the record.
pub struct ReviewFollowUp {
    pub notice: Notice,
    pub jira: Option<JiraTransition>,
    /// The approved plan is to be executed now.
    pub execute: bool,
}

// ─── Specifications ────────────────────────────────────────────────────────

/// The caller may see `a`: everything for a super admin; for a tenant admin the requests of its
/// tenant and those of no tenant; for anyone else their own requests.
pub open spec fn visible(auth: AuthUser, a: Approval) -> bool {
    if auth.spec_is_super_admin() {
        true
    } else if auth.spec_is_admin() {
        a.tenant_id == auth.tenant_id || a.tenant_id is None
    } else {
        a.requested_by == auth.user_id
    }
}

/// A tenant admin may act on requests of its own tenant and on those of no tenant.
pub open spec fn in_reach(auth: AuthUser, a: Approval) -> bool {
    auth.spec_is_super_admin() || a.tenant_id is None || a.tenant_id == auth.tenant_id
}

pub open spec fn status_matches(a: Approval, status: Option<Seq<char>>) -> bool {
    match status {
        Some(s) => a.status@ == s,
        None => true,
    }
}

/// The requests of `items` that the caller sees with the given status, newest first.
pub open spec fn matching(items: Seq<Approval>, auth: AuthUser, status: Option<Seq<char>>) -> Seq<Approval>
    decreases items.len(),
{
    if items.len() == 0 {
        Seq::empty()
    } else {
        let rest = matching(items.drop_last(), auth, status);
        let a = items.last();
        if visible(auth, a) && status_matches(a, status) {
            seq![a] + rest
        } else {
            rest
        }
    }
}

/// Most requests a listing returns.
pub open spec fn list_limit() -> int {
    500
}

pub open spec fn has_request(items: Seq<Approval>, id: Id) -> bool {
    exists|k: int| 0 <= k < items.len() && (#[trigger] items[k]).id == id
}

pub open spec fn ids_unique(items: Seq<Approval>) -> bool {
    forall|i: int, j: int| 0 <= i < j < items.len() ==> (#[trigger] items[i]).id != (#[trigger] items[j]).id
}

/// The requests are held in the order of their creation times.
pub open spec fn times_sorted(items: Seq<Approval>) -> bool {
    forall|i: int, j: int| 0 <= i < j < items.len() ==> (#[trigger] items[i]).created_at <= (#[trigger] items[j]).created_at
}

/// Where a request created at `t` goes: after the last one created no later than `t`.
pub open spec fn insert_pos(items: Seq<Approval>, t: i64) -> int
    decreases items.len(),
{
    if items.len() == 0 {
        0
    } else if items.last().created_at > t {
        insert_pos(items.drop_last(), t)
    } else {
        items.len() as int
    }
}

/// Replacing a request by one with the same id and creation time keeps the store well formed.
proof fn lemma_update_keeps(before: Seq<Approval>, k: int, a: Approval)
    requires
        ids_unique(before),
        times_sorted(before),
        0 <= k < before.len(),
        a.id == before[k].id,
        a.created_at == before[k].created_at,
    ensures
        ids_unique(before.update(k, a)),
        times_sorted(before.update(k, a)),
{
    let after = before.update(k, a);
    assert forall|i: int, j: int| 0 <= i < j < after.len() implies (#[trigger] after[i]).id != (#[trigger] after[j]).id
        && after[i].created_at <= after[j].created_at by {
        assert(after[i].id == before[i].id && after[j].id == before[j].id);
        assert(after[i].created_at == before[i].created_at && after[j].created_at == before[j].created_at);
    }
}

pub open spec fn pending() -> Seq<char> {
    "pending"@
}

/// Number of pending requests the caller would be asked to review.
pub open spec fn pending_count(items: Seq<Approval>, auth: AuthUser) -> nat
    decreases items.len(),
{
    if items.len() == 0 {
        0
    } else {
        pending_count(items.drop_last(), auth) + if visible(auth, items.last()) && items.last().status@
            == pending() {
            1nat
        } else {
            0nat
        }
    }
}

pub open spec fn error_is(e: AppError, kind: int, msg: Seq<char>) -> bool {
    match e {
        AppError::BadRequest(m) => kind == 0 && m@ == msg,
        AppError::Forbidden(m) => kind == 1 && m@ == msg,
        AppError::NotFound(m) => kind == 2 && m@ == msg,
        AppError::Conflict(m) => kind == 3 && m@ == msg,
        _ => false,
    }
}

pub open spec fn bad_request() -> int { 0 }
pub open spec fn forbidden() -> int { 1 }
pub open spec fn not_found() -> int { 2 }
pub open spec fn conflict() -> int { 3 }

/// The refusal for a caller who is not an admin: "Only admins can approv requests" for an approval,
/// "Only admins can reject requests" for a rejection (the status without its trailing "ed"s).
pub open spec fn review_refusal(new_status: Seq<char>) -> Seq<char> {
    "Only admins can "@ + trim_end_matches(new_status, "ed"@) + " requests"@
}

/// Why reviewing request `a` (found in the store) with `new_status` is refused, if it is.
pub open spec fn review_error(auth: AuthUser, a: Approval) -> Option<(int, Seq<char>)> {
    if a.requested_by == auth.user_id {
        Some((forbidden(), "Cannot approve or reject your own request"@))
    } else if !in_reach(auth, a) {
        Some((forbidden(), "Access denied"@))
    } else if a.status@ != pending() {
        Some((bad_request(), "Approval is already "@ + a.status@))
    } else {
        None
    }
}

pub open spec fn same_but_status(a: Approval, b: Approval) -> bool {
    &&& b.id == a.id
    &&& b.command == a.command
    &&& b.reason == a.reason
    &&& b.requested_by == a.requested_by
    &&& b.tenant_id == a.tenant_id
    &&& b.jira_key == a.jira_key
    &&& b.plan_detail == a.plan_detail
    &&& b.created_at == a.created_at
}

/// The review, execution and withdrawal times of `b` are those of `a`.
pub open spec fn same_times(a: Approval, b: Approval) -> bool {
    &&& b.reviewed_at == a.reviewed_at
    &&& b.executed_at == a.executed_at
    &&& b.withdrawn_at == a.withdrawn_at
}

/// Statuses whose result an admin may mark.
pub open spec fn markable(status: Seq<char>) -> bool {
    status == "executed"@ || status == "failed"@ || status == "approved"@
}

/// The text that a marked result keeps: the string under "output" in the earlier record (or,
/// when it has no "output", under "error"); else a note.
pub open spec fn kept_output(r: Option<String>) -> Seq<char> {
    let note = "Manually marked by admin"@;
    match r {
        Some(d) => {
            let found = if json_value_text_at(d@, "output"@) is Some {
                json_str_at(d@, "output"@)
            } else {
                json_str_at(d@, "error"@)
            };
            match found {
                Some(t) => t,
                None => note,
            }
        },
        None => note,
    }
}

/// `head` (the opening of the record up to its key) with `text` as a JSON string, closed.
fn result_doc(head: &str, text: &str) -> (r: String)
    ensures
        r@ == head@ + json_quoted(text@) + "}"@,
{
    crate::text::cat3(head, json_quote(text).as_str(), "}")
}

/// The text that a marked result keeps from the record `r`.
fn previous_output(r: &Option<String>) -> (t: String)
    ensures
        t@ == kept_output(*r),
{
    let found = match r {
        Some(d) => {
            if json_value_text_field(d.as_str(), "output").is_some() {
                json_str_field(d.as_str(), "output")
            } else {
                json_str_field(d.as_str(), "error")
            }
        },
        None => None,
    };
    match found {
        Some(t) => t,
        None => owned("Manually marked by admin"),
    }
}

// ─── The store ─────────────────────────────────────────────────────────────

/// The approval requests, oldest first.
pub struct ApprovalStore {
    pub items: Vec<Approval>,
}

fn err(kind: u8, msg: String) -> (e: AppError)
    requires
        kind < 4,
    ensures
        error_is(e, kind as int, msg@),
{
    if kind == 0 {
        AppError::BadRequest(msg)
    } else if kind == 1 {
        AppError::Forbidden(msg)
    } else if kind == 2 {
        AppError::NotFound(msg)
    } else {
        AppError::Conflict(msg)
    }
}

fn is_visible(auth: &AuthUser, a: &Approval) -> (b: bool)
    ensures
        b == visible(*auth, *a),
{
    if auth.is_super_admin() {
        true
    } else if auth.is_admin() {
        a.tenant_id == auth.tenant_id || a.tenant_id.is_none()
    } else {
        a.requested_by == auth.user_id
    }
}

fn is_in_reach(auth: &AuthUser, a: &Approval) -> (b: bool)
    ensures
        b == in_reach(*auth, *a),
{
    auth.is_super_admin() || a.tenant_id.is_none() || a.tenant_id == auth.tenant_id
}

fn is_pending(a: &Approval) -> (b: bool)
    ensures
        b == (a.status@ == pending()),
{
    str_eq(a.status.as_str(), "pending")
}

impl ApprovalStore {
    pub open spec fn wf(&self) -> bool {
        ids_unique(self.items@) && times_sorted(self.items@)
    }

    pub fn new() -> (r: Self)
        ensures
            r.wf(),
            r.items@.len() == 0,
    {
        ApprovalStore { items: Vec::new() }
    }

    /// Position of request `id`.
    pub fn find(&self, id: Id) -> (r: Option<usize>)
        ensures
            r is None <==> !has_request(self.items@, id),
            r matches Some(k) ==> k < self.items@.len() && self.items@[k as int].id == id,
    {
        let mut i: usize = 0;
        while i < self.items.len()
            invariant
                i <= self.items.len(),
                forall|j: int| 0 <= j < i ==> (#[trigger] self.items@[j]).id != id,
            decreases self.items.len() - i,
        {
            if self.items[i].id == id {
                return Some(i);
            }
            i = i + 1;
        }
        None
    }

    /// The requests the caller sees, newest first, filtered by status when one is given, at most
    /// 500 of them.
    pub fn list(&self, auth: &AuthUser, status: Option<&str>) -> (r: Vec<Approval>)
        ensures
            r@ == matching(self.items@, *auth, match status { Some(s) => Some(s@), None => None }).take(
                if matching(self.items@, *auth, match status { Some(s) => Some(s@), None => None }).len()
                    < list_limit() {
                    matching(self.items@, *auth, match status { Some(s) => Some(s@), None => None }).len() as int
                } else {
                    list_limit()
                },
            ),
    {
        let ghost st = match status {
            Some(s) => Some(s@),
            None => None,
        };
        let ghost all = self.items@;
        let mut out: Vec<Approval> = Vec::new();
        let mut i: usize = self.items.len();
        proof {
            assert(all.take(all.len() as int) =~= all);
            assert(out@ + matching(all, *auth, st) =~= matching(all, *auth, st));
        }
        while i > 0 && out.len() < 500
            invariant
                i <= self.items.len(),
                all == self.items@,
                st == match status {
                    Some(s) => Some(s@),
                    None => None,
                },
                out@.len() <= 500,
                matching(all, *auth, st) == out@ + matching(all.take(i as int), *auth, st),
            decreases i,
        {
            let a = &self.items[i - 1];
            proof {
                assert(all.take(i as int).drop_last() =~= all.take(i - 1));
                assert(all.take(i as int).last() == all[i - 1]);
            }
            let vis = is_visible(auth, a);
            let st_ok = match status {
                Some(s) => str_eq(a.status.as_str(), s),
                None => true,
            };
            let keep = vis && st_ok;
            let ghost before = out@;
            proof {
                assert(*a == all[i - 1]);
                assert(vis == visible(*auth, all[i - 1]));
                assert(st_ok == status_matches(all[i - 1], st));
                let t = all.take(i as int);
                assert(t.len() > 0);
                assert(t.last() == all[i - 1]);
                assert(t.drop_last() == all.take(i - 1));
            }
            if keep {
                out.push(a.copy());
                proof {
                    assert(matching(all.take(i as int), *auth, st) == seq![all[i - 1]] + matching(all.take(i - 1), *auth, st));
                    assert(before + (seq![all[i - 1]] + matching(all.take(i - 1), *auth, st)) =~= out@
                        + matching(all.take(i - 1), *auth, st));
                }
            } else {
                proof {
                    assert(matching(all.take(i as int), *auth, st) == matching(all.take(i - 1), *auth, st));
                }
            }
            i = i - 1;
        }
        proof {
            let m = matching(all, *auth, st);
            if out@.len() < 500 {
                assert(i == 0);
                assert(all.take(0) =~= Seq::<Approval>::empty());
                assert(m =~= out@);
                assert(m.take(m.len() as int) =~= m);
            } else {
                assert(m.take(500) =~= out@);
            }
        }
        out
    }

    /// How many pending requests the caller may review: all of them for a super admin, those of
    /// its tenant or of no tenant for a tenant admin, none for anyone else.
    pub fn count_pending(&self, auth: &AuthUser) -> (n: i64)
        requires
            self.items@.len() <= i64::MAX,
        ensures
            auth.spec_is_admin() ==> n == pending_count(self.items@, *auth),
            !auth.spec_is_admin() ==> n == 0,
    {
        if !auth.is_admin() {
            return 0;
        }
        let ghost all = self.items@;
        let mut n: i64 = 0;
        let mut i: usize = 0;
        while i < self.items.len()
            invariant
                i <= self.items.len(),
                all == self.items@,
                all.len() <= i64::MAX,
                n == pending_count(all.take(i as int), *auth),
                n <= i,
            decreases self.items.len() - i,
        {
            proof {
                assert(all.take(i + 1).drop_last() =~= all.take(i as int));
            }
            let a = &self.items[i];
            if is_visible(auth, a) && is_pending(a) {
                n = n + 1;
            }
            i = i + 1;
        }
        proof {
            assert(all.take(all.len() as int) =~= all);
        }
        n
    }

    /// File a new pending request of the caller, in the caller's tenant.
    pub fn create(
        &mut self,
        auth: &AuthUser,
        id: Id,
        command: &str,
        reason: Option<&str>,
        plan_detail: Option<&str>,
        now: i64,
    ) -> (r: Result<Approval, AppError>)
        requires
            old(self).wf(),
        ensures
            final(self).wf(),
            r is Ok <==> !has_request(old(self).items@, id),
            r matches Err(e) ==> error_is(e, conflict(), "Approval already exists"@) && final(self).items@
                == old(self).items@,
            r matches Ok(a) ==> {
                &&& a.id == id
                &&& a.command@ == command@
                &&& (a.reason is Some <==> reason is Some)
                &&& (reason matches Some(x) ==> a.reason->0@ == x@)
                &&& a.requested_by == auth.user_id
                &&& a.tenant_id == auth.tenant_id
                &&& a.status@ == pending()
                &&& a.reviewed_by is None
                &&& a.reviewed_at is None
                &&& a.executed_at is None
                &&& a.withdrawn_at is None
                &&& a.created_at == now
                &&& a.execution_result is None
                &&& a.jira_key is None
                &&& (a.plan_detail is Some <==> plan_detail is Some)
                &&& (plan_detail matches Some(x) ==> a.plan_detail->0@ == x@)
                &&& a.marked_by is None
                &&& final(self).items@ == old(self).items@.insert(insert_pos(old(self).items@, now), a)
            },
    {
        if self.find(id).is_some() {
            return Err(err(3, owned("Approval already exists")));
        }
        let a = Approval {
            id,
            command: owned(command),
            reason: match reason {
                Some(x) => Some(owned(x)),
                None => None,
            },
            requested_by: auth.user_id,
            tenant_id: auth.tenant_id,
            status: owned("pending"),
            reviewed_by: None,
            reviewed_at: None,
            executed_at: None,
            execution_result: None,
            created_at: now,
            jira_key: None,
            plan_detail: match plan_detail {
                Some(x) => Some(owned(x)),
                None => None,
            },
            marked_by: None,
            withdrawn_at: None,
        };
        let ghost before = self.items@;
        let mut pos = self.items.len();
        proof {
            assert(before.take(before.len() as int) =~= before);
        }
        while pos > 0 && self.items[pos - 1].created_at > now
            invariant
                pos <= self.items@.len(),
                self.items@ == before,
                insert_pos(before, now) == insert_pos(before.take(pos as int), now),
                forall|j: int| pos <= j < before.len() ==> (#[trigger] before[j]).created_at > now,
            decreases pos,
        {
            proof {
                assert(before.take(pos as int).drop_last() =~= before.take(pos - 1));
                assert(before.take(pos as int).last() == before[pos - 1]);
            }
            pos = pos - 1;
        }
        proof {
            if pos > 0 {
                assert(before.take(pos as int).last() == before[pos - 1]);
            } else {
                assert(before.take(0) =~= Seq::<Approval>::empty());
            }
            assert(insert_pos(before, now) == pos);
        }
        self.items.insert(pos, a.copy());
        proof {
            let after = self.items@;
            assert(after == before.insert(pos as int, a));
            assert forall|i: int| 0 <= i < pos implies (#[trigger] before[i]).created_at <= now by {
                assert(before[i].created_at <= before[pos - 1].created_at);
            }
            assert forall|i: int, j: int| 0 <= i < j < after.len() implies (#[trigger] after[i]).id
                != (#[trigger] after[j]).id && after[i].created_at <= after[j].created_at by {
                if i < pos {
                    assert(after[i] == before[i]);
                } else if i > pos {
                    assert(after[i] == before[i - 1]);
                }
                if j < pos {
                    assert(after[j] == before[j]);
                } else if j > pos {
                    assert(after[j] == before[j - 1]);
                }
            }
        }
        Ok(a)
    }
}

impl ApprovalStore {
    /// Approve or reject request `id` (tenant admins and super admins only).  Refused, in this
    /// order, when the caller is no admin, the request is unknown, it is the caller's own request,
    /// it belongs to another tenant, or it is no longer pending.
    fn review(&mut self, auth: &AuthUser, id: Id, new_status: &str, now: i64) -> (r: Result<Approval, AppError>)
        requires
            old(self).wf(),
        ensures
            final(self).wf(),
            r is Err ==> final(self).items@ == old(self).items@,
            !auth.spec_is_admin() ==> (r matches Err(e) && error_is(e, forbidden(), review_refusal(new_status@))),
            auth.spec_is_admin() && !has_request(old(self).items@, id) ==> (r matches Err(e) && error_is(
                e,
                not_found(),
                "Approval not found"@,
            )),
            auth.spec_is_admin() ==> forall|k: int|
                0 <= k < old(self).items@.len() && (#[trigger] old(self).items@[k]).id == id ==> match review_error(
                    *auth,
                    old(self).items@[k],
                ) {
                    Some(ke) => (r matches Err(e) && error_is(e, ke.0, ke.1)),
                    None => (r matches Ok(a) && same_but_status(old(self).items@[k], a) && a.status@
                        == new_status@ && a.reviewed_by == Some(auth.user_id) && a.reviewed_at == Some(now)
                        && a.executed_at == old(self).items@[k].executed_at && a.withdrawn_at
                        == old(self).items@[k].withdrawn_at && a.execution_result
                        == old(self).items@[k].execution_result && a.marked_by == old(self).items@[k].marked_by
                        && final(self).items@ == old(self).items@.update(k, a)),
                },
    {
        if !auth.is_admin() {
            let what = str_trim_end_matches(new_status, "ed");
            let head = cat("Only admins can ", what.as_str());
            return Err(err(1, cat(head.as_str(), " requests")));
        }
        let k = match self.find(id) {
            Some(k) => k,
            None => {
                return Err(err(2, owned("Approval not found")));
            },
        };
        let existing = &self.items[k];
        proof {
            assert forall|j: int| 0 <= j < self.items@.len() && (#[trigger] self.items@[j]).id == id implies j == k by {
                if j != k {
                    if j < k {
                        assert(self.items@[j].id != self.items@[k as int].id);
                    } else {
                        assert(self.items@[k as int].id != self.items@[j].id);
                    }
                }
            }
        }
        if existing.requested_by == auth.user_id {
            return Err(err(1, owned("Cannot approve or reject your own request")));
        }
        if !is_in_reach(auth, existing) {
            return Err(err(1, owned("Access denied")));
        }
        if !is_pending(existing) {
            return Err(err(0, cat("Approval is already ", existing.status.as_str())));
        }
        let mut a = existing.copy();
        a.status = owned(new_status);
        a.reviewed_by = Some(auth.user_id);
        a.reviewed_at = Some(now);
        let ghost before = self.items@;
        proof {
            lemma_update_keeps(before, k as int, a);
        }
        self.items.set(k, a.copy());
        proof {
            assert forall|i: int, j: int| 0 <= i < j < self.items@.len() implies (#[trigger] self.items@[i]).id
                != (#[trigger] self.items@[j]).id by {
                assert(self.items@[i].id == before[i].id && self.items@[j].id == before[j].id);
            }
        }
        Ok(a)
    }

    /// Approve request `id`; see `review` for when it is refused.
    pub fn approve(&mut self, auth: &AuthUser, id: Id, now: i64) -> (r: Result<Approval, AppError>)
        requires
            old(self).wf(),
        ensures
            final(self).wf(),
            r is Err ==> final(self).items@ == old(self).items@,
            !auth.spec_is_admin() ==> (r matches Err(e) && error_is(e, forbidden(), review_refusal("approved"@))),
            auth.spec_is_admin() && !has_request(old(self).items@, id) ==> (r matches Err(e) && error_is(
                e,
                not_found(),
                "Approval not found"@,
            )),
            auth.spec_is_admin() ==> forall|k: int|
                0 <= k < old(self).items@.len() && (#[trigger] old(self).items@[k]).id == id ==> match review_error(
                    *auth,
                    old(self).items@[k],
                ) {
                    Some(ke) => (r matches Err(e) && error_is(e, ke.0, ke.1)),
                    None => (r matches Ok(a) && same_but_status(old(self).items@[k], a) && a.status@
                        == "approved"@ && a.reviewed_by == Some(auth.user_id) && a.reviewed_at == Some(now)
                        && a.executed_at == old(self).items@[k].executed_at && a.withdrawn_at
                        == old(self).items@[k].withdrawn_at && a.execution_result
                        == old(self).items@[k].execution_result && a.marked_by == old(self).items@[k].marked_by
                        && final(self).items@ == old(self).items@.update(k, a)),
                },
    {
        self.review(auth, id, "approved", now)
    }

    /// Reject request `id`; see `review` for when it is refused.
    pub fn reject(&mut self, auth: &AuthUser, id: Id, now: i64) -> (r: Result<Approval, AppError>)
        requires
            old(self).wf(),
        ensures
            final(self).wf(),
            r is Err ==> final(self).items@ == old(self).items@,
            !auth.spec_is_admin() ==> (r matches Err(e) && error_is(e, forbidden(), review_refusal("rejected"@))),
            auth.spec_is_admin() && !has_request(old(self).items@, id) ==> (r matches Err(e) && error_is(
                e,
                not_found(),
                "Approval not found"@,
            )),
            auth.spec_is_admin() ==> forall|k: int|
                0 <= k < old(self).items@.len() && (#[trigger] old(self).items@[k]).id == id ==> match review_error(
                    *auth,
                    old(self).items@[k],
                ) {
                    Some(ke) => (r matches Err(e) && error_is(e, ke.0, ke.1)),
                    None => (r matches Ok(a) && same_but_status(old(self).items@[k], a) && a.status@
                        == "rejected"@ && a.reviewed_by == Some(auth.user_id) && a.reviewed_at == Some(now)
                        && a.executed_at == old(self).items@[k].executed_at && a.withdrawn_at
                        == old(self).items@[k].withdrawn_at && a.execution_result
                        == old(self).items@[k].execution_result && a.marked_by == old(self).items@[k].marked_by
                        && final(self).items@ == old(self).items@.update(k, a)),
                },
    {
        self.review(auth, id, "rejected", now)
    }

    /// Withdraw request `id`: only its requester may, and only while it is pending.
    pub fn withdraw(&mut self, auth: &AuthUser, id: Id, now: i64) -> (r: Result<Approval, AppError>)
        requires
            old(self).wf(),
        ensures
            final(self).wf(),
            r is Ok <==> exists|k: int|
                0 <= k < old(self).items@.len() && (#[trigger] old(self).items@[k]).id == id
                    && old(self).items@[k].requested_by == auth.user_id && old(self).items@[k].status@ == pending(),
            r matches Err(e) ==> error_is(e, bad_request(), "Approval not found or not in pending status"@)
                && final(self).items@ == old(self).items@,
            forall|k: int|
                0 <= k < old(self).items@.len() && (#[trigger] old(self).items@[k]).id == id ==> (r matches Ok(a)
                    ==> same_but_status(old(self).items@[k], a) && a.status@ == "withdrawn"@ && a.reviewed_by
                    == old(self).items@[k].reviewed_by && a.withdrawn_at == Some(now) && a.reviewed_at
                    == old(self).items@[k].reviewed_at && a.executed_at == old(self).items@[k].executed_at && a.execution_result == old(self).items@[k].execution_result
                    && a.marked_by == old(self).items@[k].marked_by && final(self).items@ == old(self).items@.update(k, a)),
    {
        let k = match self.find(id) {
            Some(k) => k,
            None => {
                return Err(err(0, owned("Approval not found or not in pending status")));
            },
        };
        proof {
            assert forall|j: int| 0 <= j < self.items@.len() && (#[trigger] self.items@[j]).id == id implies j == k by {
                if j != k {
                    if j < k {
                        assert(self.items@[j].id != self.items@[k as int].id);
                    } else {
                        assert(self.items@[k as int].id != self.items@[j].id);
                    }
                }
            }
        }
        let existing = &self.items[k];
        if existing.requested_by != auth.user_id || !is_pending(existing) {
            return Err(err(0, owned("Approval not found or not in pending status")));
        }
        let mut a = existing.copy();
        a.status = owned("withdrawn");
        a.withdrawn_at = Some(now);
        let ghost before = self.items@;
        proof {
            lemma_update_keeps(before, k as int, a);
        }
        self.items.set(k, a.copy());
        proof {
            assert forall|i: int, j: int| 0 <= i < j < self.items@.len() implies (#[trigger] self.items@[i]).id
                != (#[trigger] self.items@[j]).id by {
                assert(self.items@[i].id == before[i].id && self.items@[j].id == before[j].id);
            }
        }
        Ok(a)
    }

    /// Link Jira issue `jira_key` to request `id`.  A caller other than a super admin may only
    /// link requests of exactly its own tenant.
    pub fn update_jira_key(&mut self, auth: &AuthUser, id: Id, jira_key: &str) -> (r: Result<Approval, AppError>)
        requires
            old(self).wf(),
        ensures
            final(self).wf(),
            r is Err ==> final(self).items@ == old(self).items@,
            !has_request(old(self).items@, id) ==> (r matches Err(e) && error_is(e, not_found(), "Approval not found"@)),
            forall|k: int|
                0 <= k < old(self).items@.len() && (#[trigger] old(self).items@[k]).id == id ==> if !auth.spec_is_super_admin()
                    && old(self).items@[k].tenant_id != auth.tenant_id {
                    r matches Err(e) && error_is(e, forbidden(), "Access denied"@)
                } else {
                    r matches Ok(a) && (a.jira_key matches Some(j) && j@ == jira_key@) && a.id == id && a.command == old(self).items@[k].command
                        && a.reason == old(self).items@[k].reason && a.requested_by == old(self).items@[k].requested_by
                        && a.tenant_id == old(self).items@[k].tenant_id && a.status == old(self).items@[k].status
                        && a.reviewed_by == old(self).items@[k].reviewed_by && a.execution_result == old(self).items@[k].execution_result && a.plan_detail == old(self).items@[k].plan_detail && a.marked_by
                        == old(self).items@[k].marked_by && a.created_at == old(self).items@[k].created_at
                        && same_times(old(self).items@[k], a) && final(self).items@ == old(self).items@.update(k, a)
                },
    {
        let k = match self.find(id) {
            Some(k) => k,
            None => {
                return Err(err(2, owned("Approval not found")));
            },
        };
        proof {
            assert forall|j: int| 0 <= j < self.items@.len() && (#[trigger] self.items@[j]).id == id implies j == k by {
                if j != k {
                    if j < k {
                        assert(self.items@[j].id != self.items@[k as int].id);
                    } else {
                        assert(self.items@[k as int].id != self.items@[j].id);
                    }
                }
            }
        }
        let existing = &self.items[k];
        if !auth.is_super_admin() && existing.tenant_id != auth.tenant_id {
            return Err(err(1, owned("Access denied")));
        }
        let mut a = existing.copy();
        a.jira_key = Some(owned(jira_key));
        let ghost before = self.items@;
        proof {
            lemma_update_keeps(before, k as int, a);
        }
        self.items.set(k, a.copy());
        proof {
            assert forall|i: int, j: int| 0 <= i < j < self.items@.len() implies (#[trigger] self.items@[i]).id
                != (#[trigger] self.items@[j]).id by {
                assert(self.items@[i].id == before[i].id && self.items@[j].id == before[j].id);
            }
        }
        Ok(a)
    }

    /// An admin marks the result of an approved, executed or failed request: "completed" on
    /// success, "failed" otherwise, keeping the earlier output or error text.
    pub fn mark_result(&mut self, auth: &AuthUser, id: Id, success: bool) -> (r: Result<Approval, AppError>)
        requires
            old(self).wf(),
        ensures
            final(self).wf(),
            r is Err ==> final(self).items@ == old(self).items@,
            !auth.spec_is_admin() ==> (r matches Err(e) && error_is(e, forbidden(), "Only admins can mark approval results"@)),
            auth.spec_is_admin() && !has_request(old(self).items@, id) ==> (r matches Err(e) && error_is(
                e,
                not_found(),
                "Approval not found"@,
            )),
            auth.spec_is_admin() ==> forall|k: int|
                0 <= k < old(self).items@.len() && (#[trigger] old(self).items@[k]).id == id ==> if !in_reach(
                    *auth,
                    old(self).items@[k],
                ) {
                    r matches Err(e) && error_is(e, forbidden(), "Access denied"@)
                } else if !markable(old(self).items@[k].status@) {
                    r matches Err(e) && error_is(
                        e,
                        bad_request(),
                        "Can only mark result for approved/executed/failed approvals, current status: "@ + old(self).items@[k].status@,
                    )
                } else {
                    r matches Ok(a) && same_but_status(old(self).items@[k], a) && a.status@ == (if success {
                        "completed"@
                    } else {
                        "failed"@
                    }) && a.reviewed_by == old(self).items@[k].reviewed_by && a.marked_by == Some(auth.user_id)
                        && same_times(old(self).items@[k], a)
                        && (if success {
                        a.execution_result matches Some(t) && t@ == output_doc(
                            kept_output(old(self).items@[k].execution_result),
                        )
                    } else {
                        a.execution_result matches Some(t) && t@ == error_doc(
                            kept_output(old(self).items@[k].execution_result),
                        )
                    }) && final(self).items@ == old(self).items@.update(k, a)
                },
    {
        if !auth.is_admin() {
            return Err(err(1, owned("Only admins can mark approval results")));
        }
        let k = match self.find(id) {
            Some(k) => k,
            None => {
                return Err(err(2, owned("Approval not found")));
            },
        };
        proof {
            assert forall|j: int| 0 <= j < self.items@.len() && (#[trigger] self.items@[j]).id == id implies j == k by {
                if j != k {
                    if j < k {
                        assert(self.items@[j].id != self.items@[k as int].id);
                    } else {
                        assert(self.items@[k as int].id != self.items@[j].id);
                    }
                }
            }
        }
        let existing = &self.items[k];
        if !is_in_reach(auth, existing) {
            return Err(err(1, owned("Access denied")));
        }
        let st = existing.status.as_str();
        if !str_eq(st, "executed") && !str_eq(st, "failed") && !str_eq(st, "approved") {
            return Err(err(
                0,
                cat("Can only mark result for approved/executed/failed approvals, current status: ", st),
            ));
        }
        let text = previous_output(&existing.execution_result);
        let mut a = existing.copy();
        if success {
            a.status = owned("completed");
            a.execution_result = Some(result_doc("{\"output\":", text.as_str()));
        } else {
            a.status = owned("failed");
            a.execution_result = Some(result_doc("{\"error\":", text.as_str()));
        }
        a.marked_by = Some(auth.user_id);
        let ghost before = self.items@;
        proof {
            lemma_update_keeps(before, k as int, a);
        }
        self.items.set(k, a.copy());
        proof {
            assert forall|i: int, j: int| 0 <= i < j < self.items@.len() implies (#[trigger] self.items@[i]).id
                != (#[trigger] self.items@[j]).id by {
                assert(self.items@[i].id == before[i].id && self.items@[j].id == before[j].id);
            }
        }
        Ok(a)
    }
}

// ─── Follow-ups: notices, Jira transitions, execution texts ───────────────

/// What follows the decision on `a` (the updated record) by `decider`: the requester is told, and an
/// approval moves its Jira ticket to "In Progress" and starts the execution.
pub fn review_follow_up(a: &Approval, decider: &str) -> (f: ReviewFollowUp)
    ensures
        f.notice.audience == Audience::User(a.requested_by),
        f.notice.tenant_id == a.tenant_id,
        f.notice.approval_id == a.id,
        f.notice.event@ == (if a.status@ == "approved"@ { "approval_approved"@ } else { "approval_rejected"@ }),
        f.notice.title@ == "Your request was "@ + a.status@,
        f.notice.message@ == a.status@ + " by "@ + decider@,
        f.execute == (a.status@ == "approved"@),
        match f.jira {
            Some(j) => a.status@ == "approved"@ && a.jira_key is Some && j.key == a.jira_key->0 && j.target@
                == "In Progress"@,
            None => a.status@ != "approved"@ || a.jira_key is None,
        },
{
    let approved = str_eq(a.status.as_str(), "approved");
    let event = if approved { owned("approval_approved") } else { owned("approval_rejected") };
    let notice = Notice {
        audience: Audience::User(a.requested_by),
        tenant_id: a.tenant_id,
        event,
        title: cat("Your request was ", a.status.as_str()),
        message: crate::text::cat3(a.status.as_str(), " by ", decider),
        approval_id: a.id,
    };
    let jira = if approved {
        match &a.jira_key {
            Some(k) => Some(JiraTransition { key: k.clone(), target: owned("In Progress") }),
            None => None,
        }
    } else {
        None
    };
    ReviewFollowUp { notice, jira, execute: approved }
}

/// The notice to the tenant's approvers about a new request `a` from `username`; the requester
/// is left out.
pub fn submitted_notice(a: &Approval, username: &str) -> (n: Notice)
    ensures
        n.audience matches Audience::PermissionHolders { permission, exclude } && permission@
            == "approval.approve"@ && exclude == Some(a.requested_by),
        n.tenant_id == a.tenant_id,
        n.approval_id == a.id,
        n.event@ == "approval_submitted"@,
        n.title@ == "New approval request from "@ + username@,
        n.message == a.command,
{
    Notice {
        audience: Audience::PermissionHolders { permission: owned("approval.approve"), exclude: Some(a.requested_by) },
        tenant_id: a.tenant_id,
        event: owned("approval_submitted"),
        title: cat("New approval request from ", username),
        message: a.command.clone(),
        approval_id: a.id,
    }
}

/// What follows the withdrawal of `a` by `username`: the approvers are told, and a linked Jira
/// ticket is moved to "Cancelled".
pub fn withdrawn_follow_up(a: &Approval, username: &str) -> (r: (Notice, Option<JiraTransition>))
    ensures
        r.0.audience matches Audience::PermissionHolders { permission, exclude } && permission@
            == "approval.approve"@ && exclude == Some(a.requested_by),
        r.0.tenant_id == a.tenant_id,
        r.0.approval_id == a.id,
        r.0.event@ == "approval_withdrawn"@,
        r.0.title@ == username@ + " withdrew their approval request"@,
        r.0.message == a.command,
        match r.1 {
            Some(j) => a.jira_key is Some && j.key == a.jira_key->0 && j.target@ == "Cancelled"@,
            None => a.jira_key is None,
        },
{
    let n = Notice {
        audience: Audience::PermissionHolders { permission: owned("approval.approve"), exclude: Some(a.requested_by) },
        tenant_id: a.tenant_id,
        event: owned("approval_withdrawn"),
        title: cat(username, " withdrew their approval request"),
        message: a.command.clone(),
        approval_id: a.id,
    };
    let j = match &a.jira_key {
        Some(k) => Some(JiraTransition { key: k.clone(), target: owned("Cancelled") }),
        None => None,
    };
    (n, j)
}

/// What follows an admin's marking of `a`: the requester is told, and a linked Jira ticket is
/// moved to "Done" on success, "Failed" otherwise.
pub fn marked_follow_up(a: &Approval, decider: &str, success: bool) -> (r: (Notice, Option<JiraTransition>))
    ensures
        r.0.audience == Audience::User(a.requested_by),
        r.0.tenant_id == a.tenant_id,
        r.0.approval_id == a.id,
        r.0.event@ == "approval_result_overridden"@,
        r.0.title@ == "Result marked as "@ + (if success { "success"@ } else { "failure"@ }) + " by "@ + decider@,
        r.0.message == a.command,
        match r.1 {
            Some(j) => a.jira_key is Some && j.key == a.jira_key->0 && j.target@ == (if success {
                "Done"@
            } else {
                "Failed"@
            }),
            None => a.jira_key is None,
        },
{
    let label = if success { "success" } else { "failure" };
    let head = cat("Result marked as ", label);
    let n = Notice {
        audience: Audience::User(a.requested_by),
        tenant_id: a.tenant_id,
        event: owned("approval_result_overridden"),
        title: crate::text::cat3(head.as_str(), " by ", decider),
        message: a.command.clone(),
        approval_id: a.id,
    };
    let j = match &a.jira_key {
        Some(k) => Some(JiraTransition { key: k.clone(), target: if success { owned("Done") } else { owned("Failed") } }),
        None => None,
    };
    (n, j)
}

/// The prompt an approved request executes: the "prompt" string of its plan when there is one,
/// else its command.
pub open spec fn raw_prompt_of(a: Approval) -> Seq<char> {
    match a.plan_detail {
        Some(d) => match json_str_at(d@, "prompt"@) {
            Some(p) => p,
            None => a.command@,
        },
        None => a.command@,
    }
}

pub fn raw_prompt(a: &Approval) -> (r: String)
    ensures
        r@ == raw_prompt_of(*a),
{
    match &a.plan_detail {
        Some(d) => match json_str_field(d.as_str(), "prompt") {
            Some(p) => p,
            None => a.command.clone(),
        },
        None => a.command.clone(),
    }
}

/// The fixed instructions that open every execution prompt.
pub open spec fn execution_rules() -> Seq<char> {
    "You are an infrastructure execution agent. An admin has approved the following operation.\n\n## Rules\n1. Execute it NOW using the appropriate CLI commands (aws cli, kubectl, terraform, etc.).\n2. Do NOT just describe the steps — actually run them.\n3. If a command fails, include the full error output.\n\n## Verification (MANDATORY)\nAfter execution, you MUST verify the result by running a separate check command. Examples:\n- Created S3 bucket → `aws s3api head-bucket --bucket <name>`\n- Created EC2 instance → `aws ec2 describe-instances --instance-ids <id> --query 'Reservations[].Instances[].State'`\n- Created IAM role → `aws iam get-role --role-name <name>`\n- Applied k8s resource → `kubectl get <resource> -n <ns>`\n- Scaled deployment → `kubectl rollout status deployment/<name> -n <ns>`\nChoose the appropriate verification command based on what you just executed.\n\n## Output Format\nReport in this structure:\n**Execution**: what commands were run and their output\n**Verification**: the check command and its result (PASS / FAIL)\n**Summary**: one-line result\n\n"@
}

/// The prompt handed to the execution agent: the rules, the account context, then the operation.
pub fn execution_prompt(account_context: &str, raw: &str) -> (r: String)
    ensures
        r@ == execution_rules() + account_context@ + "## Approved Operation\n"@ + raw@,
{
    let head = cat("You are an infrastructure execution agent. An admin has approved the following operation.\n\n## Rules\n1. Execute it NOW using the appropriate CLI commands (aws cli, kubectl, terraform, etc.).\n2. Do NOT just describe the steps — actually run them.\n3. If a command fails, include the full error output.\n\n## Verification (MANDATORY)\nAfter execution, you MUST verify the result by running a separate check command. Examples:\n- Created S3 bucket → `aws s3api head-bucket --bucket <name>`\n- Created EC2 instance → `aws ec2 describe-instances --instance-ids <id> --query 'Reservations[].Instances[].State'`\n- Created IAM role → `aws iam get-role --role-name <name>`\n- Applied k8s resource → `kubectl get <resource> -n <ns>`\n- Scaled deployment → `kubectl rollout status deployment/<name> -n <ns>`\nChoose the appropriate verification command based on what you just executed.\n\n## Output Format\nReport in this structure:\n**Execution**: what commands were run and their output\n**Verification**: the check command and its result (PASS / FAIL)\n**Summary**: one-line result\n\n", account_context);
    crate::text::cat3(head.as_str(), "## Approved Operation\n", raw)
}

/// How an execution run ends up: a clean exit is "executed" with its output, a failed run is
/// "failed" with its error.  No attempt is made to judge the output itself.
pub fn execution_outcome(result: Result<String, String>) -> (r: (String, String, String))
    ensures
        match result {
            Ok(out) => r.0@ == "executed"@ && r.1 == out && r.2@ == output_doc(out@),
            Err(e) => r.0@ == "failed"@ && r.1 == e && r.2@ == error_doc(e@),
        },
{
    match result {
        Ok(out) => {
            let d = result_doc("{\"output\":", out.as_str());
            (owned("executed"), out, d)
        },
        Err(e) => {
            let d = result_doc("{\"error\":", e.as_str());
            (owned("failed"), e, d)
        },
    }
}

/// The notice to the requester once execution of `a` ended with `status` and `output`; the
/// message is the output cut to its first 200 bytes.
pub fn execution_notice(a: &Approval, status: &str, output: &str) -> (n: Notice)
    requires
        output.len() <= 200 || is_char_boundary(output.spec_bytes(), 200),
    ensures
        n.audience == Audience::User(a.requested_by),
        n.tenant_id == a.tenant_id,
        n.approval_id == a.id,
        n.event@ == (if status@ == "executed"@ { "approval_executed"@ } else { "approval_failed"@ }),
        n.title@ == (if status@ == "executed"@ {
            "Your request executed successfully"@
        } else {
            "Your request execution failed"@
        }),
        output.len() <= 200 ==> n.message@ == output@,
        output.len() > 200 ==> encode_utf8(n.message@) == output.spec_bytes().subrange(0, 200),
{
    let executed = str_eq(status, "executed");
    let summary = if output.len() > 200 { byte_prefix(output, 200) } else { owned(output) };
    Notice {
        audience: Audience::User(a.requested_by),
        tenant_id: a.tenant_id,
        event: if executed { owned("approval_executed") } else { owned("approval_failed") },
        title: if executed { owned("Your request executed successfully") } else { owned("Your request execution failed") },
        message: summary,
        approval_id: a.id,
    }
}

/// The Jira comment that records an execution's output: outputs over 8000 bytes are cut to
/// their first 2000 characters and marked with "...".
pub fn execution_comment(output: &str) -> (r: String)
    ensures
        r@ == "⚙️ Execution completed — awaiting admin review\n\n"@ + (if output.len() > 8000 {
            output@.take(if 2000 < output@.len() { 2000 } else { output@.len() as int }) + "..."@
        } else {
            output@
        }),
{
    let body = if output.len() > 8000 {
        let head = char_prefix(output, 2000);
        cat(head.as_str(), "...")
    } else {
        owned(output)
    };
    cat("⚙️ Execution completed — awaiting admin review\n\n", body.as_str())
}

/// The base URL of a Jira channel, from its credentials, without trailing slashes.
pub fn jira_base_url(credentials: &str) -> (r: Option<String>)
    ensures
        match json_str_at(credentials@, "base_url"@) {
            Some(u) => r matches Some(v) && v@ == trim_end_matches(u, "/"@),
            None => r is None,
        },
{
    match json_str_field(credentials, "base_url") {
        Some(u) => Some(str_trim_end_matches(u.as_str(), "/")),
        None => None,
    }
}

impl ApprovalStore {
    /// Record the state of an execution of request `id`: its status, its result when given, and
    /// its start time when given.  Unknown ids leave the store as it is.
    pub fn set_execution(&mut self, id: Id, status: &str, result: Option<String>, started_at: Option<i64>)
        requires
            old(self).wf(),
        ensures
            final(self).wf(),
            !has_request(old(self).items@, id) ==> final(self).items@ == old(self).items@,
            forall|k: int|
                0 <= k < old(self).items@.len() && (#[trigger] old(self).items@[k]).id == id ==> {
                    let a = final(self).items@[k];
                    &&& same_but_status(old(self).items@[k], a)
                    &&& a.status@ == status@
                    &&& a.reviewed_by == old(self).items@[k].reviewed_by
                    &&& a.marked_by == old(self).items@[k].marked_by
                    &&& a.reviewed_at == old(self).items@[k].reviewed_at
                    &&& a.withdrawn_at == old(self).items@[k].withdrawn_at
                    &&& a.executed_at == match started_at {
                        Some(t) => Some(t),
                        None => old(self).items@[k].executed_at,
                    }
                    &&& a.execution_result == match result {
                        Some(x) => Some(x),
                        None => old(self).items@[k].execution_result,
                    }
                    &&& final(self).items@ == old(self).items@.update(k, a)
                },
    {
        match self.find(id) {
            None => {},
            Some(k) => {
                proof {
                    assert forall|j: int| 0 <= j < self.items@.len() && (#[trigger] self.items@[j]).id == id implies j == k by {
                        if j != k {
                            if j < k {
                                assert(self.items@[j].id != self.items@[k as int].id);
                            } else {
                                assert(self.items@[k as int].id != self.items@[j].id);
                            }
                        }
                    }
                }
                let mut a = self.items[k].copy();
                a.status = owned(status);
                match result {
                    Some(x) => {
                        a.execution_result = Some(x);
                    },
                    None => {},
                }
                match started_at {
                    Some(t) => {
                        a.executed_at = Some(t);
                    },
                    None => {},
                }
                let ghost before = self.items@;
                proof {
                    lemma_update_keeps(before, k as int, a);
                }
                self.items.set(k, a);
                proof {
                    assert forall|i: int, j: int| 0 <= i < j < self.items@.len() implies (#[trigger] self.items@[i]).id
                        != (#[trigger] self.items@[j]).id by {
                        assert(self.items@[i].id == before[i].id && self.items@[j].id == before[j].id);
                    }
                }
            },
        }
    }
}

// ─── AWS context of an execution ───────────────────────────────────────────

/// An AWS account the requester can reach, as the execution prompt describes it.
pub struct AwsAccount {
    pub name: String,
    pub account_id: Option<String>,
    pub role_arn: Option<String>,
    pub regions: Vec<String>,
}

pub open spec fn opt_or(o: Option<String>, d: Seq<char>) -> Seq<char> {
    match o {
        Some(s) => s@,
        None => d,
    }
}

pub open spec fn region_text(a: AwsAccount) -> Seq<char> {
    if a.regions@.len() == 0 {
        "us-west-1"@
    } else {
        join(a.regions@.map_values(|r: String| r@), ", "@)
    }
}

pub open spec fn role_text(a: AwsAccount) -> Seq<char> {
    match a.role_arn {
        Some(r) => if r@.len() > 0 { r@ } else { "N/A"@ },
        None => "N/A"@,
    }
}

pub open spec fn cross_account_steps(role: Seq<char>) -> Seq<char> {
    " ⚠ CROSS-ACCOUNT — must assume-role first:\n```bash\nCREDS=$(aws sts assume-role --role-arn "@ + role
        + " --role-session-name opsk-exec --output json)\nexport AWS_ACCESS_KEY_ID=$(echo $CREDS | jq -r .Credentials.AccessKeyId)\nexport AWS_SECRET_ACCESS_KEY=$(echo $CREDS | jq -r .Credentials.SecretAccessKey)\nexport AWS_SESSION_TOKEN=$(echo $CREDS | jq -r .Credentials.SessionToken)\n```\n"@
}

/// The line describing account `a`; accounts other than the hub `hub` come with the steps to
/// assume their role.
pub open spec fn account_line(a: AwsAccount, hub: Seq<char>) -> Seq<char> {
    let head = "- "@ + a.name@ + " (Account: "@ + opt_or(a.account_id, "unknown"@) + ", Region: "@ + region_text(a)
        + ")"@;
    if opt_or(a.account_id, ""@) != hub {
        head + cross_account_steps(role_text(a))
    } else {
        head + " ✅ Direct access — use AWS CLI directly\n"@
    }
}

pub open spec fn account_lines(accts: Seq<AwsAccount>, hub: Seq<char>) -> Seq<char>
    decreases accts.len(),
{
    if accts.len() == 0 {
        Seq::empty()
    } else {
        account_lines(accts.drop_last(), hub) + account_line(accts.last(), hub)
    }
}

pub open spec fn aws_context_header() -> Seq<char> {
    "## AWS Context\nYour runtime has direct AWS permissions for the management account (ReadOnlyAccess + OpsWrite).\nFor same-account operations, use AWS CLI directly — no assume-role needed.\nDo NOT use --profile flags.\n\n"@
}

/// The AWS part of an execution prompt: nothing without accounts; otherwise the header and one
/// line per account, the first account being the hub.
pub open spec fn aws_context_text(accts: Seq<AwsAccount>) -> Seq<char> {
    if accts.len() == 0 {
        Seq::empty()
    } else {
        aws_context_header() + "Accessible accounts:\n"@ + account_lines(accts, opt_or(accts[0].account_id, ""@))
            + "\n"@
    }
}

fn opt_text(o: &Option<String>, d: &str) -> (r: String)
    ensures
        r@ == opt_or(*o, d@),
{
    match o {
        Some(s) => s.clone(),
        None => owned(d),
    }
}

fn describe_account(a: &AwsAccount, hub: &str) -> (r: String)
    ensures
        r@ == account_line(*a, hub@),
{
    let id_str = opt_text(&a.account_id, "unknown");
    let region = if a.regions.len() == 0 { owned("us-west-1") } else { join_strings(&a.regions, ", ") };
    let mut r = owned("- ");
    r.append(a.name.as_str());
    r.append(" (Account: ");
    r.append(id_str.as_str());
    r.append(", Region: ");
    r.append(region.as_str());
    r.append(")");
    let acct = opt_text(&a.account_id, "");
    if !str_eq(acct.as_str(), hub) {
        let role = match &a.role_arn {
            Some(x) => if x.as_str().is_empty() { owned("N/A") } else { x.clone() },
            None => owned("N/A"),
        };
        r.append(" ⚠ CROSS-ACCOUNT — must assume-role first:\n```bash\nCREDS=$(aws sts assume-role --role-arn ");
        r.append(role.as_str());
        r.append(" --role-session-name opsk-exec --output json)\nexport AWS_ACCESS_KEY_ID=$(echo $CREDS | jq -r .Credentials.AccessKeyId)\nexport AWS_SECRET_ACCESS_KEY=$(echo $CREDS | jq -r .Credentials.SecretAccessKey)\nexport AWS_SESSION_TOKEN=$(echo $CREDS | jq -r .Credentials.SessionToken)\n```\n");
    } else {
        r.append(" ✅ Direct access — use AWS CLI directly\n");
    }
    r
}

/// The environment and the prompt text that describe the requester's AWS accounts to the
/// execution agent: the hub (first) account's first region becomes `AWS_DEFAULT_REGION`.
pub fn aws_context(accounts: &Vec<AwsAccount>) -> (r: (Vec<(String, String)>, String))
    ensures
        r.1@ == aws_context_text(accounts@),
        accounts@.len() > 0 && accounts@[0].regions@.len() > 0 ==> r.0@.len() == 1 && r.0@[0].0@
            == "AWS_DEFAULT_REGION"@ && r.0@[0].1 == accounts@[0].regions@[0],
        !(accounts@.len() > 0 && accounts@[0].regions@.len() > 0) ==> r.0@.len() == 0,
{
    let mut env: Vec<(String, String)> = Vec::new();
    if accounts.len() == 0 {
        return (env, String::new());
    }
    if accounts[0].regions.len() > 0 {
        env.push((owned("AWS_DEFAULT_REGION"), accounts[0].regions[0].clone()));
    }
    let hub = opt_text(&accounts[0].account_id, "");
    let mut ctx = owned("## AWS Context\nYour runtime has direct AWS permissions for the management account (ReadOnlyAccess + OpsWrite).\nFor same-account operations, use AWS CLI directly — no assume-role needed.\nDo NOT use --profile flags.\n\n");
    ctx.append("Accessible accounts:\n");
    let ghost start = ctx@;
    let mut i: usize = 0;
    while i < accounts.len()
        invariant
            i <= accounts.len(),
            ctx@ == start + account_lines(accounts@.take(i as int), hub@),
        decreases accounts.len() - i,
    {
        let line = describe_account(&accounts[i], hub.as_str());
        proof {
            assert(accounts@.take(i + 1).drop_last() =~= accounts@.take(i as int));
        }
        ctx.append(line.as_str());
        proof {
            assert(ctx@ =~= start + account_lines(accounts@.take(i + 1), hub@));
        }
        i = i + 1;
    }
    ctx.append("\n");
    proof {
        assert(accounts@.take(accounts@.len() as int) =~= accounts@);
    }
    (env, ctx)
}

// ─── Laws ──────────────────────────────────────────────────────────────────

/// A review goes through only for a pending request of someone else within the caller's reach.
pub proof fn law_review_needs_other_pending(auth: AuthUser, a: Approval)
    ensures
        review_error(auth, a) is None <==> (a.requested_by != auth.user_id && in_reach(auth, a)
            && a.status@ == pending()),
        a.requested_by == auth.user_id ==> review_error(auth, a) == Some(
            (forbidden(), "Cannot approve or reject your own request"@),
        ),
{
}

/// Every listed request is one of the store, visible to the caller and of the asked status.
pub proof fn law_listing_visible(items: Seq<Approval>, auth: AuthUser, status: Option<Seq<char>>)
    ensures
        forall|k: int|
            0 <= k < matching(items, auth, status).len() ==> {
                let a = #[trigger] matching(items, auth, status)[k];
                &&& items.contains(a)
                &&& visible(auth, a)
                &&& status_matches(a, status)
            },
    decreases items.len(),
{
    if items.len() > 0 {
        let rest = items.drop_last();
        law_listing_visible(rest, auth, status);
        let m = matching(items, auth, status);
        let mr = matching(rest, auth, status);
        assert forall|k: int| 0 <= k < m.len() implies {
            let a = #[trigger] m[k];
            &&& items.contains(a)
            &&& visible(auth, a)
            &&& status_matches(a, status)
        } by {
            let last = items.last();
            if visible(auth, last) && status_matches(last, status) {
                if k == 0 {
                    assert(m[0] == last);
                    assert(items[items.len() - 1] == last);
                } else {
                    assert(m[k] == mr[k - 1]);
                    let j = choose|j: int| 0 <= j < rest.len() && rest[j] == mr[k - 1];
                    assert(items[j] == rest[j]);
                }
            } else {
                assert(m[k] == mr[k]);
                let j = choose|j: int| 0 <= j < rest.len() && rest[j] == mr[k];
                assert(items[j] == rest[j]);
            }
        }
    }
}

/// The pending count an admin sees is the number of pending requests its listing holds.
pub proof fn law_count_is_listing_size(items: Seq<Approval>, auth: AuthUser)
    ensures
        pending_count(items, auth) == matching(items, auth, Some(pending())).len(),
    decreases items.len(),
{
    if items.len() > 0 {
        law_count_is_listing_size(items.drop_last(), auth);
    }
}

// ─── Requests ──────────────────────────────────────────────────────────────

/// The filter of an approval listing.
pub struct ApprovalListQuery {
    pub status: Option<String>,
}

/// A request for approval: the command, why, and the agent's plan as JSON text.
pub struct CreateApprovalRequest {
    pub command: String,
    pub reason: Option<String>,
    pub plan_detail: Option<String>,
}

/// A change of an approval: the Jira issue it is tracked in.
pub struct UpdateApprovalRequest {
    pub jira_key: Option<String>,
}

impl UpdateApprovalRequest {
    /// The Jira key to record; a change without one has nothing to do and is refused.
    pub fn jira_key_to_set(&self) -> (r: Result<String, AppError>)
        ensures
            match self.jira_key {
                Some(k) => r == Ok::<String, AppError>(k),
                None => r matches Err(e) && e == AppError::BadRequest(e->BadRequest_0) && e->BadRequest_0@ == "No fields to update"@,
            },
    {
        match &self.jira_key {
            Some(k) => Ok(k.clone()),
            None => Err(AppError::BadRequest(owned("No fields to update"))),
        }
    }
}

/// The final result an admin marks.
pub struct MarkResultRequest {
    pub success: bool,
}


/// The Jira ticket opened for a new request: "[Ops] " and the command as its summary, and the
/// reason (the command when none is given) as its description.
pub fn jira_ticket_text(command: &str, reason: Option<&str>) -> (r: (String, String))
    ensures
        r.0@ == "[Ops] "@ + command@,
        r.1@ == match reason {
            Some(x) => x@,
            None => command@,
        },
{
    let summary = cat("[Ops] ", command);
    let description = match reason {
        Some(x) => owned(x),
        None => owned(command),
    };
    (summary, description)
}

/// The listing shows the newest requests first: the store keeps them in order of creation.
pub proof fn law_listing_newest_first(items: Seq<Approval>, auth: AuthUser, status: Option<Seq<char>>)
    requires
        times_sorted(items),
    ensures
        forall|a: int, b: int|
            0 <= a < b < matching(items, auth, status).len() ==> (#[trigger] matching(items, auth, status)[a]).created_at
                >= (#[trigger] matching(items, auth, status)[b]).created_at,
    decreases items.len(),
{
    if items.len() > 0 {
        let rest = items.drop_last();
        assert forall|i: int, j: int| 0 <= i < j < rest.len() implies (#[trigger] rest[i]).created_at <= (
        #[trigger] rest[j]).created_at by {
            assert(rest[i] == items[i] && rest[j] == items[j]);
        }
        law_listing_newest_first(rest, auth, status);
        law_listing_visible(rest, auth, status);
        let m = matching(items, auth, status);
        let mr = matching(rest, auth, status);
        let last = items.last();
        if visible(auth, last) && status_matches(last, status) {
            assert forall|a: int, b: int| 0 <= a < b < m.len() implies (#[trigger] m[a]).created_at >= (
            #[trigger] m[b]).created_at by {
                assert(m[b] == mr[b - 1]);
                if a == 0 {
                    assert(m[0] == last);
                    let e = mr[b - 1];
                    let j = choose|j: int| 0 <= j < rest.len() && rest[j] == e;
                    assert(items[j] == rest[j]);
                    assert(items[items.len() - 1] == last);
                } else {
                    assert(m[a] == mr[a - 1]);
                }
            }
        }
    }
}

/// A request that the caller sees, of the asked status, is in the caller's listing.
proof fn lemma_matching_holds(items: Seq<Approval>, auth: AuthUser, status: Option<Seq<char>>, k: int)
    requires
        0 <= k < items.len(),
        visible(auth, items[k]),
        status_matches(items[k], status),
    ensures
        matching(items, auth, status).contains(items[k]),
    decreases items.len(),
{
    let rest = items.drop_last();
    let m = matching(items, auth, status);
    if k == items.len() - 1 {
        assert(items.last() == items[k]);
        assert(m[0] == items[k]);
    } else {
        assert(rest[k] == items[k]);
        lemma_matching_holds(rest, auth, status, k);
        let mr = matching(rest, auth, status);
        let j = choose|j: int| 0 <= j < mr.len() && mr[j] == items[k];
        if visible(auth, items.last()) && status_matches(items.last(), status) {
            assert(m[j + 1] == mr[j]);
        } else {
            assert(m[j] == mr[j]);
        }
    }
}

/// Who sees which requests: a super admin sees every request; a tenant admin those of its own
/// tenant and those of no tenant; anyone else only the requests it filed.  A request is in the
/// caller's listing (for the asked status) exactly when the caller sees it, and a pending one
/// that the caller sees counts in its pending count.
pub proof fn law_listing_by_role(items: Seq<Approval>, auth: AuthUser, status: Option<Seq<char>>, k: int)
    requires
        0 <= k < items.len(),
    ensures
        ({
            let a = items[k];
            let sees = if auth.spec_is_super_admin() {
                true
            } else if auth.spec_is_admin() {
                a.tenant_id is None || a.tenant_id == auth.tenant_id
            } else {
                a.requested_by == auth.user_id
            };
            &&& (sees && status_matches(a, status) ==> matching(items, auth, status).contains(a))
            &&& (sees && a.status@ == pending() && auth.spec_is_admin() ==> pending_count(items, auth) >= 1)
            &&& (matching(items, auth, status).contains(a) ==> sees && status_matches(a, status))
        }),
{
    let a = items[k];
    if visible(auth, a) && status_matches(a, status) {
        lemma_matching_holds(items, auth, status, k);
    }
    if visible(auth, a) && a.status@ == pending() && auth.spec_is_admin() {
        lemma_matching_holds(items, auth, Some(pending()), k);
        law_count_is_listing_size(items, auth);
    }
    law_listing_visible(items, auth, status);
    if matching(items, auth, status).contains(a) {
        let j = choose|j: int| 0 <= j < matching(items, auth, status).len() && matching(items, auth, status)[j] == a;
        assert(visible(auth, matching(items, auth, status)[j]));
    }
}

/// Which requests an admin may approve or reject: a super admin any pending request of someone
/// else; a tenant admin the pending requests of someone else that belong to its own tenant or to
/// no tenant.  Another tenant's request is refused with "Access denied", an own request with
/// "Cannot approve or reject your own request", a request no longer pending with its status.
pub proof fn law_review_reach(auth: AuthUser, a: Approval)
    requires
        auth.spec_is_admin(),
    ensures
        auth.spec_is_super_admin() ==> (review_error(auth, a) is None <==> a.requested_by != auth.user_id
            && a.status@ == "pending"@),
        !auth.spec_is_super_admin() ==> (review_error(auth, a) is None <==> a.requested_by != auth.user_id
            && (a.tenant_id is None || a.tenant_id == auth.tenant_id) && a.status@ == "pending"@),
        a.requested_by == auth.user_id ==> review_error(auth, a) == Some(
            (forbidden(), "Cannot approve or reject your own request"@),
        ),
        a.requested_by != auth.user_id && !auth.spec_is_super_admin() && a.tenant_id is Some && a.tenant_id
            != auth.tenant_id ==> review_error(auth, a) == Some((forbidden(), "Access denied"@)),
        a.requested_by != auth.user_id && (auth.spec_is_super_admin() || a.tenant_id is None || a.tenant_id
            == auth.tenant_id) && a.status@ != "pending"@ ==> review_error(auth, a) == Some(
            (bad_request(), "Approval is already "@ + a.status@),
        ),
{
}

} // verus!
