//! Model cards (LLM providers) and their assignment to tenants.
//!
//! The assignment table pairs tenants with providers and marks at most one
//! provider per tenant as the tenant's default.  Every operation below keeps
//! that invariant; the laws at the end of the file state what each operation
//! does to the table.
use vstd::prelude::*;
use crate::auth::{require_non_empty, require_super_admin, AppError, AuthUser, Id};
use crate::text::{owned, str_trim, trim};

verus! {

/// One row of the assignment table.
#[derive(Debug, Clone, Copy)]
pub struct TenantProvider {
    pub tenant_id: Id,
    pub provider_id: Id,
    pub is_default: bool,
}

/// The tenant/provider assignment table.
pub struct Assignments {
    pub rows: Vec<TenantProvider>,
}

// ─── Specifications over rows ──────────────────────────────────────────────

pub open spec fn row_is(r: TenantProvider, t: Id, p: Id) -> bool {
    r.tenant_id == t && r.provider_id == p
}

/// `p` is assigned to `t`.
pub open spec fn has_row(rows: Seq<TenantProvider>, t: Id, p: Id) -> bool {
    exists|i: int| 0 <= i < rows.len() && row_is(#[trigger] rows[i], t, p)
}

/// `p` is assigned to `t` and is its default.
pub open spec fn is_def(rows: Seq<TenantProvider>, t: Id, p: Id) -> bool {
    exists|i: int| 0 <= i < rows.len() && row_is(#[trigger] rows[i], t, p) && rows[i].is_default
}

/// `t` has a default provider.
pub open spec fn has_def(rows: Seq<TenantProvider>, t: Id) -> bool {
    exists|i: int| 0 <= i < rows.len() && (#[trigger] rows[i]).tenant_id == t && rows[i].is_default
}

/// No pair occurs twice, and no tenant has two default rows.
pub open spec fn rows_wf(rows: Seq<TenantProvider>) -> bool {
    &&& forall|i: int, j: int|
        0 <= i < j < rows.len() ==> !row_is(#[trigger] rows[i], (#[trigger] rows[j]).tenant_id,
            rows[j].provider_id)
    &&& forall|i: int, j: int|
        0 <= i < rows.len() && 0 <= j < rows.len() && (#[trigger] rows[i]).tenant_id == (
        #[trigger] rows[j]).tenant_id && rows[i].is_default && rows[j].is_default ==> i == j
}

impl Assignments {
    pub open spec fn wf(&self) -> bool {
        rows_wf(self.rows@)
    }

    pub open spec fn assigned(&self, t: Id, p: Id) -> bool {
        has_row(self.rows@, t, p)
    }

    pub open spec fn is_default(&self, t: Id, p: Id) -> bool {
        is_def(self.rows@, t, p)
    }

    pub open spec fn has_default(&self, t: Id) -> bool {
        has_def(self.rows@, t)
    }

    /// One of the providers in `ids` is already the default of `t`.
    pub open spec fn keeps_default(&self, t: Id, ids: Seq<Id>) -> bool {
        exists|q: Id| self.is_default(t, q) && ids.contains(q)
    }

    /// An empty table.
    pub fn new() -> (r: Self)
        ensures
            r.wf(),
            r.rows@.len() == 0,
    {
        Assignments { rows: Vec::new() }
    }
}

// ─── Row-level operations ──────────────────────────────────────────────────

pub fn contains_id(v: &Vec<Id>, x: Id) -> (b: bool)
    ensures
        b == v@.contains(x),
{
    let mut i: usize = 0;
    while i < v.len()
        invariant
            i <= v.len(),
            forall|j: int| 0 <= j < i ==> v@[j] != x,
        decreases v.len() - i,
    {
        if v[i] == x {
            return true;
        }
        i = i + 1;
    }
    false
}

/// Is `p` assigned to `t`?
pub fn find_row(rows: &Vec<TenantProvider>, t: Id, p: Id) -> (r: Option<usize>)
    ensures
        r is None <==> !has_row(rows@, t, p),
        r matches Some(i) ==> i < rows.len() && row_is(rows@[i as int], t, p),
{
    let mut i: usize = 0;
    while i < rows.len()
        invariant
            i <= rows.len(),
            forall|j: int| 0 <= j < i ==> !row_is(#[trigger] rows@[j], t, p),
        decreases rows.len() - i,
    {
        if rows[i].tenant_id == t && rows[i].provider_id == p {
            return Some(i);
        }
        i = i + 1;
    }
    None
}

/// Does `t` have a default provider?
pub fn tenant_has_default(rows: &Vec<TenantProvider>, t: Id) -> (b: bool)
    ensures
        b == has_def(rows@, t),
{
    let mut i: usize = 0;
    while i < rows.len()
        invariant
            i <= rows.len(),
            forall|j: int| 0 <= j < i ==> !((#[trigger] rows@[j]).tenant_id == t && rows@[j].is_default),
        decreases rows.len() - i,
    {
        if rows[i].tenant_id == t && rows[i].is_default {
            return true;
        }
        i = i + 1;
    }
    false
}

/// The row predicate of `retain_rows`: for `by_tenant`, keep rows of other tenants
/// and rows of tenant `key` whose provider is listed; otherwise keep rows of other
/// providers and rows of provider `key` whose tenant is listed.
pub open spec fn keep_row(r: TenantProvider, by_tenant: bool, key: Id, list: Seq<Id>) -> bool {
    if by_tenant {
        r.tenant_id != key || list.contains(r.provider_id)
    } else {
        r.provider_id != key || list.contains(r.tenant_id)
    }
}

/// The rows of `rows` that `keep_row` keeps, in order.
fn retain_rows(rows: &Vec<TenantProvider>, by_tenant: bool, key: Id, list: &Vec<Id>) -> (out: Vec<
    TenantProvider,
>)
    requires
        rows_wf(rows@),
    ensures
        rows_wf(out@),
        forall|k: int|
            0 <= k < out.len() ==> rows@.contains(#[trigger] out@[k]) && keep_row(
                out@[k],
                by_tenant,
                key,
                list@,
            ),
        forall|i: int|
            0 <= i < rows.len() && keep_row(#[trigger] rows@[i], by_tenant, key, list@)
                ==> out@.contains(rows@[i]),
{
    let mut out: Vec<TenantProvider> = Vec::new();
    let ghost mut m: Seq<int> = Seq::empty();
    let mut i: usize = 0;
    while i < rows.len()
        invariant
            i <= rows.len(),
            rows_wf(rows@),
            m.len() == out.len(),
            forall|k: int| 0 <= k < m.len() ==> 0 <= #[trigger] m[k] < i,
            forall|k: int, l: int| 0 <= k < l < m.len() ==> #[trigger] m[k] < #[trigger] m[l],
            forall|k: int| 0 <= k < out.len() ==> (#[trigger] out@[k]) == rows@[m[k]],
            forall|k: int|
                0 <= k < out.len() ==> keep_row(#[trigger] out@[k], by_tenant, key, list@),
            forall|j: int|
                0 <= j < i && keep_row(#[trigger] rows@[j], by_tenant, key, list@) ==> exists|k: int|
                    0 <= k < m.len() && m[k] == j,
        decreases rows.len() - i,
    {
        let r = rows[i];
        let keep = if by_tenant {
            r.tenant_id != key || contains_id(list, r.provider_id)
        } else {
            r.provider_id != key || contains_id(list, r.tenant_id)
        };
        if keep {
            out.push(r);
            proof {
                let old_m = m;
                m = m.push(i as int);
                assert forall|j: int|
                    0 <= j < i + 1 && keep_row(#[trigger] rows@[j], by_tenant, key, list@) implies exists|k: int|
                    0 <= k < m.len() && m[k] == j by {
                    if j < i {
                        let k = choose|k: int| 0 <= k < old_m.len() && old_m[k] == j;
                        assert(m[k] == j);
                    } else {
                        assert(m[m.len() - 1] == j);
                    }
                }
            }
        } else {
            proof {
                assert forall|j: int|
                    0 <= j < i + 1 && keep_row(#[trigger] rows@[j], by_tenant, key, list@) implies exists|k: int|
                    0 <= k < m.len() && m[k] == j by {
                    if j == i {
                        assert(false);
                    }
                }
            }
        }
        i = i + 1;
    }
    proof {
        assert forall|k: int| 0 <= k < out.len() implies rows@.contains(#[trigger] out@[k]) by {
            assert(rows@[m[k]] == out@[k]);
        }
        assert forall|j: int|
            0 <= j < rows.len() && keep_row(#[trigger] rows@[j], by_tenant, key, list@) implies out@.contains(
            rows@[j]) by {
            let k = choose|k: int| 0 <= k < m.len() && m[k] == j;
            assert(out@[k] == rows@[j]);
        }
        assert forall|a: int, b: int|
            0 <= a < b < out.len() implies !row_is(#[trigger] out@[a], (#[trigger] out@[b]).tenant_id,
            out@[b].provider_id) by {
            assert(m[a] < m[b]);
            assert(out@[a] == rows@[m[a]]);
            assert(out@[b] == rows@[m[b]]);
        }
        assert forall|a: int, b: int|
            0 <= a < out.len() && 0 <= b < out.len() && (#[trigger] out@[a]).tenant_id == (
            #[trigger] out@[b]).tenant_id && out@[a].is_default && out@[b].is_default implies a == b by {
            assert(out@[a] == rows@[m[a]]);
            assert(out@[b] == rows@[m[b]]);
            if a < b {
                assert(m[a] < m[b]);
            } else if b < a {
                assert(m[b] < m[a]);
            }
        }
    }
    out
}

/// Add the non-default row `(t, p)` unless `p` is already assigned to `t`.
fn insert_if_missing(rows: &mut Vec<TenantProvider>, t: Id, p: Id)
    requires
        rows_wf(old(rows)@),
    ensures
        rows_wf(final(rows)@),
        has_row(old(rows)@, t, p) ==> final(rows)@ == old(rows)@,
        !has_row(old(rows)@, t, p) ==> final(rows)@ == old(rows)@.push(
            TenantProvider { tenant_id: t, provider_id: p, is_default: false },
        ),
{
    match find_row(rows, t, p) {
        Some(_) => {},
        None => {
            let ghost before = rows@;
            rows.push(TenantProvider { tenant_id: t, provider_id: p, is_default: false });
            proof {
                let n = before.len() as int;
                assert forall|i: int, j: int|
                    0 <= i < j < rows@.len() implies !row_is(#[trigger] rows@[i], (
                    #[trigger] rows@[j]).tenant_id, rows@[j].provider_id) by {
                    if j == n {
                        assert(rows@[i] == before[i]);
                    } else {
                        assert(rows@[i] == before[i] && rows@[j] == before[j]);
                    }
                }
                assert forall|i: int, j: int|
                    0 <= i < rows@.len() && 0 <= j < rows@.len() && (#[trigger] rows@[i]).tenant_id == (
                    #[trigger] rows@[j]).tenant_id && rows@[i].is_default && rows@[j].is_default implies i
                    == j by {
                    if i < n && j < n {
                        assert(rows@[i] == before[i] && rows@[j] == before[j]);
                    }
                }
            }
        },
    }
}

/// Make `(t, p)` the default of `t`, given that `t` has no default yet.
fn mark_default(rows: &mut Vec<TenantProvider>, t: Id, p: Id)
    requires
        rows_wf(old(rows)@),
        !has_def(old(rows)@, t),
    ensures
        rows_wf(final(rows)@),
        final(rows)@.len() == old(rows)@.len(),
        forall|i: int|
            0 <= i < final(rows)@.len() ==> (#[trigger] final(rows)@[i]).tenant_id == old(rows)@[i].tenant_id
                && final(rows)@[i].provider_id == old(rows)@[i].provider_id && final(rows)@[i].is_default
                == (old(rows)@[i].is_default || row_is(old(rows)@[i], t, p)),
{
    match find_row(rows, t, p) {
        None => {
            proof {
                assert forall|i: int| 0 <= i < rows@.len() implies !row_is(#[trigger] rows@[i], t, p) by {}
            }
        },
        Some(i) => {
            let ghost before = rows@;
            rows.set(i, TenantProvider { tenant_id: t, provider_id: p, is_default: true });
            proof {
                assert forall|a: int| 0 <= a < rows@.len() && a != i implies !row_is(#[trigger] before[a], t, p) by {
                    if row_is(before[a], t, p) {
                        if a < i {
                            assert(row_is(before[a], before[i as int].tenant_id, before[i as int].provider_id));
                        } else {
                            assert(row_is(before[i as int], before[a].tenant_id, before[a].provider_id));
                        }
                    }
                }
                assert forall|a: int, b: int|
                    0 <= a < b < rows@.len() implies !row_is(#[trigger] rows@[a], (
                    #[trigger] rows@[b]).tenant_id, rows@[b].provider_id) by {
                    assert(before[a].tenant_id == rows@[a].tenant_id && before[a].provider_id
                        == rows@[a].provider_id);
                    assert(before[b].tenant_id == rows@[b].tenant_id && before[b].provider_id
                        == rows@[b].provider_id);
                }
                assert forall|a: int, b: int|
                    0 <= a < rows@.len() && 0 <= b < rows@.len() && (#[trigger] rows@[a]).tenant_id == (
                    #[trigger] rows@[b]).tenant_id && rows@[a].is_default && rows@[b].is_default implies a
                    == b by {
                    if a != i as int && b != i as int {
                        assert(rows@[a] == before[a] && rows@[b] == before[b]);
                    } else if a == i as int && b != i as int {
                        assert(rows@[b] == before[b]);
                        assert(has_def(before, t));
                    } else if b == i as int && a != i as int {
                        assert(rows@[a] == before[a]);
                        assert(has_def(before, t));
                    }
                }
            }
        },
    }
}

/// Clear every default of `t`, then make `(t, p)` its default.
fn replace_default(rows: &mut Vec<TenantProvider>, t: Id, p: Id)
    requires
        rows_wf(old(rows)@),
    ensures
        rows_wf(final(rows)@),
        final(rows)@.len() == old(rows)@.len(),
        forall|i: int|
            0 <= i < final(rows)@.len() ==> (#[trigger] final(rows)@[i]).tenant_id == old(rows)@[i].tenant_id
                && final(rows)@[i].provider_id == old(rows)@[i].provider_id && final(rows)@[i].is_default
                == (if old(rows)@[i].tenant_id == t {
                old(rows)@[i].provider_id == p
            } else {
                old(rows)@[i].is_default
            }),
{
    let ghost before = rows@;
    let mut i: usize = 0;
    while i < rows.len()
        invariant
            i <= rows.len(),
            rows@.len() == before.len(),
            rows_wf(before),
            forall|a: int|
                0 <= a < rows@.len() ==> (#[trigger] rows@[a]).tenant_id == before[a].tenant_id
                    && rows@[a].provider_id == before[a].provider_id,
            forall|a: int|
                0 <= a < i ==> (#[trigger] rows@[a]).is_default == (if before[a].tenant_id == t {
                    before[a].provider_id == p
                } else {
                    before[a].is_default
                }),
            forall|a: int| i <= a < rows@.len() ==> (#[trigger] rows@[a]) == before[a],
        decreases rows.len() - i,
    {
        let r = rows[i];
        if r.tenant_id == t {
            rows.set(i, TenantProvider { tenant_id: r.tenant_id, provider_id: r.provider_id, is_default: r.provider_id == p });
        }
        i = i + 1;
    }
    proof {
        assert forall|a: int, b: int|
            0 <= a < b < rows@.len() implies !row_is(#[trigger] rows@[a], (#[trigger] rows@[b]).tenant_id,
            rows@[b].provider_id) by {
            assert(!row_is(before[a], before[b].tenant_id, before[b].provider_id));
        }
        assert forall|a: int, b: int|
            0 <= a < rows@.len() && 0 <= b < rows@.len() && (#[trigger] rows@[a]).tenant_id == (
            #[trigger] rows@[b]).tenant_id && rows@[a].is_default && rows@[b].is_default implies a == b by {
            if rows@[a].tenant_id == t {
                if a < b {
                    assert(!row_is(before[a], before[b].tenant_id, before[b].provider_id));
                } else if b < a {
                    assert(!row_is(before[b], before[a].tenant_id, before[a].provider_id));
                }
            } else {
                assert(before[a].is_default && before[b].is_default);
            }
        }
    }
}

proof fn lemma_has_row_push(rows: Seq<TenantProvider>, r: TenantProvider, t: Id, p: Id)
    ensures
        has_row(rows.push(r), t, p) == (has_row(rows, t, p) || row_is(r, t, p)),
        is_def(rows.push(r), t, p) == (is_def(rows, t, p) || (row_is(r, t, p) && r.is_default)),
        has_def(rows.push(r), t) == (has_def(rows, t) || (r.tenant_id == t && r.is_default)),
{
    let s = rows.push(r);
    if has_row(rows, t, p) {
        let i = choose|i: int| 0 <= i < rows.len() && row_is(#[trigger] rows[i], t, p);
        assert(s[i] == rows[i]);
    }
    if has_row(s, t, p) {
        let i = choose|i: int| 0 <= i < s.len() && row_is(#[trigger] s[i], t, p);
        if i < rows.len() {
            assert(s[i] == rows[i]);
        }
    }
    if is_def(rows, t, p) {
        let i = choose|i: int| 0 <= i < rows.len() && row_is(#[trigger] rows[i], t, p) && rows[i].is_default;
        assert(s[i] == rows[i]);
    }
    if is_def(s, t, p) {
        let i = choose|i: int| 0 <= i < s.len() && row_is(#[trigger] s[i], t, p) && s[i].is_default;
        if i < rows.len() {
            assert(s[i] == rows[i]);
        }
    }
    if has_def(rows, t) {
        let i = choose|i: int| 0 <= i < rows.len() && (#[trigger] rows[i]).tenant_id == t && rows[i].is_default;
        assert(s[i] == rows[i]);
    }
    if has_def(s, t) {
        let i = choose|i: int| 0 <= i < s.len() && (#[trigger] s[i]).tenant_id == t && s[i].is_default;
        if i < rows.len() {
            assert(s[i] == rows[i]);
        }
    }
    if row_is(r, t, p) {
        assert(s[rows.len() as int] == r);
    }
    if r.tenant_id == t && r.is_default {
        assert(s[rows.len() as int] == r);
    }
}

/// `p` occurs among the first `n` entries of `s`.
pub open spec fn in_prefix(s: Seq<Id>, n: int, p: Id) -> bool {
    exists|k: int| 0 <= k < n && #[trigger] s[k] == p
}

// ─── Table operations ──────────────────────────────────────────────────────

impl Assignments {
    /// Replace the providers of tenant `t` by `provider_ids`: rows of `t` whose provider is not
    /// listed go, listed providers not yet assigned are added as non-defaults, rows that stay keep
    /// their default flag, and when `t` is then left without a default the first listed
    /// provider becomes it.
    pub fn assign_to_tenant(&mut self, t: Id, provider_ids: &Vec<Id>)
        requires
            old(self).wf(),
        ensures
            final(self).wf(),
            forall|u: Id, p: Id|
                u != t ==> (final(self).assigned(u, p) == old(self).assigned(u, p) && final(self).is_default(u, p) == old(self).is_default(u, p)),
            forall|p: Id| final(self).assigned(t, p) == provider_ids@.contains(p),
            forall|p: Id| #![trigger final(self).is_default(t, p)]
                final(self).is_default(t, p) == if old(self).keeps_default(t, provider_ids@) {
                    old(self).is_default(t, p) && provider_ids@.contains(p)
                } else {
                    provider_ids@.len() > 0 && p == provider_ids@[0]
                },
    {
        let ghost old_rows = self.rows@;
        let mut rows = retain_rows(&self.rows, true, t, provider_ids);
        let ghost kept = rows@;
        proof {
            self.lemma_retain_tenant(old_rows, kept, t, provider_ids@);
        }
        let mut i: usize = 0;
        while i < provider_ids.len()
            invariant
                i <= provider_ids.len(),
                rows_wf(rows@),
                forall|u: Id, p: Id|
                    u != t ==> has_row(rows@, u, p) == has_row(old_rows, u, p) && is_def(rows@, u, p)
                        == is_def(old_rows, u, p),
                forall|p: Id|
                    has_row(rows@, t, p) == (has_row(old_rows, t, p) && provider_ids@.contains(p)
                        || in_prefix(provider_ids@, i as int, p)),
                forall|p: Id| is_def(rows@, t, p) == (is_def(old_rows, t, p) && provider_ids@.contains(p)),
                has_def(rows@, t) == exists|q: Id| is_def(old_rows, t, q) && provider_ids@.contains(q),
            decreases provider_ids.len() - i,
        {
            let pid = provider_ids[i];
            let ghost before = rows@;
            insert_if_missing(&mut rows, t, pid);
            proof {
                let r = TenantProvider { tenant_id: t, provider_id: pid, is_default: false };
                assert forall|u: Id, p: Id| #![auto] true implies has_row(rows@, u, p) == (has_row(before, u, p)
                    || (has_row(rows@, u, p) && !has_row(before, u, p) && u == t && p == pid)) && is_def(rows@, u, p)
                    == is_def(before, u, p) && has_def(rows@, u) == has_def(before, u) by {
                    if !has_row(before, t, pid) {
                        lemma_has_row_push(before, r, u, p);
                    }
                }
                assert forall|p: Id| #![trigger has_row(rows@, t, p)]
                    has_row(rows@, t, p) == (has_row(old_rows, t, p) && provider_ids@.contains(p)
                        || in_prefix(provider_ids@, i + 1, p)) by {
                    if !has_row(before, t, pid) {
                        lemma_has_row_push(before, r, t, p);
                    }
                    assert(has_row(rows@, t, p) == (has_row(before, t, p) || p == pid));
                    assert(has_row(before, t, p) == (has_row(old_rows, t, p) && provider_ids@.contains(p)
                        || in_prefix(provider_ids@, i as int, p)));
                    if in_prefix(provider_ids@, i + 1, p) && p != pid {
                        let k = choose|k: int| 0 <= k < i + 1 && #[trigger] provider_ids@[k] == p;
                        assert(k < i);
                        assert(in_prefix(provider_ids@, i as int, p));
                    }
                    if in_prefix(provider_ids@, i as int, p) {
                        let k = choose|k: int| 0 <= k < i && #[trigger] provider_ids@[k] == p;
                        assert(in_prefix(provider_ids@, i + 1, p));
                    }
                    if p == pid {
                        assert(provider_ids@[i as int] == pid);
                        assert(in_prefix(provider_ids@, i + 1, p));
                    }
                }
            }
            i = i + 1;
        }
        proof {
            assert forall|p: Id| has_row(rows@, t, p) == provider_ids@.contains(p) by {
                if provider_ids@.contains(p) {
                    let k = choose|k: int| 0 <= k < provider_ids@.len() && provider_ids@[k] == p;
                    assert(in_prefix(provider_ids@, provider_ids@.len() as int, p));
                }
                if in_prefix(provider_ids@, provider_ids@.len() as int, p) {
                    let k = choose|k: int| 0 <= k < provider_ids@.len() && #[trigger] provider_ids@[k] == p;
                    assert(provider_ids@.contains(p));
                }
            }
        }
        let found_default = tenant_has_default(&rows, t);
        if !found_default && provider_ids.len() > 0 {
            let first = provider_ids[0];
            let ghost before = rows@;
            mark_default(&mut rows, t, first);
            proof {
                assert(provider_ids@.contains(first)) by {
                    assert(provider_ids@[0] == first);
                }
                assert(has_row(before, t, first));
                self.lemma_mark_default_effect(before, rows@, t, first);
            }
        }
        self.rows = rows;
    }

    proof fn lemma_retain_tenant(&self, old_rows: Seq<TenantProvider>, kept: Seq<TenantProvider>, t: Id, ids: Seq<Id>)
        requires
            forall|k: int|
                0 <= k < kept.len() ==> old_rows.contains(#[trigger] kept[k]) && keep_row(kept[k], true, t, ids),
            forall|i: int|
                0 <= i < old_rows.len() && keep_row(#[trigger] old_rows[i], true, t, ids)
                    ==> kept.contains(old_rows[i]),
        ensures
            forall|u: Id, p: Id|
                u != t ==> has_row(kept, u, p) == has_row(old_rows, u, p) && is_def(kept, u, p) == is_def(
                    old_rows,
                    u,
                    p,
                ),
            forall|p: Id| has_row(kept, t, p) == (has_row(old_rows, t, p) && ids.contains(p)),
            forall|p: Id| is_def(kept, t, p) == (is_def(old_rows, t, p) && ids.contains(p)),
            has_def(kept, t) == exists|q: Id| is_def(old_rows, t, q) && ids.contains(q),
            forall|p: Id|
                has_row(kept, t, p) == (has_row(old_rows, t, p) && ids.contains(p) || in_prefix(ids, 0, p)),
    {
        lemma_retain_views(old_rows, kept, true, t, ids);
    }

    proof fn lemma_mark_default_effect(&self, before: Seq<TenantProvider>, after: Seq<TenantProvider>, t: Id, p: Id)
        requires
            after.len() == before.len(),
            forall|i: int|
                0 <= i < after.len() ==> (#[trigger] after[i]).tenant_id == before[i].tenant_id
                    && after[i].provider_id == before[i].provider_id && after[i].is_default == (
                    before[i].is_default || row_is(before[i], t, p)),
            has_row(before, t, p),
            !has_def(before, t),
        ensures
            forall|u: Id, q: Id| has_row(after, u, q) == has_row(before, u, q),
            forall|u: Id, q: Id|
                u != t ==> is_def(after, u, q) == is_def(before, u, q),
            forall|q: Id| is_def(after, t, q) == (q == p),
    {
        assert forall|u: Id, q: Id| has_row(after, u, q) == has_row(before, u, q) by {
            if has_row(after, u, q) {
                let i = choose|i: int| 0 <= i < after.len() && row_is(#[trigger] after[i], u, q);
                assert(row_is(before[i], u, q));
            }
            if has_row(before, u, q) {
                let i = choose|i: int| 0 <= i < before.len() && row_is(#[trigger] before[i], u, q);
                assert(row_is(after[i], u, q));
            }
        }
        assert forall|u: Id, q: Id| u != t implies is_def(after, u, q) == is_def(before, u, q) by {
            if is_def(after, u, q) {
                let i = choose|i: int| 0 <= i < after.len() && row_is(#[trigger] after[i], u, q) && after[i].is_default;
                assert(row_is(before[i], u, q) && before[i].is_default);
            }
            if is_def(before, u, q) {
                let i = choose|i: int| 0 <= i < before.len() && row_is(#[trigger] before[i], u, q) && before[i].is_default;
                assert(row_is(after[i], u, q));
            }
        }
        assert forall|q: Id| is_def(after, t, q) == (q == p) by {
            if is_def(after, t, q) {
                let i = choose|i: int| 0 <= i < after.len() && row_is(#[trigger] after[i], t, q) && after[i].is_default;
                if !row_is(before[i], t, p) {
                    assert(before[i].is_default);
                    assert(has_def(before, t));
                }
            }
            if q == p {
                let i = choose|i: int| 0 <= i < before.len() && row_is(#[trigger] before[i], t, p);
                assert(row_is(after[i], t, p) && after[i].is_default);
            }
        }
    }
}

/// A tenant has a default exactly when one of its providers is its default.
proof fn lemma_has_def_is_def(rows: Seq<TenantProvider>, u: Id)
    ensures
        has_def(rows, u) == exists|q: Id| #[trigger] is_def(rows, u, q),
{
    if has_def(rows, u) {
        let k = choose|k: int| 0 <= k < rows.len() && (#[trigger] rows[k]).tenant_id == u && rows[k].is_default;
        assert(is_def(rows, u, rows[k].provider_id));
    }
    if exists|q: Id| #[trigger] is_def(rows, u, q) {
        let q = choose|q: Id| #[trigger] is_def(rows, u, q);
        let k = choose|k: int| 0 <= k < rows.len() && row_is(#[trigger] rows[k], u, q) && rows[k].is_default;
        assert(rows[k].tenant_id == u);
    }
}

/// What `replace_default` does, read through the table's predicates.
proof fn lemma_replace_default_effect(before: Seq<TenantProvider>, after: Seq<TenantProvider>, t: Id, p: Id)
    requires
        after.len() == before.len(),
        forall|i: int|
            0 <= i < after.len() ==> (#[trigger] after[i]).tenant_id == before[i].tenant_id
                && after[i].provider_id == before[i].provider_id && after[i].is_default == (
                if before[i].tenant_id == t {
                    before[i].provider_id == p
                } else {
                    before[i].is_default
                }),
    ensures
        forall|u: Id, q: Id| has_row(after, u, q) == has_row(before, u, q),
        forall|u: Id, q: Id| u != t ==> is_def(after, u, q) == is_def(before, u, q),
        forall|q: Id| is_def(after, t, q) == (q == p && has_row(before, t, p)),
{
    assert forall|u: Id, q: Id| has_row(after, u, q) == has_row(before, u, q) by {
        if has_row(after, u, q) {
            let i = choose|i: int| 0 <= i < after.len() && row_is(#[trigger] after[i], u, q);
            assert(row_is(before[i], u, q));
        }
        if has_row(before, u, q) {
            let i = choose|i: int| 0 <= i < before.len() && row_is(#[trigger] before[i], u, q);
            assert(row_is(after[i], u, q));
        }
    }
    assert forall|u: Id, q: Id| u != t implies is_def(after, u, q) == is_def(before, u, q) by {
        if is_def(after, u, q) {
            let i = choose|i: int| 0 <= i < after.len() && row_is(#[trigger] after[i], u, q) && after[i].is_default;
            assert(row_is(before[i], u, q) && before[i].is_default);
        }
        if is_def(before, u, q) {
            let i = choose|i: int| 0 <= i < before.len() && row_is(#[trigger] before[i], u, q) && before[i].is_default;
            assert(row_is(after[i], u, q));
        }
    }
    assert forall|q: Id| is_def(after, t, q) == (q == p && has_row(before, t, p)) by {
        if is_def(after, t, q) {
            let i = choose|i: int| 0 <= i < after.len() && row_is(#[trigger] after[i], t, q) && after[i].is_default;
            assert(row_is(before[i], t, p));
        }
        if q == p && has_row(before, t, p) {
            let i = choose|i: int| 0 <= i < before.len() && row_is(#[trigger] before[i], t, p);
            assert(row_is(after[i], t, p) && after[i].is_default);
        }
    }
}

impl Assignments {
    /// Make `p` the one default provider of tenant `t`.  Refused, with the table unchanged,
    /// when `p` is not assigned to `t`.
    pub fn set_default(&mut self, t: Id, p: Id) -> (r: Result<(), AppError>)
        requires
            old(self).wf(),
        ensures
            final(self).wf(),
            r is Ok <==> old(self).assigned(t, p),
            r matches Err(e) ==> is_not_assigned_error(e) && final(self).rows@ == old(self).rows@,
            forall|u: Id, q: Id| final(self).assigned(u, q) == old(self).assigned(u, q),
            forall|u: Id, q: Id| u != t ==> final(self).is_default(u, q) == old(self).is_default(u, q),
            r is Ok ==> forall|q: Id| final(self).is_default(t, q) == (q == p),
    {
        match find_row(&self.rows, t, p) {
            None => Err(make_not_assigned_error()),
            Some(_) => {
                let ghost before = self.rows@;
                replace_default(&mut self.rows, t, p);
                proof {
                    lemma_replace_default_effect(before, self.rows@, t, p);
                }
                Ok(())
            },
        }
    }

    /// Replace the tenants of provider `p` by `tenant_ids`: rows of `p` whose tenant is not listed
    /// go, listed tenants not yet holding `p` get it as a non-default, and every listed tenant that
    /// is then left without a default gets `p` as its default.
    pub fn assign_provider_to_tenants(&mut self, p: Id, tenant_ids: &Vec<Id>)
        requires
            old(self).wf(),
        ensures
            final(self).wf(),
            forall|u: Id, q: Id| q != p ==> final(self).assigned(u, q) == old(self).assigned(u, q),
            forall|u: Id| final(self).assigned(u, p) == tenant_ids@.contains(u),
            forall|u: Id, q: Id|
                !tenant_ids@.contains(u) ==> final(self).is_default(u, q) == (old(self).is_default(u, q)
                    && q != p),
            forall|u: Id, q: Id|
                tenant_ids@.contains(u) ==> final(self).is_default(u, q) == if old(self).has_default(u) {
                    old(self).is_default(u, q)
                } else {
                    q == p
                },
    {
        let ghost old_rows = self.rows@;
        let mut rows = retain_rows(&self.rows, false, p, tenant_ids);
        proof {
            lemma_retain_views(old_rows, rows@, false, p, tenant_ids@);
        }
        let mut i: usize = 0;
        while i < tenant_ids.len()
            invariant
                i <= tenant_ids.len(),
                rows_wf(rows@),
                forall|u: Id, q: Id|
                    q != p ==> has_row(rows@, u, q) == has_row(old_rows, u, q),
                forall|u: Id| #![trigger has_row(rows@, u, p)]
                    has_row(rows@, u, p) == (has_row(old_rows, u, p) && tenant_ids@.contains(u)
                        || in_prefix(tenant_ids@, i as int, u)),
                forall|u: Id, q: Id|
                    is_def(rows@, u, q) == (is_def(old_rows, u, q) && (q != p || tenant_ids@.contains(u))),
                forall|u: Id| tenant_ids@.contains(u) ==> has_def(rows@, u) == has_def(old_rows, u),
            decreases tenant_ids.len() - i,
        {
            let tid = tenant_ids[i];
            let ghost before = rows@;
            insert_if_missing(&mut rows, tid, p);
            proof {
                let r = TenantProvider { tenant_id: tid, provider_id: p, is_default: false };
                assert forall|u: Id, q: Id| #![auto] true implies (q != p || u != tid ==> has_row(rows@, u, q)
                    == has_row(before, u, q)) && (has_row(rows@, tid, p)) && is_def(rows@, u, q) == is_def(
                    before,
                    u,
                    q,
                ) && has_def(rows@, u) == has_def(before, u) by {
                    if !has_row(before, tid, p) {
                        lemma_has_row_push(before, r, u, q);
                        lemma_has_row_push(before, r, tid, p);
                    }
                }
                assert forall|u: Id| #[trigger] has_def(rows@, u) == has_def(before, u) by {
                    if !has_row(before, tid, p) {
                        lemma_has_row_push(before, r, u, p);
                    }
                }
                assert forall|u: Id| #![trigger has_row(rows@, u, p)]
                    has_row(rows@, u, p) == (has_row(old_rows, u, p) && tenant_ids@.contains(u)
                        || in_prefix(tenant_ids@, i + 1, u)) by {
                    if !has_row(before, tid, p) {
                        lemma_has_row_push(before, r, u, p);
                    }
                    assert(has_row(rows@, u, p) == (has_row(before, u, p) || u == tid));
                    assert(has_row(before, u, p) == (has_row(old_rows, u, p) && tenant_ids@.contains(u)
                        || in_prefix(tenant_ids@, i as int, u)));
                    if in_prefix(tenant_ids@, i + 1, u) && u != tid {
                        let k = choose|k: int| 0 <= k < i + 1 && #[trigger] tenant_ids@[k] == u;
                        assert(k < i);
                        assert(in_prefix(tenant_ids@, i as int, u));
                    }
                    if in_prefix(tenant_ids@, i as int, u) {
                        let k = choose|k: int| 0 <= k < i && #[trigger] tenant_ids@[k] == u;
                        assert(in_prefix(tenant_ids@, i + 1, u));
                    }
                    if u == tid {
                        assert(tenant_ids@[i as int] == tid);
                        assert(in_prefix(tenant_ids@, i + 1, u));
                    }
                }
            }
            i = i + 1;
        }
        proof {
            assert forall|u: Id| has_row(rows@, u, p) == tenant_ids@.contains(u) by {
                if tenant_ids@.contains(u) {
                    let k = choose|k: int| 0 <= k < tenant_ids@.len() && tenant_ids@[k] == u;
                    assert(in_prefix(tenant_ids@, tenant_ids@.len() as int, u));
                }
                if in_prefix(tenant_ids@, tenant_ids@.len() as int, u) {
                    let k = choose|k: int| 0 <= k < tenant_ids@.len() && #[trigger] tenant_ids@[k] == u;
                    assert(tenant_ids@.contains(u));
                }
            }
        }
        let ghost mid = rows@;
        let mut j: usize = 0;
        while j < tenant_ids.len()
            invariant
                j <= tenant_ids.len(),
                rows_wf(rows@),
                forall|u: Id, q: Id| has_row(rows@, u, q) == has_row(mid, u, q),
                forall|u: Id| has_row(mid, u, p) == tenant_ids@.contains(u),
                forall|u: Id, q: Id|
                    !in_prefix(tenant_ids@, j as int, u) ==> is_def(rows@, u, q) == is_def(mid, u, q),
                forall|u: Id, q: Id|
                    in_prefix(tenant_ids@, j as int, u) ==> is_def(rows@, u, q) == if has_def(mid, u) {
                        is_def(mid, u, q)
                    } else {
                        q == p
                    },
            decreases tenant_ids.len() - j,
        {
            let tid = tenant_ids[j];
            let ghost before = rows@;
            proof {
                assert(tenant_ids@.contains(tid)) by {
                    assert(tenant_ids@[j as int] == tid);
                }
                lemma_has_def_is_def(before, tid);
                lemma_has_def_is_def(mid, tid);
                if in_prefix(tenant_ids@, j as int, tid) {
                    if has_def(mid, tid) {
                        let q0 = choose|q: Id| #[trigger] is_def(mid, tid, q);
                        assert(is_def(before, tid, q0));
                    } else {
                        assert(is_def(before, tid, p));
                    }
                    assert(has_def(before, tid));
                } else {
                    if has_def(mid, tid) {
                        let q0 = choose|q: Id| #[trigger] is_def(mid, tid, q);
                        assert(is_def(before, tid, q0));
                    }
                    if has_def(before, tid) {
                        let q0 = choose|q: Id| #[trigger] is_def(before, tid, q);
                        assert(is_def(mid, tid, q0));
                    }
                    assert(has_def(before, tid) == has_def(mid, tid));
                }
            }
            let found_default = tenant_has_default(&rows, tid);
            if !found_default {
                mark_default(&mut rows, tid, p);
                proof {
                    self.lemma_mark_default_effect(before, rows@, tid, p);
                }
            }
            proof {
                assert forall|u: Id, q: Id| has_row(rows@, u, q) == has_row(mid, u, q) by {}
                assert forall|u: Id, q: Id|
                    !in_prefix(tenant_ids@, j + 1, u) implies is_def(rows@, u, q) == is_def(mid, u, q) by {
                    if u == tid {
                        assert(tenant_ids@[j as int] == tid);
                        assert(in_prefix(tenant_ids@, j + 1, u));
                    }
                    if in_prefix(tenant_ids@, j as int, u) {
                        let k = choose|k: int| 0 <= k < j && #[trigger] tenant_ids@[k] == u;
                        assert(in_prefix(tenant_ids@, j + 1, u));
                    }
                }
                assert forall|u: Id, q: Id|
                    in_prefix(tenant_ids@, j + 1, u) implies is_def(rows@, u, q) == if has_def(mid, u) {
                        is_def(mid, u, q)
                    } else {
                        q == p
                    } by {
                    if u != tid {
                        let k = choose|k: int| 0 <= k < j + 1 && #[trigger] tenant_ids@[k] == u;
                        assert(k < j);
                        assert(in_prefix(tenant_ids@, j as int, u));
                    }
                }
            }
            j = j + 1;
        }
        proof {
            assert forall|u: Id| #![auto] tenant_ids@.contains(u) <==> in_prefix(tenant_ids@, tenant_ids@.len() as int, u) by {
                if tenant_ids@.contains(u) {
                    let k = choose|k: int| 0 <= k < tenant_ids@.len() && tenant_ids@[k] == u;
                    assert(in_prefix(tenant_ids@, tenant_ids@.len() as int, u));
                }
                if in_prefix(tenant_ids@, tenant_ids@.len() as int, u) {
                    let k = choose|k: int| 0 <= k < tenant_ids@.len() && #[trigger] tenant_ids@[k] == u;
                    assert(tenant_ids@.contains(u));
                }
            }
            assert forall|u: Id| tenant_ids@.contains(u) implies has_def(mid, u) == has_def(old_rows, u) by {}
            assert forall|u: Id, q: Id|
                tenant_ids@.contains(u) implies is_def(rows@, u, q) == if has_def(old_rows, u) {
                    is_def(old_rows, u, q)
                } else {
                    q == p
                } by {
                assert(in_prefix(tenant_ids@, tenant_ids@.len() as int, u));
            }
        }
        self.rows = rows;
    }
}

impl Assignments {
    /// Is `p` the default of `t`?
    pub fn row_is_default(&self, t: Id, p: Id) -> (b: bool)
        ensures
            b == self.is_default(t, p),
    {
        let mut i: usize = 0;
        while i < self.rows.len()
            invariant
                i <= self.rows.len(),
                forall|j: int| 0 <= j < i ==> !(row_is(#[trigger] self.rows@[j], t, p) && self.rows@[j].is_default),
            decreases self.rows.len() - i,
        {
            let r = self.rows[i];
            if r.tenant_id == t && r.provider_id == p && r.is_default {
                return true;
            }
            i = i + 1;
        }
        false
    }

    /// Remove every row of provider `p`.
    pub fn drop_provider(&mut self, p: Id)
        requires
            old(self).wf(),
        ensures
            final(self).wf(),
            forall|u: Id, q: Id| final(self).assigned(u, q) == (old(self).assigned(u, q) && q != p),
            forall|u: Id, q: Id| final(self).is_default(u, q) == (old(self).is_default(u, q) && q != p),
    {
        let ghost old_rows = self.rows@;
        let none: Vec<Id> = Vec::new();
        let rows = retain_rows(&self.rows, false, p, &none);
        proof {
            lemma_retain_views(old_rows, rows@, false, p, none@);
        }
        self.rows = rows;
    }
}

/// The refusal of `set_default` for a provider that the tenant does not hold.
pub open spec fn is_not_assigned_error(e: AppError) -> bool {
    e matches AppError::BadRequest(m) && m@ == "Provider is not assigned to this tenant"@
}

fn make_not_assigned_error() -> (e: AppError)
    ensures
        is_not_assigned_error(e),
{
    AppError::BadRequest(owned("Provider is not assigned to this tenant"))
}

/// What `retain_rows` keeps, read through the table's predicates.
proof fn lemma_retain_views(old_rows: Seq<TenantProvider>, kept: Seq<TenantProvider>, by_tenant: bool, key: Id, ids: Seq<Id>)
    requires
        forall|k: int|
            0 <= k < kept.len() ==> old_rows.contains(#[trigger] kept[k]) && keep_row(kept[k], by_tenant, key, ids),
        forall|i: int|
            0 <= i < old_rows.len() && keep_row(#[trigger] old_rows[i], by_tenant, key, ids)
                ==> kept.contains(old_rows[i]),
    ensures
        forall|u: Id, p: Id|
            has_row(kept, u, p) == (has_row(old_rows, u, p) && keep_row(
                TenantProvider { tenant_id: u, provider_id: p, is_default: false },
                by_tenant,
                key,
                ids,
            )),
        forall|u: Id, p: Id|
            is_def(kept, u, p) == (is_def(old_rows, u, p) && keep_row(
                TenantProvider { tenant_id: u, provider_id: p, is_default: false },
                by_tenant,
                key,
                ids,
            )),
        by_tenant ==> (has_def(kept, key) == exists|q: Id| is_def(old_rows, key, q) && ids.contains(q)),
        by_tenant ==> forall|u: Id| u != key ==> has_def(kept, u) == has_def(old_rows, u),
        !by_tenant ==> forall|u: Id|
            ids.contains(u) ==> has_def(kept, u) == has_def(old_rows, u),
        forall|p: Id|
            has_row(kept, key, p) == (has_row(old_rows, key, p) && keep_row(
                TenantProvider { tenant_id: key, provider_id: p, is_default: false },
                by_tenant,
                key,
                ids,
            ) || in_prefix(ids, 0, p)),
{
    let kr = |u: Id, p: Id| TenantProvider { tenant_id: u, provider_id: p, is_default: false };
    assert forall|u: Id, p: Id|
        has_row(kept, u, p) == (has_row(old_rows, u, p) && keep_row(kr(u, p), by_tenant, key, ids)) by {
        if has_row(kept, u, p) {
            let k = choose|k: int| 0 <= k < kept.len() && row_is(#[trigger] kept[k], u, p);
            assert(old_rows.contains(kept[k]));
            let i = choose|i: int| 0 <= i < old_rows.len() && old_rows[i] == kept[k];
            assert(row_is(old_rows[i], u, p));
        }
        if has_row(old_rows, u, p) && keep_row(kr(u, p), by_tenant, key, ids) {
            let i = choose|i: int| 0 <= i < old_rows.len() && row_is(#[trigger] old_rows[i], u, p);
            assert(keep_row(old_rows[i], by_tenant, key, ids));
            assert(kept.contains(old_rows[i]));
            let k = choose|k: int| 0 <= k < kept.len() && kept[k] == old_rows[i];
            assert(row_is(kept[k], u, p));
        }
    }
    assert forall|u: Id, p: Id|
        is_def(kept, u, p) == (is_def(old_rows, u, p) && keep_row(kr(u, p), by_tenant, key, ids)) by {
        if is_def(kept, u, p) {
            let k = choose|k: int| 0 <= k < kept.len() && row_is(#[trigger] kept[k], u, p) && kept[k].is_default;
            assert(old_rows.contains(kept[k]));
            let i = choose|i: int| 0 <= i < old_rows.len() && old_rows[i] == kept[k];
            assert(row_is(old_rows[i], u, p));
        }
        if is_def(old_rows, u, p) && keep_row(kr(u, p), by_tenant, key, ids) {
            let i = choose|i: int| 0 <= i < old_rows.len() && row_is(#[trigger] old_rows[i], u, p) && old_rows[i].is_default;
            assert(keep_row(old_rows[i], by_tenant, key, ids));
            assert(kept.contains(old_rows[i]));
            let k = choose|k: int| 0 <= k < kept.len() && kept[k] == old_rows[i];
            assert(row_is(kept[k], u, p));
        }
    }
    assert forall|u: Id| #![auto] has_def(kept, u) == exists|q: Id| is_def(kept, u, q) by {
        if has_def(kept, u) {
            let k = choose|k: int| 0 <= k < kept.len() && (#[trigger] kept[k]).tenant_id == u && kept[k].is_default;
            assert(is_def(kept, u, kept[k].provider_id));
        }
        if exists|q: Id| is_def(kept, u, q) {
            let q = choose|q: Id| is_def(kept, u, q);
            let k = choose|k: int| 0 <= k < kept.len() && row_is(#[trigger] kept[k], u, q) && kept[k].is_default;
        }
    }
    assert forall|u: Id| #![auto] has_def(old_rows, u) == exists|q: Id| is_def(old_rows, u, q) by {
        if has_def(old_rows, u) {
            let k = choose|k: int| 0 <= k < old_rows.len() && (#[trigger] old_rows[k]).tenant_id == u && old_rows[k].is_default;
            assert(is_def(old_rows, u, old_rows[k].provider_id));
        }
        if exists|q: Id| is_def(old_rows, u, q) {
            let q = choose|q: Id| is_def(old_rows, u, q);
            let k = choose|k: int| 0 <= k < old_rows.len() && row_is(#[trigger] old_rows[k], u, q) && old_rows[k].is_default;
        }
    }
    assert forall|p: Id| !in_prefix(ids, 0, p) by {}
}

} // verus!
