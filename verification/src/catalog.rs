//! The catalog of model cards (LLM providers) together with their tenant
//! assignments, and the requests that read and change them.
//!
//! Providers are kept in creation order.  A tenant sees the providers assigned
//! to it, its default first, then the others in creation order; a super admin
//! sees the whole catalog.
use vstd::prelude::*;
use crate::auth::{
    is_super_admin_refusal, require_non_empty, require_super_admin, required_message, AppError,
    AuthUser, Id,
};
use crate::provider::{
    find_row, has_row, is_def, is_not_assigned_error, row_is, rows_wf, Assignments, TenantProvider,
};
use crate::text::{owned, str_trim, trim};

verus! {

/// A model card.  `config` is the card's JSON configuration, kept as text.
pub struct Provider {
    pub id: Id,
    pub name: String,
    pub provider_type: String,
    pub config: String,
    pub secret_arn: Option<String>,
}

impl Provider {
    /// A copy of the card.
    pub fn copy(&self) -> (r: Provider)
        ensures
            r == *self,
    {
        let secret_arn = match &self.secret_arn {
            Some(s) => Some(s.clone()),
            None => None,
        };
        Provider {
            id: self.id,
            name: self.name.clone(),
            provider_type: self.provider_type.clone(),
            config: self.config.clone(),
            secret_arn,
        }
    }
}

/// A card as a tenant sees it, with the tenant's default flag.
pub struct ProviderWithDefault {
    pub provider: Provider,
    pub is_default: bool,
}

/// A provider type offered in the card editor.
pub struct ProviderTypeOption {
    pub value: String,
    pub label: String,
}

pub struct CreateProviderRequest {
    pub name: String,
    pub provider_type: String,
    pub config: String,
}

/// Fields left `None` keep their value.
pub struct UpdateProviderRequest {
    pub name: Option<String>,
    pub provider_type: Option<String>,
    pub config: Option<String>,
}

/// A tenant holding a card, with its default flag.
#[derive(Debug, Clone, Copy)]
pub struct ProviderTenantAssignment {
    pub tenant_id: Id,
    pub is_default: bool,
}

/// The provider types offered: Amazon Bedrock only on a local deployment, then the AI Gateway.
pub open spec fn type_values(is_local: bool) -> Seq<Seq<char>> {
    if is_local {
        seq!["bedrock"@, "gateway"@]
    } else {
        seq!["gateway"@]
    }
}

pub open spec fn type_labels(is_local: bool) -> Seq<Seq<char>> {
    if is_local {
        seq!["Amazon Bedrock"@, "AI Gateway"@]
    } else {
        seq!["AI Gateway"@]
    }
}

/// The provider types that can be chosen, by deployment.
pub fn available_types(is_local: bool) -> (r: Vec<ProviderTypeOption>)
    ensures
        r@.len() == type_values(is_local).len(),
        forall|i: int|
            0 <= i < r@.len() ==> (#[trigger] r@[i]).value@ == type_values(is_local)[i] && r@[i].label@
                == type_labels(is_local)[i],
{
    let mut types: Vec<ProviderTypeOption> = Vec::new();
    if is_local {
        types.push(ProviderTypeOption { value: owned("bedrock"), label: owned("Amazon Bedrock") });
    }
    types.push(ProviderTypeOption { value: owned("gateway"), label: owned("AI Gateway") });
    types
}

// ─── Specifications of the catalog ─────────────────────────────────────────

/// No two cards share an id.
pub open spec fn ids_unique(ps: Seq<Provider>) -> bool {
    forall|i: int, j: int| 0 <= i < j < ps.len() ==> (#[trigger] ps[i]).id != (#[trigger] ps[j]).id
}

pub open spec fn has_card(ps: Seq<Provider>, id: Id) -> bool {
    exists|i: int| 0 <= i < ps.len() && (#[trigger] ps[i]).id == id
}

/// The cards of `ps` that tenant `t` holds with default flag `want_default`, in catalog order.
pub open spec fn tenant_entries(ps: Seq<Provider>, rows: Seq<TenantProvider>, t: Id, want_default: bool) -> Seq<
    ProviderWithDefault,
>
    decreases ps.len(),
{
    if ps.len() == 0 {
        Seq::empty()
    } else {
        let prev = tenant_entries(ps.drop_last(), rows, t, want_default);
        let p = ps.last();
        if has_row(rows, t, p.id) && is_def(rows, t, p.id) == want_default {
            prev.push(ProviderWithDefault { provider: p, is_default: want_default })
        } else {
            prev
        }
    }
}

/// What tenant `t` sees: its default card first, then its other cards in catalog order.
pub open spec fn tenant_listing(ps: Seq<Provider>, rows: Seq<TenantProvider>, t: Id) -> Seq<ProviderWithDefault> {
    tenant_entries(ps, rows, t, true) + tenant_entries(ps, rows, t, false)
}

/// What a super admin sees: every card in catalog order, none marked default.
pub open spec fn global_listing(ps: Seq<Provider>) -> Seq<ProviderWithDefault> {
    Seq::new(ps.len(), |i: int| ProviderWithDefault { provider: ps[i], is_default: false })
}

/// The card after an update that keeps every field given as `None`.
pub open spec fn updated(p: Provider, req: UpdateProviderRequest) -> Provider {
    Provider {
        id: p.id,
        name: match req.name { Some(n) => n, None => p.name },
        provider_type: match req.provider_type { Some(t) => t, None => p.provider_type },
        config: match req.config { Some(c) => c, None => p.config },
        secret_arn: p.secret_arn,
    }
}

/// Number of rows that assign provider `p`.
pub open spec fn holders(rows: Seq<TenantProvider>, p: Id) -> nat
    decreases rows.len(),
{
    if rows.len() == 0 {
        0
    } else {
        holders(rows.drop_last(), p) + if rows.last().provider_id == p { 1nat } else { 0nat }
    }
}

/// The providers that occur in `rows`, each once, in order of first occurrence.
pub open spec fn first_seen(rows: Seq<TenantProvider>) -> Seq<Id>
    decreases rows.len(),
{
    if rows.len() == 0 {
        Seq::empty()
    } else {
        let prev = first_seen(rows.drop_last());
        if prev.contains(rows.last().provider_id) {
            prev
        } else {
            prev.push(rows.last().provider_id)
        }
    }
}

/// The rows of provider `p`, as (tenant, default) pairs in table order.
pub open spec fn tenants_of(rows: Seq<TenantProvider>, p: Id) -> Seq<ProviderTenantAssignment>
    decreases rows.len(),
{
    if rows.len() == 0 {
        Seq::empty()
    } else {
        let prev = tenants_of(rows.drop_last(), p);
        let r = rows.last();
        if r.provider_id == p {
            prev.push(ProviderTenantAssignment { tenant_id: r.tenant_id, is_default: r.is_default })
        } else {
            prev
        }
    }
}

pub open spec fn is_not_found_card(e: AppError) -> bool {
    e matches AppError::NotFound(m) && m@ == "Provider not found"@
}

pub open spec fn is_duplicate_card(e: AppError) -> bool {
    e matches AppError::Conflict(m) && m@ == "Provider already exists"@
}

fn not_found_card() -> (e: AppError)
    ensures
        is_not_found_card(e),
{
    AppError::NotFound(owned("Provider not found"))
}

/// Position of the card with id `id`.
fn find_card(ps: &Vec<Provider>, id: Id) -> (r: Option<usize>)
    ensures
        r is None <==> !has_card(ps@, id),
        r matches Some(k) ==> k < ps@.len() && ps@[k as int].id == id,
{
    let mut i: usize = 0;
    while i < ps.len()
        invariant
            i <= ps.len(),
            forall|j: int| 0 <= j < i ==> (#[trigger] ps@[j]).id != id,
        decreases ps.len() - i,
    {
        if ps[i].id == id {
            return Some(i);
        }
        i = i + 1;
    }
    None
}

/// The catalog and its tenant assignments.
pub struct ProviderStore {
    pub providers: Vec<Provider>,
    pub links: Assignments,
}

impl ProviderStore {
    pub open spec fn wf(&self) -> bool {
        self.links.wf() && ids_unique(self.providers@)
    }

    /// An empty catalog.
    pub fn new() -> (r: Self)
        ensures
            r.wf(),
            r.providers@.len() == 0,
            r.links.rows@.len() == 0,
    {
        ProviderStore { providers: Vec::new(), links: Assignments::new() }
    }

    /// The cards of tenant `t` with flag `want_default`, appended to `out`.
    fn push_entries(&self, t: Id, want_default: bool, out: &mut Vec<ProviderWithDefault>)
        ensures
            final(out)@ == old(out)@ + tenant_entries(self.providers@, self.links.rows@, t, want_default),
    {
        let ghost start = out@;
        let ghost ps = self.providers@;
        let mut i: usize = 0;
        while i < self.providers.len()
            invariant
                i <= self.providers.len(),
                ps == self.providers@,
                out@ == start + tenant_entries(ps.take(i as int), self.links.rows@, t, want_default),
            decreases self.providers.len() - i,
        {
            let p = &self.providers[i];
            proof {
                assert(ps.take(i + 1).drop_last() =~= ps.take(i as int));
                assert(ps.take(i + 1).last() == ps[i as int]);
            }
            let held = find_row(&self.links.rows, t, p.id);
            if held.is_some() {
                let d = self.links.row_is_default(t, p.id);
                if d == want_default {
                    out.push(ProviderWithDefault { provider: p.copy(), is_default: want_default });
                    proof {
                        assert(out@ =~= start + tenant_entries(ps.take(i + 1), self.links.rows@, t, want_default));
                    }
                }
            }
            i = i + 1;
        }
        proof {
            assert(ps.take(ps.len() as int) =~= ps);
        }
    }

    /// The cards the caller may see: the whole catalog for a super admin, otherwise the cards of
    /// the caller's tenant (none without a tenant), its default first.
    pub fn list(&self, auth: &AuthUser) -> (r: Vec<ProviderWithDefault>)
        ensures
            auth.spec_is_super_admin() ==> r@ == global_listing(self.providers@),
            !auth.spec_is_super_admin() ==> r@ == match auth.tenant_id {
                Some(t) => tenant_listing(self.providers@, self.links.rows@, t),
                None => Seq::<ProviderWithDefault>::empty(),
            },
    {
        let mut out: Vec<ProviderWithDefault> = Vec::new();
        if auth.is_super_admin() {
            let mut i: usize = 0;
            while i < self.providers.len()
                invariant
                    i <= self.providers.len(),
                    out@.len() == i,
                    forall|k: int|
                        0 <= k < i ==> #[trigger] out@[k] == (ProviderWithDefault {
                            provider: self.providers@[k],
                            is_default: false,
                        }),
                decreases self.providers.len() - i,
            {
                out.push(ProviderWithDefault { provider: self.providers[i].copy(), is_default: false });
                i = i + 1;
            }
            proof {
                assert(out@ =~= global_listing(self.providers@));
            }
        } else {
            match auth.tenant_id {
                Some(t) => {
                    self.push_entries(t, true, &mut out);
                    self.push_entries(t, false, &mut out);
                },
                None => {},
            }
        }
        out
    }

    /// Add a card (super admins only).  The name must not be blank and is stored trimmed.
    pub fn create(&mut self, auth: &AuthUser, id: Id, req: &CreateProviderRequest) -> (r: Result<Provider, AppError>)
        requires
            old(self).wf(),
        ensures
            final(self).wf(),
            final(self).links.rows@ == old(self).links.rows@,
            !auth.spec_is_super_admin() ==> (r matches Err(e) && is_super_admin_refusal(e, "create model cards"@)),
            auth.spec_is_super_admin() && trim(req.name@).len() == 0 ==> (r matches Err(e) && e matches AppError::BadRequest(m)
                && m@ == required_message("Name"@)),
            auth.spec_is_super_admin() && trim(req.name@).len() > 0 && has_card(old(self).providers@, id)
                ==> (r matches Err(e) && is_duplicate_card(e)),
            r is Ok <==> auth.spec_is_super_admin() && trim(req.name@).len() > 0 && !has_card(
                old(self).providers@,
                id,
            ),
            r is Err ==> final(self).providers@ == old(self).providers@,
            r matches Ok(p) ==> p.id == id && p.name@ == trim(req.name@) && p.provider_type == req.provider_type
                && p.config == req.config && p.secret_arn is None && final(self).providers@ == old(self).providers@.push(p),
    {
        if let Err(e) = require_super_admin(auth, "create model cards") {
            return Err(e);
        }
        if let Err(e) = require_non_empty(req.name.as_str(), "Name") {
            return Err(e);
        }
        if find_card(&self.providers, id).is_some() {
            return Err(AppError::Conflict(owned("Provider already exists")));
        }
        let p = Provider {
            id,
            name: str_trim(req.name.as_str()),
            provider_type: req.provider_type.clone(),
            config: req.config.clone(),
            secret_arn: None,
        };
        let ghost before = self.providers@;
        self.providers.push(p.copy());
        proof {
            assert forall|i: int, j: int|
                0 <= i < j < self.providers@.len() implies (#[trigger] self.providers@[i]).id != (
                #[trigger] self.providers@[j]).id by {
                if j == before.len() {
                    assert(self.providers@[i] == before[i]);
                } else {
                    assert(self.providers@[i] == before[i] && self.providers@[j] == before[j]);
                }
            }
        }
        Ok(p)
    }

    /// Change the given fields of a card (super admins only).
    pub fn update(&mut self, auth: &AuthUser, id: Id, req: UpdateProviderRequest) -> (r: Result<Provider, AppError>)
        requires
            old(self).wf(),
        ensures
            final(self).wf(),
            final(self).links.rows@ == old(self).links.rows@,
            !auth.spec_is_super_admin() ==> (r matches Err(e) && is_super_admin_refusal(e, "update model cards"@)),
            auth.spec_is_super_admin() && !has_card(old(self).providers@, id) ==> (r matches Err(e)
                && is_not_found_card(e)),
            r is Ok <==> auth.spec_is_super_admin() && has_card(old(self).providers@, id),
            r is Err ==> final(self).providers@ == old(self).providers@,
            r matches Ok(p) ==> exists|k: int|
                0 <= k < old(self).providers@.len() && (#[trigger] old(self).providers@[k]).id == id && p
                    == updated(old(self).providers@[k], req) && final(self).providers@ == old(self).providers@.update(k, p),
    {
        if let Err(e) = require_super_admin(auth, "update model cards") {
            return Err(e);
        }
        match find_card(&self.providers, id) {
            None => Err(not_found_card()),
            Some(k) => {
                let old_p = self.providers[k].copy();
                let ghost req_v = req;
                let UpdateProviderRequest { name, provider_type, config } = req;
                let p = Provider {
                    id: old_p.id,
                    name: match name { Some(n) => n, None => old_p.name },
                    provider_type: match provider_type { Some(t) => t, None => old_p.provider_type },
                    config: match config { Some(c) => c, None => old_p.config },
                    secret_arn: old_p.secret_arn,
                };
                proof {
                    assert(p == updated(self.providers@[k as int], req_v));
                }
                let ghost before = self.providers@;
                self.providers.set(k, p.copy());
                proof {
                    assert forall|i: int, j: int|
                        0 <= i < j < self.providers@.len() implies (#[trigger] self.providers@[i]).id != (
                        #[trigger] self.providers@[j]).id by {
                        assert(self.providers@[i].id == before[i].id);
                        assert(self.providers@[j].id == before[j].id);
                    }
                }
                Ok(p)
            },
        }
    }

    /// Remove a card and every assignment of it (super admins only).
    pub fn delete(&mut self, auth: &AuthUser, id: Id) -> (r: Result<(), AppError>)
        requires
            old(self).wf(),
        ensures
            final(self).wf(),
            !auth.spec_is_super_admin() ==> (r matches Err(e) && is_super_admin_refusal(e, "delete model cards"@)),
            auth.spec_is_super_admin() && !has_card(old(self).providers@, id) ==> (r matches Err(e)
                && is_not_found_card(e)),
            r is Ok <==> auth.spec_is_super_admin() && has_card(old(self).providers@, id),
            r is Err ==> final(self).providers@ == old(self).providers@ && final(self).links.rows@ == old(self).links.rows@,
            r is Ok ==> exists|k: int|
                0 <= k < old(self).providers@.len() && (#[trigger] old(self).providers@[k]).id == id
                    && final(self).providers@ == old(self).providers@.remove(k),
            r is Ok ==> !has_card(final(self).providers@, id),
            r is Ok ==> forall|u: Id, q: Id|
                final(self).links.assigned(u, q) == (old(self).links.assigned(u, q) && q != id),
            r is Ok ==> forall|u: Id, q: Id|
                final(self).links.is_default(u, q) == (old(self).links.is_default(u, q) && q != id),
    {
        if let Err(e) = require_super_admin(auth, "delete model cards") {
            return Err(e);
        }
        match find_card(&self.providers, id) {
            None => Err(not_found_card()),
            Some(k) => {
                let ghost before = self.providers@;
                self.providers.remove(k);
                proof {
                    assert forall|i: int, j: int|
                        0 <= i < j < self.providers@.len() implies (#[trigger] self.providers@[i]).id != (
                        #[trigger] self.providers@[j]).id by {
                        let bi = if i < k { i } else { i + 1 };
                        let bj = if j < k { j } else { j + 1 };
                        assert(self.providers@[i] == before[bi]);
                        assert(self.providers@[j] == before[bj]);
                    }
                    if has_card(self.providers@, id) {
                        let i = choose|i: int| 0 <= i < self.providers@.len() && (#[trigger] self.providers@[i]).id == id;
                        let bi = if i < k { i } else { i + 1 };
                        assert(self.providers@[i] == before[bi]);
                        assert(before[bi].id == before[k as int].id);
                    }
                }
                self.links.drop_provider(id);
                Ok(())
            },
        }
    }

    /// The cards of tenant `t`, its default first (super admins only).
    pub fn list_by_tenant(&self, auth: &AuthUser, t: Id) -> (r: Result<Vec<ProviderWithDefault>, AppError>)
        ensures
            !auth.spec_is_super_admin() ==> (r matches Err(e) && is_super_admin_refusal(
                e,
                "manage tenant model cards"@,
            )),
            auth.spec_is_super_admin() ==> (r matches Ok(v) && v@ == tenant_listing(
                self.providers@,
                self.links.rows@,
                t,
            )),
    {
        if let Err(e) = require_super_admin(auth, "manage tenant model cards") {
            return Err(e);
        }
        let mut out: Vec<ProviderWithDefault> = Vec::new();
        self.push_entries(t, true, &mut out);
        self.push_entries(t, false, &mut out);
        Ok(out)
    }

    /// Replace the cards of tenant `t` (super admins only); see `Assignments::assign_to_tenant`.
    pub fn assign_to_tenant(&mut self, auth: &AuthUser, t: Id, provider_ids: &Vec<Id>) -> (r: Result<(), AppError>)
        requires
            old(self).wf(),
        ensures
            final(self).wf(),
            final(self).providers@ == old(self).providers@,
            r is Ok <==> auth.spec_is_super_admin(),
            r matches Err(e) ==> is_super_admin_refusal(e, "assign model cards to tenants"@)
                && final(self).links.rows@ == old(self).links.rows@,
            r is Ok ==> forall|u: Id, p: Id|
                u != t ==> (final(self).links.assigned(u, p) == old(self).links.assigned(u, p)
                    && final(self).links.is_default(u, p) == old(self).links.is_default(u, p)),
            r is Ok ==> forall|p: Id| final(self).links.assigned(t, p) == provider_ids@.contains(p),
            r is Ok ==> forall|p: Id| #![trigger final(self).links.is_default(t, p)]
                final(self).links.is_default(t, p) == if old(self).links.keeps_default(t, provider_ids@) {
                    old(self).links.is_default(t, p) && provider_ids@.contains(p)
                } else {
                    provider_ids@.len() > 0 && p == provider_ids@[0]
                },
    {
        if let Err(e) = require_super_admin(auth, "assign model cards to tenants") {
            return Err(e);
        }
        self.links.assign_to_tenant(t, provider_ids);
        Ok(())
    }

    /// Make `p` the default card of tenant `t` (super admins only); refused when `t` does not
    /// hold `p`.
    pub fn set_tenant_default(&mut self, auth: &AuthUser, t: Id, p: Id) -> (r: Result<(), AppError>)
        requires
            old(self).wf(),
        ensures
            final(self).wf(),
            final(self).providers@ == old(self).providers@,
            !auth.spec_is_super_admin() ==> (r matches Err(e) && is_super_admin_refusal(e, "set default model card"@)),
            auth.spec_is_super_admin() && !old(self).links.assigned(t, p) ==> (r matches Err(e)
                && is_not_assigned_error(e)),
            r is Ok <==> auth.spec_is_super_admin() && old(self).links.assigned(t, p),
            r is Err ==> final(self).links.rows@ == old(self).links.rows@,
            forall|u: Id, q: Id| final(self).links.assigned(u, q) == old(self).links.assigned(u, q),
            forall|u: Id, q: Id|
                u != t ==> final(self).links.is_default(u, q) == old(self).links.is_default(u, q),
            r is Ok ==> forall|q: Id| final(self).links.is_default(t, q) == (q == p),
    {
        if let Err(e) = require_super_admin(auth, "set default model card") {
            return Err(e);
        }
        self.links.set_default(t, p)
    }

    /// How many tenants hold each card: one entry per card that some tenant holds, in the order in
    /// which the cards first occur in the assignment table.
    pub fn count_tenant_assignments(&self) -> (r: Vec<(Id, i64)>)
        requires
            self.links.rows@.len() <= i64::MAX,
        ensures
            r@.len() == first_seen(self.links.rows@).len(),
            forall|a: int|
                0 <= a < r@.len() ==> (#[trigger] r@[a]).0 == first_seen(self.links.rows@)[a] && r@[a].1
                    == holders(self.links.rows@, r@[a].0),
    {
        let rows = &self.links.rows;
        let ghost all = rows@;
        let mut out: Vec<(Id, i64)> = Vec::new();
        let mut i: usize = 0;
        while i < rows.len()
            invariant
                i <= rows.len(),
                all == rows@,
                rows@.len() <= i64::MAX,
                out@.len() == first_seen(all.take(i as int)).len(),
                forall|a: int|
                    0 <= a < out@.len() ==> (#[trigger] out@[a]).0 == first_seen(all.take(i as int))[a]
                        && out@[a].1 == holders(all, out@[a].0),
            decreases rows.len() - i,
        {
            let p = rows[i].provider_id;
            let ghost fs = first_seen(all.take(i as int));
            proof {
                assert(all.take(i + 1).drop_last() =~= all.take(i as int));
            }
            let mut seen = false;
            let mut a: usize = 0;
            while a < out.len()
                invariant
                    a <= out.len(),
                    out@.len() == fs.len(),
                    forall|b: int| 0 <= b < out@.len() ==> (#[trigger] out@[b]).0 == fs[b],
                    seen == exists|b: int| 0 <= b < a && fs[b] == p,
                decreases out.len() - a,
            {
                if out[a].0 == p {
                    seen = true;
                }
                a = a + 1;
            }
            proof {
                if fs.contains(p) {
                    let b = choose|b: int| 0 <= b < fs.len() && fs[b] == p;
                }
            }
            if !seen {
                let n = count_holders(rows, p);
                out.push((p, n));
                proof {
                    assert(first_seen(all.take(i + 1)) == fs.push(p));
                }
            }
            i = i + 1;
        }
        proof {
            assert(all.take(all.len() as int) =~= all);
        }
        out
    }

    /// The tenants holding card `p`, in table order (super admins only).
    pub fn list_tenants_for_provider(&self, auth: &AuthUser, p: Id) -> (r: Result<Vec<ProviderTenantAssignment>, AppError>)
        ensures
            !auth.spec_is_super_admin() ==> (r matches Err(e) && is_super_admin_refusal(e, "view provider tenants"@)),
            auth.spec_is_super_admin() ==> (r matches Ok(v) && v@ == tenants_of(self.links.rows@, p)),
    {
        if let Err(e) = require_super_admin(auth, "view provider tenants") {
            return Err(e);
        }
        let rows = &self.links.rows;
        let mut out: Vec<ProviderTenantAssignment> = Vec::new();
        let mut i: usize = 0;
        while i < rows.len()
            invariant
                i <= rows.len(),
                out@ == tenants_of(rows@.take(i as int), p),
            decreases rows.len() - i,
        {
            proof {
                assert(rows@.take(i + 1).drop_last() =~= rows@.take(i as int));
            }
            let row = rows[i];
            if row.provider_id == p {
                out.push(ProviderTenantAssignment { tenant_id: row.tenant_id, is_default: row.is_default });
            }
            i = i + 1;
        }
        proof {
            assert(rows@.take(rows@.len() as int) =~= rows@);
        }
        Ok(out)
    }

    /// Replace the tenants of card `p` (super admins only); see
    /// `Assignments::assign_provider_to_tenants`.
    pub fn assign_provider_to_tenants(&mut self, auth: &AuthUser, p: Id, tenant_ids: &Vec<Id>) -> (r: Result<
        (),
        AppError,
    >)
        requires
            old(self).wf(),
        ensures
            final(self).wf(),
            final(self).providers@ == old(self).providers@,
            r is Ok <==> auth.spec_is_super_admin(),
            r matches Err(e) ==> is_super_admin_refusal(e, "assign model card to tenants"@)
                && final(self).links.rows@ == old(self).links.rows@,
            r is Ok ==> forall|u: Id, q: Id|
                q != p ==> final(self).links.assigned(u, q) == old(self).links.assigned(u, q),
            r is Ok ==> forall|u: Id| final(self).links.assigned(u, p) == tenant_ids@.contains(u),
            r is Ok ==> forall|u: Id, q: Id|
                !tenant_ids@.contains(u) ==> final(self).links.is_default(u, q) == (old(self).links.is_default(u, q) && q != p),
            r is Ok ==> forall|u: Id, q: Id|
                tenant_ids@.contains(u) ==> final(self).links.is_default(u, q) == if old(self).links.has_default(u) {
                    old(self).links.is_default(u, q)
                } else {
                    q == p
                },
    {
        if let Err(e) = require_super_admin(auth, "assign model card to tenants") {
            return Err(e);
        }
        self.links.assign_provider_to_tenants(p, tenant_ids);
        Ok(())
    }
}

/// Number of rows of `rows` that assign `p`.
fn count_holders(rows: &Vec<TenantProvider>, p: Id) -> (n: i64)
    requires
        rows@.len() <= i64::MAX,
    ensures
        n == holders(rows@, p),
{
    let mut n: i64 = 0;
    let mut i: usize = 0;
    while i < rows.len()
        invariant
            i <= rows.len(),
            rows@.len() <= i64::MAX,
            n == holders(rows@.take(i as int), p),
            n <= i,
        decreases rows.len() - i,
    {
        proof {
            assert(rows@.take(i + 1).drop_last() =~= rows@.take(i as int));
        }
        if rows[i].provider_id == p {
            n = n + 1;
        }
        i = i + 1;
    }
    proof {
        assert(rows@.take(rows@.len() as int) =~= rows@);
    }
    n
}

// ─── Laws of the listings ──────────────────────────────────────────────────

/// Each entry of `tenant_entries` is a card of the catalog that the tenant holds, with the
/// requested default flag, and every such card has its entry.
pub proof fn lemma_tenant_entries(ps: Seq<Provider>, rows: Seq<TenantProvider>, t: Id, want_default: bool)
    ensures
        forall|k: int|
            0 <= k < tenant_entries(ps, rows, t, want_default).len() ==> {
                let e = #[trigger] tenant_entries(ps, rows, t, want_default)[k];
                &&& ps.contains(e.provider)
                &&& has_row(rows, t, e.provider.id)
                &&& is_def(rows, t, e.provider.id) == want_default
                &&& e.is_default == want_default
            },
        forall|i: int|
            0 <= i < ps.len() && has_row(rows, t, (#[trigger] ps[i]).id) && is_def(rows, t, ps[i].id) == want_default
                ==> tenant_entries(ps, rows, t, want_default).contains(
                (ProviderWithDefault { provider: ps[i], is_default: want_default }),
            ),
    decreases ps.len(),
{
    if ps.len() > 0 {
        let prev = ps.drop_last();
        lemma_tenant_entries(prev, rows, t, want_default);
        let cur = tenant_entries(ps, rows, t, want_default);
        let old_e = tenant_entries(prev, rows, t, want_default);
        assert forall|k: int| 0 <= k < cur.len() implies {
            let e = #[trigger] cur[k];
            &&& ps.contains(e.provider)
            &&& has_row(rows, t, e.provider.id)
            &&& is_def(rows, t, e.provider.id) == want_default
            &&& e.is_default == want_default
        } by {
            if k < old_e.len() {
                assert(cur[k] == old_e[k]);
                let e = old_e[k];
                let j = choose|j: int| 0 <= j < prev.len() && prev[j] == e.provider;
                assert(ps[j] == prev[j]);
            } else {
                assert(ps[ps.len() - 1] == ps.last());
            }
        }
        assert forall|i: int|
            0 <= i < ps.len() && has_row(rows, t, (#[trigger] ps[i]).id) && is_def(rows, t, ps[i].id)
                == want_default implies cur.contains(
            (ProviderWithDefault { provider: ps[i], is_default: want_default }),
        ) by {
            let e = ProviderWithDefault { provider: ps[i], is_default: want_default };
            if i < ps.len() - 1 {
                assert(prev[i] == ps[i]);
                assert(old_e.contains(e));
                let k = choose|k: int| 0 <= k < old_e.len() && old_e[k] == e;
                assert(cur[k] == e);
            } else {
                assert(cur[cur.len() - 1] == e);
            }
        }
    }
}

/// A tenant sees exactly the cards of the catalog assigned to it, each with its own default flag.
pub proof fn law_tenant_sees_assigned(ps: Seq<Provider>, rows: Seq<TenantProvider>, t: Id)
    ensures
        forall|k: int|
            0 <= k < tenant_listing(ps, rows, t).len() ==> {
                let e = #[trigger] tenant_listing(ps, rows, t)[k];
                &&& ps.contains(e.provider)
                &&& has_row(rows, t, e.provider.id)
                &&& e.is_default == is_def(rows, t, e.provider.id)
            },
        forall|i: int|
            0 <= i < ps.len() && has_row(rows, t, (#[trigger] ps[i]).id) ==> tenant_listing(ps, rows, t).contains(
                (ProviderWithDefault { provider: ps[i], is_default: is_def(rows, t, ps[i].id) }),
            ),
{
    lemma_tenant_entries(ps, rows, t, true);
    lemma_tenant_entries(ps, rows, t, false);
    let a = tenant_entries(ps, rows, t, true);
    let b = tenant_entries(ps, rows, t, false);
    let l = tenant_listing(ps, rows, t);
    assert forall|k: int| 0 <= k < l.len() implies {
        let e = #[trigger] l[k];
        &&& ps.contains(e.provider)
        &&& has_row(rows, t, e.provider.id)
        &&& e.is_default == is_def(rows, t, e.provider.id)
    } by {
        if k < a.len() {
            assert(l[k] == a[k]);
        } else {
            assert(l[k] == b[k - a.len()]);
        }
    }
    assert forall|i: int| 0 <= i < ps.len() && has_row(rows, t, (#[trigger] ps[i]).id) implies l.contains(
        (ProviderWithDefault { provider: ps[i], is_default: is_def(rows, t, ps[i].id) }),
    ) by {
        let e = ProviderWithDefault { provider: ps[i], is_default: is_def(rows, t, ps[i].id) };
        if is_def(rows, t, ps[i].id) {
            assert(a.contains(e));
            let k = choose|k: int| 0 <= k < a.len() && a[k] == e;
            assert(l[k] == e);
        } else {
            assert(b.contains(e));
            let k = choose|k: int| 0 <= k < b.len() && b[k] == e;
            assert(l[a.len() + k] == e);
        }
    }
}

/// How many cards of the catalog `ps` tenant `t` holds.
pub open spec fn held_count(ps: Seq<Provider>, rows: Seq<TenantProvider>, t: Id) -> nat
    decreases ps.len(),
{
    if ps.len() == 0 {
        0
    } else {
        held_count(ps.drop_last(), rows, t) + if has_row(rows, t, ps.last().id) { 1nat } else { 0nat }
    }
}

/// A tenant's listing has one entry for each card of the catalog that it holds, and no other.
pub proof fn law_listing_counts_held_cards(ps: Seq<Provider>, rows: Seq<TenantProvider>, t: Id)
    ensures
        tenant_listing(ps, rows, t).len() == held_count(ps, rows, t),
    decreases ps.len(),
{
    if ps.len() > 0 {
        law_listing_counts_held_cards(ps.drop_last(), rows, t);
    }
}

/// The entries of `tenant_entries` name distinct cards when the catalog's ids are unique.
proof fn lemma_entries_distinct(ps: Seq<Provider>, rows: Seq<TenantProvider>, t: Id, want_default: bool)
    requires
        ids_unique(ps),
    ensures
        forall|a: int, b: int|
            0 <= a < b < tenant_entries(ps, rows, t, want_default).len() ==> (#[trigger] tenant_entries(
                ps,
                rows,
                t,
                want_default,
            )[a]).provider.id != (#[trigger] tenant_entries(ps, rows, t, want_default)[b]).provider.id,
    decreases ps.len(),
{
    if ps.len() > 0 {
        let prev = ps.drop_last();
        assert(ids_unique(prev));
        lemma_entries_distinct(prev, rows, t, want_default);
        lemma_tenant_entries(prev, rows, t, want_default);
        let cur = tenant_entries(ps, rows, t, want_default);
        let old_e = tenant_entries(prev, rows, t, want_default);
        assert forall|a: int, b: int| 0 <= a < b < cur.len() implies (#[trigger] cur[a]).provider.id != (
        #[trigger] cur[b]).provider.id by {
            if b < old_e.len() {
                assert(cur[a] == old_e[a] && cur[b] == old_e[b]);
            } else {
                assert(cur[a] == old_e[a]);
                assert(cur[b].provider == ps.last());
                let e = old_e[a];
                let j = choose|j: int| 0 <= j < prev.len() && prev[j] == e.provider;
                assert(ps[j] == prev[j]);
                assert(ps[ps.len() - 1] == ps.last());
            }
        }
    }
}

/// When the catalog's ids are unique, a tenant's listing shows each card at most once.
pub proof fn law_listing_ids_distinct(ps: Seq<Provider>, rows: Seq<TenantProvider>, t: Id)
    requires
        ids_unique(ps),
    ensures
        forall|a: int, b: int|
            0 <= a < b < tenant_listing(ps, rows, t).len() ==> (#[trigger] tenant_listing(ps, rows, t)[a]).provider.id
                != (#[trigger] tenant_listing(ps, rows, t)[b]).provider.id,
{
    lemma_entries_distinct(ps, rows, t, true);
    lemma_entries_distinct(ps, rows, t, false);
    lemma_tenant_entries(ps, rows, t, true);
    lemma_tenant_entries(ps, rows, t, false);
    let x = tenant_entries(ps, rows, t, true);
    let y = tenant_entries(ps, rows, t, false);
    let l = tenant_listing(ps, rows, t);
    assert forall|a: int, b: int| 0 <= a < b < l.len() implies (#[trigger] l[a]).provider.id != (
    #[trigger] l[b]).provider.id by {
        if b < x.len() {
            assert(l[a] == x[a] && l[b] == x[b]);
        } else if a >= x.len() {
            assert(l[a] == y[a - x.len()] && l[b] == y[b - x.len()]);
        } else {
            assert(l[a] == x[a] && l[b] == y[b - x.len()]);
        }
    }
}

/// Once tenant `t` holds exactly the providers `ids` (as after `assign_to_tenant`), its listing
/// shows exactly the catalog cards whose id is in `ids`, each once, with its default flag: a card
/// held before and left out of `ids` is gone.
pub proof fn law_listing_after_assignment(ps: Seq<Provider>, rows: Seq<TenantProvider>, t: Id, ids: Seq<Id>)
    requires
        ids_unique(ps),
        forall|p: Id| has_row(rows, t, p) == ids.contains(p),
    ensures
        forall|k: int|
            0 <= k < tenant_listing(ps, rows, t).len() ==> {
                let e = #[trigger] tenant_listing(ps, rows, t)[k];
                &&& ids.contains(e.provider.id)
                &&& ps.contains(e.provider)
                &&& e.is_default == is_def(rows, t, e.provider.id)
            },
        forall|i: int|
            0 <= i < ps.len() && ids.contains((#[trigger] ps[i]).id) ==> tenant_listing(ps, rows, t).contains(
                (ProviderWithDefault { provider: ps[i], is_default: is_def(rows, t, ps[i].id) }),
            ),
        forall|a: int, b: int|
            0 <= a < b < tenant_listing(ps, rows, t).len() ==> (#[trigger] tenant_listing(ps, rows, t)[a]).provider.id
                != (#[trigger] tenant_listing(ps, rows, t)[b]).provider.id,
{
    law_tenant_sees_assigned(ps, rows, t);
    law_listing_ids_distinct(ps, rows, t);
    let l = tenant_listing(ps, rows, t);
    assert forall|k: int| 0 <= k < l.len() implies ids.contains((#[trigger] l[k]).provider.id) by {
        assert(has_row(rows, t, l[k].provider.id));
    }
    assert forall|i: int| 0 <= i < ps.len() && ids.contains((#[trigger] ps[i]).id) implies l.contains(
        (ProviderWithDefault { provider: ps[i], is_default: is_def(rows, t, ps[i].id) }),
    ) by {
        assert(has_row(rows, t, ps[i].id));
    }
}

/// Two default rows of one tenant name the same provider.
proof fn lemma_one_default(rows: Seq<TenantProvider>, t: Id, p: Id, q: Id)
    requires
        rows_wf(rows),
        is_def(rows, t, p),
        is_def(rows, t, q),
    ensures
        p == q,
{
    let i = choose|i: int| 0 <= i < rows.len() && row_is(#[trigger] rows[i], t, p) && rows[i].is_default;
    let j = choose|j: int| 0 <= j < rows.len() && row_is(#[trigger] rows[j], t, q) && rows[j].is_default;
    assert(rows[i].tenant_id == rows[j].tenant_id);
}

/// A tenant's listing shows at most one card as its default, and that entry comes first.
pub proof fn law_at_most_one_default_listed(ps: Seq<Provider>, rows: Seq<TenantProvider>, t: Id)
    requires
        ids_unique(ps),
        rows_wf(rows),
    ensures
        tenant_entries(ps, rows, t, true).len() <= 1,
        forall|k: int|
            0 < k < tenant_listing(ps, rows, t).len() ==> !(#[trigger] tenant_listing(ps, rows, t)[k]).is_default,
    decreases ps.len(),
{
    lemma_tenant_entries(ps, rows, t, true);
    lemma_tenant_entries(ps, rows, t, false);
    if ps.len() > 0 {
        let prev = ps.drop_last();
        law_at_most_one_default_listed(prev, rows, t);
        let p = ps.last();
        if has_row(rows, t, p.id) && is_def(rows, t, p.id) {
            lemma_tenant_entries(prev, rows, t, true);
            let old_e = tenant_entries(prev, rows, t, true);
            if old_e.len() > 0 {
                let e = old_e[0];
                let j = choose|j: int| 0 <= j < prev.len() && prev[j] == e.provider;
                lemma_one_default(rows, t, e.provider.id, p.id);
                assert(ps[j] == prev[j]);
                assert(ps[ps.len() - 1] == p);
            }
        }
    }
    let a = tenant_entries(ps, rows, t, true);
    let b = tenant_entries(ps, rows, t, false);
    let l = tenant_listing(ps, rows, t);
    assert forall|k: int| 0 < k < l.len() implies !(#[trigger] l[k]).is_default by {
        if k >= a.len() {
            assert(l[k] == b[k - a.len()]);
        }
    }
}

} // verus!
