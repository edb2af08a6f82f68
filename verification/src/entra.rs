//! Microsoft Entra ID single sign-on: the connections that admit users by email
//! domain, and the group mappings that decide a signed-in user's role, tenant and
//! cloud-account access.
use vstd::prelude::*;
use crate::auth::{
    check_role_and_tenant, is_builtin_role, is_super_admin_refusal, require_non_empty, require_super_admin,
    required_message, role_is_builtin, role_is_super_admin, role_is_tenant_admin, role_must_be_error,
    role_must_be_message, super_admin_role, tenant_admin_role, AppError, AuthUser, Id,
};
use crate::pattern::{lowercase, to_lowercase};
use crate::text::{chars_of, owned, slice_from, str_eq, string_from_chars, trim};

verus! {

// ─── Group mappings ────────────────────────────────────────────────────────

/// The role a new mapping grants: the one asked for, "member" by default.
pub open spec fn mapping_role_of(role: Option<Seq<char>>) -> Seq<char> {
    match role {
        Some(r) => r,
        None => "member"@,
    }
}

/// Checks a new group mapping: the caller is a super admin, a group id is given, the role is
/// built in, and every role but super admin names a tenant.  Gives the role to store.
pub fn check_new_mapping(auth: &AuthUser, group_id: &str, role: Option<&str>, tenant_id: Option<Id>) -> (r: Result<String, AppError>)
    ensures
        ({
            let rl = mapping_role_of(match role {
                Some(x) => Some(x@),
                None => None,
            });
            match r {
                Ok(x) => auth.spec_is_super_admin() && trim(group_id@).len() > 0 && x@ == rl && is_builtin_role(rl)
                    && (rl == super_admin_role() || tenant_id is Some),
                Err(e) => if !auth.spec_is_super_admin() {
                    is_super_admin_refusal(e, "create group mappings"@)
                } else if trim(group_id@).len() == 0 {
                    e == AppError::BadRequest(e->BadRequest_0) && e->BadRequest_0@ == required_message("group_id"@)
                } else {
                    e is BadRequest && !(is_builtin_role(rl) && (rl == super_admin_role() || tenant_id is Some))
                },
            }
        }),
{
    require_super_admin(auth, "create group mappings")?;
    require_non_empty(group_id, "group_id")?;
    let rl = match role {
        Some(x) => owned(x),
        None => owned("member"),
    };
    check_role_and_tenant(rl.as_str(), tenant_id)?;
    Ok(rl)
}

/// Checks a change of a group mapping: the caller is a super admin and a new role, if any, is
/// built in.
pub fn check_mapping_update(auth: &AuthUser, role: Option<&str>) -> (r: Result<(), AppError>)
    ensures
        r is Ok <==> auth.spec_is_super_admin() && match role {
            Some(x) => is_builtin_role(x@),
            None => true,
        },
        r matches Err(e) ==> if !auth.spec_is_super_admin() {
            is_super_admin_refusal(e, "update group mappings"@)
        } else {
            e == AppError::BadRequest(e->BadRequest_0) && e->BadRequest_0@ == role_must_be_message()
        },
{
    require_super_admin(auth, "update group mappings")?;
    match role {
        Some(x) => {
            if !role_is_builtin(x) {
                return Err(role_must_be_error());
            }
        },
        None => {},
    }
    Ok(())
}

/// The message of a refused duplicate mapping, by the database constraint that refused it.
pub fn mapping_conflict_message(constraint: &str) -> (r: Option<&'static str>)
    ensures
        constraint@ == "entra_group_mappings_group_id_key"@ ==> (r matches Some(m) && m@ == "A mapping for this group ID already exists"@),
        constraint@ != "entra_group_mappings_group_id_key"@ ==> r is None,
{
    if str_eq(constraint, "entra_group_mappings_group_id_key") {
        Some("A mapping for this group ID already exists")
    } else {
        None
    }
}

/// A cloud-account grant of a mapping.
pub struct AccountAccessEntry {
    pub account_id: Id,
    pub role: String,
}

/// What one matching mapping grants: a role, maybe a tenant, and cloud-account grants (`None`
/// when its stored grants are not a list of grants).
pub struct GroupGrant {
    pub role: String,
    pub tenant_id: Option<Id>,
    pub access: Option<Vec<AccountAccessEntry>>,
}

/// What a user ends up with.
pub struct GroupAccess {
    pub role: String,
    pub tenant_id: Option<Id>,
    /// One role per account, each account once.
    pub accounts: Vec<(Id, String)>,
}

/// The strongest role among the grants: super admin over tenant admin over member.
pub open spec fn best_role(g: Seq<GroupGrant>) -> Seq<char>
    decreases g.len(),
{
    if g.len() == 0 {
        "member"@
    } else {
        let b = best_role(g.drop_last());
        if g.last().role@ == super_admin_role() {
            super_admin_role()
        } else if g.last().role@ == tenant_admin_role() && b != super_admin_role() {
            tenant_admin_role()
        } else {
            b
        }
    }
}

/// The first tenant among the grants.
pub open spec fn first_tenant(g: Seq<GroupGrant>) -> Option<Id>
    decreases g.len(),
{
    if g.len() == 0 {
        None
    } else {
        match first_tenant(g.drop_last()) {
            Some(t) => Some(t),
            None => g.last().tenant_id,
        }
    }
}

/// The account grants of all mappings, in order (mappings with unreadable grants give none).
pub open spec fn all_entries(g: Seq<GroupGrant>) -> Seq<(Id, Seq<char>)>
    decreases g.len(),
{
    if g.len() == 0 {
        Seq::empty()
    } else {
        all_entries(g.drop_last()) + match g.last().access {
            Some(v) => v@.map_values(|e: AccountAccessEntry| (e.account_id, e.role@)),
            None => Seq::empty(),
        }
    }
}

/// The role an account ends with: the first grant's, raised from "readonly" to "admin" by a
/// later admin grant.
pub open spec fn account_role(entries: Seq<(Id, Seq<char>)>, account: Id) -> Option<Seq<char>>
    decreases entries.len(),
{
    if entries.len() == 0 {
        None
    } else {
        let cur = account_role(entries.drop_last(), account);
        let e = entries.last();
        if e.0 != account {
            cur
        } else {
            match cur {
                None => Some(e.1),
                Some(c) => if c == "readonly"@ && e.1 == "admin"@ { Some(e.1) } else { Some(c) },
            }
        }
    }
}

pub open spec fn lookup(v: Seq<(Id, String)>, a: Id) -> Option<Seq<char>> {
    if exists|i: int| 0 <= i < v.len() && v[i].0 == a {
        let i = choose|i: int| 0 <= i < v.len() && v[i].0 == a;
        Some(v[i].1@)
    } else {
        None
    }
}

pub open spec fn keys_unique(v: Seq<(Id, String)>) -> bool {
    forall|i: int, j: int| 0 <= i < j < v.len() ==> v[i].0 != v[j].0
}

fn find_account(v: &Vec<(Id, String)>, a: Id) -> (r: Option<usize>)
    ensures
        match r {
            Some(i) => i < v@.len() && v@[i as int].0 == a,
            None => forall|i: int| 0 <= i < v@.len() ==> v@[i].0 != a,
        },
{
    let mut i: usize = 0;
    while i < v.len()
        invariant
            i <= v.len(),
            forall|j: int| 0 <= j < i ==> v@[j].0 != a,
        decreases v.len() - i,
    {
        if v[i].0 == a {
            return Some(i);
        }
        i = i + 1;
    }
    None
}

fn merge_entry(accounts: &mut Vec<(Id, String)>, e: &AccountAccessEntry, Ghost(seen): Ghost<Seq<(Id, Seq<char>)>>)
    requires
        keys_unique(old(accounts)@),
        forall|a: Id| #[trigger] lookup(old(accounts)@, a) == account_role(seen, a),
    ensures
        keys_unique(final(accounts)@),
        forall|a: Id| #[trigger] lookup(final(accounts)@, a) == account_role(seen.push((e.account_id, e.role@)), a),
{
    let ghost s2 = seen.push((e.account_id, e.role@));
    proof {
        assert(s2.drop_last() =~= seen);
    }
    match find_account(accounts, e.account_id) {
        Some(i) => {
            let upgrade = str_eq(accounts[i].1.as_str(), "readonly") && str_eq(e.role.as_str(), "admin");
            if upgrade {
                let ghost before = accounts@;
                accounts.set(i, (e.account_id, e.role.clone()));
                proof {
                    assert forall|a: Id| #[trigger] lookup(accounts@, a) == account_role(s2, a) by {
                        assert(lookup(before, a) == account_role(seen, a));
                        if a == e.account_id {
                            assert(accounts@[i as int].0 == a);
                        } else {
                            if exists|k: int| 0 <= k < before.len() && before[k].0 == a {
                                let k = choose|k: int| 0 <= k < before.len() && before[k].0 == a;
                                assert(accounts@[k].0 == a);
                            }
                        }
                    }
                }
            } else {
                proof {
                    assert forall|a: Id| #[trigger] lookup(accounts@, a) == account_role(s2, a) by {
                        assert(lookup(accounts@, a) == account_role(seen, a));
                        if a == e.account_id {
                            assert(accounts@[i as int].0 == a);
                        }
                    }
                }
            }
        },
        None => {
            let ghost before = accounts@;
            accounts.push((e.account_id, e.role.clone()));
            proof {
                assert forall|a: Id| #[trigger] lookup(accounts@, a) == account_role(s2, a) by {
                    assert(lookup(before, a) == account_role(seen, a));
                    if a == e.account_id {
                        assert(accounts@[before.len() as int].0 == a);
                    } else if exists|k: int| 0 <= k < before.len() && before[k].0 == a {
                        let k = choose|k: int| 0 <= k < before.len() && before[k].0 == a;
                        assert(accounts@[k].0 == a);
                    }
                }
            }
        },
    }
}

/// What the matching group mappings give a user: the strongest role, the first tenant named
/// (none for a super admin), and for each account the role of `account_role`.
pub fn apply_group_mappings(grants: &Vec<GroupGrant>) -> (r: GroupAccess)
    ensures
        r.role@ == best_role(grants@),
        r.tenant_id == (if best_role(grants@) == super_admin_role() { None } else { first_tenant(grants@) }),
        keys_unique(r.accounts@),
        forall|a: Id| #[trigger] lookup(r.accounts@, a) == account_role(all_entries(grants@), a),
{
    let mut role = owned("member");
    let mut tenant: Option<Id> = None;
    let mut accounts: Vec<(Id, String)> = Vec::new();
    let mut i: usize = 0;
    while i < grants.len()
        invariant
            i <= grants.len(),
            role@ == best_role(grants@.take(i as int)),
            tenant == first_tenant(grants@.take(i as int)),
            keys_unique(accounts@),
            forall|a: Id| #[trigger] lookup(accounts@, a) == account_role(all_entries(grants@.take(i as int)), a),
        decreases grants.len() - i,
    {
        let g = &grants[i];
        proof {
            assert(grants@.take(i + 1).drop_last() =~= grants@.take(i as int));
            reveal_strlit("super_admin");
            reveal_strlit("tenant_admin");
        }
        if role_is_super_admin(g.role.as_str()) {
            role = owned("super_admin");
        } else if role_is_tenant_admin(g.role.as_str()) && !role_is_super_admin(role.as_str()) {
            role = owned("tenant_admin");
        }
        if tenant.is_none() {
            tenant = g.tenant_id;
        }
        let ghost seen0 = all_entries(grants@.take(i as int));
        match &g.access {
            Some(entries) => {
                let mut k: usize = 0;
                while k < entries.len()
                    invariant
                        k <= entries.len(),
                        keys_unique(accounts@),
                        forall|a: Id| #[trigger] lookup(accounts@, a) == account_role(
                            seen0 + entries@.take(k as int).map_values(|e: AccountAccessEntry| (e.account_id, e.role@)),
                            a,
                        ),
                    decreases entries.len() - k,
                {
                    let ghost cur = seen0 + entries@.take(k as int).map_values(|e: AccountAccessEntry| (e.account_id, e.role@));
                    merge_entry(&mut accounts, &entries[k], Ghost(cur));
                    proof {
                        assert(seen0 + entries@.take(k + 1).map_values(|e: AccountAccessEntry| (e.account_id, e.role@))
                            =~= cur.push((entries@[k as int].account_id, entries@[k as int].role@)));
                    }
                    k = k + 1;
                }
                proof {
                    assert(entries@.take(entries@.len() as int) =~= entries@);
                    assert(all_entries(grants@.take(i + 1)) =~= seen0 + entries@.map_values(|e: AccountAccessEntry| (e.account_id, e.role@)));
                }
            },
            None => {
                proof {
                    assert(all_entries(grants@.take(i + 1)) =~= seen0);
                }
            },
        }
        i = i + 1;
    }
    proof {
        assert(grants@.take(grants@.len() as int) =~= grants@);
    }
    let t = if role_is_super_admin(role.as_str()) { None } else { tenant };
    GroupAccess { role, tenant_id: t, accounts }
}

// ─── Connections ───────────────────────────────────────────────────────────

pub open spec fn default_role_message() -> Seq<char> {
    "default_role must be 'super_admin', 'tenant_admin', or 'member'"@
}

/// Checks a new SSO connection: the caller is a super admin, its name, Entra tenant, client id
/// and secret are given, and its default role is built in ("member" when not given).  Gives
/// the default role to store.
pub fn check_new_connection(
    auth: &AuthUser,
    name: &str,
    entra_tenant_id: &str,
    client_id: &str,
    client_secret: &str,
    default_role: Option<&str>,
) -> (r: Result<String, AppError>)
    ensures
        ({
            let rl = match default_role {
                Some(x) => x@,
                None => "member"@,
            };
            match r {
                Ok(x) => auth.spec_is_super_admin() && trim(name@).len() > 0 && trim(entra_tenant_id@).len() > 0
                    && trim(client_id@).len() > 0 && trim(client_secret@).len() > 0 && is_builtin_role(rl) && x@ == rl,
                Err(e) => if !auth.spec_is_super_admin() {
                    is_super_admin_refusal(e, "create SSO connections"@)
                } else if trim(name@).len() == 0 {
                    e == AppError::BadRequest(e->BadRequest_0) && e->BadRequest_0@ == required_message("name"@)
                } else if trim(entra_tenant_id@).len() == 0 {
                    e == AppError::BadRequest(e->BadRequest_0) && e->BadRequest_0@ == required_message("entra_tenant_id"@)
                } else if trim(client_id@).len() == 0 {
                    e == AppError::BadRequest(e->BadRequest_0) && e->BadRequest_0@ == required_message("client_id"@)
                } else if trim(client_secret@).len() == 0 {
                    e == AppError::BadRequest(e->BadRequest_0) && e->BadRequest_0@ == required_message("client_secret"@)
                } else {
                    !is_builtin_role(rl) && e == AppError::BadRequest(e->BadRequest_0) && e->BadRequest_0@ == default_role_message()
                },
            }
        }),
{
    require_super_admin(auth, "create SSO connections")?;
    require_non_empty(name, "name")?;
    require_non_empty(entra_tenant_id, "entra_tenant_id")?;
    require_non_empty(client_id, "client_id")?;
    require_non_empty(client_secret, "client_secret")?;
    let rl = match default_role {
        Some(x) => owned(x),
        None => owned("member"),
    };
    if !role_is_builtin(rl.as_str()) {
        return Err(AppError::BadRequest(owned("default_role must be 'super_admin', 'tenant_admin', or 'member'")));
    }
    Ok(rl)
}

/// Checks a change of an SSO connection: the caller is a super admin and a new default role,
/// if any, is built in.
pub fn check_connection_update(auth: &AuthUser, default_role: Option<&str>) -> (r: Result<(), AppError>)
    ensures
        r is Ok <==> auth.spec_is_super_admin() && match default_role {
            Some(x) => is_builtin_role(x@),
            None => true,
        },
        r matches Err(e) ==> if !auth.spec_is_super_admin() {
            is_super_admin_refusal(e, "update SSO connections"@)
        } else {
            e == AppError::BadRequest(e->BadRequest_0) && e->BadRequest_0@ == default_role_message()
        },
{
    require_super_admin(auth, "update SSO connections")?;
    match default_role {
        Some(x) => {
            if !role_is_builtin(x) {
                return Err(AppError::BadRequest(owned("default_role must be 'super_admin', 'tenant_admin', or 'member'")));
            }
        },
        None => {},
    }
    Ok(())
}

/// The message of a refused duplicate connection, by the database constraint that refused it.
pub fn connection_conflict_message(constraint: &str) -> (r: Option<&'static str>)
    ensures
        constraint@ == "entra_id_connections_entra_tenant_id_key"@ ==> (r matches Some(m) && m@ == "A connection for this Entra ID tenant already exists"@),
        constraint@ != "entra_id_connections_entra_tenant_id_key"@ ==> r is None,
{
    if str_eq(constraint, "entra_id_connections_entra_tenant_id_key") {
        Some("A connection for this Entra ID tenant already exists")
    } else {
        None
    }
}

/// The domain an email's SSO connection is found by: what follows its last '@', in lower case.
pub open spec fn email_domain_of(email: Seq<char>) -> Option<Seq<char>> {
    if email.contains('@') {
        let i = choose|i: int| 0 <= i < email.len() && email[i] == '@' && forall|j: int| i < j < email.len() ==> email[j] != '@';
        Some(lowercase(email.skip(i + 1)))
    } else {
        None
    }
}

/// The domain of `email` (see `email_domain_of`); an email without '@' is refused.
pub fn email_domain(email: &str) -> (r: Result<String, AppError>)
    ensures
        match r {
            Ok(d) => email_domain_of(email@) == Some(d@),
            Err(e) => email_domain_of(email@) is None && e == AppError::BadRequest(e->BadRequest_0) && e->BadRequest_0@ == "Invalid email"@,
        },
{
    let v = chars_of(email);
    let mut i: usize = v.len();
    while i > 0
        invariant
            i <= v.len(),
            v@ == email@,
            forall|j: int| i <= j < v.len() ==> v@[j] != '@',
        decreases i,
    {
        if v[i - 1] == '@' {
            let d = string_from_chars(slice_from(v.as_slice(), i).as_slice());
            proof {
                let k = (i - 1) as int;
                assert(email@[k] == '@');
                assert(email@.contains('@'));
                let c = choose|c: int| 0 <= c < email@.len() && email@[c] == '@' && forall|j: int| c < j < email@.len() ==> email@[j] != '@';
                if c < k {
                    assert(email@[k] != '@');
                } else if c > k {
                    assert(v@[c] != '@');
                }
            }
            return Ok(to_lowercase(d.as_str()));
        }
        i = i - 1;
    }
    Err(AppError::BadRequest(owned("Invalid email")))
}

/// The OAuth settings of a connection.
pub struct OauthConfig {
    pub client_id: String,
    pub client_secret: String,
    pub tenant_id: String,
    pub redirect_uris: Vec<String>,
}

/// An SSO connection's credentials.
pub struct EntraIdConnection {
    pub id: Id,
    pub name: String,
    pub entra_tenant_id: String,
    pub client_id: String,
    pub client_secret: String,
    pub tenant_id: Id,
    pub auto_provision: bool,
    pub default_role: String,
    pub enabled: bool,
    pub allowed_domains: Vec<String>,
}

impl EntraIdConnection {
    /// The OAuth settings that sign in through this connection.
    pub fn to_oauth_config(&self) -> (r: OauthConfig)
        ensures
            r.client_id@ == self.client_id@,
            r.client_secret@ == self.client_secret@,
            r.tenant_id@ == self.entra_tenant_id@,
            r.redirect_uris@.len() == 0,
    {
        OauthConfig {
            client_id: self.client_id.clone(),
            client_secret: self.client_secret.clone(),
            tenant_id: self.entra_tenant_id.clone(),
            redirect_uris: Vec::new(),
        }
    }
}


/// A user ends up with a built-in role, and is a super admin as soon as one matching mapping
/// grants super admin, whatever the other mappings grant.
pub proof fn law_super_admin_grant_wins(g: Seq<GroupGrant>)
    ensures
        is_builtin_role(best_role(g)),
        (exists|i: int| 0 <= i < g.len() && g[i].role@ == super_admin_role()) ==> best_role(g) == super_admin_role(),
    decreases g.len(),
{
    if g.len() > 0 {
        law_super_admin_grant_wins(g.drop_last());
        if exists|i: int| 0 <= i < g.len() && g[i].role@ == super_admin_role() {
            let i = choose|i: int| 0 <= i < g.len() && g[i].role@ == super_admin_role();
            if i < g.len() - 1 {
                assert(g.drop_last()[i] == g[i]);
            }
        }
    }
}

} // verus!
