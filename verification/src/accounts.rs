//! User accounts: signing in with a password or an identity provider (finding,
//! linking or creating the account), and the rules of creating, changing,
//! deleting and inviting users.
use vstd::prelude::*;
use crate::auth::{
    check_role_and_tenant, is_builtin_role, is_super_admin_refusal, password_problem, require_super_admin,
    role_is_builtin, role_must_be_error, role_must_be_message, super_admin_role, validate_password_strength, AppError,
    AuthUser, Id,
};
use crate::pattern::{lowercase, to_lowercase};
use crate::json::{json_set_string_field, json_str_at, json_with_string_field};
use crate::text::{cat, cat3, opt_string_view, owned, str_eq, str_trim, trim};

verus! {

/// A stored user account.
pub struct UserRecord {
    pub id: Id,
    pub username: String,
    pub role: String,
    pub tenant_id: Option<Id>,
    pub email: Option<String>,
    /// How the user signs in: "local", "invited", a provider, or providers joined by ','.
    pub auth_method: String,
    pub microsoft_id: Option<String>,
    pub cognito_sub: Option<String>,
    pub password_hash: Option<String>,
    pub is_active: bool,
    pub must_change_password: bool,
    /// The token of a pending invitation, and when it expires (seconds).
    pub invite_token: Option<Id>,
    pub invite_expires_at: Option<i64>,
}

impl UserRecord {
    pub fn copy(&self) -> (r: UserRecord)
        ensures
            r == *self,
    {
        UserRecord {
            id: self.id,
            username: self.username.clone(),
            role: self.role.clone(),
            tenant_id: self.tenant_id,
            email: match &self.email {
                Some(e) => Some(e.clone()),
                None => None,
            },
            auth_method: self.auth_method.clone(),
            microsoft_id: match &self.microsoft_id {
                Some(e) => Some(e.clone()),
                None => None,
            },
            cognito_sub: match &self.cognito_sub {
                Some(e) => Some(e.clone()),
                None => None,
            },
            password_hash: match &self.password_hash {
                Some(e) => Some(e.clone()),
                None => None,
            },
            is_active: self.is_active,
            must_change_password: self.must_change_password,
            invite_token: self.invite_token,
            invite_expires_at: self.invite_expires_at,
        }
    }
}

/// The identity providers users sign in with.
#[derive(Debug, Clone, Copy, PartialEq, Eq, Structural)]
pub enum Provider {
    Microsoft,
    Cognito,
}

/// The provider named `name` ("microsoft" or "cognito").
pub fn provider_named(name: &str) -> (r: Result<Provider, AppError>)
    ensures
        name@ == "microsoft"@ ==> r == Ok::<Provider, AppError>(Provider::Microsoft),
        name@ == "cognito"@ ==> r == Ok::<Provider, AppError>(Provider::Cognito),
        name@ != "microsoft"@ && name@ != "cognito"@ ==> (r matches Err(e) && e == AppError::OAuth(e->OAuth_0)
            && e->OAuth_0@ == "Unknown provider: "@ + name@),
{
    proof {
        reveal_strlit("microsoft");
        reveal_strlit("cognito");
        assert("microsoft"@.len() != "cognito"@.len());
    }
    if str_eq(name, "microsoft") {
        Ok(Provider::Microsoft)
    } else if str_eq(name, "cognito") {
        Ok(Provider::Cognito)
    } else {
        Err(AppError::OAuth(cat("Unknown provider: ", name)))
    }
}

pub open spec fn provider_text(p: Provider) -> Seq<char> {
    match p {
        Provider::Microsoft => "microsoft"@,
        Provider::Cognito => "cognito"@,
    }
}

/// The user's id with provider `p`.
pub open spec fn provider_id_of(u: UserRecord, p: Provider) -> Option<String> {
    match p {
        Provider::Microsoft => u.microsoft_id,
        Provider::Cognito => u.cognito_sub,
    }
}

pub open spec fn has_provider_id(u: UserRecord, p: Provider, pid: Seq<char>) -> bool {
    provider_id_of(u, p) matches Some(x) && x@ == pid
}

pub open spec fn has_email(u: UserRecord, email: Seq<char>) -> bool {
    u.email matches Some(e) && e@ == email
}

/// The sign-in methods after linking provider `p`: the provider for a local account, else the
/// provider added after a ','.
pub open spec fn linked_method(current: Seq<char>, p: Provider) -> Seq<char> {
    if current == "local"@ {
        provider_text(p)
    } else {
        current + ","@ + provider_text(p)
    }
}

/// The first position in `users` that satisfies `f`, if any.
pub open spec fn first_where(users: Seq<UserRecord>, f: spec_fn(UserRecord) -> bool) -> Option<int> {
    if exists|i: int| 0 <= i < users.len() && f(users[i]) {
        Some(choose|i: int| 0 <= i < users.len() && f(users[i]) && forall|j: int| 0 <= j < i ==> !f(users[j]))
    } else {
        None
    }
}

/// All users; ids and usernames are unique.
pub struct UserDirectory {
    pub users: Vec<UserRecord>,
}

impl UserDirectory {
    pub open spec fn wf(&self) -> bool {
        &&& forall|i: int, j: int| 0 <= i < j < self.users@.len() ==> self.users@[i].id != self.users@[j].id
        &&& forall|i: int, j: int| 0 <= i < j < self.users@.len() ==> self.users@[i].username@ != self.users@[j].username@
    }

    pub open spec fn has_id(&self, id: Id) -> bool {
        exists|i: int| 0 <= i < self.users@.len() && self.users@[i].id == id
    }

    pub open spec fn has_username(&self, name: Seq<char>) -> bool {
        exists|i: int| 0 <= i < self.users@.len() && self.users@[i].username@ == name
    }

    fn position(&self, f_provider: Option<(Provider, &str)>, email: Option<&str>) -> (r: Option<usize>)
        ensures
            match r {
                Some(i) => i < self.users@.len() && match f_provider {
                    Some((p, pid)) => has_provider_id(self.users@[i as int], p, pid@) && forall|j: int|
                        0 <= j < i ==> !has_provider_id(self.users@[j], p, pid@),
                    None => match email {
                        Some(e) => has_email(self.users@[i as int], e@) && forall|j: int|
                            0 <= j < i ==> !has_email(self.users@[j], e@),
                        None => false,
                    },
                },
                None => match f_provider {
                    Some((p, pid)) => forall|j: int| 0 <= j < self.users@.len() ==> !has_provider_id(self.users@[j], p, pid@),
                    None => match email {
                        Some(e) => forall|j: int| 0 <= j < self.users@.len() ==> !has_email(self.users@[j], e@),
                        None => true,
                    },
                },
            },
    {
        let mut i: usize = 0;
        while i < self.users.len()
            invariant
                i <= self.users.len(),
                match f_provider {
                    Some((p, pid)) => forall|j: int| 0 <= j < i ==> !has_provider_id(self.users@[j], p, pid@),
                    None => match email {
                        Some(e) => forall|j: int| 0 <= j < i ==> !has_email(self.users@[j], e@),
                        None => true,
                    },
                },
            decreases self.users.len() - i,
        {
            let u = &self.users[i];
            let hit = match f_provider {
                Some((p, pid)) => {
                    let id = match p {
                        Provider::Microsoft => &u.microsoft_id,
                        Provider::Cognito => &u.cognito_sub,
                    };
                    match id {
                        Some(x) => str_eq(x.as_str(), pid),
                        None => false,
                    }
                },
                None => match email {
                    Some(e) => match &u.email {
                        Some(x) => str_eq(x.as_str(), e),
                        None => false,
                    },
                    None => false,
                },
            };
            if hit {
                return Some(i);
            }
            i = i + 1;
        }
        None
    }

    fn username_taken(&self, name: &str) -> (b: bool)
        ensures
            b == self.has_username(name@),
    {
        let mut i: usize = 0;
        while i < self.users.len()
            invariant
                i <= self.users.len(),
                forall|j: int| 0 <= j < i ==> self.users@[j].username@ != name@,
            decreases self.users.len() - i,
        {
            if str_eq(self.users[i].username.as_str(), name) {
                return true;
            }
            i = i + 1;
        }
        false
    }

    fn link_provider(&mut self, i: usize, p: Provider, pid: &str)
        requires
            old(self).wf(),
            i < old(self).users@.len(),
        ensures
            final(self).wf(),
            final(self).users@.len() == old(self).users@.len(),
            forall|j: int| 0 <= j < final(self).users@.len() && j != i ==> final(self).users@[j] == old(self).users@[j],
            ({
                let o = old(self).users@[i as int];
                let n = final(self).users@[i as int];
                &&& n.id == o.id && n.username == o.username && n.role == o.role && n.tenant_id == o.tenant_id
                &&& n.email == o.email && n.password_hash == o.password_hash && n.is_active == o.is_active
                &&& n.must_change_password == o.must_change_password
                &&& n.invite_token == o.invite_token && n.invite_expires_at == o.invite_expires_at
                &&& n.auth_method@ == linked_method(o.auth_method@, p)
                &&& has_provider_id(n, p, pid@)
                &&& match p {
                    Provider::Microsoft => n.cognito_sub == o.cognito_sub,
                    Provider::Cognito => n.microsoft_id == o.microsoft_id,
                }
            }),
    {
        let mut u = self.users[i].copy();
        let method = if str_eq(u.auth_method.as_str(), "local") {
            match p {
                Provider::Microsoft => owned("microsoft"),
                Provider::Cognito => owned("cognito"),
            }
        } else {
            let name = match p {
                Provider::Microsoft => "microsoft",
                Provider::Cognito => "cognito",
            };
            cat3(u.auth_method.as_str(), ",", name)
        };
        u.auth_method = method;
        match p {
            Provider::Microsoft => {
                u.microsoft_id = Some(owned(pid));
            },
            Provider::Cognito => {
                u.cognito_sub = Some(owned(pid));
            },
        }
        let ghost before = self.users@;
        self.users.set(i, u);
        proof {
            assert forall|a: int, b: int| 0 <= a < b < self.users@.len() implies self.users@[a].id != self.users@[b].id
                && self.users@[a].username@ != self.users@[b].username@ by {
                assert(before[a].id != before[b].id);
                assert(before[a].username@ != before[b].username@);
            }
        }
    }

    /// Signs in a user of provider `provider` whose provider id is `provider_id`: the account
    /// with that id; else the account with the user's email, which gets the provider linked;
    /// else a new account named by the email (or the display name) with id `new_id`, the first
    /// account of all being a super admin.  An unknown provider is refused.
    pub fn find_or_create_oauth_user(
        &mut self,
        provider: &str,
        provider_id: &str,
        email: Option<&str>,
        display_name: &str,
        new_id: Id,
    ) -> (r: Result<UserRecord, AppError>)
        requires
            old(self).wf(),
            !old(self).has_id(new_id),
        ensures
            final(self).wf(),
            match r {
                Ok(u) => provider@ == "microsoft"@ || provider@ == "cognito"@,
                Err(e) => true,
            },
            provider@ != "microsoft"@ && provider@ != "cognito"@ ==> (r matches Err(e) && e == AppError::OAuth(e->OAuth_0)
                && e->OAuth_0@ == "Unknown provider: "@ + provider@ && final(self).users@ == old(self).users@),
            r matches Ok(u) ==> ({
                let p = if provider@ == "microsoft"@ { Provider::Microsoft } else { Provider::Cognito };
                let by_id = first_where(old(self).users@, |x: UserRecord| has_provider_id(x, p, provider_id@));
                let by_email = match email {
                    Some(e) => first_where(old(self).users@, |x: UserRecord| has_email(x, e@)),
                    None => None,
                };
                &&& match by_id {
                    Some(i) => u == old(self).users@[i] && final(self).users@ == old(self).users@,
                    None => match by_email {
                        Some(i) => final(self).users@ == old(self).users@.update(i, u) && u.id == old(self).users@[i].id
                            && u.auth_method@ == linked_method(old(self).users@[i].auth_method@, p),
                        None => !old(self).has_username(match email { Some(e) => e@, None => display_name@ })
                            && final(self).users@ == old(self).users@.push(u) && u.id == new_id
                            && u.username@ == (match email { Some(e) => e@, None => display_name@ })
                            && u.role@ == (if old(self).users@.len() == 0 { "super_admin"@ } else { "member"@ })
                            && crate::text::opt_string_view(u.email) == (match email { Some(e) => Some(e@), None => None })
                            && u.auth_method@ == provider@,
                    },
                }
                &&& has_provider_id(u, p, provider_id@)
                &&& first_where(final(self).users@, |x: UserRecord| has_provider_id(x, p, provider_id@)) matches Some(k)
                    && final(self).users@[k] == u
            }),
            r matches Err(e) ==> e is OAuth || (e is Database && final(self).users@ == old(self).users@),
            (provider@ == "microsoft"@ || provider@ == "cognito"@) ==> ({
                let p = if provider@ == "microsoft"@ { Provider::Microsoft } else { Provider::Cognito };
                let by_id = first_where(old(self).users@, |x: UserRecord| has_provider_id(x, p, provider_id@));
                let by_email = match email {
                    Some(e) => first_where(old(self).users@, |x: UserRecord| has_email(x, e@)),
                    None => None,
                };
                r is Err <==> by_id is None && by_email is None && old(self).has_username(
                    match email { Some(e) => e@, None => display_name@ },
                )
            }),
    {
        let p = provider_named(provider)?;
        match self.position(Some((p, provider_id)), None) {
            Some(i) => {
                proof {
                    assert(has_provider_id(self.users@[i as int], p, provider_id@));
                }
                return Ok(self.users[i].copy());
            },
            None => {},
        }
        match email {
            Some(e) => match self.position(None, Some(e)) {
                Some(i) => {
                    self.link_provider(i, p, provider_id);
                    proof {
                        assert(has_provider_id(self.users@[i as int], p, provider_id@));
                    }
                    return Ok(self.users[i].copy());
                },
                None => {},
            },
            None => {},
        }
        let username = match email {
            Some(e) => e,
            None => display_name,
        };
        if self.username_taken(username) {
            return Err(AppError::Database(owned("users_username_key")));
        }
        let role = if self.users.len() == 0 {
            owned("super_admin")
        } else {
            owned("member")
        };
        let u = UserRecord {
            id: new_id,
            username: owned(username),
            role,
            tenant_id: None,
            email: match email {
                Some(e) => Some(owned(e)),
                None => None,
            },
            auth_method: owned(provider),
            microsoft_id: match p {
                Provider::Microsoft => Some(owned(provider_id)),
                Provider::Cognito => None,
            },
            cognito_sub: match p {
                Provider::Cognito => Some(owned(provider_id)),
                Provider::Microsoft => None,
            },
            password_hash: None,
            is_active: true,
            must_change_password: false,
            invite_token: None,
            invite_expires_at: None,
        };
        let r = u.copy();
        self.users.push(u);
        proof {
            assert(has_provider_id(self.users@[self.users@.len() - 1], p, provider_id@));
        }
        Ok(r)
    }
}

impl UserDirectory {
    /// Signs in a user through an SSO connection: the account with the Microsoft id; else the
    /// account with the email, which gets the id linked; else, when the connection provisions
    /// users, a new account with the connection's default role and tenant; else refused.
    pub fn find_or_create_connection_user(
        &mut self,
        auto_provision: bool,
        default_role: &str,
        connection_tenant: Id,
        provider_id: &str,
        email: Option<&str>,
        display_name: &str,
        new_id: Id,
    ) -> (r: Result<UserRecord, AppError>)
        requires
            old(self).wf(),
            !old(self).has_id(new_id),
        ensures
            final(self).wf(),
            ({
                let p = Provider::Microsoft;
                let by_id = first_where(old(self).users@, |x: UserRecord| has_provider_id(x, p, provider_id@));
                let by_email = match email {
                    Some(e) => first_where(old(self).users@, |x: UserRecord| has_email(x, e@)),
                    None => None,
                };
                match by_id {
                    Some(i) => r == Ok::<UserRecord, AppError>(old(self).users@[i]) && final(self).users@ == old(self).users@,
                    None => match by_email {
                        Some(i) => r matches Ok(u) && final(self).users@ == old(self).users@.update(i, u)
                            && u.id == old(self).users@[i].id && has_provider_id(u, p, provider_id@)
                            && u.auth_method@ == linked_method(old(self).users@[i].auth_method@, p),
                        None => if !auto_provision {
                            r matches Err(e) && e.is_forbidden()
                                && e.spec_message() == "User not found and auto-provisioning is disabled for this connection"@
                                && final(self).users@ == old(self).users@
                        } else {
                            (match r {
                                Ok(u) => final(self).users@ == old(self).users@.push(u) && u.id == new_id
                                    && u.username@ == (match email { Some(e) => e@, None => display_name@ })
                                    && u.role@ == default_role@ && u.tenant_id == Some(connection_tenant)
                                    && u.auth_method@ == "microsoft"@ && has_provider_id(u, p, provider_id@),
                                Err(e) => e is Database && final(self).users@ == old(self).users@
                                    && old(self).has_username(match email { Some(e) => e@, None => display_name@ }),
                            }) && (r is Err <==> old(self).has_username(match email { Some(e) => e@, None => display_name@ }))
                        },
                    },
                }
            }),
    {
        let p = Provider::Microsoft;
        match self.position(Some((p, provider_id)), None) {
            Some(i) => {
                return Ok(self.users[i].copy());
            },
            None => {},
        }
        match email {
            Some(e) => match self.position(None, Some(e)) {
                Some(i) => {
                    self.link_provider(i, p, provider_id);
                    return Ok(self.users[i].copy());
                },
                None => {},
            },
            None => {},
        }
        if !auto_provision {
            return Err(AppError::Forbidden(owned("User not found and auto-provisioning is disabled for this connection")));
        }
        let username = match email {
            Some(e) => e,
            None => display_name,
        };
        if self.username_taken(username) {
            return Err(AppError::Database(owned("users_username_key")));
        }
        let u = UserRecord {
            id: new_id,
            username: owned(username),
            role: owned(default_role),
            tenant_id: Some(connection_tenant),
            email: match email {
                Some(e) => Some(owned(e)),
                None => None,
            },
            auth_method: owned("microsoft"),
            microsoft_id: Some(owned(provider_id)),
            cognito_sub: None,
            password_hash: None,
            is_active: true,
            must_change_password: false,
            invite_token: None,
            invite_expires_at: None,
        };
        let r = u.copy();
        self.users.push(u);
        Ok(r)
    }
}

// ─── Managing users ────────────────────────────────────────────────────────

/// Checks a new user: the caller is a super admin; a username (not blank, at most 128 bytes)
/// and a password of at least 8 bytes are given; an email has at most 255 bytes; the role is
/// built in and names a tenant unless it is super admin.
pub fn check_new_user(
    auth: &AuthUser,
    username: &str,
    password: &str,
    email: Option<&str>,
    role: &str,
    tenant_id: Option<Id>,
) -> (r: Result<(), AppError>)
    ensures
        r is Ok <==> auth.spec_is_super_admin() && trim(username@).len() > 0 && password.len() >= 8 && username.len() <= 128
            && (match email { Some(e) => e.len() <= 255, None => true }) && is_builtin_role(role@)
            && (role@ == super_admin_role() || tenant_id is Some),
        r matches Err(e) ==> if !auth.spec_is_super_admin() {
            is_super_admin_refusal(e, "create users"@)
        } else if trim(username@).len() == 0 || password.len() < 8 {
            e.is_bad_request() && e.spec_message() == "Username required, password must be at least 8 characters"@
        } else if username.len() > 128 {
            e.is_bad_request() && e.spec_message() == "Username must be at most 128 characters"@
        } else if (match email { Some(x) => x.len() > 255, None => false }) {
            e.is_bad_request() && e.spec_message() == "Email must be at most 255 characters"@
        } else {
            e.is_bad_request()
        },
{
    require_super_admin(auth, "create users")?;
    if str_trim(username).as_str().is_empty() || password.len() < 8 {
        return Err(AppError::BadRequest(owned("Username required, password must be at least 8 characters")));
    }
    if username.len() > 128 {
        return Err(AppError::BadRequest(owned("Username must be at most 128 characters")));
    }
    match email {
        Some(e) => {
            if e.len() > 255 {
                return Err(AppError::BadRequest(owned("Email must be at most 255 characters")));
            }
        },
        None => {},
    }
    check_role_and_tenant(role, tenant_id)
}

/// Checks a change of a user: the caller is a super admin, a new role is built in, and a new
/// password has at least 8 bytes.
pub fn check_user_update(auth: &AuthUser, role: Option<&str>, password: Option<&str>) -> (r: Result<(), AppError>)
    ensures
        r is Ok <==> auth.spec_is_super_admin() && (match role { Some(x) => is_builtin_role(x@), None => true })
            && (match password { Some(p) => p.len() >= 8, None => true }),
        r matches Err(e) ==> if !auth.spec_is_super_admin() {
            is_super_admin_refusal(e, "update users"@)
        } else if (match role { Some(x) => !is_builtin_role(x@), None => false }) {
            e.is_bad_request() && e.spec_message() == role_must_be_message()
        } else {
            e.is_bad_request() && e.spec_message() == "Password must be at least 8 characters"@
        },
{
    require_super_admin(auth, "update users")?;
    match role {
        Some(x) => {
            if !role_is_builtin(x) {
                return Err(role_must_be_error());
            }
        },
        None => {},
    }
    match password {
        Some(p) => {
            if p.len() < 8 {
                return Err(AppError::BadRequest(owned("Password must be at least 8 characters")));
            }
        },
        None => {},
    }
    Ok(())
}

/// Checks a deletion: the caller is a super admin and not the user deleted.
pub fn check_user_delete(auth: &AuthUser, id: Id) -> (r: Result<(), AppError>)
    ensures
        r is Ok <==> auth.spec_is_super_admin() && auth.user_id != id,
        r matches Err(e) ==> if !auth.spec_is_super_admin() {
            is_super_admin_refusal(e, "delete users"@)
        } else {
            e.is_bad_request() && e.spec_message() == "Cannot delete yourself"@
        },
{
    require_super_admin(auth, "delete users")?;
    if auth.user_id == id {
        return Err(AppError::BadRequest(owned("Cannot delete yourself")));
    }
    Ok(())
}

/// The message of a refused new user, by the database constraint that refused it.
pub fn user_conflict_message(constraint: &str, invited: bool) -> (r: Option<&'static str>)
    ensures
        constraint@ == "users_username_key"@ ==> (r matches Some(m) && m@ == (if invited {
            "A user with this email already exists"@
        } else {
            "Username already exists"@
        })),
        constraint@ != "users_username_key"@ ==> r is None,
{
    if str_eq(constraint, "users_username_key") {
        if invited {
            Some("A user with this email already exists")
        } else {
            Some("Username already exists")
        }
    } else {
        None
    }
}

// ─── Invitations ───────────────────────────────────────────────────────────

/// The password an invited user chooses.
pub struct RedeemInviteRequest {
    pub password: String,
}

/// Checks an invitation: the caller is a super admin, the email (trimmed, lower case) is not
/// empty and has an '@', the role ("member" by default) is built in and names a tenant unless
/// it is super admin.  Gives the email and the role.
pub fn check_invite(auth: &AuthUser, email: &str, role: Option<&str>, tenant_id: Option<Id>) -> (r: Result<(String, String), AppError>)
    ensures
        ({
            let em = lowercase(trim(email@));
            let rl = match role { Some(x) => x@, None => "member"@ };
            match r {
                Ok((e2, r2)) => auth.spec_is_super_admin() && e2@ == em && em.len() > 0 && em.contains('@') && r2@ == rl
                    && is_builtin_role(rl) && (rl == super_admin_role() || tenant_id is Some),
                Err(e) => if !auth.spec_is_super_admin() {
                    is_super_admin_refusal(e, "invite users"@)
                } else if em.len() == 0 || !em.contains('@') {
                    e.is_bad_request() && e.spec_message() == "Valid email is required"@
                } else {
                    e.is_bad_request() && !(is_builtin_role(rl) && (rl == super_admin_role() || tenant_id is Some))
                },
            }
        }),
{
    require_super_admin(auth, "invite users")?;
    let t = str_trim(email);
    let em = to_lowercase(t.as_str());
    let v = crate::text::chars_of(em.as_str());
    if em.as_str().is_empty() || !crate::text::has_char(v.as_slice(), '@') {
        return Err(AppError::BadRequest(owned("Valid email is required")));
    }
    let rl = match role {
        Some(x) => owned(x),
        None => owned("member"),
    };
    check_role_and_tenant(rl.as_str(), tenant_id)?;
    Ok((em, rl))
}

/// The link an invited user opens: the first allowed origin (or the local frontend) with the
/// invitation token.
pub fn invite_link(allowed_origins: &Vec<String>, token: &str) -> (r: String)
    ensures
        r@ == (if allowed_origins@.len() > 0 { allowed_origins@[0]@ } else { "http://localhost:3000"@ })
            + "/auth/invite?token="@ + token@,
{
    let base = if allowed_origins.len() > 0 {
        allowed_origins[0].clone()
    } else {
        owned("http://localhost:3000")
    };
    cat3(base.as_str(), "/auth/invite?token=", token)
}

/// The answer to an invitation: the new user's details (`user_info`, a JSON object) with the
/// invitation link and the temporary password added, for the admin to share.
pub open spec fn invite_reply(user_info: Seq<char>, link: Seq<char>, temp_password: Seq<char>) -> Option<Seq<char>> {
    match json_with_string_field(user_info, "invite_link"@, link) {
        Some(d) => json_with_string_field(d, "temp_password"@, temp_password),
        None => None,
    }
}

/// The answer to an invitation, `None` when `user_info` is not a JSON object.  It carries the
/// invitation link under "invite_link" and the temporary password under "temp_password".
pub fn invite_response(user_info: &str, link: &str, temp_password: &str) -> (r: Option<String>)
    ensures
        opt_string_view(r) == invite_reply(user_info@, link@, temp_password@),
        r matches Some(t) ==> json_str_at(t@, "invite_link"@) == Some(link@),
        r matches Some(t) ==> json_str_at(t@, "temp_password"@) == Some(temp_password@),
{
    match json_set_string_field(user_info, "invite_link", link) {
        Some(d) => {
            let r = json_set_string_field(d.as_str(), "temp_password", temp_password);
            proof {
                reveal_strlit("invite_link");
                reveal_strlit("temp_password");
                assert("invite_link"@.len() != "temp_password"@.len());
            }
            r
        },
        None => None,
    }
}

/// Checks that an invitation can be sent again: the caller is a super admin, the user is still
/// invited, and has an email (which is given back).
pub fn check_resend(auth: &AuthUser, user: &UserRecord) -> (r: Result<String, AppError>)
    ensures
        match r {
            Ok(e) => auth.spec_is_super_admin() && user.auth_method@ == "invited"@ && (user.email matches Some(x) && x@ == e@),
            Err(e) => if !auth.spec_is_super_admin() {
                is_super_admin_refusal(e, "resend invites"@)
            } else if user.auth_method@ != "invited"@ {
                e.is_bad_request() && e.spec_message() == "User is not in invited state"@
            } else {
                user.email is None && e == AppError::Internal(e->Internal_0) && e->Internal_0@ == "Invited user has no email"@
            },
        },
{
    require_super_admin(auth, "resend invites")?;
    if !str_eq(user.auth_method.as_str(), "invited") {
        return Err(AppError::BadRequest(owned("User is not in invited state")));
    }
    match &user.email {
        Some(e) => Ok(e.clone()),
        None => Err(AppError::Internal(owned("Invited user has no email"))),
    }
}

/// Checks an invitation token's user: it exists and its token has not expired (`now` and the
/// expiry in seconds).
pub fn check_invite_token(found: bool, expires_at: Option<i64>, now: i64) -> (r: Result<(), AppError>)
    ensures
        r is Ok <==> found && match expires_at { Some(t) => !(t < now), None => true },
        r matches Err(e) ==> if !found {
            e.is_not_found() && e.spec_message() == "Invalid or expired invite token"@
        } else {
            e.is_bad_request() && e.spec_message() == "Invite token has expired"@
        },
{
    if !found {
        return Err(AppError::NotFound(owned("Invalid or expired invite token")));
    }
    match expires_at {
        Some(t) => {
            if t < now {
                return Err(AppError::BadRequest(owned("Invite token has expired")));
            }
        },
        None => {},
    }
    Ok(())
}

// ─── Passwords ─────────────────────────────────────────────────────────────

/// Whether bcrypt finds `password` to match the stored `hash` (`None` when `hash` is not a
/// bcrypt hash).
pub uninterp spec fn bcrypt_verdict(password: Seq<char>, hash: Seq<char>) -> Option<bool>;

/// Trusted: `bcrypt::verify`, which recomputes the hash with the stored cost and salt.
#[verifier::external_body]
fn bcrypt_verify(password: &str, hash: &str) -> (r: Option<bool>)
    ensures
        r == bcrypt_verdict(password@, hash@),
{
    bcrypt::verify(password, hash).ok()
}

/// Trusted: `bcrypt::hash` with cost 10 and a random salt.  What it gives, `bcrypt::verify`
/// accepts for the same password (the salt and cost are stored in the hash; the source's tests
/// check the round trip).  Its error is written as text.
#[verifier::external_body]
fn bcrypt_hash(password: &str) -> (r: Result<String, String>)
    ensures
        r matches Ok(h) ==> bcrypt_verdict(password@, h@) == Some(true),
{
    bcrypt::hash(password, 10).map_err(|e| e.to_string())
}

/// The hash stored for a password.
pub fn hash_password(password: &str) -> (r: Result<String, AppError>)
    ensures
        match r {
            Ok(h) => bcrypt_verdict(password@, h@) == Some(true),
            Err(e) => e is Internal,
        },
{
    match bcrypt_hash(password) {
        Ok(h) => Ok(h),
        Err(e) => Err(AppError::Internal(cat("Bcrypt error: ", e.as_str()))),
    }
}

/// Whether `password` opens an account with stored hash `hash`.
pub open spec fn opens(password: Seq<char>, hash: Option<String>) -> bool {
    hash matches Some(h) && bcrypt_verdict(password, h@) == Some(true)
}

pub const UPPER_CHARS: &'static str = "ABCDEFGHJKLMNPQRSTUVWXYZ";
pub const LOWER_CHARS: &'static str = "abcdefghjkmnpqrstuvwxyz";
pub const DIGIT_CHARS: &'static str = "23456789";
pub const SYMBOL_CHARS: &'static str = "!@#$%^&*";

/// Trusted: `rand::Rng::random_range(0..n)` on the thread's generator.
#[verifier::external_body]
fn random_below(n: usize) -> (r: usize)
    requires
        n > 0,
    ensures
        r < n,
{
    rand::Rng::random_range(&mut rand::rng(), 0..n)
}

/// Trusted: `rand::seq::SliceRandom::shuffle` on the thread's generator, which permutes the
/// characters.
#[verifier::external_body]
fn shuffled(v: Vec<char>) -> (r: Vec<char>)
    ensures
        r@.to_multiset() == v@.to_multiset(),
{
    let mut v = v;
    rand::seq::SliceRandom::shuffle(v.as_mut_slice(), &mut rand::rng());
    v
}

fn pick(from: &Vec<char>) -> (c: char)
    requires
        from@.len() > 0,
    ensures
        from@.contains(c),
{
    let i = random_below(from.len());
    let c = from[i];
    proof {
        assert(from@[i as int] == c);
    }
    c
}

/// A random temporary password of 16 characters, with at least one upper-case letter, one
/// lower-case letter, one digit and one symbol (look-alike characters left out).
pub fn generate_temp_password() -> (r: String)
    ensures
        r@.len() == 16,
        exists|i: int| 0 <= i < 16 && UPPER_CHARS@.contains(#[trigger] r@[i]),
        exists|i: int| 0 <= i < 16 && LOWER_CHARS@.contains(#[trigger] r@[i]),
        exists|i: int| 0 <= i < 16 && DIGIT_CHARS@.contains(#[trigger] r@[i]),
        exists|i: int| 0 <= i < 16 && SYMBOL_CHARS@.contains(#[trigger] r@[i]),
        forall|i: int| 0 <= i < 16 ==> (UPPER_CHARS@ + LOWER_CHARS@ + DIGIT_CHARS@ + SYMBOL_CHARS@).contains(#[trigger] r@[i]),
{
    broadcast use vstd::seq_lib::group_to_multiset_ensures;
    proof {
        reveal_strlit("ABCDEFGHJKLMNPQRSTUVWXYZ");
        reveal_strlit("abcdefghjkmnpqrstuvwxyz");
        reveal_strlit("23456789");
        reveal_strlit("!@#$%^&*");
    }
    let up = crate::text::chars_of(UPPER_CHARS);
    let lo = crate::text::chars_of(LOWER_CHARS);
    let di = crate::text::chars_of(DIGIT_CHARS);
    let sy = crate::text::chars_of(SYMBOL_CHARS);
    let mut all_text = cat(UPPER_CHARS, LOWER_CHARS);
    all_text.append(DIGIT_CHARS);
    all_text.append(SYMBOL_CHARS);
    let all = crate::text::chars_of(all_text.as_str());
    let ghost everything = UPPER_CHARS@ + LOWER_CHARS@ + DIGIT_CHARS@ + SYMBOL_CHARS@;
    assert(all@ == everything);
    let mut chars: Vec<char> = Vec::new();
    let c0 = pick(&up);
    let c1 = pick(&lo);
    let c2 = pick(&di);
    let c3 = pick(&sy);
    chars.push(c0);
    chars.push(c1);
    chars.push(c2);
    chars.push(c3);
    proof {
        assert(everything.contains(c0)) by {
            let k = choose|k: int| 0 <= k < UPPER_CHARS@.len() && UPPER_CHARS@[k] == c0;
            assert(everything[k] == c0);
        }
        assert(everything.contains(c1)) by {
            let k = choose|k: int| 0 <= k < LOWER_CHARS@.len() && LOWER_CHARS@[k] == c1;
            assert(everything[UPPER_CHARS@.len() + k] == c1);
        }
        assert(everything.contains(c2)) by {
            let k = choose|k: int| 0 <= k < DIGIT_CHARS@.len() && DIGIT_CHARS@[k] == c2;
            assert(everything[UPPER_CHARS@.len() + LOWER_CHARS@.len() + k] == c2);
        }
        assert(everything.contains(c3)) by {
            let k = choose|k: int| 0 <= k < SYMBOL_CHARS@.len() && SYMBOL_CHARS@[k] == c3;
            assert(everything[UPPER_CHARS@.len() + LOWER_CHARS@.len() + DIGIT_CHARS@.len() + k] == c3);
        }
    }
    let mut n: usize = 0;
    while n < 12
        invariant
            n <= 12,
            chars@.len() == 4 + n,
            chars@[0] == c0 && chars@[1] == c1 && chars@[2] == c2 && chars@[3] == c3,
            all@ == everything,
            forall|i: int| 0 <= i < chars@.len() ==> everything.contains(#[trigger] chars@[i]),
        decreases 12 - n,
    {
        let c = pick(&all);
        chars.push(c);
        n = n + 1;
    }
    let ghost before = chars@;
    let mixed = shuffled(chars);
    proof {
        assert(before.contains(c0) && before.contains(c1) && before.contains(c2) && before.contains(c3)) by {
            assert(before[0] == c0);
            assert(before[1] == c1);
            assert(before[2] == c2);
            assert(before[3] == c3);
        }
        assert(before.to_multiset().count(c0) > 0);
        assert(mixed@.to_multiset().count(c0) > 0);
        assert(mixed@.to_multiset().count(c1) > 0);
        assert(mixed@.to_multiset().count(c2) > 0);
        assert(mixed@.to_multiset().count(c3) > 0);
        assert(mixed@.to_multiset().len() == before.to_multiset().len());
        assert(mixed@.len() == 16);
        assert forall|i: int| 0 <= i < 16 implies everything.contains(#[trigger] mixed@[i]) by {
            assert(mixed@.contains(mixed@[i]));
            assert(mixed@.to_multiset().count(mixed@[i]) > 0);
            assert(before.to_multiset().count(mixed@[i]) > 0);
            let j = choose|j: int| 0 <= j < before.len() && before[j] == mixed@[i];
            assert(everything.contains(before[j]));
        }
        let i0 = choose|i: int| 0 <= i < mixed@.len() && mixed@[i] == c0;
        assert(UPPER_CHARS@.contains(mixed@[i0]));
        let i1 = choose|i: int| 0 <= i < mixed@.len() && mixed@[i] == c1;
        assert(LOWER_CHARS@.contains(mixed@[i1]));
        let i2 = choose|i: int| 0 <= i < mixed@.len() && mixed@[i] == c2;
        assert(DIGIT_CHARS@.contains(mixed@[i2]));
        let i3 = choose|i: int| 0 <= i < mixed@.len() && mixed@[i] == c3;
        assert(SYMBOL_CHARS@.contains(mixed@[i3]));
    }
    crate::text::string_from_chars(mixed.as_slice())
}

/// The cookie that carries an access token for `max_age` seconds.
pub fn access_cookie(token: &str, max_age: u64) -> (r: String)
    ensures
        r@ == "token="@ + token@ + "; HttpOnly; Secure; SameSite=Lax; Path=/; Max-Age="@ + crate::text::dec(max_age as nat),
{
    let mut r = cat3("token=", token, "; HttpOnly; Secure; SameSite=Lax; Path=/; Max-Age=");
    r.append(crate::text::u64_to_string(max_age).as_str());
    r
}

/// The cookie that clears the access token.
pub const CLEAR_ACCESS_COOKIE: &'static str = "token=; HttpOnly; Secure; SameSite=Lax; Path=/; Max-Age=0";

impl UserDirectory {
    fn position_of_id(&self, id: Id) -> (r: Option<usize>)
        ensures
            match r {
                Some(i) => i < self.users@.len() && self.users@[i as int].id == id,
                None => !self.has_id(id),
            },
    {
        let mut i: usize = 0;
        while i < self.users.len()
            invariant
                i <= self.users.len(),
                forall|j: int| 0 <= j < i ==> self.users@[j].id != id,
            decreases self.users.len() - i,
        {
            if self.users[i].id == id {
                return Some(i);
            }
            i = i + 1;
        }
        None
    }

    /// Whether the active account named `username` is opened by `password`.
    pub open spec fn can_sign_in(&self, username: Seq<char>, password: Seq<char>) -> bool {
        exists|k: int| 0 <= k < self.users@.len() && #[trigger] self.users@[k].username@ == username
            && self.users@[k].is_active && opens(password, self.users@[k].password_hash)
    }

    /// Signs in with a username and password: the active account with that name whose password
    /// matches; an account without a password signs in with a provider only.
    pub fn login(&self, username: &str, password: &str) -> (r: Result<UserRecord, AppError>)
        requires
            self.wf(),
        ensures
            r is Ok <==> self.can_sign_in(username@, password@),
            r matches Ok(u) ==> exists|i: int| 0 <= i < self.users@.len() && self.users@[i] == u && u.username@ == username@
                && u.is_active && opens(password@, u.password_hash),
            r matches Err(e) ==> e is Unauthorized,
    {
        let mut i: usize = 0;
        while i < self.users.len()
            invariant
                i <= self.users.len(),
                self.wf(),
                forall|j: int| 0 <= j < i ==> !(self.users@[j].username@ == username@ && self.users@[j].is_active),
            decreases self.users.len() - i,
        {
            let u = &self.users[i];
            if u.is_active && str_eq(u.username.as_str(), username) {
                proof {
                    assert forall|k: int| 0 <= k < self.users@.len() && #[trigger] self.users@[k].username@ == username@
                        && self.users@[k].is_active implies k == i by {
                        if k != i {
                            if k < i {
                            } else {
                                assert(self.users@[i as int].username@ != self.users@[k].username@);
                            }
                        }
                    }
                }
                let hash = match &u.password_hash {
                    Some(h) => h,
                    None => return Err(AppError::Unauthorized(owned("This account uses OAuth login"))),
                };
                let ok = match bcrypt_verify(password, hash.as_str()) {
                    Some(b) => b,
                    None => false,
                };
                if !ok {
                    return Err(AppError::Unauthorized(owned("Invalid credentials")));
                }
                return Ok(u.copy());
            }
            i = i + 1;
        }
        Err(AppError::Unauthorized(owned("Invalid credentials")))
    }

    fn position_of_token(&self, token: Id) -> (r: Option<usize>)
        ensures
            match r {
                Some(i) => i < self.users@.len() && self.users@[i as int].invite_token == Some(token),
                None => forall|j: int| 0 <= j < self.users@.len() ==> self.users@[j].invite_token != Some(token),
            },
    {
        let mut i: usize = 0;
        while i < self.users.len()
            invariant
                i <= self.users.len(),
                forall|j: int| 0 <= j < i ==> self.users@[j].invite_token != Some(token),
            decreases self.users.len() - i,
        {
            if self.users[i].invite_token == Some(token) {
                return Some(i);
            }
            i = i + 1;
        }
        None
    }

    /// The users told about a tenant's events: its tenant admins and every super admin (only the
    /// super admins for events of no tenant), in directory order.
    pub open spec fn is_tenant_admin_of(u: UserRecord, tenant: Option<Id>) -> bool {
        u.role@ == "super_admin"@ || (tenant is Some && u.tenant_id == tenant && u.role@ == "tenant_admin"@)
    }

    pub fn tenant_admin_ids(&self, tenant: Option<Id>) -> (r: Vec<Id>)
        ensures
            r@ == self.users@.filter(|u: UserRecord| Self::is_tenant_admin_of(u, tenant)).map_values(|u: UserRecord| u.id),
    {
        let mut out: Vec<Id> = Vec::new();
        let mut i: usize = 0;
        while i < self.users.len()
            invariant
                i <= self.users.len(),
                out@ == self.users@.take(i as int).filter(|u: UserRecord| Self::is_tenant_admin_of(u, tenant)).map_values(
                    |u: UserRecord| u.id,
                ),
            decreases self.users.len() - i,
        {
            let u = &self.users[i];
            let admin = str_eq(u.role.as_str(), "super_admin") || (tenant.is_some() && u.tenant_id == tenant && str_eq(
                u.role.as_str(),
                "tenant_admin",
            ));
            proof {
                crate::text::lemma_take_step(self.users@, i as int);
                reveal(Seq::filter);
                let f = self.users@.take(i as int).filter(|u: UserRecord| Self::is_tenant_admin_of(u, tenant));
                if admin {
                    crate::text::lemma_map_push(f, self.users@[i as int], |u: UserRecord| u.id);
                }
            }
            if admin {
                out.push(u.id);
            }
            i = i + 1;
        }
        proof {
            assert(self.users@.take(self.users@.len() as int) =~= self.users@);
        }
        out
    }

    /// The invited user holding `token`, while the invitation has not expired at `now`; an
    /// unknown token is not found and an expired one is refused.
    pub fn invited_user(&self, token: Id, now: i64) -> (r: Result<UserRecord, AppError>)
        ensures
            match r {
                Ok(u) => exists|i: int| 0 <= i < self.users@.len() && self.users@[i] == u && u.invite_token == Some(token)
                    && (u.invite_expires_at matches Some(t) ==> !(t < now)),
                Err(e) => (forall|j: int| 0 <= j < self.users@.len() ==> self.users@[j].invite_token != Some(token))
                    && e.is_not_found() && e.spec_message() == "Invalid or expired invite token"@
                    || (exists|i: int| 0 <= i < self.users@.len() && self.users@[i].invite_token == Some(token)
                    && (self.users@[i].invite_expires_at matches Some(t) && t < now)) && e.is_bad_request()
                    && e.spec_message() == "Invite token has expired"@,
            },
    {
        match self.position_of_token(token) {
            None => Err(AppError::NotFound(owned("Invalid or expired invite token"))),
            Some(i) => {
                check_invite_token(true, self.users[i].invite_expires_at, now)?;
                Ok(self.users[i].copy())
            },
        }
    }

    /// Changes the password of `user_id`: the new password must be strong enough and the
    /// current one must match; the new one is stored and need not be changed again.
    pub fn change_password(&mut self, user_id: Id, current: &str, new_password: &str) -> (r: Result<(), AppError>)
        requires
            old(self).wf(),
        ensures
            final(self).wf(),
            r is Err ==> final(self).users@ == old(self).users@,
            password_problem(new_password) is Some ==> (r matches Err(e) && e.is_bad_request()
                && e.spec_message() == password_problem(new_password).unwrap()),
            r is Ok ==> password_problem(new_password) is None && exists|i: int| 0 <= i < old(self).users@.len()
                && old(self).users@[i].id == user_id && opens(current@, old(self).users@[i].password_hash)
                && final(self).users@.len() == old(self).users@.len()
                && opens(new_password@, final(self).users@[i].password_hash) && !final(self).users@[i].must_change_password
                && final(self).users@[i].id == user_id && final(self).users@[i].username == old(self).users@[i].username
                && final(self).users@[i].is_active == old(self).users@[i].is_active
                && forall|j: int| 0 <= j < old(self).users@.len() && j != i ==> final(self).users@[j] == old(self).users@[j],
    {
        match validate_password_strength(new_password) {
            Ok(()) => {},
            Err(msg) => return Err(AppError::BadRequest(msg)),
        }
        let i = match self.position_of_id(user_id) {
            Some(i) => i,
            None => return Err(AppError::NotFound(owned("User not found"))),
        };
        let hash = match &self.users[i].password_hash {
            Some(h) => h.clone(),
            None => return Err(AppError::BadRequest(owned("This account uses OAuth — no password to change"))),
        };
        let ok = match bcrypt_verify(current, hash.as_str()) {
            Some(b) => b,
            None => false,
        };
        if !ok {
            return Err(AppError::Unauthorized(owned("Current password is incorrect")));
        }
        let new_hash = hash_password(new_password)?;
        let mut u = self.users[i].copy();
        u.password_hash = Some(new_hash);
        u.must_change_password = false;
        let ghost before = self.users@;
        self.users.set(i, u);
        proof {
            assert forall|a: int, b: int| 0 <= a < b < self.users@.len() implies self.users@[a].id != self.users@[b].id
                && self.users@[a].username@ != self.users@[b].username@ by {
                assert(before[a].id != before[b].id);
                assert(before[a].username@ != before[b].username@);
            }
        }
        Ok(())
    }

    /// Sets the password of the user invited with `token` (at time `now`, in seconds): the
    /// password must be strong enough and the invitation not expired; the account becomes a
    /// local one and the invitation is used up.
    pub fn redeem_invite(&mut self, token: Id, now: i64, password: &str) -> (r: Result<UserRecord, AppError>)
        requires
            old(self).wf(),
        ensures
            final(self).wf(),
            r is Err ==> final(self).users@ == old(self).users@,
            password_problem(password) is Some ==> (r matches Err(e) && e.is_bad_request()
                && e.spec_message() == password_problem(password).unwrap()),
            r matches Ok(u) ==> password_problem(password) is None && exists|i: int| 0 <= i < old(self).users@.len()
                && old(self).users@[i].invite_token == Some(token)
                && (old(self).users@[i].invite_expires_at matches Some(t) ==> !(t < now))
                && final(self).users@ == old(self).users@.update(i, u)
                && u.id == old(self).users@[i].id && u.username == old(self).users@[i].username
                && u.is_active == old(self).users@[i].is_active
                && opens(password@, u.password_hash) && u.invite_token is None && u.invite_expires_at is None
                && !u.must_change_password && u.auth_method@ == "local"@,
    {
        match validate_password_strength(password) {
            Ok(()) => {},
            Err(msg) => return Err(AppError::BadRequest(msg)),
        }
        let pos = self.position_of_token(token);
        let found = pos.is_some();
        let i: usize = match pos {
            Some(i) => i,
            None => 0,
        };
        let expires = if found { self.users[i].invite_expires_at } else { None };
        check_invite_token(found, expires, now)?;
        let new_hash = hash_password(password)?;
        let mut u = self.users[i].copy();
        u.password_hash = Some(new_hash);
        u.invite_token = None;
        u.invite_expires_at = None;
        u.must_change_password = false;
        u.auth_method = owned("local");
        let r = u.copy();
        let ghost before = self.users@;
        self.users.set(i, u);
        proof {
            assert forall|a: int, b: int| 0 <= a < b < self.users@.len() implies self.users@[a].id != self.users@[b].id
                && self.users@[a].username@ != self.users@[b].username@ by {
                assert(before[a].id != before[b].id);
                assert(before[a].username@ != before[b].username@);
            }
        }
        Ok(r)
    }
}

/// After an invitation is redeemed with a password (the directory `after` holds the redeemed
/// account `u` where the invited one was), the invited user can sign in with that password
/// while the account is active.
pub proof fn law_redeemed_invite_opens_login(before: Seq<UserRecord>, after: UserDirectory, u: UserRecord, i: int, password: Seq<char>)
    requires
        0 <= i < before.len(),
        after.users@ == before.update(i, u),
        opens(password, u.password_hash),
        u.is_active,
    ensures
        after.can_sign_in(u.username@, password),
{
    assert(after.users@[i] == u);
}

/// After a password change, the user signs in with the new password (while active).
pub proof fn law_changed_password_opens_login(after: UserDirectory, i: int, password: Seq<char>)
    requires
        0 <= i < after.users@.len(),
        opens(password, after.users@[i].password_hash),
        after.users@[i].is_active,
    ensures
        after.can_sign_in(after.users@[i].username@, password),
{
}

/// A temporary password, as `generate_temp_password` gives it, passes the strength check: it
/// has 16 characters, among them an ASCII upper-case letter, lower-case letter and digit.
pub proof fn law_temp_password_is_strong(p: Seq<char>)
    requires
        p.len() == 16,
        exists|i: int| 0 <= i < 16 && UPPER_CHARS@.contains(#[trigger] p[i]),
        exists|i: int| 0 <= i < 16 && LOWER_CHARS@.contains(#[trigger] p[i]),
        exists|i: int| 0 <= i < 16 && DIGIT_CHARS@.contains(#[trigger] p[i]),
    ensures
        crate::auth::ascii_strong(p),
{
    reveal_strlit("ABCDEFGHJKLMNPQRSTUVWXYZ");
    reveal_strlit("abcdefghjkmnpqrstuvwxyz");
    reveal_strlit("23456789");
    let u = choose|i: int| 0 <= i < 16 && UPPER_CHARS@.contains(#[trigger] p[i]);
    let l = choose|i: int| 0 <= i < 16 && LOWER_CHARS@.contains(#[trigger] p[i]);
    let d = choose|i: int| 0 <= i < 16 && DIGIT_CHARS@.contains(#[trigger] p[i]);
    let ku = choose|k: int| 0 <= k < UPPER_CHARS@.len() && UPPER_CHARS@[k] == p[u];
    let kl = choose|k: int| 0 <= k < LOWER_CHARS@.len() && LOWER_CHARS@[k] == p[l];
    let kd = choose|k: int| 0 <= k < DIGIT_CHARS@.len() && DIGIT_CHARS@[k] == p[d];
    assert(crate::auth::is_ascii_upper(p[u]));
    assert(crate::auth::is_ascii_lower(p[l]));
    assert(crate::text::is_digit(p[d]));
}

} // verus!
