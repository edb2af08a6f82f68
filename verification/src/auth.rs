//! Who may do what: the authenticated caller, the error kinds that requests end
//! in, role and permission rules, and the input checks shared by the services.
use vstd::prelude::*;
use vstd::arithmetic::power::pow;
use crate::agent::{json_quote, json_quoted};
use crate::text::{
    cat, chars_of, dec, has_prefix, is_ascii_text, is_digit, lower, opt_string_view, owned, slice_range, str_eq, str_trim, trim, u64_to_string,
};

verus! {

/// Identifier of a stored record (a UUID held as its 128-bit value).
pub type Id = u128;

/// The authenticated caller of a request.
#[derive(Debug, Clone)]
pub struct AuthUser {
    pub user_id: Id,
    pub role: String,
    pub tenant_id: Option<Id>,
    pub username: String,
}

/// How a request can fail.
#[derive(Debug, Clone)]
pub enum AppError {
    BadRequest(String),
    Unauthorized(String),
    Forbidden(String),
    NotFound(String),
    Conflict(String),
    Internal(String),
    /// A failed sign-in with an identity provider.
    OAuth(String),
    /// A write the database refused, named by the constraint it broke.
    Database(String),
}

impl AppError {
    pub open spec fn is_bad_request(self) -> bool {
        self is BadRequest
    }

    pub open spec fn is_forbidden(self) -> bool {
        self is Forbidden
    }

    pub open spec fn is_not_found(self) -> bool {
        self is NotFound
    }

    /// The message carried by the error.
    pub fn message(&self) -> (m: String)
        ensures
            m@ == self.spec_message(),
    {
        match self {
            AppError::BadRequest(m) => m.clone(),
            AppError::Unauthorized(m) => m.clone(),
            AppError::Forbidden(m) => m.clone(),
            AppError::NotFound(m) => m.clone(),
            AppError::Conflict(m) => m.clone(),
            AppError::Internal(m) => m.clone(),
            AppError::OAuth(m) => m.clone(),
            AppError::Database(m) => m.clone(),
        }
    }

    pub open spec fn spec_message(self) -> Seq<char> {
        match self {
            AppError::BadRequest(m) => m@,
            AppError::Unauthorized(m) => m@,
            AppError::Forbidden(m) => m@,
            AppError::NotFound(m) => m@,
            AppError::Conflict(m) => m@,
            AppError::Internal(m) => m@,
            AppError::OAuth(m) => m@,
            AppError::Database(m) => m@,
        }
    }
}

pub open spec fn super_admin_role() -> Seq<char> {
    "super_admin"@
}

pub open spec fn tenant_admin_role() -> Seq<char> {
    "tenant_admin"@
}

pub open spec fn member_role() -> Seq<char> {
    "member"@
}

/// The three built-in roles that users, invitations and group mappings may carry.
pub open spec fn is_builtin_role(r: Seq<char>) -> bool {
    r == super_admin_role() || r == tenant_admin_role() || r == member_role()
}

pub fn role_is_super_admin(r: &str) -> (b: bool)
    ensures
        b == (r@ == super_admin_role()),
{
    str_eq(r, "super_admin")
}

pub fn role_is_tenant_admin(r: &str) -> (b: bool)
    ensures
        b == (r@ == tenant_admin_role()),
{
    str_eq(r, "tenant_admin")
}

pub fn role_is_member(r: &str) -> (b: bool)
    ensures
        b == (r@ == member_role()),
{
    str_eq(r, "member")
}

pub fn role_is_builtin(r: &str) -> (b: bool)
    ensures
        b == is_builtin_role(r@),
{
    role_is_super_admin(r) || role_is_tenant_admin(r) || role_is_member(r)
}

impl AuthUser {
    pub open spec fn spec_is_super_admin(&self) -> bool {
        self.role@ == super_admin_role()
    }

    /// Administrators: super admins and tenant admins.
    pub open spec fn spec_is_admin(&self) -> bool {
        self.role@ == super_admin_role() || self.role@ == tenant_admin_role()
    }

    pub fn is_super_admin(&self) -> (b: bool)
        ensures
            b == self.spec_is_super_admin(),
    {
        role_is_super_admin(self.role.as_str())
    }

    pub fn is_admin(&self) -> (b: bool)
        ensures
            b == self.spec_is_admin(),
    {
        role_is_super_admin(self.role.as_str()) || role_is_tenant_admin(self.role.as_str())
    }
}

/// The tenant a caller's listings are limited to: none for a super admin, the
/// caller's own tenant otherwise.
pub fn tenant_filter(auth: &AuthUser) -> (r: Option<Option<Id>>)
    ensures
        auth.spec_is_super_admin() ==> r is None,
        !auth.spec_is_super_admin() ==> r == Some(auth.tenant_id),
{
    if auth.is_super_admin() {
        None
    } else {
        Some(auth.tenant_id)
    }
}

/// Message of the refusal that a caller without super-admin rights gets for `action`.
pub open spec fn super_admin_refusal(action: Seq<char>) -> Seq<char> {
    seq!['O', 'n', 'l', 'y', ' ', 's', 'u', 'p', 'e', 'r', ' ', 'a', 'd', 'm', 'i', 'n', 's', ' ',
        'c', 'a', 'n', ' '] + action
}

/// Refuse unless the caller is a super admin.
pub fn require_super_admin(auth: &AuthUser, action: &str) -> (r: Result<(), AppError>)
    ensures
        r is Ok <==> auth.spec_is_super_admin(),
        r matches Err(e) ==> e == AppError::Forbidden(e->Forbidden_0) && e->Forbidden_0@
            == super_admin_refusal(action@),
{
    if auth.is_super_admin() {
        Ok(())
    } else {
        proof {
            reveal_strlit("Only super admins can ");
        }
        Err(AppError::Forbidden(cat("Only super admins can ", action)))
    }
}

/// `e` is the refusal that `require_super_admin` gives for `action`.
pub open spec fn is_super_admin_refusal(e: AppError, action: Seq<char>) -> bool {
    e matches AppError::Forbidden(m) && m@ == super_admin_refusal(action)
}

pub open spec fn required_message(field: Seq<char>) -> Seq<char> {
    field + seq![' ', 'i', 's', ' ', 'r', 'e', 'q', 'u', 'i', 'r', 'e', 'd']
}

/// Refuse a value that is empty once surrounding whitespace is removed.
pub fn require_non_empty(value: &str, field: &str) -> (r: Result<(), AppError>)
    ensures
        r is Ok <==> trim(value@).len() > 0,
        r matches Err(e) ==> e == AppError::BadRequest(e->BadRequest_0) && e->BadRequest_0@
            == required_message(field@),
{
    let t = str_trim(value);
    if t.as_str().is_empty() {
        proof {
            reveal_strlit(" is required");
        }
        Err(AppError::BadRequest(cat(field, " is required")))
    } else {
        Ok(())
    }
}


/// Check a requested role and tenant for a new user, invitation or group mapping:
/// the role must be built in, and every role but super admin needs a tenant.
pub fn check_role_and_tenant(role: &str, tenant_id: Option<Id>) -> (r: Result<(), AppError>)
    ensures
        r is Ok <==> is_builtin_role(role@) && (role@ == super_admin_role() || tenant_id is Some),
        r matches Err(e) ==> e is BadRequest,
        !is_builtin_role(role@) ==> (r matches Err(AppError::BadRequest(m)) && m@
            == role_must_be_message()),
{
    if !role_is_builtin(role) {
        return Err(role_must_be_error());
    }
    if !role_is_super_admin(role) && tenant_id.is_none() {
        return Err(AppError::BadRequest(owned("tenant_id is required for tenant_admin and member roles")));
    }
    Ok(())
}

pub open spec fn role_must_be_message() -> Seq<char> {
    "Role must be 'super_admin', 'tenant_admin', or 'member'"@
}

pub fn role_must_be_error() -> (e: AppError)
    ensures
        e matches AppError::BadRequest(m) && m@ == role_must_be_message(),
{
    AppError::BadRequest(owned("Role must be 'super_admin', 'tenant_admin', or 'member'"))
}

// ─── Passwords ─────────────────────────────────────────────────────────────

/// Whether `c` has the Unicode `Uppercase` property (what `char::is_uppercase` tests).
pub uninterp spec fn uppercase_char(c: char) -> bool;

/// Whether `c` has the Unicode `Lowercase` property (what `char::is_lowercase` tests).
pub uninterp spec fn lowercase_char(c: char) -> bool;

/// Trusted: `char::is_uppercase`; among ASCII characters exactly `A`..`Z` are uppercase.
#[verifier::external_body]
fn char_is_uppercase(c: char) -> (b: bool)
    ensures
        b == uppercase_char(c),
        (c as u32) < 128 ==> (b <==> ('A' <= c && c <= 'Z')),
{
    c.is_uppercase()
}

/// Trusted: `char::is_lowercase`; among ASCII characters exactly `a`..`z` are lowercase.
#[verifier::external_body]
fn char_is_lowercase(c: char) -> (b: bool)
    ensures
        b == lowercase_char(c),
        (c as u32) < 128 ==> (b <==> ('a' <= c && c <= 'z')),
{
    c.is_lowercase()
}

/// The reason a password is refused, or none when it is strong enough: 8 to 128
/// characters, with an uppercase letter, a lowercase letter and an ASCII digit.
pub open spec fn password_problem(p: &str) -> Option<Seq<char>> {
    if p@.len() < 8 {
        Some("Password must be at least 8 characters"@)
    } else if p@.len() > 128 {
        Some("Password must be at most 128 characters"@)
    } else if !(exists|i: int| 0 <= i < p@.len() && uppercase_char(#[trigger] p@[i])) {
        Some("Password must contain at least one uppercase letter"@)
    } else if !(exists|i: int| 0 <= i < p@.len() && lowercase_char(#[trigger] p@[i])) {
        Some("Password must contain at least one lowercase letter"@)
    } else if !(exists|i: int| 0 <= i < p@.len() && is_digit(#[trigger] p@[i])) {
        Some("Password must contain at least one digit"@)
    } else {
        None
    }
}

pub open spec fn is_ascii_upper(c: char) -> bool {
    'A' <= c && c <= 'Z'
}

pub open spec fn is_ascii_lower(c: char) -> bool {
    'a' <= c && c <= 'z'
}

/// 8 to 128 characters, among them an ASCII uppercase letter, an ASCII lowercase letter and an
/// ASCII digit: enough for the strength check, whatever the other characters are.
pub open spec fn ascii_strong(p: Seq<char>) -> bool {
    &&& 8 <= p.len() <= 128
    &&& exists|i: int| 0 <= i < p.len() && is_ascii_upper(#[trigger] p[i])
    &&& exists|i: int| 0 <= i < p.len() && is_ascii_lower(#[trigger] p[i])
    &&& exists|i: int| 0 <= i < p.len() && is_digit(#[trigger] p[i])
}

/// The reason an ASCII password is refused, with the letter classes A-Z and a-z.
pub open spec fn ascii_password_problem(p: Seq<char>) -> Option<Seq<char>> {
    if p.len() < 8 {
        Some("Password must be at least 8 characters"@)
    } else if p.len() > 128 {
        Some("Password must be at most 128 characters"@)
    } else if !(exists|i: int| 0 <= i < p.len() && is_ascii_upper(#[trigger] p[i])) {
        Some("Password must contain at least one uppercase letter"@)
    } else if !(exists|i: int| 0 <= i < p.len() && is_ascii_lower(#[trigger] p[i])) {
        Some("Password must contain at least one lowercase letter"@)
    } else if !(exists|i: int| 0 <= i < p.len() && is_digit(#[trigger] p[i])) {
        Some("Password must contain at least one digit"@)
    } else {
        None
    }
}

/// Check password complexity.
pub fn validate_password_strength(password: &str) -> (r: Result<(), String>)
    ensures
        match password_problem(password) {
            None => r is Ok,
            Some(m) => r matches Err(e) && e@ == m,
        },
        ascii_strong(password@) ==> password_problem(password) is None && r is Ok,
        is_ascii_text(password@) ==> password_problem(password) == ascii_password_problem(password@),
{
    let cs = chars_of(password);
    if cs.len() < 8 {
        return Err(owned("Password must be at least 8 characters"));
    }
    if cs.len() > 128 {
        return Err(owned("Password must be at most 128 characters"));
    }
    let mut up = false;
    let mut low = false;
    let mut dig = false;
    let mut i: usize = 0;
    while i < cs.len()
        invariant
            i <= cs.len(),
            cs@ == password@,
            up == exists|j: int| 0 <= j < i && uppercase_char(#[trigger] password@[j]),
            low == exists|j: int| 0 <= j < i && lowercase_char(#[trigger] password@[j]),
            dig == exists|j: int| 0 <= j < i && is_digit(#[trigger] password@[j]),
            !up ==> forall|j: int| 0 <= j < i ==> !is_ascii_upper(#[trigger] password@[j]),
            !low ==> forall|j: int| 0 <= j < i ==> !is_ascii_lower(#[trigger] password@[j]),
            forall|j: int|
                0 <= j < i && (password@[j] as u32) < 128 ==> (uppercase_char(#[trigger] password@[j])
                    == is_ascii_upper(password@[j]) && lowercase_char(password@[j]) == is_ascii_lower(password@[j])),
        decreases cs.len() - i,
    {
        let c = cs[i];
        assert(c == password@[i as int]);
        if char_is_uppercase(c) {
            up = true;
        } else {
            assert(is_ascii_upper(c) ==> (c as u32) < 128);
        }
        if char_is_lowercase(c) {
            low = true;
        } else {
            assert(is_ascii_lower(c) ==> (c as u32) < 128);
        }
        if '0' <= c && c <= '9' {
            dig = true;
        }
        i = i + 1;
    }
    if !up {
        return Err(owned("Password must contain at least one uppercase letter"));
    }
    if !low {
        return Err(owned("Password must contain at least one lowercase letter"));
    }
    if !dig {
        return Err(owned("Password must contain at least one digit"));
    }
    Ok(())
}

// ─── Permissions ───────────────────────────────────────────────────────────

/// The category of a permission: the text before its first `.` (all of it when there is none).
pub open spec fn permission_category(p: Seq<char>) -> Seq<char>
    decreases p.len(),
{
    if p.len() == 0 || p[0] == '.' {
        Seq::empty()
    } else {
        seq![p[0]] + permission_category(p.skip(1))
    }
}

proof fn lemma_category_prefix(p: Seq<char>, k: nat)
    requires
        k <= p.len(),
        forall|j: int| 0 <= j < k ==> p[j] != '.',
        k == p.len() || p[k as int] == '.',
    ensures
        permission_category(p) == p.take(k as int),
    decreases k,
{
    if k == 0 {
        assert(p.take(0) =~= Seq::<char>::empty());
    } else {
        let q = p.skip(1);
        assert forall|j: int| 0 <= j < k - 1 implies q[j] != '.' by {
            assert(q[j] == p[j + 1]);
        }
        if k - 1 < q.len() {
            assert(q[k - 1] == p[k as int]);
        }
        lemma_category_prefix(q, (k - 1) as nat);
        assert(seq![p[0]] + q.take(k - 1) =~= p.take(k as int));
    }
}

/// A role's permission list grants `p` when it holds `p` itself, the category
/// wildcard `<category>.*`, or the global wildcard `*`.
pub open spec fn grants(perms: Seq<Seq<char>>, p: Seq<char>) -> bool {
    perms.contains(p) || perms.contains(permission_category(p) + seq!['.', '*'])
        || perms.contains(seq!['*'])
}

/// Does the permission list `perms` grant `permission`?
pub fn role_grants(perms: &Vec<String>, permission: &str) -> (b: bool)
    ensures
        b == grants(perms@.map_values(|s: String| s@), permission@),
{
    let pv = chars_of(permission);
    let mut k: usize = 0;
    while k < pv.len() && pv[k] != '.'
        invariant
            k <= pv.len(),
            forall|j: int| 0 <= j < k ==> pv@[j] != '.',
        decreases pv.len() - k,
    {
        k = k + 1;
    }
    let mut wild = slice_range(pv.as_slice(), 0, k);
    proof {
        lemma_category_prefix(pv@, k as nat);
    }
    wild.push('.');
    wild.push('*');
    let ghost views = perms@.map_values(|s: String| s@);
    let mut found = false;
    let mut i: usize = 0;
    while i < perms.len()
        invariant
            i <= perms.len(),
            views == perms@.map_values(|s: String| s@),
            pv@ == permission@,
            wild@ == permission_category(permission@) + seq!['.', '*'],
            found == exists|j: int|
                0 <= j < i && (views[j] == permission@ || views[j] == wild@ || views[j] == seq!['*']),
        decreases perms.len() - i,
    {
        let q = chars_of(perms[i].as_str());
        let is_star = q.len() == 1 && q[0] == '*';
        if str_eq(perms[i].as_str(), permission) || slices_equal(q.as_slice(), wild.as_slice()) || is_star {
            proof {
                assert(views[i as int] == q@);
                if is_star {
                    assert(q@ =~= seq!['*']);
                }
            }
            found = true;
        } else {
            proof {
                assert(views[i as int] == q@);
                if q@ == seq!['*'] {
                    assert(q@.len() == 1 && q@[0] == '*');
                }
            }
        }
        i = i + 1;
    }
    proof {
        let star = seq!['*'];
        if views.contains(permission@) {
            let j = choose|j: int| 0 <= j < views.len() && views[j] == permission@;
            assert(0 <= j < i);
        }
        if views.contains(wild@) {
            let j = choose|j: int| 0 <= j < views.len() && views[j] == wild@;
            assert(0 <= j < i);
        }
        if views.contains(star) {
            let j = choose|j: int| 0 <= j < views.len() && views[j] == star;
            assert(0 <= j < i);
        }
        if found {
            let j = choose|j: int|
                0 <= j < i && (views[j] == permission@ || views[j] == wild@ || views[j] == seq!['*']);
            if views[j] == permission@ {
                assert(views.contains(permission@));
            } else if views[j] == wild@ {
                assert(views.contains(wild@));
            } else {
                assert(views.contains(star));
            }
        }
    }
    found
}

/// Equality of two character slices.
pub fn slices_equal(a: &[char], b: &[char]) -> (r: bool)
    ensures
        r == (a@ == b@),
{
    if a.len() != b.len() {
        return false;
    }
    let r = has_prefix(a, b);
    assert(r ==> a@.take(b@.len() as int) =~= a@);
    assert(a@ == b@ ==> a@.take(b@.len() as int) =~= b@);
    r
}

// ─── Identifiers ───────────────────────────────────────────────────────────

/// The value of a hexadecimal digit, in either case.
pub open spec fn hex_val(c: char) -> Option<int> {
    if '0' <= c && c <= '9' {
        Some(c as int - 48)
    } else if 'a' <= c && c <= 'f' {
        Some(c as int - 87)
    } else if 'A' <= c && c <= 'F' {
        Some(c as int - 55)
    } else {
        None
    }
}

/// The number that the hexadecimal digits `s` write, most significant first.
pub open spec fn hex_number(s: Seq<char>) -> Option<int>
    decreases s.len(),
{
    if s.len() == 0 {
        Some(0)
    } else {
        match (hex_number(s.drop_last()), hex_val(s.last())) {
            (Some(a), Some(d)) => Some(a * 16 + d),
            _ => None,
        }
    }
}

/// 32 hexadecimal digits.
pub open spec fn simple_uuid(s: Seq<char>) -> Option<Id> {
    if s.len() == 32 {
        match hex_number(s) {
            Some(n) => Some(n as Id),
            None => None,
        }
    } else {
        None
    }
}

/// 32 hexadecimal digits in groups of 8, 4, 4, 4 and 12 joined by hyphens.
pub open spec fn hyphenated_uuid(s: Seq<char>) -> Option<Id> {
    if s.len() == 36 && s[8] == '-' && s[13] == '-' && s[18] == '-' && s[23] == '-' {
        simple_uuid(s.subrange(0, 8) + s.subrange(9, 13) + s.subrange(14, 18) + s.subrange(19, 23) + s.subrange(24, 36))
    } else {
        None
    }
}

/// The identifier a text names, in the forms `uuid::Uuid::parse_str` accepts: 32 hexadecimal
/// digits, the hyphenated form, the hyphenated form in braces, or after "urn:uuid:" (in any
/// case); none otherwise.
pub open spec fn uuid_value(text: Seq<char>) -> Option<Id> {
    if !is_ascii_text(text) {
        None
    } else if text.len() == 32 {
        simple_uuid(text)
    } else if text.len() == 36 {
        hyphenated_uuid(text)
    } else if text.len() == 38 && text[0] == '{' && text[37] == '}' {
        hyphenated_uuid(text.subrange(1, 37))
    } else if text.len() == 45 && lower(text.take(9)) == "urn:uuid:"@ {
        hyphenated_uuid(text.skip(9))
    } else {
        None
    }
}

/// Trusted: `uuid::Uuid::parse_str`, read back with `Uuid::as_u128` (the value of the 16 bytes
/// read in order, most significant first).
#[verifier::external_body]
pub(crate) fn parse_uuid(text: &str) -> (r: Option<Id>)
    ensures
        r == uuid_value(text@),
{
    uuid::Uuid::parse_str(text).ok().map(|u| u.as_u128())
}


// ─── Tokens ────────────────────────────────────────────────────────────────

/// What an access token says: who it is for, with which role, tenant and name, and when it was
/// issued and expires (Unix seconds).
pub struct Claims {
    pub sub: Id,
    pub role: String,
    pub tenant_id: Option<Id>,
    pub username: String,
    pub token_type: String,
    pub iat: u64,
    pub exp: u64,
}

/// How long a token handed to an agent run is valid: two hours, enough for a long session.
pub open spec fn agent_token_lifetime() -> u64 {
    7200
}

/// The claims of the token a user's chat agent calls the API with: the user's own identity, as
/// an access token issued at `now` for two hours.
pub fn agent_claims(auth: &AuthUser, now: u64) -> (c: Claims)
    requires
        now <= u64::MAX - 7200,
    ensures
        c.sub == auth.user_id,
        c.role == auth.role,
        c.tenant_id == auth.tenant_id,
        c.username == auth.username,
        c.token_type@ == "access"@,
        c.iat == now,
        c.exp == now + agent_token_lifetime(),
{
    Claims {
        sub: auth.user_id,
        role: auth.role.clone(),
        tenant_id: auth.tenant_id,
        username: auth.username.clone(),
        token_type: owned("access"),
        iat: now,
        exp: now + 7200,
    }
}

/// The claims of the token an investigation's agent calls the API with: no user (the nil id),
/// tenant admin rights over `tenant_id`, named "rca-agent", issued at `now` for two hours.
pub fn rca_claims(tenant_id: Option<Id>, now: u64) -> (c: Claims)
    requires
        now <= u64::MAX - 7200,
    ensures
        c.sub == 0,
        c.role@ == tenant_admin_role(),
        c.tenant_id == tenant_id,
        c.username@ == "rca-agent"@,
        c.token_type@ == "access"@,
        c.iat == now,
        c.exp == now + agent_token_lifetime(),
{
    Claims {
        sub: 0,
        role: owned("tenant_admin"),
        tenant_id,
        username: owned("rca-agent"),
        token_type: owned("access"),
        iat: now,
        exp: now + 7200,
    }
}

/// The lower-case hexadecimal digit of `n` (0 to 15).
pub open spec fn hex_digit(n: int) -> char {
    if n < 10 {
        (n + 48) as char
    } else {
        (n + 87) as char
    }
}

/// The 32 hexadecimal digits of `id`, most significant first.
pub open spec fn hex32(id: Id) -> Seq<char> {
    Seq::new(32, |i: int| hex_digit((id as int / pow(16, (31 - i) as nat)) % 16))
}

/// `id` written as a UUID: its hexadecimal digits in groups of 8, 4, 4, 4 and 12, joined by
/// hyphens.
pub open spec fn uuid_text(id: Id) -> Seq<char> {
    let h = hex32(id);
    h.subrange(0, 8) + "-"@ + h.subrange(8, 12) + "-"@ + h.subrange(12, 16) + "-"@ + h.subrange(16, 20) + "-"@
        + h.subrange(20, 32)
}

/// Trusted: `uuid::Uuid::from_u128(id).to_string()`, which writes the big-endian bytes of `id`
/// hyphenated in lower-case hexadecimal.
#[verifier::external_body]
fn format_uuid(id: Id) -> (r: String)
    ensures
        r@ == uuid_text(id),
{
    uuid::Uuid::from_u128(id).to_string()
}

/// The claims as the JSON object that a token carries, the ids written as UUIDs.
pub open spec fn claims_text(c: Claims) -> Seq<char> {
    "{\"sub\":\""@ + uuid_text(c.sub) + "\",\"role\":"@ + json_quoted(c.role@) + ",\"tenant_id\":"@ + match c.tenant_id {
        Some(t) => "\""@ + uuid_text(t) + "\""@,
        None => "null"@,
    } + ",\"username\":"@ + json_quoted(c.username@) + ",\"token_type\":"@ + json_quoted(c.token_type@)
        + ",\"iat\":"@ + dec(c.iat as nat) + ",\"exp\":"@ + dec(c.exp as nat) + "}"@
}

/// The claims written as a JSON object.
pub fn claims_json(c: &Claims) -> (r: String)
    ensures
        r@ == claims_text(*c),
{
    let mut r = cat("{\"sub\":\"", format_uuid(c.sub).as_str());
    r.append("\",\"role\":");
    r.append(json_quote(c.role.as_str()).as_str());
    r.append(",\"tenant_id\":");
    match c.tenant_id {
        Some(t) => {
            r.append("\"");
            r.append(format_uuid(t).as_str());
            r.append("\"");
        },
        None => r.append("null"),
    }
    r.append(",\"username\":");
    r.append(json_quote(c.username.as_str()).as_str());
    r.append(",\"token_type\":");
    r.append(json_quote(c.token_type.as_str()).as_str());
    r.append(",\"iat\":");
    r.append(u64_to_string(c.iat).as_str());
    r.append(",\"exp\":");
    r.append(u64_to_string(c.exp).as_str());
    r.append("}");
    r
}

/// The compact token, signed with HMAC-SHA256 under `secret`, whose header is the default one
/// and whose payload is the text `claims` exactly as given; `None` when `claims` is not JSON.
pub uninterp spec fn hs256_token(claims: Seq<char>, secret: Seq<char>) -> Option<Seq<char>>;

/// Trusted: checks `claims` with `serde_json::value::RawValue::from_string` (which keeps the
/// text as it is) and signs it with `jsonwebtoken::encode` under the default header (HS256) and
/// `EncodingKey::from_secret` of the secret's bytes; the payload is `claims` byte for byte.
#[verifier::external_body]
fn hs256_sign(claims: &str, secret: &str) -> (r: Option<String>)
    ensures
        opt_string_view(r) == hs256_token(claims@, secret@),
{
    let raw = serde_json::value::RawValue::from_string(claims.to_string()).ok()?;
    let key = jsonwebtoken::EncodingKey::from_secret(secret.as_bytes());
    jsonwebtoken::encode(&jsonwebtoken::Header::default(), &raw, &key).ok()
}

/// The access token for `c`, signed with the deployment's `secret` (HS256).
pub fn sign_token(c: &Claims, secret: &str) -> (r: Option<String>)
    ensures
        opt_string_view(r) == hs256_token(claims_text(*c), secret@),
{
    let text = claims_json(c);
    hs256_sign(text.as_str(), secret)
}

// ─── Responses ─────────────────────────────────────────────────────────────

pub open spec fn security_header_list() -> Seq<(Seq<char>, Seq<char>)> {
    seq![
        ("X-Content-Type-Options"@, "nosniff"@),
        ("X-Frame-Options"@, "DENY"@),
        ("X-XSS-Protection"@, "1; mode=block"@),
        ("Referrer-Policy"@, "strict-origin-when-cross-origin"@),
        ("Strict-Transport-Security"@, "max-age=31536000; includeSubDomains"@),
        ("Permissions-Policy"@, "camera=(), microphone=(), geolocation=()"@),
    ]
}

/// The headers every response carries, in the order they are set.
pub fn security_headers() -> (r: Vec<(&'static str, &'static str)>)
    ensures
        r@.map_values(|p: (&str, &str)| (p.0@, p.1@)) == security_header_list(),
{
    let mut v: Vec<(&'static str, &'static str)> = Vec::new();
    v.push(("X-Content-Type-Options", "nosniff"));
    v.push(("X-Frame-Options", "DENY"));
    v.push(("X-XSS-Protection", "1; mode=block"));
    v.push(("Referrer-Policy", "strict-origin-when-cross-origin"));
    v.push(("Strict-Transport-Security", "max-age=31536000; includeSubDomains"));
    v.push(("Permissions-Policy", "camera=(), microphone=(), geolocation=()"));
    proof {
        assert(v@.map_values(|p: (&str, &str)| (p.0@, p.1@)) =~= security_header_list());
    }
    v
}

} // verus!
