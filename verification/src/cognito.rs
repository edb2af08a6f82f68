//! The Cognito user pool: the names users get there, and how its answers are
//! read and its failures reported.
use vstd::prelude::*;
use crate::auth::AppError;
use crate::text::{cat, cat3, chars_of, contains, find_char, idx_of, owned, slice_range, str_contains, str_eq, string_from_chars};

verus! {

/// The pool's user name for an email: the part before the first '@' (the pool takes aliases,
/// and refuses names that look like emails).
pub open spec fn pool_username_of(email: Seq<char>) -> Seq<char> {
    email.take(idx_of(email, '@', 0))
}

pub fn pool_username(email: &str) -> (r: String)
    ensures
        r@ == pool_username_of(email@),
{
    let v = chars_of(email);
    let i = find_char(v.as_slice(), '@', 0);
    string_from_chars(slice_range(v.as_slice(), 0, i).as_slice())
}

/// How a refused user creation is reported, by the pool's message: an existing user is a
/// conflict, a denied permission and anything else an internal failure.
pub open spec fn create_failure(email: Seq<char>, detail: Seq<char>) -> (int, Seq<char>) {
    if contains(detail, "UsernameExistsException"@) || contains(detail, "already exists"@) {
        (0, "User with email '"@ + email + "' already exists in Cognito"@)
    } else if contains(detail, "AccessDeniedException"@) || contains(detail, "not authorized"@) {
        (1, "Cognito permission denied: "@ + detail)
    } else {
        (1, "Cognito AdminCreateUser failed: "@ + detail)
    }
}

pub fn create_user_failure(email: &str, detail: &str) -> (e: AppError)
    ensures
        create_failure(email@, detail@).0 == 0 ==> e == AppError::Conflict(e->Conflict_0) && e->Conflict_0@ == create_failure(email@, detail@).1,
        create_failure(email@, detail@).0 == 1 ==> e == AppError::Internal(e->Internal_0) && e->Internal_0@ == create_failure(email@, detail@).1,
{
    if str_contains(detail, "UsernameExistsException") || str_contains(detail, "already exists") {
        AppError::Conflict(cat3("User with email '", email, "' already exists in Cognito"))
    } else if str_contains(detail, "AccessDeniedException") || str_contains(detail, "not authorized") {
        AppError::Internal(cat("Cognito permission denied: ", detail))
    } else {
        AppError::Internal(cat("Cognito AdminCreateUser failed: ", detail))
    }
}

/// The new user's id: the value of its first "sub" attribute that has one.
pub open spec fn sub_of(attrs: Seq<(String, Option<String>)>) -> Option<Seq<char>>
    decreases attrs.len(),
{
    if attrs.len() == 0 {
        None
    } else if attrs[0].0@ == "sub"@ && attrs[0].1 is Some {
        Some(attrs[0].1.unwrap()@)
    } else {
        sub_of(attrs.skip(1))
    }
}

/// The new user's id from its attributes; a user created without one is an internal failure.
pub fn created_sub(attrs: &Vec<(String, Option<String>)>) -> (r: Result<String, AppError>)
    ensures
        match r {
            Ok(s) => sub_of(attrs@) == Some(s@),
            Err(e) => sub_of(attrs@) is None && e == AppError::Internal(e->Internal_0)
                && e->Internal_0@ == "Cognito user created but sub not returned"@,
        },
{
    let mut i: usize = 0;
    proof {
        assert(attrs@.skip(0) =~= attrs@);
    }
    while i < attrs.len()
        invariant
            i <= attrs@.len(),
            sub_of(attrs@) == sub_of(attrs@.skip(i as int)),
        decreases attrs.len() - i,
    {
        proof {
            assert(attrs@.skip(i as int)[0] == attrs@[i as int]);
            assert(attrs@.skip(i as int).skip(1) =~= attrs@.skip(i + 1));
        }
        if str_eq(attrs[i].0.as_str(), "sub") {
            match &attrs[i].1 {
                Some(v) => {
                    return Ok(v.clone());
                },
                None => {},
            }
        }
        i = i + 1;
    }
    Err(AppError::Internal(owned("Cognito user created but sub not returned")))
}

/// A failed password setting of the pool, reported as an internal failure.
pub fn set_password_failure(during_creation: bool, detail: &str) -> (e: AppError)
    ensures
        e == AppError::Internal(e->Internal_0),
        e->Internal_0@ == (if during_creation { "Cognito AdminSetUserPassword failed: "@ } else { "Cognito set password failed: "@ }) + detail@,
{
    if during_creation {
        AppError::Internal(cat("Cognito AdminSetUserPassword failed: ", detail))
    } else {
        AppError::Internal(cat("Cognito set password failed: ", detail))
    }
}

} // verus!
