//! Code repositories of the delivery pipeline: the requests that register them,
//! and the ArgoCD repository secrets mirrored from them.
use vstd::prelude::*;
use crate::text::{cat, owned, push_line, strings_view};

verus! {

/// A repository to register, as the console sends it.
pub struct CreateRepoPayload {
    pub repo_id: String,
    pub name: String,
    pub repository: String,
    pub description: Option<String>,
    /// Whether it is used (true when not given).
    pub enabled: bool,
    /// The access token, as typed.
    pub token: Option<String>,
}

/// Changes to a registered repository.
pub struct UpdateRepoPayload {
    pub name: Option<String>,
    pub repository: Option<String>,
    pub description: Option<String>,
    pub enabled: Option<bool>,
    pub token: Option<String>,
}

/// A connection test of a repository that is not registered yet.
pub struct TestInlineRequest {
    pub repository: String,
    pub token: Option<String>,
}

/// The default of a repository's `enabled` flag.
pub fn default_true() -> (b: bool)
    ensures
        b,
{
    true
}

/// Whether a newly registered repository is mirrored to ArgoCD: when it is used and has a token.
pub fn mirrors_new_repo(enabled: bool, token: &Option<String>) -> (b: bool)
    ensures
        b == (enabled && (token matches Some(t) && t@.len() > 0)),
{
    enabled && match token {
        Some(t) => !t.as_str().is_empty(),
        None => false,
    }
}

/// What a change of a repository does to its ArgoCD secret.
pub enum SecretSync {
    /// Write the secret with this token.
    Write { token: String },
    /// Remove the secret.
    Remove,
}

/// After a change: a used repository with a token (the new one, else the stored one) gets its
/// secret written; any other loses it.
pub fn sync_after_update(enabled: bool, new_token: Option<String>, stored_token: Option<String>) -> (r: SecretSync)
    ensures
        ({
            let t = if new_token is Some { new_token } else { stored_token };
            if enabled && (t matches Some(x) && x@.len() > 0) {
                r matches SecretSync::Write { token } && Some(token) == t
            } else {
                r is Remove
            }
        }),
{
    let t = match new_token {
        Some(x) => Some(x),
        None => stored_token,
    };
    match t {
        Some(x) => {
            if enabled && !x.as_str().is_empty() {
                SecretSync::Write { token: x }
            } else {
                SecretSync::Remove
            }
        },
        None => SecretSync::Remove,
    }
}

/// The namespace ArgoCD reads repository secrets from.
pub const ARGOCD_NAMESPACE: &'static str = "argocd";

/// A repository secret of ArgoCD.
pub struct RepoSecret {
    pub name: String,
    pub namespace: String,
    /// Labels, by name.
    pub labels: Vec<(String, String)>,
    /// The secret's data, by key.
    pub data: Vec<(String, String)>,
}

/// The secret's name: "opsk-repo-" and the repository's id.
pub fn secret_name(repo_id: &str) -> (r: String)
    ensures
        r@ == "opsk-repo-"@ + repo_id@,
{
    cat("opsk-repo-", repo_id)
}

pub open spec fn pairs_view(v: Seq<(String, String)>) -> Seq<(Seq<char>, Seq<char>)> {
    v.map_values(|p: (String, String)| (p.0@, p.1@))
}

/// The secret that lets ArgoCD read the repository at `repo_url` with `token`: a git repository
/// secret managed by the platform, signing in as "x-access-token" (labels and data by key).
pub fn repo_secret(repo_id: &str, repo_url: &str, token: &str) -> (r: RepoSecret)
    ensures
        r.name@ == "opsk-repo-"@ + repo_id@,
        r.namespace@ == ARGOCD_NAMESPACE@,
        pairs_view(r.labels@) == seq![
            ("app.kubernetes.io/managed-by"@, "opsk"@),
            ("argocd.argoproj.io/secret-type"@, "repository"@),
        ],
        pairs_view(r.data@) == seq![("password"@, token@), ("type"@, "git"@), ("url"@, repo_url@), ("username"@, "x-access-token"@)],
{
    let mut labels: Vec<(String, String)> = Vec::new();
    labels.push((owned("app.kubernetes.io/managed-by"), owned("opsk")));
    labels.push((owned("argocd.argoproj.io/secret-type"), owned("repository")));
    let mut data: Vec<(String, String)> = Vec::new();
    data.push((owned("password"), owned(token)));
    data.push((owned("type"), owned("git")));
    data.push((owned("url"), owned(repo_url)));
    data.push((owned("username"), owned("x-access-token")));
    proof {
        assert(pairs_view(labels@) =~= seq![
            ("app.kubernetes.io/managed-by"@, "opsk"@),
            ("argocd.argoproj.io/secret-type"@, "repository"@),
        ]);
        assert(pairs_view(data@) =~= seq![("password"@, token@), ("type"@, "git"@), ("url"@, repo_url@), ("username"@, "x-access-token"@)]);
    }
    RepoSecret { name: secret_name(repo_id), namespace: owned(ARGOCD_NAMESPACE), labels, data }
}

/// How the removal of a secret ended: done when it was removed or was already gone (the
/// cluster answered HTTP 404); any other failure is reported with its text.
pub fn removal_outcome(removed: bool, api_status: Option<u16>, error: &str) -> (r: Result<(), String>)
    ensures
        r is Ok <==> removed || api_status == Some(404u16),
        r matches Err(e) ==> e@ == error@,
{
    if removed {
        return Ok(());
    }
    match api_status {
        Some(c) => if c == 404 {
            Ok(())
        } else {
            Err(owned(error))
        },
        None => Err(owned(error)),
    }
}

} // verus!
