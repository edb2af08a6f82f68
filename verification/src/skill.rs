//! Agent skills installed from git repositories: reading a skill's SKILL.md,
//! naming its directory, and the rules of installing and sharing skills.
use vstd::prelude::*;
use crate::auth::AppError;
use crate::pattern::{lowercase, to_lowercase};
use crate::text::{
    cat, cat3, chars_of, lines_of, occurs_at, owned, slice_range, starts_with, str_eq, str_starts_with, str_trim,
    str_trim_end_matches, str_trim_start_matches, string_from_chars, text_lines, trim, trim_end_matches,
    trim_start_matches,
};

verus! {

/// A skill found in a repository.
pub struct DiscoveredSkill {
    pub name: String,
    pub description: Option<String>,
    /// Its directory within the repository ("." for the root).
    pub path: String,
}

/// The skills found in a repository.
pub struct DiscoverResponse {
    pub git_url: String,
    pub skills: Vec<DiscoveredSkill>,
}

// ─── SKILL.md ──────────────────────────────────────────────────────────────

/// The first position at or after `i` where "---" starts in `s`; `s.len()` when none.
pub open spec fn dashes_from(s: Seq<char>, i: int) -> int
    decreases s.len() - i,
{
    if i >= s.len() {
        s.len() as int
    } else if occurs_at(s, "---"@, i) {
        i
    } else {
        dashes_from(s, i + 1)
    }
}

/// The front matter of a document that starts with "---": what lies between it and the next
/// "---"; none when there is no closing "---".
pub open spec fn front_matter(content: Seq<char>) -> Option<Seq<char>> {
    if starts_with(content, "---"@) && dashes_from(content, 3) < content.len() {
        Some(content.subrange(3, dashes_from(content, 3)))
    } else {
        None
    }
}

/// The name and description set by the front matter's lines (trimmed; "name:" and
/// "description:" lines, the last of each counting).
pub open spec fn front_matter_fields(lines: Seq<Seq<char>>) -> (Option<Seq<char>>, Option<Seq<char>>)
    decreases lines.len(),
{
    if lines.len() == 0 {
        (None, None)
    } else {
        let (n, d) = front_matter_fields(lines.drop_last());
        let l = trim(lines.last());
        if starts_with(l, "name:"@) {
            (Some(trim(l.skip(5))), d)
        } else if starts_with(l, "description:"@) {
            (n, Some(trim(l.skip(12))))
        } else {
            (n, d)
        }
    }
}

/// The first line that is a level-one heading, or none.
pub open spec fn first_heading(lines: Seq<Seq<char>>) -> Option<Seq<char>>
    decreases lines.len(),
{
    if lines.len() == 0 {
        None
    } else if starts_with(lines[0], "# "@) {
        Some(lines[0])
    } else {
        first_heading(lines.skip(1))
    }
}

/// Whether a line is body text: not blank, not a heading, not a "---" rule.
pub open spec fn body_line(l: Seq<char>) -> bool {
    trim(l).len() > 0 && !starts_with(l, "#"@) && !starts_with(l, "---"@)
}

/// The first line of body text, or none.
pub open spec fn first_body_line(lines: Seq<Seq<char>>) -> Option<Seq<char>>
    decreases lines.len(),
{
    if lines.len() == 0 {
        None
    } else if body_line(lines[0]) {
        Some(lines[0])
    } else {
        first_body_line(lines.skip(1))
    }
}

/// A skill's name and description from its SKILL.md: the front matter's fields when it names
/// the skill; else the first level-one heading (or `fallback`, the directory's name) and the
/// first line of body text.
pub open spec fn skill_meta(content: Seq<char>, fallback: Seq<char>) -> (Seq<char>, Option<Seq<char>>) {
    let fm = match front_matter(content) {
        Some(f) => front_matter_fields(text_lines(f)),
        None => (None, None),
    };
    match fm.0 {
        Some(n) => (n, fm.1),
        None => (
            match first_heading(text_lines(content)) {
                Some(h) => trim(trim_start_matches(h, "# "@)),
                None => fallback,
            },
            match first_body_line(text_lines(content)) {
                Some(l) => Some(trim(l)),
                None => None,
            },
        ),
    }
}

fn dashes_at(v: &Vec<char>, from: usize) -> (r: usize)
    requires
        from <= v@.len(),
    ensures
        r == dashes_from(v@, from as int),
        from <= r <= v@.len(),
{
    let d = chars_of("---");
    let mut i = from;
    while i < v.len()
        invariant
            from <= i <= v@.len(),
            d@ == "---"@,
            dashes_from(v@, from as int) == dashes_from(v@, i as int),
        decreases v.len() - i,
    {
        if crate::text::matches_at(v.as_slice(), d.as_slice(), i) {
            return i;
        }
        i = i + 1;
    }
    i
}

fn fields_of(lines: &Vec<String>) -> (r: (Option<String>, Option<String>))
    ensures
        (crate::text::opt_string_view(r.0), crate::text::opt_string_view(r.1)) == front_matter_fields(
            crate::text::strings_view(lines@),
        ),
{
    let ghost lv = crate::text::strings_view(lines@);
    let mut name: Option<String> = None;
    let mut desc: Option<String> = None;
    let mut i: usize = 0;
    while i < lines.len()
        invariant
            i <= lines.len(),
            lv == crate::text::strings_view(lines@),
            (crate::text::opt_string_view(name), crate::text::opt_string_view(desc)) == front_matter_fields(lv.take(i as int)),
        decreases lines.len() - i,
    {
        proof {
            crate::text::lemma_take_step(lv, i as int);
            assert(lv.take(i + 1).drop_last() =~= lv.take(i as int));
        }
        let l = str_trim(lines[i].as_str());
        let lc = chars_of(l.as_str());
        if str_starts_with(l.as_str(), "name:") {
            proof {
                reveal_strlit("name:");
            }
            name = Some(str_trim(string_from_chars(crate::text::slice_from(lc.as_slice(), 5).as_slice()).as_str()));
        } else if str_starts_with(l.as_str(), "description:") {
            proof {
                reveal_strlit("description:");
            }
            desc = Some(str_trim(string_from_chars(crate::text::slice_from(lc.as_slice(), 12).as_slice()).as_str()));
        }
        i = i + 1;
    }
    proof {
        assert(lv.take(lv.len() as int) =~= lv);
    }
    (name, desc)
}

/// A skill's name and description from the text of its SKILL.md (see `skill_meta`).
pub fn parse_skill_md(content: &str, fallback_name: &str) -> (r: (String, Option<String>))
    ensures
        (r.0@, crate::text::opt_string_view(r.1)) == skill_meta(content@, fallback_name@),
{
    let v = chars_of(content);
    let mut fm_name: Option<String> = None;
    let mut fm_desc: Option<String> = None;
    if str_starts_with(content, "---") {
        proof {
            reveal_strlit("---");
        }
        let j = dashes_at(&v, 3);
        if j < v.len() {
            let f = string_from_chars(slice_range(v.as_slice(), 3, j).as_slice());
            let lines = lines_of(f.as_str());
            proof {
                assert(crate::text::strings_view(lines@) =~= text_lines(f@));
            }
            let (n, d) = fields_of(&lines);
            fm_name = n;
            fm_desc = d;
        }
    }
    match fm_name {
        Some(n) => {
            return (n, fm_desc);
        },
        None => {},
    }
    let lines = lines_of(content);
    let ghost lv = crate::text::strings_view(lines@);
    proof {
        assert(lv =~= text_lines(content@));
    }
    let mut name: Option<String> = None;
    let mut i: usize = 0;
    proof {
        assert(lv.skip(0) =~= lv);
    }
    while i < lines.len()
        invariant_except_break
            name is None,
        invariant
            i <= lines.len(),
            lv == crate::text::strings_view(lines@),
            first_heading(lv) == first_heading(lv.skip(i as int)),
        ensures
            match name {
                Some(n) => first_heading(lv) matches Some(h) && n@ == trim(trim_start_matches(h, "# "@)),
                None => first_heading(lv) is None,
            },
        decreases lines.len() - i,
    {
        proof {
            assert(lv.skip(i as int).skip(1) =~= lv.skip(i + 1));
        }
        if str_starts_with(lines[i].as_str(), "# ") {
            proof {
                assert(lv.skip(i as int)[0] == lv[i as int]);
            }
            name = Some(str_trim(str_trim_start_matches(lines[i].as_str(), "# ").as_str()));
            break;
        }
        i = i + 1;
    }
    let name = match name {
        Some(n) => n,
        None => owned(fallback_name),
    };
    let mut desc: Option<String> = None;
    let mut k: usize = 0;
    proof {
        assert(lv.skip(0) =~= lv);
    }
    while k < lines.len()
        invariant_except_break
            desc is None,
        invariant
            k <= lines.len(),
            lv == crate::text::strings_view(lines@),
            first_body_line(lv) == first_body_line(lv.skip(k as int)),
        ensures
            match desc {
                Some(d) => first_body_line(lv) matches Some(l) && d@ == trim(l),
                None => first_body_line(lv) is None,
            },
        decreases lines.len() - k,
    {
        proof {
            assert(lv.skip(k as int).skip(1) =~= lv.skip(k + 1));
        }
        let l = lines[k].as_str();
        let t = str_trim(l);
        if !t.as_str().is_empty() && !str_starts_with(l, "#") && !str_starts_with(l, "---") {
            proof {
                assert(lv.skip(k as int)[0] == lv[k as int]);
            }
            desc = Some(t);
            break;
        }
        k = k + 1;
    }
    (name, desc)
}

// ─── Installing ────────────────────────────────────────────────────────────

/// Whether `c` is alphabetic or numeric in Unicode (what `char::is_alphanumeric` tests).
pub uninterp spec fn alphanumeric(c: char) -> bool;

/// Trusted: `char::is_alphanumeric`; among ASCII characters exactly the letters and digits are
/// alphanumeric.
#[verifier::external_body]
fn char_is_alphanumeric(c: char) -> (b: bool)
    ensures
        b == alphanumeric(c),
        (c as u32) < 128 ==> (b <==> (('a' <= c && c <= 'z') || ('A' <= c && c <= 'Z') || ('0' <= c && c <= '9'))),
{
    c.is_alphanumeric()
}

/// Every character but letters, digits, '-' and '_' made a '-'.
pub open spec fn dashed(s: Seq<char>) -> Seq<char> {
    s.map_values(|c: char| if !alphanumeric(c) && c != '-' && c != '_' { '-' } else { c })
}

/// The directory a skill is installed in: its name in lower case with other characters than
/// letters, digits, '-' and '_' made dashes and no dashes at the ends; the skill's id when
/// nothing is left.
pub open spec fn skill_dir_of(name: Seq<char>, skill_id: Seq<char>) -> Seq<char> {
    let d = trim_end_matches(trim_start_matches(dashed(lowercase(name)), "-"@), "-"@);
    if d.len() == 0 {
        skill_id
    } else {
        d
    }
}

pub fn skill_dir_name(name: &str, skill_id: &str) -> (r: String)
    ensures
        r@ == skill_dir_of(name@, skill_id@),
{
    let lower = to_lowercase(name);
    let v = chars_of(lower.as_str());
    let mut out: Vec<char> = Vec::new();
    let mut i: usize = 0;
    while i < v.len()
        invariant
            i <= v.len(),
            v@ == lowercase(name@),
            out@ == dashed(v@.take(i as int)),
        decreases v.len() - i,
    {
        let c = v[i];
        let d = if !char_is_alphanumeric(c) && c != '-' && c != '_' {
            '-'
        } else {
            c
        };
        out.push(d);
        proof {
            assert(dashed(v@.take(i + 1)) =~= dashed(v@.take(i as int)).push(d));
        }
        i = i + 1;
    }
    proof {
        assert(v@.take(v@.len() as int) =~= v@);
    }
    let s = string_from_chars(out.as_slice());
    let a = str_trim_start_matches(s.as_str(), "-");
    let t = str_trim_end_matches(a.as_str(), "-");
    if t.as_str().is_empty() {
        owned(skill_id)
    } else {
        t
    }
}

/// The visibility a skill is installed with: "tenant" or "user" as asked, anything else "user".
pub fn skill_visibility(asked: &str) -> (r: String)
    ensures
        r@ == (if asked@ == "tenant"@ { "tenant"@ } else { "user"@ }),
{
    if str_eq(asked, "tenant") {
        owned("tenant")
    } else {
        owned("user")
    }
}

/// Checks an install request: a repository URL (trimmed) and at least one skill to install.
pub fn check_install_request(git_url: &str, selected_count: usize) -> (r: Result<String, AppError>)
    ensures
        match r {
            Ok(u) => u@ == trim(git_url@) && u@.len() > 0 && selected_count > 0,
            Err(e) => e.is_bad_request() && if trim(git_url@).len() == 0 {
                e.spec_message() == "git_url is required"@
            } else {
                selected_count == 0 && e.spec_message() == "At least one skill must be selected"@
            },
        },
{
    let u = str_trim(git_url);
    if u.as_str().is_empty() {
        return Err(AppError::BadRequest(owned("git_url is required")));
    }
    if selected_count == 0 {
        return Err(AppError::BadRequest(owned("At least one skill must be selected")));
    }
    Ok(u)
}

/// Checks a discovery request: a repository URL, trimmed.
pub fn check_discover_request(git_url: &str) -> (r: Result<String, AppError>)
    ensures
        match r {
            Ok(u) => u@ == trim(git_url@) && u@.len() > 0,
            Err(e) => e.is_bad_request() && e.spec_message() == "git_url is required"@ && trim(git_url@).len() == 0,
        },
{
    let u = str_trim(git_url);
    if u.as_str().is_empty() {
        Err(AppError::BadRequest(owned("git_url is required")))
    } else {
        Ok(u)
    }
}

/// The source recorded for an installed skill: the repository, with "#<path>" for a skill
/// below its root.
pub fn stored_source(git_url: &str, selected_path: &str) -> (r: String)
    ensures
        r@ == (if selected_path@ == "."@ { git_url@ } else { git_url@ + "#"@ + selected_path@ }),
{
    if str_eq(selected_path, ".") {
        owned(git_url)
    } else {
        cat3(git_url, "#", selected_path)
    }
}

/// A recorded source split into the repository and the skill's path within it (at the first
/// '#').
pub open spec fn split_source(s: Seq<char>) -> (Seq<char>, Option<Seq<char>>) {
    let i = crate::text::idx_of(s, '#', 0);
    if i < s.len() {
        (s.take(i), Some(s.skip(i + 1)))
    } else {
        (s, None)
    }
}

pub fn source_parts(stored: &str) -> (r: (String, Option<String>))
    ensures
        (r.0@, crate::text::opt_string_view(r.1)) == split_source(stored@),
{
    let v = chars_of(stored);
    let i = crate::text::find_char(v.as_slice(), '#', 0);
    if i < v.len() {
        (string_from_chars(slice_range(v.as_slice(), 0, i).as_slice()), Some(string_from_chars(crate::text::slice_from(v.as_slice(), i + 1).as_slice())))
    } else {
        (owned(stored), None)
    }
}

/// The outcome of an install: refused when no skill could be installed.
pub fn install_outcome(installed: usize) -> (r: Result<(), AppError>)
    ensures
        r is Ok <==> installed > 0,
        r matches Err(e) ==> e == AppError::Internal(e->Internal_0) && e->Internal_0@ == "No skills were installed successfully"@,
{
    if installed == 0 {
        Err(AppError::Internal(owned("No skills were installed successfully")))
    } else {
        Ok(())
    }
}

/// Whether discovery looks inside a sub-directory: not in ".git", "node_modules", ".github" or
/// "target".
pub fn scanned_subdir(name: &str) -> (b: bool)
    ensures
        b == !(name@ == ".git"@ || name@ == "node_modules"@ || name@ == ".github"@ || name@ == "target"@),
{
    !(str_eq(name, ".git") || str_eq(name, "node_modules") || str_eq(name, ".github") || str_eq(name, "target"))
}

/// A found skill's path in the repository: "." for the root.
pub fn skill_path(rel: &str) -> (r: String)
    ensures
        r@ == (if rel@.len() == 0 { "."@ } else { rel@ }),
{
    if rel.is_empty() {
        owned(".")
    } else {
        owned(rel)
    }
}

/// The refusal of a repository without skills.
pub fn no_skill_found() -> (e: AppError)
    ensures
        e.is_bad_request(),
        e.spec_message() == "No SKILL.md found in repository. Ensure the repo contains a SKILL.md file (root, skills/*/, or any subdirectory)."@,
{
    AppError::BadRequest(owned("No SKILL.md found in repository. Ensure the repo contains a SKILL.md file (root, skills/*/, or any subdirectory)."))
}

/// Whether a file name is a skill's SKILL.md, in any letter case.
pub fn is_skill_md(name: &str) -> (b: bool)
    ensures
        b == (lowercase(name@) == "skill.md"@),
{
    str_eq(to_lowercase(name).as_str(), "skill.md")
}

// ─── Access ────────────────────────────────────────────────────────────────

/// Whether a user may change a skill: a super admin, its owner, or a member of the tenant it is
/// shared with.
pub open spec fn may_manage_skill(
    is_super_admin: bool,
    user: crate::auth::Id,
    user_tenant: Option<crate::auth::Id>,
    owner: Option<crate::auth::Id>,
    visibility: Seq<char>,
    skill_tenant: Option<crate::auth::Id>,
) -> bool {
    is_super_admin || owner == Some(user) || (visibility == "tenant"@ && skill_tenant == user_tenant)
}

pub fn check_skill_access(
    is_super_admin: bool,
    user: crate::auth::Id,
    user_tenant: Option<crate::auth::Id>,
    owner: Option<crate::auth::Id>,
    visibility: &str,
    skill_tenant: Option<crate::auth::Id>,
) -> (r: Result<(), AppError>)
    ensures
        r is Ok <==> may_manage_skill(is_super_admin, user, user_tenant, owner, visibility@, skill_tenant),
        r matches Err(e) ==> e.is_forbidden() && e.spec_message() == "No access to this skill"@,
{
    let owns = match owner {
        Some(o) => o == user,
        None => false,
    };
    let same_tenant = match (skill_tenant, user_tenant) {
        (Some(a), Some(b)) => a == b,
        (None, None) => true,
        _ => false,
    };
    if is_super_admin || owns || (str_eq(visibility, "tenant") && same_tenant) {
        Ok(())
    } else {
        Err(AppError::Forbidden(owned("No access to this skill")))
    }
}

// ─── Discovery ─────────────────────────────────────────────────────────────

pub open spec fn keyed_by_name(s: Seq<DiscoveredSkill>) -> Seq<(DiscoveredSkill, String)> {
    s.map_values(|d: DiscoveredSkill| (d, d.name))
}

pub open spec fn firsts(s: Seq<(DiscoveredSkill, String)>) -> Seq<DiscoveredSkill> {
    s.map_values(|p: (DiscoveredSkill, String)| p.0)
}

/// The skills found in a repository, by name (skills of the same name in the order found); a
/// repository without skills is refused.
pub fn discover_outcome(git_url: String, found: Vec<DiscoveredSkill>) -> (r: Result<DiscoverResponse, AppError>)
    ensures
        match r {
            Ok(d) => found@.len() > 0 && d.git_url == git_url
                && d.skills@ == firsts(crate::order::stable_sort(keyed_by_name(found@), false)),
            Err(e) => found@.len() == 0 && e.is_bad_request()
                && e.spec_message() == "No SKILL.md found in repository. Ensure the repo contains a SKILL.md file (root, skills/*/, or any subdirectory)."@,
        },
{
    if found.len() == 0 {
        return Err(no_skill_found());
    }
    let ghost all = found@;
    let mut found = found;
    let mut keyed: Vec<(DiscoveredSkill, String)> = Vec::new();
    let mut done: usize = 0;
    let n0 = found.len();
    proof {
        assert(all.skip(0) =~= all);
    }
    while found.len() > 0
        invariant
            done + found@.len() == all.len(),
            all.len() == n0,
            found@ == all.skip(done as int),
            keyed@ == keyed_by_name(all.take(done as int)),
        decreases found@.len(),
    {
        let d = found.remove(0);
        let k = d.name.clone();
        proof {
            assert(all[done as int] == d);
            assert(found@ =~= all.skip(done + 1));
        }
        keyed.push((d, k));
        proof {
            assert(keyed@ =~= keyed_by_name(all.take(done + 1)));
        }
        done = done + 1;
    }
    proof {
        assert(all.take(all.len() as int) =~= all);
    }
    let sorted = crate::order::sort_by_key(keyed, false);
    let ghost sv = sorted@;
    let mut sorted = sorted;
    let mut skills: Vec<DiscoveredSkill> = Vec::new();
    let mut j: usize = 0;
    let m0 = sorted.len();
    proof {
        assert(sv.skip(0) =~= sv);
    }
    while sorted.len() > 0
        invariant
            j + sorted@.len() == sv.len(),
            sv.len() == m0,
            sorted@ == sv.skip(j as int),
            skills@ == firsts(sv.take(j as int)),
        decreases sorted@.len(),
    {
        let (d, _k) = sorted.remove(0);
        proof {
            assert(sv[j as int].0 == d);
            assert(sorted@ =~= sv.skip(j + 1));
        }
        skills.push(d);
        proof {
            assert(skills@ =~= firsts(sv.take(j + 1)));
        }
        j = j + 1;
    }
    proof {
        assert(sv.take(sv.len() as int) =~= sv);
    }
    Ok(DiscoverResponse { git_url, skills })
}


/// The refusal of a repository that could not be cloned, with git's trimmed error output.
pub fn clone_failure(stderr: &str) -> (e: AppError)
    ensures
        e == AppError::BadRequest(e->BadRequest_0),
        e->BadRequest_0@ == "Git clone failed: "@ + trim(stderr@),
{
    let t = str_trim(stderr);
    AppError::BadRequest(cat("Git clone failed: ", t.as_str()))
}

/// Where an installed skill is refreshed from: its directory, and the repository and path it
/// was installed from (see `split_source`).  A skill without both cannot be refreshed.
pub fn update_source(repo_path: &Option<String>, git_url: &Option<String>) -> (r: Result<
    (String, String, Option<String>),
    AppError,
>)
    ensures
        match (repo_path, git_url) {
            (Some(p), Some(g)) => r matches Ok((dir, url, sub)) && dir == p && (url@, crate::text::opt_string_view(sub))
                == split_source(g@),
            _ => r matches Err(e) && e.is_bad_request() && e.spec_message()
                == "Skill has no repo_path or git_url, cannot update"@,
        },
{
    match (repo_path, git_url) {
        (Some(p), Some(g)) => {
            let (url, sub) = source_parts(g.as_str());
            Ok((p.clone(), url, sub))
        },
        _ => Err(AppError::BadRequest(owned("Skill has no repo_path or git_url, cannot update"))),
    }
}


proof fn lemma_first_hash(s: Seq<char>, k: int)
    requires
        0 <= k < s.len(),
        s[k] == '#',
        forall|j: int| 0 <= j < k ==> s[j] != '#',
    ensures
        crate::text::idx_of(s, '#', 0) == k,
{
    crate::text::lemma_idx_of_bounds(s, '#', 0);
    let i = crate::text::idx_of(s, '#', 0);
    if i < k {
        assert(s[i] == '#');
    }
}

/// What `stored_source` records, `source_parts` splits back: the repository's address and, for
/// a skill below the root, its path (when the address itself has no '#').
pub proof fn law_source_round_trip(git_url: Seq<char>, path: Seq<char>)
    requires
        !git_url.contains('#'),
    ensures
        path != "."@ ==> split_source(git_url + "#"@ + path) == (git_url, Some(path)),
        split_source(git_url) == (git_url, None::<Seq<char>>),
{
    reveal_strlit("#");
    let s = git_url + "#"@ + path;
    assert(s[git_url.len() as int] == '#');
    assert forall|j: int| 0 <= j < git_url.len() implies s[j] != '#' by {
        assert(s[j] == git_url[j]);
        if git_url[j] == '#' {
            assert(git_url.contains('#'));
        }
    }
    lemma_first_hash(s, git_url.len() as int);
    assert(s.take(git_url.len() as int) =~= git_url);
    assert(s.skip(git_url.len() as int + 1) =~= path);
    crate::text::lemma_idx_of_bounds(git_url, '#', 0);
    if crate::text::idx_of(git_url, '#', 0) < git_url.len() {
        assert(git_url.contains('#'));
    }
}

} // verus!
