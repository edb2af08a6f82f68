//! Source references in Python tracebacks, and the source excerpts shown to
//! the RCA agent around them.
use vstd::prelude::*;
use crate::pattern::{captures_of, group_view, match_view, matches_view, regex_captures};
use crate::text::{
    cat, chars_of, contains, dec, has_prefix, join, join_strings, lines_of, owned, pad_left,
    parse_usize_str, right4, slice_from, starts_with, std_parse_usize, str_contains, str_starts_with,
    str_trim_start_matches, string_from_chars, text_lines, trim_start_matches, u64_to_string,
};

verus! {

/// A source file position named in a traceback.
pub struct FileRef {
    pub file_path: String,
    pub line_number: usize,
    pub function_name: Option<String>,
}

/// The traceback frame pattern: `File "<path>", line <n>` optionally followed by `, in <name>`.
pub const TRACEBACK_PATTERN: &'static str = "File \"([^\"]+)\", line (\\d+)(?:, in (\\w+))?";

/// Group `i` (counted from 0 for capture group 1) of one match.
pub open spec fn group_at(m: Seq<Option<Seq<char>>>, i: int) -> Option<Seq<char>> {
    if 0 <= i < m.len() {
        m[i]
    } else {
        None
    }
}

/// The path with any leading "/app/" and then any leading "./" removed.
pub open spec fn normalized_path(raw: Seq<char>) -> Seq<char> {
    trim_start_matches(trim_start_matches(raw, "/app/"@), "./"@)
}

/// Paths of installed packages and of the interpreter, which are not the application's code.
pub open spec fn is_library_path(p: Seq<char>) -> bool {
    contains(p, "site-packages"@) || starts_with(p, "/usr/"@) || starts_with(p, "/lib/"@)
}

/// The reference one frame match stands for: normalized path, line number (0 when it does not
/// parse), function name.
pub open spec fn ref_of(m: Seq<Option<Seq<char>>>) -> (Seq<char>, usize, Option<Seq<char>>) {
    let raw = match group_at(m, 0) {
        Some(s) => s,
        None => Seq::empty(),
    };
    let line = match group_at(m, 1) {
        Some(d) => match std_parse_usize(d) {
            Some(n) => n,
            None => 0,
        },
        None => 0,
    };
    (normalized_path(raw), line, group_at(m, 2))
}

/// The references of a list of frame matches: library frames left out, and each (path, line)
/// kept once, at its first appearance.
pub open spec fn refs_from(ms: Seq<Seq<Option<Seq<char>>>>) -> Seq<(Seq<char>, usize, Option<Seq<char>>)>
    decreases ms.len(),
{
    if ms.len() == 0 {
        Seq::empty()
    } else {
        let prev = refs_from(ms.drop_last());
        let r = ref_of(ms.last());
        if is_library_path(r.0) || exists|k: int| 0 <= k < prev.len() && (#[trigger] prev[k]).0 == r.0 && prev[k].1 == r.1 {
            prev
        } else {
            prev.push(r)
        }
    }
}

pub open spec fn ref_view(f: FileRef) -> (Seq<char>, usize, Option<Seq<char>>) {
    (f.file_path@, f.line_number, group_view(f.function_name))
}

fn group(m: &Vec<Option<String>>, i: usize) -> (r: Option<String>)
    ensures
        group_view(r) == group_at(match_view(*m), i as int),
{
    if i < m.len() {
        match &m[i] {
            Some(s) => Some(s.clone()),
            None => None,
        }
    } else {
        None
    }
}

fn same_key(refs: &Vec<FileRef>, path: &str, line: usize) -> (b: bool)
    ensures
        b == exists|k: int| 0 <= k < refs@.len() && (#[trigger] refs@[k]).file_path@ == path@ && refs@[k].line_number == line,
{
    let mut i: usize = 0;
    while i < refs.len()
        invariant
            i <= refs.len(),
            forall|k: int| 0 <= k < i ==> !((#[trigger] refs@[k]).file_path@ == path@ && refs@[k].line_number == line),
        decreases refs.len() - i,
    {
        if crate::text::str_eq(refs[i].file_path.as_str(), path) && refs[i].line_number == line {
            return true;
        }
        i = i + 1;
    }
    false
}

/// The file references of a list of traceback frame matches (see `refs_from`).
pub fn file_refs_from_captures(caps: &Vec<Vec<Option<String>>>) -> (r: Vec<FileRef>)
    ensures
        r@.len() == refs_from(matches_view(caps@)).len(),
        forall|i: int| 0 <= i < r@.len() ==> ref_view(#[trigger] r@[i]) == refs_from(matches_view(caps@))[i],
{
    let ghost ms = matches_view(caps@);
    let mut refs: Vec<FileRef> = Vec::new();
    let mut i: usize = 0;
    while i < caps.len()
        invariant
            i <= caps.len(),
            ms == matches_view(caps@),
            refs@.len() == refs_from(ms.take(i as int)).len(),
            forall|j: int| 0 <= j < refs@.len() ==> ref_view(#[trigger] refs@[j]) == refs_from(ms.take(i as int))[j],
        decreases caps.len() - i,
    {
        let m = &caps[i];
        proof {
            assert(ms.take(i + 1).drop_last() =~= ms.take(i as int));
            assert(ms.take(i + 1).last() == match_view(*m));
        }
        let raw = match group(m, 0) {
            Some(s) => s,
            None => String::new(),
        };
        let line: usize = match group(m, 1) {
            Some(d) => match parse_usize_str(d.as_str()) {
                Some(n) => n,
                None => 0,
            },
            None => 0,
        };
        let func = group(m, 2);
        let step = str_trim_start_matches(raw.as_str(), "/app/");
        let path = str_trim_start_matches(step.as_str(), "./");
        let ghost prev = refs_from(ms.take(i as int));
        proof {
            assert(ref_of(match_view(*m)) == (path@, line, group_view(func)));
        }
        let library = str_contains(path.as_str(), "site-packages") || str_starts_with(path.as_str(), "/usr/")
            || str_starts_with(path.as_str(), "/lib/");
        if !library {
            let dup = same_key(&refs, path.as_str(), line);
            proof {
                if dup {
                    let k = choose|k: int| 0 <= k < refs@.len() && (#[trigger] refs@[k]).file_path@ == path@ && refs@[k].line_number == line;
                    assert(prev[k] == ref_view(refs@[k]));
                }
                if exists|k: int| 0 <= k < prev.len() && (#[trigger] prev[k]).0 == path@ && prev[k].1 == line {
                    let k = choose|k: int| 0 <= k < prev.len() && (#[trigger] prev[k]).0 == path@ && prev[k].1 == line;
                    assert(ref_view(refs@[k]) == prev[k]);
                }
            }
            if !dup {
                refs.push(FileRef { file_path: path, line_number: line, function_name: func });
            }
        }
        i = i + 1;
    }
    proof {
        assert(ms.take(ms.len() as int) =~= ms);
    }
    refs
}

/// The file references in a Python traceback, in order of first appearance, without library
/// frames and without repeats of a (path, line).
pub fn extract_file_refs(traceback: &str) -> (r: Vec<FileRef>)
    ensures
        r@.len() == refs_from(captures_of(TRACEBACK_PATTERN@, traceback@)).len(),
        forall|i: int|
            0 <= i < r@.len() ==> ref_view(#[trigger] r@[i]) == refs_from(captures_of(TRACEBACK_PATTERN@, traceback@))[i],
{
    let caps = regex_captures(TRACEBACK_PATTERN, traceback);
    file_refs_from_captures(&caps)
}

// ─── Excerpts ──────────────────────────────────────────────────────────────

pub open spec fn sat_sub(a: int, b: int) -> int {
    if a >= b { a - b } else { 0 }
}

pub open spec fn min_int(a: int, b: int) -> int {
    if a <= b { a } else { b }
}

/// Row `num` (1-based) of a traceback excerpt, marked when it is the referenced line.
pub open spec fn excerpt_row(lines: Seq<Seq<char>>, num: int, mark: int) -> Seq<char> {
    (if num == mark { ">>>"@ } else { "   "@ }) + " "@ + pad_left(dec(num as nat), 4) + " | "@ + lines[num - 1] + "\n"@
}

/// Rows `start + 1 ..= end` of an excerpt.
pub open spec fn excerpt_rows(lines: Seq<Seq<char>>, start: int, end: int, mark: int) -> Seq<char>
    decreases end - start,
{
    if end <= start {
        Seq::empty()
    } else {
        excerpt_rows(lines, start, end - 1, mark) + excerpt_row(lines, end, mark)
    }
}

/// Where the excerpt around line `n` of a `total`-line file starts and ends: ten lines before
/// to ten lines after, clipped to the file.
pub open spec fn excerpt_bounds(n: int, total: int) -> (int, int) {
    let target = sat_sub(n, 1);
    (sat_sub(target, 10), min_int(target + 11, total))
}

/// The excerpt of `content` around the reference `f`.
pub open spec fn snippet_text(f: (Seq<char>, usize, Option<Seq<char>>), content: Seq<char>) -> Seq<char> {
    let lines = text_lines(content);
    let (start, end) = excerpt_bounds(f.1 as int, lines.len() as int);
    "### "@ + f.0 + " (line "@ + dec(f.1 as nat) + ", "@ + dec(lines.len()) + " total lines)"@ + (match f.2 {
        Some(func) => " — in `"@ + func + "`"@,
        None => Seq::empty(),
    }) + "\n```python\n"@ + excerpt_rows(lines, start, end, f.1 as int) + "```\n"@
}

fn usize_text(n: usize) -> (r: String)
    ensures
        r@ == dec(n as nat),
{
    u64_to_string(n as u64)
}

fn excerpt_row_of(lines: &Vec<String>, num: usize, mark: usize) -> (r: String)
    requires
        1 <= num <= lines@.len(),
    ensures
        r@ == excerpt_row(lines@.map_values(|l: String| l@), num as int, mark as int),
{
    let mut out = if num == mark { owned(">>>") } else { owned("   ") };
    out.append(" ");
    out.append(right4(num as u64).as_str());
    out.append(" | ");
    out.append(lines[num - 1].as_str());
    out.append("\n");
    out
}

fn range_row_of(lines: &Vec<String>, num: usize) -> (r: String)
    requires
        1 <= num <= lines@.len(),
    ensures
        r@ == range_row(lines@.map_values(|l: String| l@), num as int),
{
    let mut out = right4(num as u64);
    out.append(" | ");
    out.append(lines[num - 1].as_str());
    out.append("\n");
    out
}

/// The excerpt of `content` (the source of `f.file_path`) around line `f.line_number`.  The
/// excerpt must not start past the end of the file.
pub fn source_snippet(f: &FileRef, content: &str) -> (r: String)
    requires
        f.line_number <= usize::MAX - 11,
        excerpt_bounds(f.line_number as int, text_lines(content@).len() as int).0 <= excerpt_bounds(
            f.line_number as int,
            text_lines(content@).len() as int,
        ).1,
    ensures
        r@ == snippet_text(ref_view(*f), content@),
{
    let lines = lines_of(content);
    let ghost lv = lines@.map_values(|l: String| l@);
    let total = lines.len();
    let target = if f.line_number >= 1 { f.line_number - 1 } else { 0 };
    let start = if target >= 10 { target - 10 } else { 0 };
    let end = if target + 11 <= total { target + 11 } else { total };
    let mut out = owned("### ");
    out.append(f.file_path.as_str());
    out.append(" (line ");
    out.append(usize_text(f.line_number).as_str());
    out.append(", ");
    out.append(usize_text(total).as_str());
    out.append(" total lines)");
    match &f.function_name {
        Some(func) => {
            out.append(" — in `");
            out.append(func.as_str());
            out.append("`");
        },
        None => {},
    }
    out.append("\n```python\n");
    let ghost head = out@;
    let mut num = start;
    while num < end
        invariant
            start <= num <= end <= total,
            total == lines@.len(),
            lv == lines@.map_values(|l: String| l@),
            out@ == head + excerpt_rows(lv, start as int, num as int, f.line_number as int),
        decreases end - num,
    {
        num = num + 1;
        let row = excerpt_row_of(&lines, num, f.line_number);
        out.append(row.as_str());
        proof {
            assert(out@ =~= head + excerpt_rows(lv, start as int, num as int, f.line_number as int));
        }
    }
    out.append("```\n");
    proof {
        assert(lv.len() == total);
    }
    out
}

/// The excerpts of the fetched files, one per paragraph, or a note that none could be fetched.
pub fn source_context_text(sections: &Vec<String>) -> (r: String)
    ensures
        sections@.len() == 0 ==> r@ == "(Could not fetch source code from GitHub)"@,
        sections@.len() > 0 ==> r@ == join(sections@.map_values(|p: String| p@), "\n"@),
{
    if sections.len() == 0 {
        owned("(Could not fetch source code from GitHub)")
    } else {
        join_strings(sections, "\n")
    }
}

/// The GitHub Contents API address of `path` in `repo` ("owner/repo").
pub fn contents_url(repo: &str, path: &str) -> (r: String)
    ensures
        r@ == "https://api.github.com/repos/"@ + repo@ + "/contents/"@ + trim_start_matches(path@, "/"@),
{
    let p = str_trim_start_matches(path, "/");
    let mut out = owned("https://api.github.com/repos/");
    out.append(repo);
    out.append("/contents/");
    out.append(p.as_str());
    out
}

/// The repository paths tried for a traceback file: under `app/` first, then as given.
pub fn context_paths(file_path: &str) -> (r: Vec<String>)
    ensures
        r@.len() == 2,
        r@[0]@ == "app/"@ + file_path@,
        r@[1]@ == file_path@,
{
    let mut v: Vec<String> = Vec::new();
    v.push(cat("app/", file_path));
    v.push(owned(file_path));
    v
}

/// The last '/'-separated part of `s` (all of `s` when it has no '/').
pub open spec fn last_segment(s: Seq<char>) -> Seq<char>
    decreases s.len(),
{
    if s.len() == 0 {
        s
    } else if s.last() == '/' {
        Seq::empty()
    } else {
        last_segment(s.drop_last()).push(s.last())
    }
}

/// `file_path` without leading '/' and without a leading repository name (and the '/' after
/// it); `file_path` unchanged when it does not start with the repository name.
pub open spec fn cleaned_path(repo: Seq<char>, file_path: Seq<char>) -> Seq<char> {
    let t = trim_start_matches(file_path, "/"@);
    let name = last_segment(repo);
    if starts_with(t, name) {
        trim_start_matches(t.skip(name.len() as int), "/"@)
    } else {
        file_path
    }
}

fn last_segment_of(s: &str) -> (r: Vec<char>)
    ensures
        r@ == last_segment(s@),
{
    let v = chars_of(s);
    let mut k: usize = v.len();
    proof {
        assert(v@.take(v@.len() as int) =~= v@);
        assert(v@ + v@.skip(v@.len() as int) =~= v@);
    }
    while k > 0 && v[k - 1] != '/'
        invariant
            k <= v.len(),
            last_segment(v@) == last_segment(v@.take(k as int)) + v@.skip(k as int),
        decreases k,
    {
        proof {
            let t = v@.take(k as int);
            assert(t.drop_last() =~= v@.take(k - 1));
            assert(v@.skip(k - 1) =~= seq![v@[k - 1]] + v@.skip(k as int));
            assert(last_segment(t) == last_segment(v@.take(k - 1)).push(v@[k - 1]));
            assert(last_segment(v@.take(k - 1)).push(v@[k - 1]) + v@.skip(k as int) =~= last_segment(v@.take(k - 1))
                + v@.skip(k - 1));
        }
        k = k - 1;
    }
    proof {
        assert(v@.take(v@.len() as int) =~= v@);
        assert(v@.skip(v@.len() as int) =~= Seq::<char>::empty());
        assert(last_segment(v@) =~= last_segment(v@).take(last_segment(v@).len() as int));
        if k > 0 {
            assert(v@.take(k as int).last() == '/');
        }
        assert(last_segment(v@.take(k as int)) =~= Seq::<char>::empty());
    }
    slice_from(v.as_slice(), k)
}

/// The paths tried for a file asked for by the agent: the cleaned path, the cleaned path under
/// `app/`, and the path as given.
pub fn range_paths(repo: &str, file_path: &str) -> (r: Vec<String>)
    ensures
        r@.len() == 3,
        r@[0]@ == cleaned_path(repo@, file_path@),
        r@[1]@ == "app/"@ + cleaned_path(repo@, file_path@),
        r@[2]@ == file_path@,
{
    let name = last_segment_of(repo);
    let t = chars_of(str_trim_start_matches(file_path, "/").as_str());
    let cleaned = if has_prefix(t.as_slice(), name.as_slice()) {
        let rest = slice_from(t.as_slice(), name.len());
        let rest_s = string_from_chars(rest.as_slice());
        str_trim_start_matches(rest_s.as_str(), "/")
    } else {
        owned(file_path)
    };
    let mut v: Vec<String> = Vec::new();
    v.push(cleaned.clone());
    v.push(cat("app/", cleaned.as_str()));
    v.push(owned(file_path));
    v
}

/// Row `num` of a line-range listing.
pub open spec fn range_row(lines: Seq<Seq<char>>, num: int) -> Seq<char> {
    pad_left(dec(num as nat), 4) + " | "@ + lines[num - 1] + "\n"@
}

pub open spec fn range_rows(lines: Seq<Seq<char>>, start: int, end: int) -> Seq<char>
    decreases end - start,
{
    if end <= start {
        Seq::empty()
    } else {
        range_rows(lines, start, end - 1) + range_row(lines, end)
    }
}

/// What `fetch_source_range` answers for `content`: the whole file when both bounds are 0,
/// the numbered lines `start_line..=end_line` clipped to the file, or an error for an empty range.
pub open spec fn range_text(file_path: Seq<char>, content: Seq<char>, start_line: usize, end_line: usize) -> Result<
    Seq<char>,
    Seq<char>,
> {
    let lines = text_lines(content);
    let total = lines.len() as int;
    if start_line == 0 && end_line == 0 {
        Ok("// "@ + file_path + " ("@ + dec(total as nat) + " lines)\n"@ + content)
    } else {
        let start = min_int(sat_sub(start_line as int, 1), total);
        let end = min_int(end_line as int, total);
        if start >= end {
            Err("Invalid range "@ + dec(start_line as nat) + "-"@ + dec(end_line as nat) + " for file with "@ + dec(
                total as nat,
            ) + " lines"@)
        } else {
            Ok("// "@ + file_path + " lines "@ + dec(start_line as nat) + "-"@ + dec(end_line as nat) + " (of "@ + dec(
                total as nat,
            ) + ")\n"@ + range_rows(lines, start, end))
        }
    }
}

/// The listing of lines `start_line..=end_line` (1-based) of `content`, the source of
/// `file_path`; see `range_text`.
pub fn render_range(file_path: &str, content: &str, start_line: usize, end_line: usize) -> (r: Result<String, String>)
    ensures
        match r {
            Ok(t) => range_text(file_path@, content@, start_line, end_line) == Ok::<Seq<char>, Seq<char>>(t@),
            Err(e) => range_text(file_path@, content@, start_line, end_line) == Err::<Seq<char>, Seq<char>>(e@),
        },
{
    let lines = lines_of(content);
    let ghost lv = lines@.map_values(|l: String| l@);
    let total = lines.len();
    if start_line == 0 && end_line == 0 {
        let mut out = owned("// ");
        out.append(file_path);
        out.append(" (");
        out.append(usize_text(total).as_str());
        out.append(" lines)\n");
        out.append(content);
        return Ok(out);
    }
    let s0 = if start_line >= 1 { start_line - 1 } else { 0 };
    let start = if s0 <= total { s0 } else { total };
    let end = if end_line <= total { end_line } else { total };
    if start >= end {
        let mut e = owned("Invalid range ");
        e.append(usize_text(start_line).as_str());
        e.append("-");
        e.append(usize_text(end_line).as_str());
        e.append(" for file with ");
        e.append(usize_text(total).as_str());
        e.append(" lines");
        return Err(e);
    }
    let mut out = owned("// ");
    out.append(file_path);
    out.append(" lines ");
    out.append(usize_text(start_line).as_str());
    out.append("-");
    out.append(usize_text(end_line).as_str());
    out.append(" (of ");
    out.append(usize_text(total).as_str());
    out.append(")\n");
    let ghost head = out@;
    let mut num = start;
    while num < end
        invariant
            start <= num <= end <= total,
            total == lines@.len(),
            lv == lines@.map_values(|l: String| l@),
            out@ == head + range_rows(lv, start as int, num as int),
        decreases end - num,
    {
        num = num + 1;
        let row = range_row_of(&lines, num);
        out.append(row.as_str());
        proof {
            assert(out@ =~= head + range_rows(lv, start as int, num as int));
        }
    }
    Ok(out)
}

// ─── Repository settings ───────────────────────────────────────────────────

/// Whether `p` occurs in `s` at `i` and nowhere after.
pub open spec fn last_occurrence(s: Seq<char>, p: Seq<char>, i: int) -> bool {
    crate::text::occurs_at(s, p, i) && forall|j: int| i < j ==> !crate::text::occurs_at(s, p, j)
}

/// What follows the last occurrence of `p` in `s`; all of `s` when `p` does not occur.
pub open spec fn after_last(s: Seq<char>, p: Seq<char>) -> Seq<char> {
    if exists|i: int| last_occurrence(s, p, i) {
        let i = choose|i: int| last_occurrence(s, p, i);
        s.skip(i + p.len())
    } else {
        s
    }
}

/// The "owner/repo" of a repository URL: without trailing slashes and ".git", what follows
/// the last "github.com/".
pub open spec fn owner_repo_of(url: Seq<char>) -> Seq<char> {
    after_last(crate::text::trim_end_matches(crate::text::trim_end_matches(url, "/"@), ".git"@), "github.com/"@)
}

pub fn owner_repo(url: &str) -> (r: String)
    ensures
        r@ == owner_repo_of(url@),
{
    let a = crate::text::str_trim_end_matches(url, "/");
    let b = crate::text::str_trim_end_matches(a.as_str(), ".git");
    let v = chars_of(b.as_str());
    let p = chars_of("github.com/");
    let ghost pat = "github.com/"@;
    assert(p@ == pat);
    assert(b@ == crate::text::trim_end_matches(crate::text::trim_end_matches(url@, "/"@), ".git"@));
    let mut i: usize = v.len();
    loop
        invariant
            i <= v.len(),
            v@ == b@,
            p@ == pat,
            pat == "github.com/"@,
            b@ == crate::text::trim_end_matches(crate::text::trim_end_matches(url@, "/"@), ".git"@),
            forall|j: int| i < j ==> !#[trigger] crate::text::occurs_at(v@, p@, j),
        decreases i,
    {
        if crate::text::matches_at(v.as_slice(), p.as_slice(), i) {
            proof {
                assert(last_occurrence(b@, pat, i as int));
                let c = choose|c: int| last_occurrence(b@, pat, c);
                assert(c == i) by {
                    if c < i {
                        assert(crate::text::occurs_at(b@, pat, i as int));
                    } else if c > i {
                        assert(!crate::text::occurs_at(v@, p@, c));
                    }
                }
                assert(after_last(b@, pat) == b@.skip(i + pat.len()));
                assert(owner_repo_of(url@) == after_last(b@, pat));
            }
            let r = string_from_chars(slice_from(v.as_slice(), i + p.len()).as_slice());
            assert(r@ == b@.skip(i + pat.len()));
            return r;
        }
        if i == 0 {
            proof {
                assert forall|c: int| !last_occurrence(b@, pat, c) by {
                    if c > 0 {
                        assert(!crate::text::occurs_at(v@, p@, c));
                    }
                }
                assert(!(exists|c: int| last_occurrence(b@, pat, c)));
                assert(after_last(b@, pat) == b@);
                assert(owner_repo_of(url@) == after_last(b@, pat));
            }
            return b;
        }
        i = i - 1;
    }
}

/// Where the GitHub token comes from.
pub enum TokenSource {
    /// A secret to fetch from the secrets store, by its ARN.
    Secret(String),
    /// The token itself.
    Plain(String),
}

/// The repository the source code is read from, and its token.
pub struct GithubSource {
    pub repo: String,
    pub token: TokenSource,
}

/// The repository and token to read source code with: the first enabled pipeline repository
/// (`row`: its URL and stored token or secret ARN) when there is one, which must have a token;
/// else the deployment's settings, which must name both.
pub fn github_source(row: Option<(String, Option<String>)>, env_token: Option<String>, env_repo: Option<String>) -> (r: Result<GithubSource, crate::auth::AppError>)
    ensures
        match row {
            Some((url, secret)) => match secret {
                Some(v) => if v@.len() > 0 {
                    r matches Ok(g) && g.repo@ == owner_repo_of(url@) && if starts_with(v@, "arn:"@) {
                        g.token == TokenSource::Secret(v)
                    } else {
                        g.token == TokenSource::Plain(v)
                    }
                } else {
                    r matches Err(e) && e.is_bad_request() && e.spec_message() == "GitHub repo found but no PAT token configured"@
                },
                None => r matches Err(e) && e.is_bad_request() && e.spec_message() == "GitHub repo found but no PAT token configured"@,
            },
            None => match (env_token, env_repo) {
                (Some(t), Some(rp)) => r matches Ok(g) && g.repo == rp && g.token == TokenSource::Plain(t),
                (None, _) => r matches Err(e) && e.is_bad_request()
                    && e.spec_message() == "No GitHub repo configured. Add one in Settings → Repos."@,
                (Some(_), None) => r matches Err(e) && e.is_bad_request() && e.spec_message() == "GITHUB_REPO not configured"@,
            },
        },
{
    match row {
        Some((url, secret)) => {
            let repo = owner_repo(url.as_str());
            match secret {
                Some(v) => {
                    if v.as_str().is_empty() {
                        Err(crate::auth::AppError::BadRequest(owned("GitHub repo found but no PAT token configured")))
                    } else if str_starts_with(v.as_str(), "arn:") {
                        Ok(GithubSource { repo, token: TokenSource::Secret(v) })
                    } else {
                        Ok(GithubSource { repo, token: TokenSource::Plain(v) })
                    }
                },
                None => Err(crate::auth::AppError::BadRequest(owned("GitHub repo found but no PAT token configured"))),
            }
        },
        None => match env_token {
            None => Err(crate::auth::AppError::BadRequest(owned("No GitHub repo configured. Add one in Settings → Repos."))),
            Some(t) => match env_repo {
                None => Err(crate::auth::AppError::BadRequest(owned("GITHUB_REPO not configured"))),
                Some(rp) => Ok(GithubSource { repo: rp, token: TokenSource::Plain(t) }),
            },
        },
    }
}

} // verus!
