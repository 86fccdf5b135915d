//! Path safety and attachment rules.
//!
//! User-supplied path components must stay inside the workspace: no
//! absolute paths, no `..` components. Attachment names are reduced to
//! safe characters, and only text and image files are accepted.

use vstd::prelude::*;

use crate::mentions::trimmed;
use crate::text::{
    ascii_lower_char, ascii_lowercase_of, chars_to_string, matches_at, range_eq, str_to_chars,
};

verus! {

pub open spec fn is_path_sep(c: char) -> bool {
    c == '/' || c == '\\'
}

/// Whether the path has a `..` component, scanning from `start` with the
/// cursor at `i`.
pub open spec fn spec_has_parent_component(s: Seq<char>, start: int, i: int) -> bool
    decreases s.len() - i + 1,
{
    if i < 0 || start < 0 || i < start {
        false
    } else if i >= s.len() {
        s.subrange(start, s.len() as int) =~= ".."@
    } else if is_path_sep(s[i]) {
        s.subrange(start, i) =~= ".."@ || spec_has_parent_component(s, i + 1, i + 1)
    } else {
        spec_has_parent_component(s, start, i + 1)
    }
}

/// A user-supplied relative path is safe when it is not absolute and no
/// component of it is `..`.
pub open spec fn spec_safe_relative_path(s: Seq<char>) -> bool {
    &&& !(s.len() > 0 && is_path_sep(s[0]))
    &&& !spec_has_parent_component(s, 0, 0)
}

fn is_dotdot(cs: &Vec<char>, start: usize, end: usize) -> (r: bool)
    requires
        start <= end <= cs@.len(),
    ensures
        r == (cs@.subrange(start as int, end as int) =~= ".."@),
{
    proof {
        reveal_strlit("..");
    }
    if end - start != 2 {
        assert(cs@.subrange(start as int, end as int).len() != 2);
        return false;
    }
    let r = cs[start] == '.' && cs[start + 1] == '.';
    proof {
        if r {
            assert(cs@.subrange(start as int, end as int) =~= ".."@);
        } else {
            assert(!(cs@.subrange(start as int, end as int) =~= ".."@)) by {
                if cs@.subrange(start as int, end as int) =~= ".."@ {
                    assert(cs@.subrange(start as int, end as int)[0] == cs@[start as int]);
                    assert(cs@.subrange(start as int, end as int)[1] == cs@[start as int + 1]);
                }
            }
        }
    }
    r
}

/// Check a user-supplied path: it must be relative and free of `..`
/// components. Both `/` and `\` separate components.
pub fn is_safe_relative_path(path: &str) -> (r: bool)
    ensures
        r == spec_safe_relative_path(path@),
{
    let cs: Vec<char> = str_to_chars(path);
    let n: usize = cs.len();
    if n > 0 && (cs[0] == '/' || cs[0] == '\\') {
        return false;
    }
    let mut start: usize = 0;
    let mut i: usize = 0;
    while i < n
        invariant
            start <= i <= n,
            n == cs@.len(),
            cs@ == path@,
            spec_has_parent_component(path@, 0, 0) == spec_has_parent_component(
                path@,
                start as int,
                i as int,
            ),
        decreases n - i,
    {
        if cs[i] == '/' || cs[i] == '\\' {
            if is_dotdot(&cs, start, i) {
                return false;
            }
            start = i + 1;
        }
        i += 1;
    }
    if is_dotdot(&cs, start, n) {
        return false;
    }
    true
}

/// Characters kept by filename sanitizing.
pub open spec fn is_filename_char(c: char) -> bool {
    ('a' <= c && c <= 'z') || ('A' <= c && c <= 'Z') || ('0' <= c && c <= '9') || c == '.' || c
        == '_' || c == '-'
}

pub open spec fn spec_filename_filtered(s: Seq<char>) -> Seq<char>
    decreases s.len(),
{
    if s.len() == 0 {
        Seq::empty()
    } else {
        let rest = spec_filename_filtered(s.drop_last());
        if is_filename_char(s.last()) {
            rest.push(s.last())
        } else {
            rest
        }
    }
}

/// The stored form of an uploaded filename: everything but ASCII
/// alphanumerics, `.`, `_` and `-` removed, `file` when nothing
/// remains, at most 120 characters kept.
pub open spec fn spec_sanitized_filename(s: Seq<char>) -> Seq<char> {
    let filtered = spec_filename_filtered(s);
    if filtered.len() == 0 {
        "file"@
    } else if filtered.len() > 120 {
        filtered.take(120)
    } else {
        filtered
    }
}

/// Reduce an uploaded filename to safe characters.
pub fn sanitize_filename(name: &str) -> (r: String)
    ensures
        r@ == spec_sanitized_filename(name@),
{
    let cs: Vec<char> = str_to_chars(name);
    let mut filtered: Vec<char> = Vec::new();
    let mut i: usize = 0;
    assert(filtered@ =~= spec_filename_filtered(cs@.subrange(0, 0)));
    while i < cs.len()
        invariant
            i <= cs@.len(),
            cs@ == name@,
            filtered@ == spec_filename_filtered(cs@.subrange(0, i as int)),
        decreases cs@.len() - i,
    {
        proof {
            assert(cs@.subrange(0, i as int + 1).drop_last() =~= cs@.subrange(0, i as int));
            assert(cs@.subrange(0, i as int + 1).last() == cs@[i as int]);
        }
        let c: char = cs[i];
        if ('a' <= c && c <= 'z') || ('A' <= c && c <= 'Z') || ('0' <= c && c <= '9') || c == '.'
            || c == '_' || c == '-' {
            filtered.push(c);
        }
        i += 1;
    }
    assert(cs@.subrange(0, cs@.len() as int) =~= cs@);
    if filtered.len() == 0 {
        return "file".to_owned();
    }
    if filtered.len() > 120 {
        let kept: Vec<char> = crate::text::copy_range(&filtered, 0, 120);
        assert(kept@ =~= spec_filename_filtered(name@).take(120));
        return chars_to_string(&kept);
    }
    chars_to_string(&filtered)
}

/// The kind label of an attachment: `image` for image media types,
/// `file` otherwise.
pub open spec fn spec_attachment_kind(mime: Option<Seq<char>>) -> Seq<char> {
    match mime {
        Some(m) => if matches_at(m, 0, "image/"@) {
            "image"@
        } else {
            "file"@
        },
        None => "file"@,
    }
}

fn starts_with_lit(s: &str, lit: &str) -> (r: bool)
    ensures
        r == matches_at(s@, 0, lit@),
{
    let cs: Vec<char> = str_to_chars(s);
    let needle: Vec<char> = str_to_chars(lit);
    if needle.len() > cs.len() {
        return false;
    }
    range_eq(&cs, 0, &needle)
}

fn ends_with_lit(s: &Vec<char>, lit: &str) -> (r: bool)
    ensures
        r == spec_ends(s@, lit@),
{
    let needle: Vec<char> = str_to_chars(lit);
    if needle.len() > s.len() {
        return false;
    }
    range_eq(s, s.len() - needle.len(), &needle)
}

/// Classify an attachment by its media type.
pub fn attachment_kind(mime: Option<&str>) -> (r: String)
    ensures
        match mime {
            Some(m) => r@ == spec_attachment_kind(Some(m@)),
            None => r@ == spec_attachment_kind(None),
        },
{
    match mime {
        Some(m) => {
            if starts_with_lit(m, "image/") {
                "image".to_owned()
            } else {
                "file".to_owned()
            }
        },
        None => "file".to_owned(),
    }
}

/// The lowercased filename ends with an accepted text or image
/// extension.
pub open spec fn spec_allowed_extension(l: Seq<char>) -> bool {
    ||| spec_ends(l, ".txt"@)
    ||| spec_ends(l, ".csv"@)
    ||| spec_ends(l, ".md"@)
    ||| spec_ends(l, ".json"@)
    ||| spec_ends(l, ".xml"@)
    ||| spec_ends(l, ".yaml"@)
    ||| spec_ends(l, ".yml"@)
    ||| spec_ends(l, ".html"@)
    ||| spec_ends(l, ".htm"@)
    ||| spec_ends(l, ".css"@)
    ||| spec_ends(l, ".js"@)
    ||| spec_ends(l, ".ts"@)
    ||| spec_ends(l, ".jsx"@)
    ||| spec_ends(l, ".tsx"@)
    ||| spec_ends(l, ".py"@)
    ||| spec_ends(l, ".java"@)
    ||| spec_ends(l, ".c"@)
    ||| spec_ends(l, ".cpp"@)
    ||| spec_ends(l, ".h"@)
    ||| spec_ends(l, ".hpp"@)
    ||| spec_ends(l, ".rb"@)
    ||| spec_ends(l, ".php"@)
    ||| spec_ends(l, ".go"@)
    ||| spec_ends(l, ".rs"@)
    ||| spec_ends(l, ".sql"@)
    ||| spec_ends(l, ".sh"@)
    ||| spec_ends(l, ".bash"@)
    ||| spec_ends(l, ".svg"@)
    ||| spec_ends(l, ".png"@)
    ||| spec_ends(l, ".jpg"@)
    ||| spec_ends(l, ".jpeg"@)
    ||| spec_ends(l, ".gif"@)
    ||| spec_ends(l, ".webp"@)
    ||| spec_ends(l, ".bmp"@)
}

pub open spec fn spec_ends(l: Seq<char>, suffix: Seq<char>) -> bool {
    suffix.len() <= l.len() && matches_at(l, l.len() - suffix.len(), suffix)
}

/// Whether an upload is accepted: any text or image media type, else a
/// filename whose ASCII-lowercased form carries an accepted extension.
pub open spec fn spec_allowed_attachment(filename: Seq<char>, mime: Option<Seq<char>>) -> bool {
    let by_mime = match mime {
        Some(m) => matches_at(m, 0, "text/"@) || matches_at(m, 0, "image/"@),
        None => false,
    };
    by_mime || spec_allowed_extension(ascii_lowercase_of(filename))
}

/// Decide whether an uploaded file is accepted.
pub fn is_allowed_attachment(filename: &str, mime: Option<&str>) -> (r: bool)
    ensures
        match mime {
            Some(m) => r == spec_allowed_attachment(filename@, Some(m@)),
            None => r == spec_allowed_attachment(filename@, None),
        },
{
    if let Some(m) = mime {
        if starts_with_lit(m, "text/") || starts_with_lit(m, "image/") {
            return true;
        }
    }
    let cs: Vec<char> = str_to_chars(filename);
    let mut lower: Vec<char> = Vec::new();
    let mut i: usize = 0;
    while i < cs.len()
        invariant
            i <= cs@.len(),
            cs@ == filename@,
            lower@.len() == i,
            forall|k: int| 0 <= k < i ==> lower@[k] == ascii_lower_char(cs@[k]),
        decreases cs@.len() - i,
    {
        lower.push(crate::text::char_ascii_lower(cs[i]));
        i += 1;
    }
    assert(lower@ =~= ascii_lowercase_of(filename@));
    ends_with_lit(&lower, ".txt") || ends_with_lit(&lower, ".csv") || ends_with_lit(&lower, ".md")
        || ends_with_lit(&lower, ".json") || ends_with_lit(&lower, ".xml") || ends_with_lit(
        &lower,
        ".yaml",
    ) || ends_with_lit(&lower, ".yml") || ends_with_lit(&lower, ".html") || ends_with_lit(
        &lower,
        ".htm",
    ) || ends_with_lit(&lower, ".css") || ends_with_lit(&lower, ".js") || ends_with_lit(
        &lower,
        ".ts",
    ) || ends_with_lit(&lower, ".jsx") || ends_with_lit(&lower, ".tsx") || ends_with_lit(
        &lower,
        ".py",
    ) || ends_with_lit(&lower, ".java") || ends_with_lit(&lower, ".c") || ends_with_lit(
        &lower,
        ".cpp",
    ) || ends_with_lit(&lower, ".h") || ends_with_lit(&lower, ".hpp") || ends_with_lit(
        &lower,
        ".rb",
    ) || ends_with_lit(&lower, ".php") || ends_with_lit(&lower, ".go") || ends_with_lit(
        &lower,
        ".rs",
    ) || ends_with_lit(&lower, ".sql") || ends_with_lit(&lower, ".sh") || ends_with_lit(
        &lower,
        ".bash",
    ) || ends_with_lit(&lower, ".svg") || ends_with_lit(&lower, ".png") || ends_with_lit(
        &lower,
        ".jpg",
    ) || ends_with_lit(&lower, ".jpeg") || ends_with_lit(&lower, ".gif") || ends_with_lit(
        &lower,
        ".webp",
    ) || ends_with_lit(&lower, ".bmp")
}

/// Why a workspace path was refused.
#[derive(Debug, Clone, Copy, PartialEq, Eq, Structural)]
pub enum WorkspacePathError {
    /// The path was given but empty after trimming.
    Empty,
    /// The path holds a NUL character.
    InvalidCharacters,
    /// The path holds a `..` component.
    ParentComponent,
}

/// Check and normalize a member's workspace path: absent stays absent;
/// a given path is trimmed and must be non-empty, NUL-free, and free of
/// `..` components.
pub fn normalize_workspace_path(workspace_path: Option<&String>) -> (r: Result<
    Option<String>,
    WorkspacePathError,
>)
    ensures
        match workspace_path {
            None => r == Result::<Option<String>, WorkspacePathError>::Ok(
                Option::<String>::None,
            ),
            Some(raw) => match r {
                Ok(normalized) => {
                    &&& spec_workspace_path_ok(raw@)
                    &&& normalized is Some && normalized->Some_0@ == trimmed(raw@)
                },
                Err(e) => spec_workspace_path_err(raw@, e),
            },
        },
{
    match workspace_path {
        None => Ok(None),
        Some(raw) => match normalize_workspace_path_inner(raw) {
            Ok(t) => Ok(Some(t)),
            Err(e) => Err(e),
        },
    }
}

/// A given workspace path is acceptable.
pub open spec fn spec_workspace_path_ok(raw: Seq<char>) -> bool {
    &&& trimmed(raw).len() > 0
    &&& !trimmed(raw).contains('\u{0}')
    &&& !spec_has_parent_component(trimmed(raw), 0, 0)
}

/// The refusal matching a given workspace path.
pub open spec fn spec_workspace_path_err(raw: Seq<char>, e: WorkspacePathError) -> bool {
    match e {
        WorkspacePathError::Empty => trimmed(raw).len() == 0,
        WorkspacePathError::InvalidCharacters => trimmed(raw).contains('\u{0}'),
        WorkspacePathError::ParentComponent => spec_has_parent_component(trimmed(raw), 0, 0),
    }
}

fn normalize_workspace_path_inner(raw: &String) -> (r: Result<String, WorkspacePathError>)
    ensures
        match r {
            Ok(normalized) => spec_workspace_path_ok(raw@) && normalized@ == trimmed(raw@),
            Err(e) => spec_workspace_path_err(raw@, e),
        },
{
    let cs: Vec<char> = str_to_chars(raw.as_str());
    let t: Vec<char> = crate::mentions::trim_chars(&cs);
    if t.len() == 0 {
        return Err(WorkspacePathError::Empty);
    }
    let mut i: usize = 0;
    while i < t.len()
        invariant
            i <= t@.len(),
            t@ == trimmed(raw@),
            forall|k: int| 0 <= k < i ==> t@[k] != '\u{0}',
        decreases t@.len() - i,
    {
        if t[i] == '\u{0}' {
            assert(t@.contains('\u{0}'));
            return Err(WorkspacePathError::InvalidCharacters);
        }
        i += 1;
    }
    assert(!t@.contains('\u{0}'));
    let trimmed_str: String = chars_to_string(&t);
    let n: usize = t.len();
    let mut start: usize = 0;
    let mut j: usize = 0;
    while j < n
        invariant
            start <= j <= n,
            n == t@.len(),
            t@ == trimmed(raw@),
            !t@.contains('\u{0}'),
            trimmed_str@ == t@,
            spec_has_parent_component(t@, 0, 0) == spec_has_parent_component(
                t@,
                start as int,
                j as int,
            ),
        decreases n - j,
    {
        if t[j] == '/' || t[j] == '\\' {
            if is_dotdot(&t, start, j) {
                return Err(WorkspacePathError::ParentComponent);
            }
            start = j + 1;
        }
        j += 1;
    }
    if is_dotdot(&t, start, n) {
        return Err(WorkspacePathError::ParentComponent);
    }
    Ok(trimmed_str)
}

/// Whether a git-reported untracked path may be mirrored into the run
/// directory: not one of the internal runtime directories, not
/// absolute, and free of `..` components.
pub open spec fn spec_untracked_path_allowed(rel: Seq<char>) -> bool {
    &&& !spec_is_internal_path(rel, ".agents-chatgroup"@)
    &&& !spec_is_internal_path(rel, ".agents_chatgroup"@)
    &&& spec_safe_relative_path(rel)
}

/// The path is the internal directory itself or a path inside it.
pub open spec fn spec_is_internal_path(rel: Seq<char>, dir: Seq<char>) -> bool {
    ||| rel == dir
    ||| matches_at(rel, 0, dir + seq!['/'])
    ||| matches_at(rel, 0, dir + seq!['\\'])
}

fn is_internal_path(rel: &Vec<char>, dir: &str) -> (r: bool)
    ensures
        r == spec_is_internal_path(rel@, dir@),
{
    let dir_chars: Vec<char> = str_to_chars(dir);
    let mut with_slash: Vec<char> = crate::text::copy_range(&dir_chars, 0, dir_chars.len());
    assert(with_slash@ =~= dir@);
    with_slash.push('/');
    assert(with_slash@ =~= dir@ + seq!['/']);
    let mut with_backslash: Vec<char> = crate::text::copy_range(&dir_chars, 0, dir_chars.len());
    assert(with_backslash@ =~= dir@);
    with_backslash.push('\\');
    assert(with_backslash@ =~= dir@ + seq!['\\']);
    let exact: bool = rel.len() == dir_chars.len() && range_eq(rel, 0, &dir_chars);
    proof {
        if exact {
            assert(rel@.subrange(0, dir@.len() as int) =~= rel@);
        } else {
            if rel@ == dir@ {
                assert(rel@.subrange(0, dir@.len() as int) =~= dir@);
            }
        }
    }
    if exact {
        return true;
    }
    let slash: bool = if with_slash.len() <= rel.len() {
        range_eq(rel, 0, &with_slash)
    } else {
        false
    };
    if slash {
        return true;
    }
    if with_backslash.len() <= rel.len() {
        range_eq(rel, 0, &with_backslash)
    } else {
        false
    }
}

/// Decide whether one untracked file may be mirrored.
pub fn untracked_path_allowed(rel: &str) -> (r: bool)
    ensures
        r == spec_untracked_path_allowed(rel@),
{
    let cs: Vec<char> = str_to_chars(rel);
    if is_internal_path(&cs, ".agents-chatgroup") {
        return false;
    }
    if is_internal_path(&cs, ".agents_chatgroup") {
        return false;
    }
    is_safe_relative_path(rel)
}

/// A diff is marked truncated for display past this many bytes.
pub fn diff_truncated(diff_len: usize) -> (r: bool)
    ensures
        r == (diff_len > 4000),
{
    diff_len > 4000
}

} // verus!
