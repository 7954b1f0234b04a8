//! Keeping tool paths inside the project: the checks on a relative path
//! before it is joined to the project root, and the containment test on
//! the canonical paths once it exists.
use crate::text::{ascii_lower, chars_of, push_str, starts_with, starts_with_str, slice_chars, string_of};
use crate::tool::command_ops::split_pieces;
use crate::tool::path::built_for_windows;
use std::path::{Component, Path};
use vstd::prelude::*;

verus! {

/// A component of a path, as `std::path::Path::components` splits it.
#[derive(Debug)]
pub enum PathPart {
    /// A Windows drive or UNC prefix, with its text.
    Prefix(String),
    RootDir,
    CurDir,
    ParentDir,
    Normal(String),
}

/// The error for a relative path that could leave the project, if any:
/// it is absolute, climbs with `..`, or carries a drive or UNC prefix.
pub open spec fn scope_error(rel: Seq<char>, absolute: bool, parts: Seq<PathPart>) -> Option<Seq<char>> {
    if absolute {
        Some("absolute paths forbidden: "@ + rel)
    } else if exists|i: int| 0 <= i < parts.len() && #[trigger] parts[i] is ParentDir {
        Some("parent directory traversal forbidden: "@ + rel)
    } else if exists|i: int| 0 <= i < parts.len() && #[trigger] parts[i] is Prefix {
        Some("drive letter or UNC path forbidden: "@ + rel)
    } else {
        None
    }
}

/// `rel` separates its components with `/` alone: it holds no backslash
/// and no colon, and does not start with `/`. On every platform such a
/// path has no root and no drive or UNC prefix.
pub open spec fn plain_relative(rel: Seq<char>) -> bool {
    !rel.contains('\\') && !rel.contains(':') && !(rel.len() > 0 && rel[0] == '/')
}

/// One of the `/`-separated pieces of `rel` is `..`.
pub open spec fn climbs(rel: Seq<char>) -> bool {
    split_pieces(rel, seq!['/']).contains(".."@)
}

/// Splits `rel` with `std::path::Path::components`. The split follows the
/// rules of the platform the program was built for; what is stated holds
/// on every platform, as the documentation of `Path::components`,
/// `Component` and `Prefix` gives it: for a path with `/` as its only
/// separator, no root and no prefix, a `..` piece is a parent-directory
/// component and nothing else is, and no prefix component occurs.
#[verifier::external_body]
fn rel_path_parts(rel: &str) -> (r: Vec<PathPart>)
    ensures
        plain_relative(rel@) ==> ((exists|i: int| 0 <= i < r@.len() && #[trigger] r@[i] is ParentDir)
            <==> climbs(rel@)),
        plain_relative(rel@) ==> forall|i: int| 0 <= i < r@.len() ==> !(#[trigger] r@[i] is Prefix),
{
    let mut parts = Vec::new();
    for c in Path::new(rel).components() {
        parts.push(match c {
            Component::Prefix(p) => PathPart::Prefix(p.as_os_str().to_string_lossy().into_owned()),
            Component::RootDir => PathPart::RootDir,
            Component::CurDir => PathPart::CurDir,
            Component::ParentDir => PathPart::ParentDir,
            Component::Normal(s) => PathPart::Normal(s.to_string_lossy().into_owned()),
        });
    }
    parts
}

/// Asks `std::path::Path::is_absolute` of `rel`. What is absolute depends on
/// the platform the program was built for; what is stated holds on every
/// platform: a path with no root and no prefix (see [`plain_relative`]) is
/// not absolute.
#[verifier::external_body]
fn rel_path_is_absolute(rel: &str) -> (r: bool)
    ensures
        plain_relative(rel@) ==> !r,
{
    Path::new(rel).is_absolute()
}

fn error_with(prefix: &str, rel: &str) -> (r: String)
    ensures
        r@ == prefix@ + rel@,
{
    let mut m = chars_of(prefix);
    push_str(&mut m, rel);
    string_of(m.as_slice())
}

/// The checks on a relative tool path, given whether it is absolute and
/// its components.
pub fn check_scoped_parts(rel: &str, absolute: bool, parts: &Vec<PathPart>) -> (r: Result<(), String>)
    ensures
        match scope_error(rel@, absolute, parts@) {
            Some(e) => r matches Err(m) && m@ == e,
            None => r is Ok,
        },
{
    if absolute {
        return Err(error_with("absolute paths forbidden: ", rel));
    }
    let mut i: usize = 0;
    while i < parts.len()
        invariant
            !absolute,
            i <= parts@.len(),
            forall|k: int| 0 <= k < i ==> !(#[trigger] parts@[k] is ParentDir),
        decreases parts@.len() - i,
    {
        if let PathPart::ParentDir = parts[i] {
            assert(parts@[i as int] is ParentDir);
            return Err(error_with("parent directory traversal forbidden: ", rel));
        }
        i = i + 1;
    }
    let mut j: usize = 0;
    while j < parts.len()
        invariant
            !absolute,
            j <= parts@.len(),
            forall|k: int| 0 <= k < parts@.len() ==> !(#[trigger] parts@[k] is ParentDir),
            forall|k: int| 0 <= k < j ==> !(#[trigger] parts@[k] is Prefix),
        decreases parts@.len() - j,
    {
        if let PathPart::Prefix(_) = parts[j] {
            assert(parts@[j as int] is Prefix);
            return Err(error_with("drive letter or UNC path forbidden: ", rel));
        }
        j = j + 1;
    }
    Ok(())
}

/// The checks on a relative tool path before it is joined to the project
/// root. Its split and whether it is absolute come from `std::path`: a path
/// that separates its pieces with `/` alone and has no root is refused
/// exactly when a piece is `..`; any refusal names the path.
pub fn check_scoped_path(rel: &str) -> (r: Result<(), String>)
    ensures
        plain_relative(rel@) && climbs(rel@) ==> (r matches Err(m) && m@
            == "parent directory traversal forbidden: "@ + rel@),
        plain_relative(rel@) && !climbs(rel@) ==> r is Ok,
        r matches Err(m) ==> (m@ == "absolute paths forbidden: "@ + rel@ || m@
            == "parent directory traversal forbidden: "@ + rel@ || m@
            == "drive letter or UNC path forbidden: "@ + rel@),
{
    let absolute = rel_path_is_absolute(rel);
    let parts = rel_path_parts(rel);
    check_scoped_parts(rel, absolute, &parts)
}

// ───────────────────────── containment ─────────────────────────


/// Equal but for the case of ASCII letters (`str::eq_ignore_ascii_case`).
pub open spec fn eq_ignore_ascii_case(a: Seq<char>, b: Seq<char>) -> bool {
    a.len() == b.len() && forall|i: int| 0 <= i < a.len() ==> ascii_lower(#[trigger] a[i]) == ascii_lower(b[i])
}

/// The text of a component (`Component::as_os_str`).
pub open spec fn part_text(p: PathPart, windows: bool) -> Seq<char> {
    match p {
        PathPart::Prefix(s) => s@,
        PathPart::RootDir => if windows {
            "\\"@
        } else {
            "/"@
        },
        PathPart::CurDir => "."@,
        PathPart::ParentDir => ".."@,
        PathPart::Normal(s) => s@,
    }
}

/// Two components are the same: on Windows by their text, ignoring ASCII
/// case; elsewhere as components.
pub open spec fn same_part(a: PathPart, b: PathPart, windows: bool) -> bool {
    if windows {
        eq_ignore_ascii_case(part_text(a, windows), part_text(b, windows))
    } else {
        match (a, b) {
            (PathPart::Prefix(x), PathPart::Prefix(y)) => x@ == y@,
            (PathPart::RootDir, PathPart::RootDir) => true,
            (PathPart::CurDir, PathPart::CurDir) => true,
            (PathPart::ParentDir, PathPart::ParentDir) => true,
            (PathPart::Normal(x), PathPart::Normal(y)) => x@ == y@,
            _ => false,
        }
    }
}

/// `path` begins with the components of `prefix`.
pub open spec fn parts_start_with(path: Seq<PathPart>, prefix: Seq<PathPart>, windows: bool) -> bool {
    prefix.len() <= path.len() && forall|i: int| 0 <= i < prefix.len() ==> same_part(#[trigger] path[i], prefix[i], windows)
}

pub(crate) fn lower_ascii(c: char) -> (r: char)
    ensures
        r == ascii_lower(c),
{
    if 'A' <= c && c <= 'Z' {
        ((c as u8) + 32) as char
    } else {
        c
    }
}

fn eq_ignoring_ascii_case(a: &[char], b: &[char]) -> (r: bool)
    ensures
        r == eq_ignore_ascii_case(a@, b@),
{
    if a.len() != b.len() {
        return false;
    }
    let mut i: usize = 0;
    while i < a.len()
        invariant
            a@.len() == b@.len(),
            i <= a@.len(),
            forall|k: int| 0 <= k < i ==> ascii_lower(#[trigger] a@[k]) == ascii_lower(b@[k]),
        decreases a@.len() - i,
    {
        if lower_ascii(a[i]) != lower_ascii(b[i]) {
            return false;
        }
        i = i + 1;
    }
    true
}

fn part_chars(p: &PathPart, windows: bool) -> (r: Vec<char>)
    ensures
        r@ == part_text(*p, windows),
{
    match p {
        PathPart::Prefix(s) => chars_of(s.as_str()),
        PathPart::RootDir => if windows {
            chars_of("\\")
        } else {
            chars_of("/")
        },
        PathPart::CurDir => chars_of("."),
        PathPart::ParentDir => chars_of(".."),
        PathPart::Normal(s) => chars_of(s.as_str()),
    }
}

fn same_part_exec(a: &PathPart, b: &PathPart, windows: bool) -> (r: bool)
    ensures
        r == same_part(*a, *b, windows),
{
    if windows {
        let x = part_chars(a, windows);
        let y = part_chars(b, windows);
        return eq_ignoring_ascii_case(x.as_slice(), y.as_slice());
    }
    match (a, b) {
        (PathPart::Prefix(x), PathPart::Prefix(y)) => crate::text::str_eq(x.as_str(), y.as_str()),
        (PathPart::RootDir, PathPart::RootDir) => true,
        (PathPart::CurDir, PathPart::CurDir) => true,
        (PathPart::ParentDir, PathPart::ParentDir) => true,
        (PathPart::Normal(x), PathPart::Normal(y)) => crate::text::str_eq(x.as_str(), y.as_str()),
        _ => false,
    }
}

/// Whether the canonical `path` lies under the canonical `prefix`,
/// compared component by component (ignoring ASCII case on Windows).
pub fn safe_starts_with_for(path: &Vec<PathPart>, prefix: &Vec<PathPart>, windows: bool) -> (r: bool)
    ensures
        r == parts_start_with(path@, prefix@, windows),
{
    if path.len() < prefix.len() {
        return false;
    }
    let mut i: usize = 0;
    while i < prefix.len()
        invariant
            prefix@.len() <= path@.len(),
            i <= prefix@.len(),
            forall|k: int| 0 <= k < i ==> same_part(#[trigger] path@[k], prefix@[k], windows),
        decreases prefix@.len() - i,
    {
        if !same_part_exec(&path[i], &prefix[i], windows) {
            return false;
        }
        i = i + 1;
    }
    true
}

/// [`safe_starts_with_for`] on the platform the program runs on.
pub fn safe_starts_with(path: &Vec<PathPart>, prefix: &Vec<PathPart>) -> (r: bool)
    ensures
        r == parts_start_with(path@, prefix@, false) || r == parts_start_with(path@, prefix@, true),
{
    safe_starts_with_for(path, prefix, built_for_windows())
}

/// A canonical path without the Windows verbatim prefix `\\?\`.
pub open spec fn without_verbatim(path: Seq<char>, windows: bool) -> Seq<char> {
    if windows && starts_with(path, "\\\\?\\"@) {
        path.skip(4)
    } else {
        path
    }
}

/// Strips the Windows verbatim prefix from a canonical path (on Windows).
pub fn normalize_canonical_for(path: &str, windows: bool) -> (r: String)
    ensures
        r@ == without_verbatim(path@, windows),
{
    proof {
        reveal_strlit("\\\\?\\");
    }
    let v = chars_of(path);
    if windows && starts_with_str(v.as_slice(), "\\\\?\\") {
        let rest = slice_chars(v.as_slice(), 4, v.len());
        proof {
            assert(rest@ =~= path@.skip(4));
        }
        string_of(rest.as_slice())
    } else {
        string_of(v.as_slice())
    }
}

/// [`normalize_canonical_for`] on the platform the program runs on.
pub fn normalize_canonical(path: &str) -> (r: String)
    ensures
        r@ == without_verbatim(path@, false) || r@ == without_verbatim(path@, true),
{
    normalize_canonical_for(path, built_for_windows())
}

/// The refusal of a path whose canonical form `shown` leaves the project.
pub fn out_of_bounds_message(rel: &str, shown: &str) -> (r: String)
    ensures
        r@ == "path out of bounds: "@ + rel@ + " resolves to "@ + shown@ + ", not within project directory"@,
{
    let mut m = chars_of("path out of bounds: ");
    push_str(&mut m, rel);
    push_str(&mut m, " resolves to ");
    push_str(&mut m, shown);
    push_str(&mut m, ", not within project directory");
    string_of(m.as_slice())
}

} // verus!
