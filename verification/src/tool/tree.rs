//! Directory listings as the model sees them: a flat listing of one
//! directory, and a tree of a directory down to a depth, folders first,
//! cut at a fixed number of items.
use crate::text::{chars_of, decimal, fmt_u64, join, join_chars, push_all, push_line, push_str, str_eq, string_of};
use crate::tool::search::{glob_at, simple_glob_match};
use vstd::prelude::*;

verus! {

/// A directory entry with, for a folder that the tree goes into, the
/// entries of that folder (as read, in any order).
#[derive(Debug)]
pub struct TreeEntry {
    /// The file name.
    pub name: String,
    /// The path relative to the working directory, as shown.
    pub rel: String,
    pub is_dir: bool,
    pub children: Vec<TreeEntry>,
}

// ───────────────────────── order of a listing ─────────────────────────

/// `a` comes before `b` in code point order, compared from index `k` on.
pub open spec fn chars_lt_at(a: Seq<char>, b: Seq<char>, k: int) -> bool
    decreases a.len() - k,
{
    if k < 0 || k >= a.len() {
        k >= 0 && k < b.len()
    } else if k >= b.len() {
        false
    } else if a[k] != b[k] {
        (a[k] as u32) < (b[k] as u32)
    } else {
        chars_lt_at(a, b, k + 1)
    }
}

/// `a` comes before `b` in code point order (the byte order of their UTF-8).
pub open spec fn chars_lt(a: Seq<char>, b: Seq<char>) -> bool {
    chars_lt_at(a, b, 0)
}

/// `a` is listed before `b`: folders before files, then by name.
pub open spec fn listed_before(a: TreeEntry, b: TreeEntry) -> bool {
    (a.is_dir && !b.is_dir) || (a.is_dir == b.is_dir && chars_lt(a.name@, b.name@))
}

/// `e` put into the listing `s`: before the first entry that it is listed
/// before (after the entries equal to it, as a stable sort keeps them).
pub open spec fn insert_listed(s: Seq<TreeEntry>, e: TreeEntry) -> Seq<TreeEntry>
    decreases s.len(),
{
    if s.len() == 0 {
        seq![e]
    } else if listed_before(e, s[0]) {
        seq![e] + s
    } else {
        seq![s[0]] + insert_listed(s.drop_first(), e)
    }
}

/// The entry is kept under the name pattern (all are, without one).
pub open spec fn kept(e: TreeEntry, glob: Option<Seq<char>>) -> bool {
    match glob {
        Some(g) => glob_at(e.name@, g, 0, 0),
        None => true,
    }
}

/// The entries of a folder as the tree lists them: those the pattern
/// keeps, sorted stably, folders first and then by name.
pub open spec fn listing(s: Seq<TreeEntry>, glob: Option<Seq<char>>) -> Seq<TreeEntry>
    decreases s.len(),
{
    if s.len() == 0 {
        Seq::empty()
    } else if kept(s.last(), glob) {
        insert_listed(listing(s.drop_last(), glob), s.last())
    } else {
        listing(s.drop_last(), glob)
    }
}

/// The entries of `s` at the positions `order`.
pub open spec fn picked(s: Seq<TreeEntry>, order: Seq<usize>) -> Seq<TreeEntry> {
    Seq::new(order.len(), |k: int| s[order[k] as int])
}

pub(crate) fn chars_less(a: &[char], b: &[char]) -> (r: bool)
    ensures
        r == chars_lt(a@, b@),
{
    let mut k: usize = 0;
    while k < a.len() && k < b.len() && a[k] == b[k]
        invariant
            k <= a@.len(),
            k <= b@.len(),
            chars_lt_at(a@, b@, 0) == chars_lt_at(a@, b@, k as int),
        decreases a@.len() - k,
    {
        k = k + 1;
    }
    if k < a.len() && k < b.len() {
        (a[k] as u32) < (b[k] as u32)
    } else {
        k >= a.len() && k < b.len()
    }
}

fn is_listed_before(a: &TreeEntry, b: &TreeEntry) -> (r: bool)
    ensures
        r == listed_before(*a, *b),
{
    if a.is_dir && !b.is_dir {
        return true;
    }
    if a.is_dir != b.is_dir {
        return false;
    }
    let an = chars_of(a.name.as_str());
    let bn = chars_of(b.name.as_str());
    chars_less(an.as_slice(), bn.as_slice())
}

proof fn lemma_insert_at(s: Seq<TreeEntry>, e: TreeEntry, p: int)
    requires
        0 <= p <= s.len(),
        forall|q: int| 0 <= q < p ==> !listed_before(e, #[trigger] s[q]),
        p < s.len() ==> listed_before(e, s[p]),
    ensures
        insert_listed(s, e) == s.take(p) + seq![e] + s.skip(p),
    decreases s.len(),
{
    if s.len() == 0 {
        assert(s.take(p) + seq![e] + s.skip(p) =~= seq![e]);
    } else if p == 0 {
        assert(s.take(0) + seq![e] + s.skip(0) =~= seq![e] + s);
    } else {
        assert(!listed_before(e, s[0]));
        let t = s.drop_first();
        assert forall|q: int| 0 <= q < p - 1 implies !listed_before(e, #[trigger] t[q]) by {
            assert(t[q] == s[q + 1]);
        }
        lemma_insert_at(t, e, p - 1);
        assert(s.take(p) + seq![e] + s.skip(p) =~= seq![s[0]] + (t.take(p - 1) + seq![e] + t.skip(
            p - 1,
        )));
    }
}

/// A name pattern as text.
pub open spec fn glob_view(glob: Option<&str>) -> Option<Seq<char>> {
    match glob {
        Some(g) => Some(g@),
        None => None,
    }
}

/// The positions of the entries that the listing shows, in its order.
fn listing_order(entries: &Vec<TreeEntry>, glob: Option<&str>) -> (order: Vec<usize>)
    ensures
        picked(entries@, order@) == listing(entries@, glob_view(glob)),
        forall|k: int| 0 <= k < order@.len() ==> #[trigger] order@[k] < entries@.len(),
{
    let ghost g = glob_view(glob);
    let mut order: Vec<usize> = Vec::new();
    let mut i: usize = 0;
    while i < entries.len()
        invariant
            i <= entries@.len(),
            g == glob_view(glob),
            forall|k: int| 0 <= k < order@.len() ==> #[trigger] order@[k] < i,
            picked(entries@, order@) == listing(entries@.take(i as int), g),
        decreases entries@.len() - i,
    {
        let keep = match glob {
            Some(p) => {
                simple_glob_match(entries[i].name.as_str(), p)
            },
            None => true,
        };
        proof {
            assert(keep == kept(entries@[i as int], g));
            let t = entries@.take(i + 1);
            assert(t.drop_last() =~= entries@.take(i as int));
            assert(t.last() == entries@[i as int]);
            assert(listing(t, g) == if keep {
                insert_listed(listing(entries@.take(i as int), g), entries@[i as int])
            } else {
                listing(entries@.take(i as int), g)
            });
        }
        if keep {
            let ghost before = picked(entries@, order@);
            let mut p: usize = 0;
            while p < order.len() && !is_listed_before(&entries[i], &entries[order[p]])
                invariant
                    p <= order@.len(),
                    i < entries@.len(),
                    forall|k: int| 0 <= k < order@.len() ==> #[trigger] order@[k] < i,
                    before == picked(entries@, order@),
                    forall|q: int| 0 <= q < p ==> !listed_before(entries@[i as int], #[trigger] before[q]),
                decreases order@.len() - p,
            {
                p = p + 1;
            }
            proof {
                lemma_insert_at(before, entries@[i as int], p as int);
            }
            order.insert(p, i);
            proof {
                assert(picked(entries@, order@) =~= before.take(p as int) + seq![entries@[i as int]]
                    + before.skip(p as int));
            }
        }
        i = i + 1;
    }
    proof {
        assert(entries@.take(i as int) =~= entries@);
    }
    order
}

// ───────────────────────── the tree ─────────────────────────

/// The tree shows at most this many entries.
pub open spec fn tree_limit() -> int {
    200
}

/// Folders whose contents the tree leaves out.
pub open spec fn tree_skipped(name: Seq<char>) -> bool {
    name == ".git"@ || name == ".shuji"@ || name == "node_modules"@ || name == "target"@ || name
        == ".venv"@ || name == "__pycache__"@ || name == "dist"@ || name == "build"@
}

/// The tree goes into this entry, listed at `depth` of a tree `max` deep.
pub open spec fn descends(e: TreeEntry, depth: int, max: int) -> bool {
    e.is_dir && depth < max && !tree_skipped(e.name@)
}

/// The branch drawn before an entry.
pub open spec fn connector(last: bool) -> Seq<char> {
    if last {
        "└── "@
    } else {
        "├── "@
    }
}

/// The indentation of the entries under an entry.
pub open spec fn child_prefix(prefix: Seq<char>, last: bool) -> Seq<char> {
    prefix + (if last {
        " "@
    } else {
        "│"@
    }) + "   "@
}

/// The lines of a folder with these entries, drawn under `prefix` at
/// `depth`, when `total` entries were shown before it; and the count after.
pub open spec fn tree_dir(
    entries: Seq<TreeEntry>,
    prefix: Seq<char>,
    depth: int,
    max: int,
    glob: Option<Seq<char>>,
    total: int,
) -> (Seq<Seq<char>>, int)
    decreases max - depth, 2int, 0int,
{
    if total >= tree_limit() {
        (Seq::empty(), total)
    } else {
        tree_items(listing(entries, glob), 0, prefix, depth, max, glob, total)
    }
}

/// The lines of the listed entries from the `i`th on (see [`tree_dir`]).
pub open spec fn tree_items(
    items: Seq<TreeEntry>,
    i: int,
    prefix: Seq<char>,
    depth: int,
    max: int,
    glob: Option<Seq<char>>,
    total: int,
) -> (Seq<Seq<char>>, int)
    decreases max - depth, 1int, items.len() - i,
{
    if i < 0 || i >= items.len() || total >= tree_limit() {
        (Seq::empty(), total)
    } else {
        let e = items[i];
        let last = i == items.len() - 1;
        let line = prefix + connector(last) + e.rel@;
        let sub = if descends(e, depth, max) {
            tree_dir(e.children@, child_prefix(prefix, last), depth + 1, max, glob, total + 1)
        } else {
            (Seq::empty(), total + 1)
        };
        let rest = tree_items(items, i + 1, prefix, depth, max, glob, sub.1);
        (seq![line] + sub.0 + rest.0, rest.1)
    }
}

fn is_tree_skipped(name: &str) -> (r: bool)
    ensures
        r == tree_skipped(name@),
{
    str_eq(name, ".git") || str_eq(name, ".shuji") || str_eq(name, "node_modules") || str_eq(
        name,
        "target",
    ) || str_eq(name, ".venv") || str_eq(name, "__pycache__") || str_eq(name, "dist") || str_eq(
        name,
        "build",
    )
}

/// Whether the tree goes into a folder entry named `name` listed at
/// `depth` of a tree `max` deep: what needs to be read of the disk.
pub fn tree_descends(is_dir: bool, name: &str, depth: usize, max: usize) -> (r: bool)
    ensures
        r == (is_dir && depth < max && !tree_skipped(name@)),
{
    is_dir && depth < max && !is_tree_skipped(name)
}

fn copy_chars(v: &Vec<char>) -> (r: Vec<char>)
    ensures
        r@ == v@,
{
    let mut r: Vec<char> = Vec::new();
    push_all(&mut r, v.as_slice());
    proof {
        assert(r@ =~= v@);
    }
    r
}

fn render_dir(
    entries: &Vec<TreeEntry>,
    prefix: &Vec<char>,
    depth: usize,
    max: usize,
    glob: Option<&str>,
    lines: &mut Vec<Vec<char>>,
    total: &mut usize,
)
    requires
        depth <= max <= 5,
        *old(total) <= tree_limit(),
    ensures
        final(lines).deep_view() == old(lines).deep_view() + tree_dir(
            entries@,
            prefix@,
            depth as int,
            max as int,
            glob_view(glob),
            *old(total) as int,
        ).0,
        *final(total) as int == tree_dir(
            entries@,
            prefix@,
            depth as int,
            max as int,
            glob_view(glob),
            *old(total) as int,
        ).1,
        *final(total) <= tree_limit(),
    decreases max - depth,
{
    let ghost g = glob_view(glob);
    let ghost l0 = lines.deep_view();
    let ghost t0 = *total as int;
    if *total >= 200 {
        proof {
            assert(l0 + Seq::<Seq<char>>::empty() =~= l0);
        }
        return;
    }
    let order = listing_order(entries, glob);
    let ghost items = picked(entries@, order@);
    let n = order.len();
    let mut i: usize = 0;
    proof {
        assert(l0 + tree_items(items, 0, prefix@, depth as int, max as int, g, t0).0 =~= lines.deep_view()
            + tree_items(items, 0, prefix@, depth as int, max as int, g, t0).0);
    }
    while i < n && *total < 200
        invariant
            n == order@.len(),
            i <= n,
            depth <= max <= 5,
            *total <= tree_limit(),
            g == glob_view(glob),
            items == picked(entries@, order@),
            forall|k: int| 0 <= k < order@.len() ==> #[trigger] order@[k] < entries@.len(),
            lines.deep_view() + tree_items(items, i as int, prefix@, depth as int, max as int, g, *total as int).0
                == l0 + tree_items(items, 0, prefix@, depth as int, max as int, g, t0).0,
            tree_items(items, i as int, prefix@, depth as int, max as int, g, *total as int).1
                == tree_items(items, 0, prefix@, depth as int, max as int, g, t0).1,
        decreases n - i,
    {
        let j = order[i];
        let e = &entries[j];
        let last = i == n - 1;
        let ghost before = lines.deep_view();
        let ghost t1 = *total as int;
        let mut line = copy_chars(prefix);
        if last {
            push_str(&mut line, "└── ");
        } else {
            push_str(&mut line, "├── ");
        }
        push_str(&mut line, e.rel.as_str());
        let ghost line_v = line@;
        push_line(lines, line);
        *total = *total + 1;
        if e.is_dir && depth < max && !is_tree_skipped(e.name.as_str()) {
            let mut cp = copy_chars(prefix);
            if last {
                push_str(&mut cp, " ");
            } else {
                push_str(&mut cp, "│");
            }
            push_str(&mut cp, "   ");
            render_dir(&e.children, &cp, depth + 1, max, glob, lines, total);
        } else {
            proof {
                assert(lines.deep_view() =~= lines.deep_view() + Seq::<Seq<char>>::empty());
            }
        }
        proof {
            let sub = if descends(items[i as int], depth as int, max as int) {
                tree_dir(
                    items[i as int].children@,
                    child_prefix(prefix@, last),
                    depth + 1,
                    max as int,
                    g,
                    t1 + 1,
                )
            } else {
                (Seq::<Seq<char>>::empty(), t1 + 1)
            };
            assert(items[i as int] == entries@[j as int]);
            assert(line_v == prefix@ + connector(last) + items[i as int].rel@);
            assert(lines.deep_view() == before.push(line_v) + sub.0);
            assert(*total as int == sub.1);
            let rest = tree_items(items, i + 1, prefix@, depth as int, max as int, g, sub.1);
            assert(tree_items(items, i as int, prefix@, depth as int, max as int, g, t1) == (
            seq![line_v] + sub.0 + rest.0, rest.1));
            assert(before.push(line_v) + sub.0 + rest.0 =~= before + (seq![line_v] + sub.0 + rest.0));
        }
        i = i + 1;
    }
    proof {
        assert(tree_items(items, i as int, prefix@, depth as int, max as int, g, *total as int).0
            =~= Seq::<Seq<char>>::empty());
        assert(lines.deep_view() + Seq::<Seq<char>>::empty() =~= lines.deep_view());
    }
}

/// The depth of the tree: the one asked for, at most 5, else 2.
pub open spec fn depth_limit(depth: Option<u64>) -> int {
    match depth {
        Some(d) => if d < 5 {
            d as int
        } else {
            5
        },
        None => 2,
    }
}

/// A name pattern that is set and not empty.
pub open spec fn active_glob(glob: Option<&str>) -> Option<Seq<char>> {
    match glob {
        Some(g) => if g@.len() > 0 {
            Some(g@)
        } else {
            None
        },
        None => None,
    }
}

/// The text of the tree: its lines (or a note that it is empty), a note
/// when the limit cut it, and the number of entries shown.
pub open spec fn tree_report(lines: Seq<Seq<char>>, total: int) -> Seq<char> {
    (if lines.len() == 0 {
        "(empty)"@
    } else {
        join(lines, "\n"@)
    }) + (if total >= tree_limit() {
        "\n\n... showing first 200 items"@
    } else {
        ""@
    }) + "\n\n"@ + decimal(total as nat) + " items total"@
}

/// The tree of a directory with these entries (each folder's entries read
/// where the tree goes into it): `depth` levels deep, keeping only names
/// that match `glob` (when set), folders first, at most 200 entries.
pub fn list_dir_tree(entries: &Vec<TreeEntry>, depth: Option<u64>, glob: Option<&str>) -> (r: String)
    ensures
        ({
            let t = tree_dir(entries@, Seq::empty(), 0, depth_limit(depth), active_glob(glob), 0);
            r@ == tree_report(t.0, t.1)
        }),
{
    let max: usize = match depth {
        Some(d) => if d < 5 {
            d as usize
        } else {
            5
        },
        None => 2,
    };
    let active: Option<&str> = match glob {
        Some(g) => {
            let gv = chars_of(g);
            if gv.len() > 0 {
                Some(g)
            } else {
                None
            }
        },
        None => None,
    };
    let mut lines: Vec<Vec<char>> = Vec::new();
    let mut total: usize = 0;
    let prefix: Vec<char> = Vec::new();
    proof {
        assert(prefix@ =~= Seq::<char>::empty());
        assert(glob_view(active) == active_glob(glob));
    }
    render_dir(entries, &prefix, 0, max, active, &mut lines, &mut total);
    proof {
        assert(lines.deep_view() =~= Seq::<Seq<char>>::empty() + lines.deep_view());
    }
    let mut out = if lines.len() == 0 {
        chars_of("(empty)")
    } else {
        let sep = chars_of("\n");
        join_chars(&lines, sep.as_slice())
    };
    if total >= 200 {
        push_str(&mut out, "\n\n... showing first 200 items");
    } else {
        proof {
            reveal_strlit("");
            assert(out@ + ""@ =~= out@);
        }
    }
    push_str(&mut out, "\n\n");
    let d = fmt_u64(total as u64);
    push_all(&mut out, d.as_slice());
    push_str(&mut out, " items total");
    string_of(out.as_slice())
}

// ───────────────────────── the flat listing ─────────────────────────

/// What a directory entry is, as far as its file type could be read.
#[derive(Debug, Clone, Copy, PartialEq, Eq, Structural)]
pub enum EntryKind {
    Dir,
    File,
    Unknown,
}

/// The tag shown before an entry of this kind.
pub open spec fn kind_tag(k: EntryKind) -> Seq<char> {
    match k {
        EntryKind::Dir => "[DIR]"@,
        EntryKind::File => "[FILE]"@,
        EntryKind::Unknown => "[?]"@,
    }
}

/// The lines of a flat listing.
pub open spec fn entry_lines(items: Seq<(EntryKind, String)>) -> Seq<Seq<char>> {
    Seq::new(items.len(), |k: int| kind_tag(items[k].0) + " "@ + items[k].1@)
}

/// The flat listing of a directory's entries, in the order read: one line
/// per entry, its kind and its name; a note when there are none.
pub fn list_dir_message(items: &Vec<(EntryKind, String)>) -> (r: String)
    ensures
        r@ == if items@.len() == 0 {
            "(empty directory)"@
        } else {
            join(entry_lines(items@), "\n"@)
        },
{
    if items.len() == 0 {
        return string_of(chars_of("(empty directory)").as_slice());
    }
    let mut ls: Vec<Vec<char>> = Vec::new();
    let mut i: usize = 0;
    while i < items.len()
        invariant
            i <= items@.len(),
            ls.deep_view() == entry_lines(items@).take(i as int),
        decreases items@.len() - i,
    {
        let mut l = match items[i].0 {
            EntryKind::Dir => chars_of("[DIR]"),
            EntryKind::File => chars_of("[FILE]"),
            EntryKind::Unknown => chars_of("[?]"),
        };
        push_str(&mut l, " ");
        push_str(&mut l, items[i].1.as_str());
        push_line(&mut ls, l);
        i = i + 1;
        proof {
            assert(ls.deep_view() =~= entry_lines(items@).take(i as int));
        }
    }
    proof {
        assert(entry_lines(items@).take(i as int) =~= entry_lines(items@));
    }
    let sep = chars_of("\n");
    let out = join_chars(&ls, sep.as_slice());
    string_of(out.as_slice())
}

} // verus!
