//! What is written is read back: the frontmatter that `build_doc` writes
//! parses, with `parse_doc`, to the same fields, and the body comes back
//! without its leading whitespace.
use crate::text::{
    first_occ_from, is_ws, lemma_first_occ_from, starts_with, lines, lines_from, next_nl, occurs_at,
    skip_ws_from, strip_cr, trim, trim_start, back_ws_to,
};
use crate::tool::documents::{
    apply_line, default_fields, doc_text, header_fields, line_kv, parsed_doc, replace_nl,
    MetaModel,
};
use vstd::prelude::*;

verus! {

/// A field value that fits on its header line: no line break, and no
/// whitespace at either end.
pub open spec fn plain_value(v: Seq<char>) -> bool {
    (forall|i: int| 0 <= i < v.len() ==> v[i] != '\n') && trim(v) == v
}

/// The header lines that `doc_text` writes for the fields `m`.
pub open spec fn header_lines(m: MetaModel) -> Seq<Seq<char>> {
    let base = seq![
        "id: "@ + m.0,
        "type: "@ + m.1,
        "author: "@ + m.2,
        "timestamp: "@ + m.3,
        "refs: "@ + m.4,
    ];
    let s1 = if m.5.len() > 0 {
        base.push("status: "@ + m.5)
    } else {
        base
    };
    let s2 = if m.6.len() > 0 {
        s1.push("notes: "@ + m.6)
    } else {
        s1
    };
    if m.7.len() > 0 {
        s2.push("approved_hash: "@ + m.7)
    } else {
        s2
    }
}

/// The lines joined by line breaks, built from the front.
pub open spec fn nl_join(ls: Seq<Seq<char>>) -> Seq<char>
    decreases ls.len(),
{
    if ls.len() <= 1 {
        if ls.len() == 1 {
            ls[0]
        } else {
            Seq::empty()
        }
    } else {
        ls[0] + seq!['\n'] + nl_join(ls.skip(1))
    }
}

/// A header line: not empty, no line break, not ending in a carriage
/// return, not starting with a dash.
pub open spec fn header_line(l: Seq<char>) -> bool {
    &&& l.len() > 0
    &&& forall|i: int| 0 <= i < l.len() ==> l[i] != '\n'
    &&& l.last() != '\r'
    &&& l[0] != '-'
}

proof fn lemma_next_nl_in(a: Seq<char>, r: Seq<char>, i: int)
    requires
        0 <= i <= a.len(),
        forall|k: int| 0 <= k < a.len() ==> a[k] != '\n',
    ensures
        next_nl(a + seq!['\n'] + r, i) == a.len(),
    decreases a.len() - i,
{
    let s = a + seq!['\n'] + r;
    if i < a.len() {
        assert(s[i] == a[i]);
        lemma_next_nl_in(a, r, i + 1);
    } else {
        assert(s[i] == '\n');
    }
}

proof fn lemma_next_nl_shift(p: Seq<char>, r: Seq<char>, i: int)
    requires
        0 <= i <= r.len(),
    ensures
        next_nl(p + r, p.len() + i) == p.len() + next_nl(r, i),
    decreases r.len() - i,
{
    let s = p + r;
    if i < r.len() {
        assert(s[p.len() + i] == r[i]);
        if r[i] != '\n' {
            lemma_next_nl_shift(p, r, i + 1);
        }
    }
}

proof fn lemma_lines_shift(p: Seq<char>, r: Seq<char>, i: int)
    requires
        0 <= i,
    ensures
        lines_from(p + r, p.len() + i) == lines_from(r, i),
    decreases r.len() + 1 - i,
{
    let s = p + r;
    if i < r.len() {
        lemma_next_nl_shift(p, r, i);
        crate::text::lemma_next_nl_bounds(r, i);
        let j = next_nl(r, i);
        assert(s.subrange(p.len() + i, p.len() + j) =~= r.subrange(i, j));
        lemma_lines_shift(p, r, j + 1);
    }
}

proof fn lemma_lines_cons(a: Seq<char>, r: Seq<char>)
    requires
        forall|k: int| 0 <= k < a.len() ==> a[k] != '\n',
        a.len() == 0 || a.last() != '\r',
    ensures
        lines(a + seq!['\n'] + r) == seq![a] + lines(r),
{
    let p = a + seq!['\n'];
    let s = a + seq!['\n'] + r;
    assert(s == p + r);
    lemma_next_nl_in(a, r, 0);
    assert(s.subrange(0, a.len() as int) =~= a);
    lemma_lines_shift(p, r, 0);
}

proof fn lemma_lines_last(a: Seq<char>)
    requires
        a.len() > 0,
        forall|k: int| 0 <= k < a.len() ==> a[k] != '\n',
    ensures
        lines(a) == seq![a],
{
    assert(next_nl(a, 0) == a.len()) by {
        lemma_next_nl_in_all(a, 0);
    }
    assert(a.subrange(0, a.len() as int) =~= a);
    assert(lines_from(a, a.len() + 1int) == Seq::<Seq<char>>::empty());
    assert(lines_from(a, 0) == seq![a] + lines_from(a, a.len() + 1int));
    assert(seq![a] + Seq::<Seq<char>>::empty() =~= seq![a]);
}

proof fn lemma_next_nl_in_all(a: Seq<char>, i: int)
    requires
        0 <= i <= a.len(),
        forall|k: int| 0 <= k < a.len() ==> a[k] != '\n',
    ensures
        next_nl(a, i) == a.len(),
    decreases a.len() - i,
{
    if i < a.len() {
        lemma_next_nl_in_all(a, i + 1);
    }
}

proof fn lemma_lines_nl_join(ls: Seq<Seq<char>>)
    requires
        ls.len() > 0,
        forall|i: int| 0 <= i < ls.len() ==> #[trigger] header_line(ls[i]),
    ensures
        lines(nl_join(ls)) == ls,
    decreases ls.len(),
{
    if ls.len() == 1 {
        assert(header_line(ls[0]));
        lemma_lines_last(ls[0]);
        assert(seq![ls[0]] =~= ls);
    } else {
        let rest = ls.skip(1);
        assert forall|i: int| 0 <= i < rest.len() implies #[trigger] header_line(rest[i]) by {
            assert(rest[i] == ls[i + 1]);
            assert(header_line(ls[i + 1]));
        }
        lemma_lines_nl_join(rest);
        assert(header_line(ls[0]));
        lemma_lines_cons(ls[0], nl_join(rest));
        assert(seq![ls[0]] + rest =~= ls);
    }
}

/// Every line break in the joined lines is followed by a character other
/// than a dash.
pub open spec fn no_dash_after_nl(h: Seq<char>) -> bool {
    forall|j: int| 0 <= j < h.len() && #[trigger] h[j] == '\n' ==> j + 1 < h.len() && h[j + 1] != '-'
}

proof fn lemma_nl_join_dash(ls: Seq<Seq<char>>)
    requires
        ls.len() > 0,
        forall|i: int| 0 <= i < ls.len() ==> #[trigger] header_line(ls[i]),
    ensures
        no_dash_after_nl(nl_join(ls)),
        nl_join(ls).len() > 0,
    decreases ls.len(),
{
    if ls.len() == 1 {
        assert(header_line(ls[0]));
    } else {
        let rest = ls.skip(1);
        assert forall|i: int| 0 <= i < rest.len() implies #[trigger] header_line(rest[i]) by {
            assert(rest[i] == ls[i + 1]);
            assert(header_line(ls[i + 1]));
        }
        lemma_nl_join_dash(rest);
        assert(header_line(ls[0]));
        assert(header_line(rest[0]));
        let a = ls[0];
        let t = nl_join(rest);
        let h = a + seq!['\n'] + t;
        assert(t[0] == rest[0][0]) by {
            if rest.len() > 1 {
                assert((rest[0] + seq!['\n'] + nl_join(rest.skip(1)))[0] == rest[0][0]);
            }
        }
        assert forall|j: int| 0 <= j < h.len() && #[trigger] h[j] == '\n' implies j + 1 < h.len() && h[j
            + 1] != '-' by {
            if j < a.len() {
                assert(h[j] == a[j]);
            } else if j == a.len() {
                assert(h[j + 1] == t[0]);
            } else {
                assert(h[j] == t[j - a.len() - 1]);
                assert(h[j + 1] == t[j - a.len()]);
            }
        }
    }
}

proof fn lemma_end_marker(h: Seq<char>, b: Seq<char>)
    requires
        no_dash_after_nl(h),
    ensures
        first_occ_from(h + "\n---\n"@ + b, "\n---"@, 0) == Some(h.len() as int),
{
    reveal_strlit("\n---\n");
    reveal_strlit("\n---");
    let x = h + "\n---\n"@ + b;
    assert(x.subrange(h.len() as int, h.len() + 4int) =~= "\n---"@);
    assert forall|j: int| 0 <= j < h.len() implies !#[trigger] occurs_at(x, "\n---"@, j) by {
        if occurs_at(x, "\n---"@, j) {
            assert(x.subrange(j, j + 4)[0] == '\n');
            assert(x[j] == h[j]);
            assert(x.subrange(j, j + 4)[1] == '-');
            if j + 1 < h.len() {
                assert(x[j + 1] == h[j + 1]);
            }
        }
    }
    lemma_first_occ_from(x, "\n---"@, 0, h.len() as int);
}

proof fn lemma_skip_ws_shift(c: char, b: Seq<char>, i: int)
    requires
        0 <= i,
    ensures
        skip_ws_from(seq![c] + b, i + 1) == 1 + skip_ws_from(b, i),
    decreases b.len() - i,
{
    let s = seq![c] + b;
    if i < b.len() {
        assert(s[i + 1] == b[i]);
        if is_ws(b[i]) {
            lemma_skip_ws_shift(c, b, i + 1);
        }
    }
}

proof fn lemma_trim_start_nl(b: Seq<char>)
    ensures
        trim_start(seq!['\n'] + b) == trim_start(b),
{
    let s = seq!['\n'] + b;
    assert(is_ws('\n'));
    lemma_skip_ws_shift('\n', b, 0);
    crate::text::lemma_skip_ws_bounds(b, 0);
    assert(s.skip(1 + skip_ws_from(b, 0)) =~= b.skip(skip_ws_from(b, 0)));
}

proof fn lemma_replace_nl_plain(v: Seq<char>)
    requires
        forall|i: int| 0 <= i < v.len() ==> v[i] != '\n',
    ensures
        replace_nl(v) == v,
    decreases v.len(),
{
    if v.len() > 0 {
        lemma_replace_nl_plain(v.drop_last());
        assert(v.drop_last().push(v.last()) =~= v);
    }
}

proof fn lemma_plain_end(v: Seq<char>)
    requires
        plain_value(v),
        v.len() > 0,
    ensures
        !is_ws(v.last()),
        !is_ws(v[0]),
{
    crate::text::lemma_skip_ws_bounds(v, 0);
    let a = skip_ws_from(v, 0);
    crate::text::lemma_back_ws_bounds(v, a, v.len() as int);
    if is_ws(v[0]) {
        assert(skip_ws_from(v, 0) == skip_ws_from(v, 1));
        crate::text::lemma_skip_ws_bounds(v, 1);
    }
    if is_ws(v.last()) {
        assert(a == 0);
        assert(back_ws_to(v, 0, v.len() as int) == back_ws_to(v, 0, v.len() - 1));
        crate::text::lemma_back_ws_bounds(v, 0, v.len() - 1);
    }
}

/// A header line `key: value` reads back as the key and the value.
proof fn lemma_kv(key: Seq<char>, v: Seq<char>)
    requires
        forall|i: int| 0 <= i < key.len() ==> key[i] != ':',
        plain_value(v),
    ensures
        line_kv(key + ": "@ + v) == Some((key, v)),
{
    reveal_strlit(": ");
    let line = key + ": "@ + v;
    assert(line.subrange(key.len() as int, key.len() + 2int) =~= ": "@);
    assert forall|j: int| 0 <= j < key.len() implies !#[trigger] occurs_at(line, ": "@, j) by {
        if occurs_at(line, ": "@, j) {
            assert(line.subrange(j, j + 2)[0] == ':');
            assert(line[j] == key[j]);
        }
    }
    lemma_first_occ_from(line, ": "@, 0, key.len() as int);
    assert(line.take(key.len() as int) =~= key);
    assert(line.skip(key.len() + 2int) =~= v);
}

/// A written header line is a header line.
proof fn lemma_header_line(key: Seq<char>, v: Seq<char>)
    requires
        key.len() > 0,
        key[0] != '-',
        forall|i: int| 0 <= i < key.len() ==> key[i] != '\n',
        plain_value(v),
    ensures
        header_line(key + ": "@ + v),
{
    reveal_strlit(": ");
    let l = key + ": "@ + v;
    assert(l[0] == key[0]);
    assert forall|i: int| 0 <= i < l.len() implies l[i] != '\n' by {
        if i < key.len() {
            assert(l[i] == key[i]);
        } else if i >= key.len() + 2 {
            assert(l[i] == v[i - key.len() - 2]);
        }
    }
    if v.len() > 0 {
        lemma_plain_end(v);
        assert(l.last() == v.last());
        assert(is_ws('\r'));
    } else {
        assert(l.last() == ' ');
    }
}

proof fn lemma_nl_join_push(ls: Seq<Seq<char>>, x: Seq<char>)
    requires
        ls.len() >= 1,
    ensures
        nl_join(ls.push(x)) == nl_join(ls) + seq!['\n'] + x,
    decreases ls.len(),
{
    let t = ls.push(x);
    if ls.len() == 1 {
        assert(t.skip(1) =~= seq![x]);
        assert(nl_join(seq![x]) == x);
    } else {
        assert(t.skip(1) =~= ls.skip(1).push(x));
        lemma_nl_join_push(ls.skip(1), x);
        assert(nl_join(t) =~= nl_join(ls) + seq!['\n'] + x);
    }
}

proof fn lemma_literals()
    ensures
        "---\nid: "@ == "---\n"@ + "id: "@,
        "\ntype: "@ == seq!['\n'] + "type: "@,
        "\nauthor: "@ == seq!['\n'] + "author: "@,
        "\ntimestamp: "@ == seq!['\n'] + "timestamp: "@,
        "\nrefs: "@ == seq!['\n'] + "refs: "@,
        "\nstatus: "@ == seq!['\n'] + "status: "@,
        "\nnotes: "@ == seq!['\n'] + "notes: "@,
        "\napproved_hash: "@ == seq!['\n'] + "approved_hash: "@,
{
    reveal_strlit("---\nid: ");
    reveal_strlit("---\n");
    reveal_strlit("id: ");
    reveal_strlit("\ntype: ");
    reveal_strlit("type: ");
    reveal_strlit("\nauthor: ");
    reveal_strlit("author: ");
    reveal_strlit("\ntimestamp: ");
    reveal_strlit("timestamp: ");
    reveal_strlit("\nrefs: ");
    reveal_strlit("refs: ");
    reveal_strlit("\nstatus: ");
    reveal_strlit("status: ");
    reveal_strlit("\nnotes: ");
    reveal_strlit("notes: ");
    reveal_strlit("\napproved_hash: ");
    reveal_strlit("approved_hash: ");
    assert("---\nid: "@ =~= "---\n"@ + "id: "@);
    assert("\ntype: "@ =~= seq!['\n'] + "type: "@);
    assert("\nauthor: "@ =~= seq!['\n'] + "author: "@);
    assert("\ntimestamp: "@ =~= seq!['\n'] + "timestamp: "@);
    assert("\nrefs: "@ =~= seq!['\n'] + "refs: "@);
    assert("\nstatus: "@ =~= seq!['\n'] + "status: "@);
    assert("\nnotes: "@ =~= seq!['\n'] + "notes: "@);
    assert("\napproved_hash: "@ =~= seq!['\n'] + "approved_hash: "@);
}

/// The fixed header lines, joined, follow the opening marker as
/// `doc_text` writes them.
proof fn lemma_base_shape(m: MetaModel)
    ensures
        "---\nid: "@ + m.0 + "\ntype: "@ + m.1 + "\nauthor: "@ + m.2 + "\ntimestamp: "@ + m.3
            + "\nrefs: "@ + m.4 == "---\n"@ + nl_join(
            seq![
                "id: "@ + m.0,
                "type: "@ + m.1,
                "author: "@ + m.2,
                "timestamp: "@ + m.3,
                "refs: "@ + m.4,
            ],
        ),
{
    lemma_literals();
    let l0 = "id: "@ + m.0;
    let l1 = "type: "@ + m.1;
    let l2 = "author: "@ + m.2;
    let l3 = "timestamp: "@ + m.3;
    let l4 = "refs: "@ + m.4;
    let b0 = seq![l0];
    let b1 = b0.push(l1);
    let b2 = b1.push(l2);
    let b3 = b2.push(l3);
    let b4 = b3.push(l4);
    assert(nl_join(b0) == l0);
    lemma_nl_join_push(b0, l1);
    lemma_nl_join_push(b1, l2);
    lemma_nl_join_push(b2, l3);
    lemma_nl_join_push(b3, l4);
    let p0 = "---\nid: "@ + m.0;
    assert(p0 =~= "---\n"@ + nl_join(b0));
    let p1 = p0 + "\ntype: "@ + m.1;
    assert(p1 =~= "---\n"@ + nl_join(b1));
    let p2 = p1 + "\nauthor: "@ + m.2;
    assert(p2 =~= "---\n"@ + nl_join(b2));
    let p3 = p2 + "\ntimestamp: "@ + m.3;
    assert(p3 =~= "---\n"@ + nl_join(b3));
    let p4 = p3 + "\nrefs: "@ + m.4;
    assert(p4 =~= "---\n"@ + nl_join(b4));
    assert(b4 =~= seq![l0, l1, l2, l3, l4]);
}

proof fn lemma_opt_shape(p: Seq<char>, ls: Seq<Seq<char>>, lit: Seq<char>, key: Seq<char>, v: Seq<char>)
    requires
        ls.len() >= 1,
        p == "---\n"@ + nl_join(ls),
        lit == seq!['\n'] + key,
    ensures
        p + (if v.len() > 0 {
            lit + v
        } else {
            Seq::empty()
        }) == "---\n"@ + nl_join(if v.len() > 0 {
            ls.push(key + v)
        } else {
            ls
        }),
{
    if v.len() > 0 {
        lemma_nl_join_push(ls, key + v);
        assert(p + (lit + v) =~= "---\n"@ + nl_join(ls.push(key + v)));
    } else {
        assert(p + Seq::<char>::empty() =~= p);
    }
}

/// The text `doc_text` writes is the header lines joined between the
/// opening and the closing marker, then the body.
proof fn lemma_doc_text_shape(m: MetaModel, body: Seq<char>)
    ensures
        doc_text(m, body) == "---\n"@ + nl_join(header_lines(m)) + "\n---\n"@ + body,
{
    lemma_literals();
    lemma_base_shape(m);
    let b4 = seq!["id: "@ + m.0, "type: "@ + m.1, "author: "@ + m.2, "timestamp: "@ + m.3, "refs: "@ + m.4];
    let p4 = "---\nid: "@ + m.0 + "\ntype: "@ + m.1 + "\nauthor: "@ + m.2 + "\ntimestamp: "@ + m.3
        + "\nrefs: "@ + m.4;
    let o5 = if m.5.len() > 0 {
        "\nstatus: "@ + m.5
    } else {
        Seq::empty()
    };
    let s1 = if m.5.len() > 0 {
        b4.push("status: "@ + m.5)
    } else {
        b4
    };
    lemma_opt_shape(p4, b4, "\nstatus: "@, "status: "@, m.5);
    let p5 = p4 + o5;
    let o6 = if m.6.len() > 0 {
        "\nnotes: "@ + m.6
    } else {
        Seq::empty()
    };
    let s2 = if m.6.len() > 0 {
        s1.push("notes: "@ + m.6)
    } else {
        s1
    };
    lemma_opt_shape(p5, s1, "\nnotes: "@, "notes: "@, m.6);
    let p6 = p5 + o6;
    let o7 = if m.7.len() > 0 {
        "\napproved_hash: "@ + m.7
    } else {
        Seq::empty()
    };
    lemma_opt_shape(p6, s2, "\napproved_hash: "@, "approved_hash: "@, m.7);
    let p7 = p6 + o7;
    assert(p7 == "---\n"@ + nl_join(header_lines(m)));
    assert(doc_text(m, body) == p7 + "\n---\n"@ + body);
}

proof fn lemma_apply_id(st: MetaModel, v: Seq<char>)
    requires
        plain_value(v),
        forall|i: int| 0 <= i < v.len() ==> v[i] != '\n',
    ensures
        apply_line(st, "id: "@ + v) == (v, st.1, st.2, st.3, st.4, st.5, st.6, st.7),
{
    reveal(apply_line);
    reveal_strlit("id");
    reveal_strlit("type");
    reveal_strlit("author");
    reveal_strlit("timestamp");
    reveal_strlit("refs");
    reveal_strlit("status");
    reveal_strlit("notes");
    reveal_strlit("approved_hash");
    reveal_strlit("id: ");
    reveal_strlit(": ");
    assert("id: "@ + v =~= "id"@ + ": "@ + v);
    lemma_kv("id"@, v);

}

proof fn lemma_apply_type(st: MetaModel, v: Seq<char>)
    requires
        plain_value(v),
        forall|i: int| 0 <= i < v.len() ==> v[i] != '\n',
    ensures
        apply_line(st, "type: "@ + v) == (st.0, v, st.2, st.3, st.4, st.5, st.6, st.7),
{
    reveal(apply_line);
    reveal_strlit("id");
    reveal_strlit("type");
    reveal_strlit("author");
    reveal_strlit("timestamp");
    reveal_strlit("refs");
    reveal_strlit("status");
    reveal_strlit("notes");
    reveal_strlit("approved_hash");
    reveal_strlit("type: ");
    reveal_strlit(": ");
    assert("type: "@ + v =~= "type"@ + ": "@ + v);
    lemma_kv("type"@, v);

}

proof fn lemma_apply_author(st: MetaModel, v: Seq<char>)
    requires
        plain_value(v),
        forall|i: int| 0 <= i < v.len() ==> v[i] != '\n',
    ensures
        apply_line(st, "author: "@ + v) == (st.0, st.1, v, st.3, st.4, st.5, st.6, st.7),
{
    reveal(apply_line);
    reveal_strlit("id");
    reveal_strlit("type");
    reveal_strlit("author");
    reveal_strlit("timestamp");
    reveal_strlit("refs");
    reveal_strlit("status");
    reveal_strlit("notes");
    reveal_strlit("approved_hash");
    reveal_strlit("author: ");
    reveal_strlit(": ");
    assert("author: "@ + v =~= "author"@ + ": "@ + v);
    lemma_kv("author"@, v);

}

proof fn lemma_apply_timestamp(st: MetaModel, v: Seq<char>)
    requires
        plain_value(v),
        forall|i: int| 0 <= i < v.len() ==> v[i] != '\n',
    ensures
        apply_line(st, "timestamp: "@ + v) == (st.0, st.1, st.2, v, st.4, st.5, st.6, st.7),
{
    reveal(apply_line);
    reveal_strlit("id");
    reveal_strlit("type");
    reveal_strlit("author");
    reveal_strlit("timestamp");
    reveal_strlit("refs");
    reveal_strlit("status");
    reveal_strlit("notes");
    reveal_strlit("approved_hash");
    reveal_strlit("timestamp: ");
    reveal_strlit(": ");
    assert("timestamp: "@ + v =~= "timestamp"@ + ": "@ + v);
    lemma_kv("timestamp"@, v);

}

proof fn lemma_apply_refs(st: MetaModel, v: Seq<char>)
    requires
        plain_value(v),
        forall|i: int| 0 <= i < v.len() ==> v[i] != '\n',
    ensures
        apply_line(st, "refs: "@ + v) == (st.0, st.1, st.2, st.3, v, st.5, st.6, st.7),
{
    reveal(apply_line);
    reveal_strlit("id");
    reveal_strlit("type");
    reveal_strlit("author");
    reveal_strlit("timestamp");
    reveal_strlit("refs");
    reveal_strlit("status");
    reveal_strlit("notes");
    reveal_strlit("approved_hash");
    reveal_strlit("refs: ");
    reveal_strlit(": ");
    assert("refs: "@ + v =~= "refs"@ + ": "@ + v);
    assert("refs"@[0] != "type"@[0]);
    lemma_kv("refs"@, v);

}

proof fn lemma_apply_status(st: MetaModel, v: Seq<char>)
    requires
        plain_value(v),
        forall|i: int| 0 <= i < v.len() ==> v[i] != '\n',
    ensures
        apply_line(st, "status: "@ + v) == (st.0, st.1, st.2, st.3, st.4, v, st.6, st.7),
{
    reveal(apply_line);
    reveal_strlit("id");
    reveal_strlit("type");
    reveal_strlit("author");
    reveal_strlit("timestamp");
    reveal_strlit("refs");
    reveal_strlit("status");
    reveal_strlit("notes");
    reveal_strlit("approved_hash");
    reveal_strlit("status: ");
    reveal_strlit(": ");
    assert("status: "@ + v =~= "status"@ + ": "@ + v);
    assert("status"@[0] != "author"@[0]);
    lemma_kv("status"@, v);

}

proof fn lemma_apply_notes(st: MetaModel, v: Seq<char>)
    requires
        plain_value(v),
        forall|i: int| 0 <= i < v.len() ==> v[i] != '\n',
    ensures
        apply_line(st, "notes: "@ + v) == (st.0, st.1, st.2, st.3, st.4, st.5, v, st.7),
{
    reveal(apply_line);
    reveal_strlit("id");
    reveal_strlit("type");
    reveal_strlit("author");
    reveal_strlit("timestamp");
    reveal_strlit("refs");
    reveal_strlit("status");
    reveal_strlit("notes");
    reveal_strlit("approved_hash");
    reveal_strlit("notes: ");
    reveal_strlit(": ");
    assert("notes: "@ + v =~= "notes"@ + ": "@ + v);
    lemma_kv("notes"@, v);
    lemma_replace_nl_plain(v);
}

proof fn lemma_apply_approved_hash(st: MetaModel, v: Seq<char>)
    requires
        plain_value(v),
        forall|i: int| 0 <= i < v.len() ==> v[i] != '\n',
    ensures
        apply_line(st, "approved_hash: "@ + v) == (st.0, st.1, st.2, st.3, st.4, st.5, st.6, v),
{
    reveal(apply_line);
    reveal_strlit("id");
    reveal_strlit("type");
    reveal_strlit("author");
    reveal_strlit("timestamp");
    reveal_strlit("refs");
    reveal_strlit("status");
    reveal_strlit("notes");
    reveal_strlit("approved_hash");
    reveal_strlit("approved_hash: ");
    reveal_strlit(": ");
    assert("approved_hash: "@ + v =~= "approved_hash"@ + ": "@ + v);
    lemma_kv("approved_hash"@, v);

}

/// A written header line `<key>: <value>` is a header line.
proof fn lemma_written_line(kc: Seq<char>, v: Seq<char>)
    requires
        kc.len() > 0,
        kc[0] != '-',
        kc.last() == ' ',
        forall|i: int| 0 <= i < kc.len() ==> kc[i] != '\n',
        plain_value(v),
    ensures
        header_line(kc + v),
{
    let l = kc + v;
    assert(l[0] == kc[0]);
    assert forall|i: int| 0 <= i < l.len() implies l[i] != '\n' by {
        if i < kc.len() {
            assert(l[i] == kc[i]);
        } else {
            assert(l[i] == v[i - kc.len()]);
        }
    }
    if v.len() > 0 {
        lemma_plain_end(v);
        assert(l.last() == v.last());
        assert(is_ws('\r'));
    } else {
        assert(l =~= kc);
    }
}

/// The eight field values fit on their header lines.
pub open spec fn plain_fields(m: MetaModel) -> bool {
    &&& plain_value(m.0)
    &&& plain_value(m.1)
    &&& plain_value(m.2)
    &&& plain_value(m.3)
    &&& plain_value(m.4)
    &&& plain_value(m.5)
    &&& plain_value(m.6)
    &&& plain_value(m.7)
}

proof fn lemma_header_lines_ok(m: MetaModel)
    requires
        plain_fields(m),
    ensures
        header_lines(m).len() > 0,
        forall|i: int| 0 <= i < header_lines(m).len() ==> #[trigger] header_line(header_lines(m)[i]),
{
    reveal_strlit("id: ");
    reveal_strlit("type: ");
    reveal_strlit("author: ");
    reveal_strlit("timestamp: ");
    reveal_strlit("refs: ");
    reveal_strlit("status: ");
    reveal_strlit("notes: ");
    reveal_strlit("approved_hash: ");
    lemma_written_line("id: "@, m.0);
    lemma_written_line("type: "@, m.1);
    lemma_written_line("author: "@, m.2);
    lemma_written_line("timestamp: "@, m.3);
    lemma_written_line("refs: "@, m.4);
    lemma_written_line("status: "@, m.5);
    lemma_written_line("notes: "@, m.6);
    lemma_written_line("approved_hash: "@, m.7);
}

proof fn lemma_fields_push(ls: Seq<Seq<char>>, x: Seq<char>)
    ensures
        header_fields(ls.push(x)) == apply_line(header_fields(ls), x),
{
    assert(ls.push(x).drop_last() =~= ls);
}

proof fn lemma_hf_two(m: MetaModel)
    requires
        plain_fields(m),
    ensures
        header_fields(seq!["id: "@ + m.0, "type: "@ + m.1]) == (
            m.0,
            m.1,
            Seq::<char>::empty(),
            Seq::<char>::empty(),
            "[-1]"@,
            Seq::<char>::empty(),
            Seq::<char>::empty(),
            Seq::<char>::empty(),
        ),
{
    let e = Seq::<Seq<char>>::empty();
    let b0 = e.push("id: "@ + m.0);
    lemma_fields_push(e, "id: "@ + m.0);
    lemma_apply_id(default_fields(), m.0);
    lemma_fields_push(b0, "type: "@ + m.1);
    lemma_apply_type(header_fields(b0), m.1);
    assert(b0.push("type: "@ + m.1) =~= seq!["id: "@ + m.0, "type: "@ + m.1]);
}

proof fn lemma_hf_four(m: MetaModel)
    requires
        plain_fields(m),
    ensures
        header_fields(seq!["id: "@ + m.0, "type: "@ + m.1, "author: "@ + m.2, "timestamp: "@ + m.3])
            == (
            m.0,
            m.1,
            m.2,
            m.3,
            "[-1]"@,
            Seq::<char>::empty(),
            Seq::<char>::empty(),
            Seq::<char>::empty(),
        ),
{
    let b1 = seq!["id: "@ + m.0, "type: "@ + m.1];
    lemma_hf_two(m);
    let b2 = b1.push("author: "@ + m.2);
    lemma_fields_push(b1, "author: "@ + m.2);
    lemma_apply_author(header_fields(b1), m.2);
    lemma_fields_push(b2, "timestamp: "@ + m.3);
    lemma_apply_timestamp(header_fields(b2), m.3);
    assert(b2.push("timestamp: "@ + m.3) =~= seq![
        "id: "@ + m.0,
        "type: "@ + m.1,
        "author: "@ + m.2,
        "timestamp: "@ + m.3,
    ]);
}

proof fn lemma_hf_base(m: MetaModel)
    requires
        plain_fields(m),
    ensures
        header_fields(
            seq![
                "id: "@ + m.0,
                "type: "@ + m.1,
                "author: "@ + m.2,
                "timestamp: "@ + m.3,
                "refs: "@ + m.4,
            ],
        ) == (
            m.0,
            m.1,
            m.2,
            m.3,
            m.4,
            Seq::<char>::empty(),
            Seq::<char>::empty(),
            Seq::<char>::empty(),
        ),
{
    let b3 = seq!["id: "@ + m.0, "type: "@ + m.1, "author: "@ + m.2, "timestamp: "@ + m.3];
    lemma_hf_four(m);
    lemma_fields_push(b3, "refs: "@ + m.4);
    lemma_apply_refs(header_fields(b3), m.4);
    assert(b3.push("refs: "@ + m.4) =~= seq![
        "id: "@ + m.0,
        "type: "@ + m.1,
        "author: "@ + m.2,
        "timestamp: "@ + m.3,
        "refs: "@ + m.4,
    ]);
}

proof fn lemma_header_fields(m: MetaModel)
    requires
        plain_fields(m),
    ensures
        header_fields(header_lines(m)) == m,
{
    let b4 = seq!["id: "@ + m.0, "type: "@ + m.1, "author: "@ + m.2, "timestamp: "@ + m.3, "refs: "@ + m.4];
    lemma_hf_base(m);
    let s1 = if m.5.len() > 0 {
        b4.push("status: "@ + m.5)
    } else {
        b4
    };
    if m.5.len() > 0 {
        lemma_fields_push(b4, "status: "@ + m.5);
        lemma_apply_status(header_fields(b4), m.5);
    }
    let s2 = if m.6.len() > 0 {
        s1.push("notes: "@ + m.6)
    } else {
        s1
    };
    if m.6.len() > 0 {
        lemma_fields_push(s1, "notes: "@ + m.6);
        lemma_apply_notes(header_fields(s1), m.6);
    }
    let s3 = if m.7.len() > 0 {
        s2.push("approved_hash: "@ + m.7)
    } else {
        s2
    };
    if m.7.len() > 0 {
        lemma_fields_push(s2, "approved_hash: "@ + m.7);
        lemma_apply_approved_hash(header_fields(s2), m.7);
    }
    assert(s3 == header_lines(m));
    let f = header_fields(s3);
    assert(f.5 =~= m.5);
    assert(f.6 =~= m.6);
    assert(f.7 =~= m.7);
}

/// What is written is read back: for fields that each fit on one header
/// line (no line break, no whitespace at either end) and a non-empty id,
/// the text `build_doc` writes parses, as `parse_doc` reads it, to the
/// same fields, and to the body without its leading whitespace.
#[verifier::spinoff_prover]
#[verifier::rlimit(100)]
pub proof fn law_doc_text_reads_back(m: MetaModel, body: Seq<char>)
    requires
        m.0.len() > 0,
        plain_fields(m),
    ensures
        parsed_doc(doc_text(m, body)) == Ok::<(MetaModel, Seq<char>), Seq<char>>((m, trim_start(body))),
{
    lemma_doc_text_shape(m, body);
    let ls = header_lines(m);
    let h = nl_join(ls);
    lemma_header_lines_ok(m);
    lemma_lines_nl_join(ls);
    lemma_nl_join_dash(ls);
    lemma_end_marker(h, body);
    lemma_header_fields(m);
    lemma_trim_start_nl(body);
    reveal_strlit("---\n");
    reveal_strlit("\n---\n");
    let c = "---\n"@ + h + "\n---\n"@ + body;
    assert(c.take(4) =~= "---\n"@);
    assert(starts_with(c, "---\n"@));
    let rest = c.skip(4);
    assert(rest =~= h + "\n---\n"@ + body);
    assert(first_occ_from(rest, "\n---"@, 0) == Some(h.len() as int));
    assert(rest.take(h.len() as int) =~= h);
    assert(header_fields(lines(rest.take(h.len() as int))) == m);
    assert(m.0.len() > 0);
    assert(rest.skip(h.len() + 4int) =~= seq!['\n'] + body);
    assert(trim_start(rest.skip(h.len() + 4int)) == trim_start(body));
    assert(parsed_doc(c) == Ok::<(MetaModel, Seq<char>), Seq<char>>((m, trim_start(body))));
}

} // verus!
