//! The decisions of text search: which folders are skipped, which file
//! names a glob admits, which lines match, what ripgrep reported, and the
//! report the model receives.
use crate::text::{
    chars_of, decimal, fmt_u64, has_sub, join, join_chars, lemma_chars_deep_view, lines,
    lowercase, push_all, push_line, push_str, split_lines, str_eq, string_of, strs, to_lowercase,
    trim, trim_chars, contains,
};
use vstd::prelude::*;

verus! {

// ───────────────────────── folders and names ─────────────────────────

/// Folders the fallback search does not enter.
pub open spec fn skipped_dir(name: Seq<char>) -> bool {
    name == ".git"@ || name == ".shuji"@ || name == "node_modules"@ || name == "target"@ || name
        == ".venv"@ || name == "__pycache__"@
}

/// Whether the fallback search skips a folder of this name.
pub fn is_skipped_dir(name: &str) -> (r: bool)
    ensures
        r == skipped_dir(name@),
{
    str_eq(name, ".git") || str_eq(name, ".shuji") || str_eq(name, "node_modules") || str_eq(
        name,
        "target",
    ) || str_eq(name, ".venv") || str_eq(name, "__pycache__")
}

/// `name[ni..]` matches `glob[gi..]`: `*` any run of characters, `?` any
/// one character, anything else itself.
pub open spec fn glob_at(name: Seq<char>, glob: Seq<char>, ni: int, gi: int) -> bool
    decreases glob.len() - gi, name.len() + 2 - ni,
{
    if gi < 0 || gi >= glob.len() {
        ni == name.len()
    } else if glob[gi] == '*' {
        0 <= ni <= name.len() && star_from(name, glob, ni, gi)
    } else if glob[gi] == '?' {
        0 <= ni < name.len() && glob_at(name, glob, ni + 1, gi + 1)
    } else {
        0 <= ni < name.len() && name[ni] == glob[gi] && glob_at(name, glob, ni + 1, gi + 1)
    }
}

/// The `*` at `glob[gi]` absorbs `name[ni..i]` for some `i` from `ni` on,
/// and the rest of the glob matches from there.
pub open spec fn star_from(name: Seq<char>, glob: Seq<char>, i: int, gi: int) -> bool
    decreases glob.len() - gi, name.len() + 1 - i,
{
    if i < 0 || i > name.len() || gi < 0 || gi >= glob.len() {
        false
    } else {
        glob_at(name, glob, i, gi + 1) || star_from(name, glob, i + 1, gi)
    }
}

fn glob_match_inner(name: &[char], glob: &[char], ni: usize, gi: usize) -> (r: bool)
    requires
        ni <= name@.len(),
        gi <= glob@.len(),
    ensures
        r == glob_at(name@, glob@, ni as int, gi as int),
    decreases glob@.len() - gi,
{
    if gi == glob.len() {
        return ni == name.len();
    }
    if glob[gi] == '*' {
        let n = name.len();
        let g = glob.len();
        let mut i = ni;
        loop
            invariant
                ni <= i <= n,
                n == name@.len(),
                g == glob@.len(),
                gi < glob@.len(),
                glob@[gi as int] == '*',
                star_from(name@, glob@, ni as int, gi as int) == star_from(name@, glob@, i as int, gi as int),
            decreases n - i,
        {
            if glob_match_inner(name, glob, i, gi + 1) {
                return true;
            }
            if i == n {
                proof {
                    assert(star_from(name@, glob@, i + 1, gi as int) == false);
                }
                return false;
            }
            i = i + 1;
        }
    } else if glob[gi] == '?' {
        ni < name.len() && glob_match_inner(name, glob, ni + 1, gi + 1)
    } else {
        ni < name.len() && name[ni] == glob[gi] && glob_match_inner(name, glob, ni + 1, gi + 1)
    }
}

/// Whether a file name matches a glob (`*` and `?` wildcards).
pub fn simple_glob_match(name: &str, glob: &str) -> (r: bool)
    ensures
        r == glob_at(name@, glob@, 0, 0),
{
    let n = chars_of(name);
    let g = chars_of(glob);
    glob_match_inner(n.as_slice(), g.as_slice(), 0, 0)
}

// ───────────────────────── matching lines ─────────────────────────

/// A line matches: it holds the pattern, compared in lowercase when the
/// search ignores case.
pub open spec fn line_matches(line: Seq<char>, pattern: Seq<char>, case_sensitive: bool) -> bool {
    if case_sensitive {
        has_sub(line, pattern)
    } else {
        has_sub(lowercase(line), lowercase(pattern))
    }
}

/// The result lines `path:number:line` for the matching lines of `ls`,
/// from index `i` on, numbered from 1.
pub open spec fn hits_from(path: Seq<char>, ls: Seq<Seq<char>>, pattern: Seq<char>, cs: bool, i: int) -> Seq<
    Seq<char>,
>
    decreases ls.len() - i,
{
    if i < 0 || i >= ls.len() {
        Seq::empty()
    } else if line_matches(ls[i], pattern, cs) {
        seq![path + ":"@ + decimal((i + 1) as nat) + ":"@ + ls[i]] + hits_from(path, ls, pattern, cs, i + 1)
    } else {
        hits_from(path, ls, pattern, cs, i + 1)
    }
}

/// How many of `k` found lines are kept when `have` results are already
/// there and at most `max` are wanted: the search stops right after a push
/// that reaches the limit.
pub open spec fn kept_hits(k: nat, have: nat, max: nat) -> nat {
    if k == 0 {
        0
    } else if have >= max {
        1
    } else if k <= max - have {
        k
    } else {
        (max - have) as nat
    }
}

/// Adds the matching lines of one file to the results, stopping as soon as
/// `max_results` is reached.
pub fn collect_matches(
    rel_path: &str,
    content: &str,
    pattern: &str,
    case_sensitive: bool,
    max_results: usize,
    results: &mut Vec<String>,
)
    ensures
        ({
            let hits = hits_from(rel_path@, lines(content@), pattern@, case_sensitive, 0);
            strs(final(results)@) == strs(old(results)@) + hits.take(
                kept_hits(hits.len(), old(results)@.len(), max_results as nat) as int,
            )
        }),
{
    let ghost hits = hits_from(rel_path@, lines(content@), pattern@, case_sensitive, 0);
    let ghost start = strs(results@);
    let cv = chars_of(content);
    let ls = split_lines(cv.as_slice());
    let pv = chars_of(pattern);
    let lp = to_lowercase(pv.as_slice());
    let mut i: usize = 0;
    let ghost mut taken: int = 0;
    proof {
        assert(strs(results@) =~= start + hits.take(0));
    }
    while i < ls.len()
        invariant
            i <= ls@.len(),
            ls.deep_view() == lines(content@),
            pv@ == pattern@,
            lp@ == lowercase(pattern@),
            hits == hits_from(rel_path@, lines(content@), pattern@, case_sensitive, 0),
            0 <= taken <= hits.len(),
            hits.skip(taken) == hits_from(rel_path@, lines(content@), pattern@, case_sensitive, i as int),
            strs(results@) == start + hits.take(taken),
            taken == 0 || results@.len() < max_results,
            start.len() == strs(old(results)@).len(),
            start == strs(old(results)@),
            taken < kept_hits(hits.len(), start.len(), max_results as nat) || hits.len() == taken,
            kept_hits(hits.len(), start.len(), max_results as nat) <= hits.len(),
        decreases ls@.len() - i,
    {
        proof {
            lemma_chars_deep_view(ls@[i as int]);
            assert(ls.deep_view()[i as int] == ls@[i as int]@);
        }
        let line = ls[i].as_slice();
        let matched = if case_sensitive {
            contains(line, pv.as_slice())
        } else {
            let ll = to_lowercase(line);
            contains(ll.as_slice(), lp.as_slice())
        };
        if matched {
            let mut e = chars_of(rel_path);
            push_str(&mut e, ":");
            let d = fmt_u64((i + 1) as u64);
            push_all(&mut e, d.as_slice());
            push_str(&mut e, ":");
            push_all(&mut e, line);
            let ghost before = strs(results@);
            results.push(string_of(e.as_slice()));
            proof {
                assert(hits.skip(taken)[0] == e@);
                assert(hits.skip(taken + 1) == hits.skip(taken).skip(1));
                assert(strs(results@) =~= before.push(e@));
                assert(hits.take(taken + 1) =~= hits.take(taken).push(hits[taken]));
                taken = taken + 1;
            }
            if results.len() >= max_results {
                proof {
                    assert(taken == kept_hits(hits.len(), start.len(), max_results as nat));
                }
                return;
            }
        } else {
            proof {
                assert(hits.skip(taken) == hits_from(rel_path@, lines(content@), pattern@, case_sensitive, i + 1));
            }
        }
        i = i + 1;
    }
    proof {
        assert(hits.skip(taken).len() == 0);
        assert(taken == hits.len());
    }
}

/// Whether the fallback search reads a file of this name: every file when
/// no glob (or an empty one) is given, else those the glob admits.
pub fn search_takes_file(name: &str, glob: Option<&str>) -> (r: bool)
    ensures
        r == match glob {
            Some(g) => g@.len() == 0 || glob_at(name@, g@, 0, 0),
            None => true,
        },
{
    match glob {
        Some(g) => {
            let gv = chars_of(g);
            gv.len() == 0 || simple_glob_match(name, g)
        },
        None => true,
    }
}

/// The report of the fallback search: the matches with their count and the
/// number of files read, or, without a match, what was searched (with the
/// glob, when one is given) and how many files could not be read.
pub open spec fn search_report_text(
    results: Seq<Seq<char>>,
    file_count: nat,
    error_count: nat,
    pattern: Seq<char>,
    glob: Option<Seq<char>>,
) -> Seq<char> {
    if results.len() == 0 {
        "在 "@ + decimal(file_count) + " 文件中搜索「"@ + pattern + "」"@ + (match glob {
            Some(g) => if g.len() > 0 {
                "（"@ + g + "）"@
            } else {
                ""@
            },
            None => ""@,
        }) + "，未找到匹配"@ + (if error_count > 0 {
            "（"@ + decimal(error_count) + " 个文件跳过）"@
        } else {
            ""@
        })
    } else {
        "找到 "@ + decimal(results.len()) + " 个匹配（共扫描 "@ + decimal(file_count) + " 文件）：\n"@
            + join(results, "\n"@)
    }
}

fn strings_chars(v: &Vec<String>) -> (r: Vec<Vec<char>>)
    ensures
        r.deep_view() == strs(v@),
{
    let mut out: Vec<Vec<char>> = Vec::new();
    let mut i: usize = 0;
    while i < v.len()
        invariant
            i <= v@.len(),
            out.deep_view() == strs(v@).take(i as int),
        decreases v@.len() - i,
    {
        let c = chars_of(v[i].as_str());
        push_line(&mut out, c);
        i = i + 1;
        proof {
            assert(out.deep_view() =~= strs(v@).take(i as int));
        }
    }
    proof {
        assert(strs(v@).take(i as int) =~= strs(v@));
    }
    out
}

/// The report of the fallback search (see [`search_report_text`]).
pub fn search_report(
    results: &Vec<String>,
    file_count: usize,
    error_count: usize,
    pattern: &str,
    glob: Option<&str>,
) -> (r: String)
    ensures
        r@ == search_report_text(
            strs(results@),
            file_count as nat,
            error_count as nat,
            pattern@,
            match glob {
                Some(g) => Some(g@),
                None => None,
            },
        ),
{
    proof {
        reveal_strlit("");
    }
    if results.len() == 0 {
        let mut m = chars_of("在 ");
        let a = fmt_u64(file_count as u64);
        push_all(&mut m, a.as_slice());
        push_str(&mut m, " 文件中搜索「");
        push_str(&mut m, pattern);
        push_str(&mut m, "」");
        let ghost before_glob = m@;
        match glob {
            Some(g) => {
                let gv = chars_of(g);
                if gv.len() > 0 {
                    push_str(&mut m, "（");
                    push_str(&mut m, g);
                    push_str(&mut m, "）");
                } else {
                    proof {
                        assert(m@ =~= before_glob + ""@);
                    }
                }
            },
            None => {
                proof {
                    assert(m@ =~= before_glob + ""@);
                }
            },
        }
        push_str(&mut m, "，未找到匹配");
        let ghost before_err = m@;
        if error_count > 0 {
            push_str(&mut m, "（");
            let b = fmt_u64(error_count as u64);
            push_all(&mut m, b.as_slice());
            push_str(&mut m, " 个文件跳过）");
        } else {
            proof {
                assert(m@ =~= before_err + ""@);
            }
        }
        proof {
            assert(strs(results@).len() == 0);
        }
        return string_of(m.as_slice());
    }
    let parts = strings_chars(results);
    let nl = chars_of("\n");
    let body = join_chars(&parts, nl.as_slice());
    let mut m = chars_of("找到 ");
    let a = fmt_u64(results.len() as u64);
    push_all(&mut m, a.as_slice());
    push_str(&mut m, " 个匹配（共扫描 ");
    let b = fmt_u64(file_count as u64);
    push_all(&mut m, b.as_slice());
    push_str(&mut m, " 文件）：\n");
    push_all(&mut m, body.as_slice());
    string_of(m.as_slice())
}

// ───────────────────────── ripgrep output ─────────────────────────

/// The fields of one line of `rg --json` output that the search reads:
/// the event type, and for a match its path, line number and line text.
#[derive(Debug)]
pub struct RgEvent {
    pub kind: Option<String>,
    pub path: Option<String>,
    pub line_number: Option<u64>,
    pub text: Option<String>,
}

impl View for RgEvent {
    type V = (Option<Seq<char>>, Option<Seq<char>>, Option<u64>, Option<Seq<char>>);

    open spec fn view(&self) -> Self::V {
        (
            match self.kind {
                Some(s) => Some(s@),
                None => None,
            },
            match self.path {
                Some(s) => Some(s@),
                None => None,
            },
            self.line_number,
            match self.text {
                Some(s) => Some(s@),
                None => None,
            },
        )
    }
}

/// What `serde_json` reads from one line of `rg --json` output: `None`
/// when the line is no JSON, else the event type (`type`), and the path
/// (`data.path.text`), line number (`data.line_number`) and line text
/// (`data.lines.text`) where those are present with the right JSON type.
pub uninterp spec fn rg_json(line: Seq<char>) -> Option<
    (Option<Seq<char>>, Option<Seq<char>>, Option<u64>, Option<Seq<char>>),
>;

/// Parses one line of `rg --json` output with `serde_json::from_str` into a
/// `serde_json::Value` and picks the members the search reads. The
/// contract names the result; JSON grammar is not restated.
#[verifier::external_body]
fn rg_event(line: &str) -> (r: Option<RgEvent>)
    ensures
        match r {
            Some(e) => rg_json(line@) == Some(e@),
            None => rg_json(line@) is None,
        },
{
    match serde_json::from_str::<serde_json::Value>(line) {
        Ok(e) => Some(
            RgEvent {
                kind: e["type"].as_str().map(String::from),
                path: e["data"]["path"]["text"].as_str().map(String::from),
                line_number: e["data"]["line_number"].as_u64(),
                text: e["data"]["lines"]["text"].as_str().map(String::from),
            },
        ),
        Err(_) => None,
    }
}

/// The result line for one `rg --json` line, when it reports a match:
/// `path:number:text` with the text trimmed (`?`, `0` and an empty text
/// stand in for missing members).
pub open spec fn rg_hit(line: Seq<char>) -> Option<Seq<char>> {
    match rg_json(line) {
        Some(ev) => if ev.0 == Some("match"@) {
            Some(
                (match ev.1 {
                    Some(p) => p,
                    None => "?"@,
                }) + ":"@ + decimal(
                    match ev.2 {
                        Some(n) => n as nat,
                        None => 0,
                    },
                ) + ":"@ + trim(
                    match ev.3 {
                        Some(t) => t,
                        None => ""@,
                    },
                ),
            )
        } else {
            None
        },
        None => None,
    }
}

/// The result lines for the `rg --json` lines from index `i` on.
pub open spec fn rg_hits_from(ls: Seq<Seq<char>>, i: int) -> Seq<Seq<char>>
    decreases ls.len() - i,
{
    if i < 0 || i >= ls.len() {
        Seq::empty()
    } else {
        match rg_hit(ls[i]) {
            Some(h) => seq![h] + rg_hits_from(ls, i + 1),
            None => rg_hits_from(ls, i + 1),
        }
    }
}

/// The report built from ripgrep's output: at most `max_results` matches,
/// or `None` (the search falls back to reading files) when there is none.
pub open spec fn rg_report_text(stdout: Seq<char>, max_results: nat) -> Option<Seq<char>> {
    let hits = rg_hits_from(lines(stdout), 0);
    let kept = if hits.len() <= max_results {
        hits
    } else {
        hits.take(max_results as int)
    };
    if kept.len() == 0 {
        None
    } else {
        Some("[ripgrep] 匹配 "@ + decimal(kept.len()) + " 处：\n"@ + join(kept, "\n"@))
    }
}

fn rg_hit_chars(line: &[char]) -> (r: Option<Vec<char>>)
    ensures
        match r {
            Some(h) => rg_hit(line@) == Some(h@),
            None => rg_hit(line@) is None,
        },
{
    let s = string_of(line);
    match rg_event(s.as_str()) {
        Some(ev) => {
            let is_match = match &ev.kind {
                Some(k) => str_eq(k.as_str(), "match"),
                None => false,
            };
            if !is_match {
                return None;
            }
            let mut h = match &ev.path {
                Some(p) => chars_of(p.as_str()),
                None => chars_of("?"),
            };
            push_str(&mut h, ":");
            let n = match ev.line_number {
                Some(n) => n,
                None => 0,
            };
            let d = fmt_u64(n);
            push_all(&mut h, d.as_slice());
            push_str(&mut h, ":");
            let t = match &ev.text {
                Some(t) => chars_of(t.as_str()),
                None => chars_of(""),
            };
            let tt = trim_chars(t.as_slice());
            push_all(&mut h, tt.as_slice());
            Some(h)
        },
        None => None,
    }
}

/// The report built from the standard output of `rg --json` (see
/// [`rg_report_text`]).
pub fn rg_report(stdout: &str, max_results: usize) -> (r: Option<String>)
    ensures
        match r {
            Some(s) => rg_report_text(stdout@, max_results as nat) == Some(s@),
            None => rg_report_text(stdout@, max_results as nat) is None,
        },
{
    let sv = chars_of(stdout);
    let ls = split_lines(sv.as_slice());
    let ghost lv = ls.deep_view();
    let ghost hits = rg_hits_from(lv, 0);
    let mut out: Vec<Vec<char>> = Vec::new();
    let mut i: usize = 0;
    let ghost mut taken: int = 0;
    while i < ls.len() && out.len() < max_results
        invariant
            i <= ls@.len(),
            lv == ls.deep_view(),
            lv == lines(stdout@),
            hits == rg_hits_from(lv, 0),
            0 <= taken <= hits.len(),
            hits.skip(taken) == rg_hits_from(lv, i as int),
            out.deep_view() == hits.take(taken),
            out@.len() <= max_results,
        decreases ls@.len() - i,
    {
        proof {
            lemma_chars_deep_view(ls@[i as int]);
            assert(lv[i as int] == ls@[i as int]@);
        }
        match rg_hit_chars(ls[i].as_slice()) {
            Some(h) => {
                proof {
                    assert(hits.skip(taken)[0] == h@);
                    assert(hits.skip(taken + 1) == hits.skip(taken).skip(1));
                    assert(hits.take(taken + 1) =~= hits.take(taken).push(h@));
                }
                push_line(&mut out, h);
                proof {
                    taken = taken + 1;
                }
            },
            None => {},
        }
        i = i + 1;
    }
    let ghost kept = if hits.len() <= max_results {
        hits
    } else {
        hits.take(max_results as int)
    };
    proof {
        if i >= ls@.len() {
            assert(hits.skip(taken).len() == 0);
            assert(taken == hits.len());
            assert(hits.take(taken) =~= hits);
        }
        assert(out.deep_view() =~= kept);
    }
    if out.len() == 0 {
        return None;
    }
    let nl = chars_of("\n");
    let body = join_chars(&out, nl.as_slice());
    let mut m = chars_of("[ripgrep] 匹配 ");
    let a = fmt_u64(out.len() as u64);
    push_all(&mut m, a.as_slice());
    push_str(&mut m, " 处：\n");
    push_all(&mut m, body.as_slice());
    Some(string_of(m.as_slice()))
}

} // verus!
