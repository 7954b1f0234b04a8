//! The activity-log summary and the request for a decision, as the model
//! reads them.
use crate::text::{chars_of, decimal, fmt_u64, join, join_chars, push_all, push_line, push_str, string_of, trim, trim_chars, utf8_len, utf8_len_of, floor_prefix};
use crate::tool::output::{refuses, Refusal};
use vstd::prelude::*;

verus! {

/// The fields of one activity-log entry that the summary shows (absent
/// when the entry has none, or not as a string).
#[derive(Debug, Clone)]
pub struct LogEntry {
    pub ts: Option<String>,
    pub author: Option<String>,
    pub summary: Option<String>,
}

/// The text of an optional field, or `dflt`.
pub open spec fn text_or(o: Option<String>, dflt: Seq<char>) -> Seq<char> {
    match o {
        Some(s) => s@,
        None => dflt,
    }
}

/// A timestamp cut to its first 19 bytes (date and time to the second).
pub open spec fn short_ts(ts: Seq<char>) -> Seq<char> {
    if utf8_len(ts) > 19 {
        floor_prefix(ts, 19)
    } else {
        ts
    }
}

/// The line of one entry.
pub open spec fn entry_line(e: LogEntry) -> Seq<char> {
    "["@ + short_ts(text_or(e.ts, "?"@)) + "] "@ + text_or(e.author, "?"@) + ": "@ + text_or(e.summary, ""@)
}

/// The cut of a timestamp falls on a character boundary (as byte slicing needs).
pub open spec fn ts_cut_ok(e: LogEntry) -> bool {
    let t = text_or(e.ts, "?"@);
    utf8_len(t) > 19 ==> utf8_len(floor_prefix(t, 19)) == 19
}

/// The summary of the entries read from line `since` of a log of
/// `total_lines` lines; a note when there are none.
pub open spec fn log_summary_text(entries: Seq<LogEntry>, total_lines: nat, since: nat) -> Seq<char> {
    if entries.len() == 0 {
        "No log entries yet"@
    } else {
        join(
            seq![
                decimal(entries.len()) + " log entries (file has "@ + decimal(total_lines)
                    + " lines, starting from line "@ + decimal(since) + "):"@,
                Seq::empty(),
            ] + Seq::new(entries.len(), |i: int| entry_line(entries[i])),
            "\n"@,
        )
    }
}

fn opt_chars(o: &Option<String>, dflt: &str) -> (r: Vec<char>)
    ensures
        r@ == text_or(*o, dflt@),
{
    match o {
        Some(s) => chars_of(s.as_str()),
        None => chars_of(dflt),
    }
}

/// Summarises the log entries read from line `since` of a log of
/// `total_lines` lines: a count line, a blank line, then one line per entry
/// (`[time] author: summary`, the time cut to 19 bytes).
pub fn log_summary(entries: &Vec<LogEntry>, total_lines: u64, since: u64) -> (r: String)
    requires
        forall|i: int| 0 <= i < entries@.len() ==> ts_cut_ok(#[trigger] entries@[i]),
    ensures
        r@ == log_summary_text(entries@, total_lines as nat, since as nat),
{
    if entries.len() == 0 {
        return string_of(chars_of("No log entries yet").as_slice());
    }
    let mut lines: Vec<Vec<char>> = Vec::new();
    let mut head = fmt_u64(entries.len() as u64);
    push_str(&mut head, " log entries (file has ");
    push_all(&mut head, fmt_u64(total_lines).as_slice());
    push_str(&mut head, " lines, starting from line ");
    push_all(&mut head, fmt_u64(since).as_slice());
    push_str(&mut head, "):");
    push_line(&mut lines, head);
    push_line(&mut lines, Vec::new());
    let ghost pre = lines.deep_view();
    let mut i: usize = 0;
    while i < entries.len()
        invariant
            i <= entries@.len(),
            pre.len() == 2,
            forall|k: int| 0 <= k < entries@.len() ==> ts_cut_ok(#[trigger] entries@[k]),
            lines.deep_view() == pre + Seq::new(i as nat, |k: int| entry_line(entries@[k])),
        decreases entries@.len() - i,
    {
        let e = &entries[i];
        let ts = opt_chars(&e.ts, "?");
        let shown = if utf8_len_of(ts.as_slice()) > 19 {
            crate::text::floor_prefix_chars(ts.as_slice(), 19)
        } else {
            ts
        };
        let mut l = chars_of("[");
        push_all(&mut l, shown.as_slice());
        push_str(&mut l, "] ");
        push_all(&mut l, opt_chars(&e.author, "?").as_slice());
        push_str(&mut l, ": ");
        push_all(&mut l, opt_chars(&e.summary, "").as_slice());
        proof {
            assert(l@ == entry_line(entries@[i as int]));
        }
        push_line(&mut lines, l);
        i = i + 1;
        proof {
            assert(lines.deep_view() =~= pre + Seq::new(i as nat, |k: int| entry_line(entries@[k])));
        }
    }
    let sep = chars_of("\n");
    let out = join_chars(&lines, sep.as_slice());
    proof {
        assert(pre =~= seq![
            decimal(entries@.len()) + " log entries (file has "@ + decimal(total_lines as nat)
                + " lines, starting from line "@ + decimal(since as nat) + "):"@,
            Seq::empty(),
        ]);
        assert(Seq::new(i as nat, |k: int| entry_line(entries@[k])) =~= Seq::new(
            entries@.len(),
            |k: int| entry_line(entries@[k]),
        ));
    }
    string_of(out.as_slice())
}

/// The request put to the emperor: the options numbered from 1 (an option
/// that is no string shows as invalid), trimmed.
pub open spec fn decision_text(options: Seq<Option<String>>) -> Seq<char> {
    trim(
        "[Waiting for emperor's decision] Please choose one:\n"@ + join(
            Seq::new(
                options.len(),
                |i: int| decimal((i + 1) as nat) + ". "@ + text_or(options[i], "(invalid option)"@),
            ),
            "\n"@,
        ) + "\n"@,
    )
}

/// Asks the emperor to choose among the options; refused without any.
pub fn decision_request(options: Option<Vec<Option<String>>>) -> (r: Result<String, Refusal>)
    ensures
        match options {
            Some(v) => if v@.len() > 0 {
                r matches Ok(m) && m@ == decision_text(v@)
            } else {
                refuses(r, "empty_options"@, "options cannot be empty"@)
            },
            None => refuses(r, "empty_options"@, "options cannot be empty"@),
        },
{
    let v = match options {
        Some(v) => v,
        None => return Err(Refusal::new("empty_options", "options cannot be empty")),
    };
    if v.len() == 0 {
        return Err(Refusal::new("empty_options", "options cannot be empty"));
    }
    let mut items: Vec<Vec<char>> = Vec::new();
    let mut i: usize = 0;
    while i < v.len()
        invariant
            i <= v@.len(),
            v@.len() <= usize::MAX,
            items.deep_view() == Seq::new(
                i as nat,
                |k: int| decimal((k + 1) as nat) + ". "@ + text_or(v@[k], "(invalid option)"@),
            ),
        decreases v@.len() - i,
    {
        let mut l = fmt_u64((i as u64) + 1);
        push_str(&mut l, ". ");
        push_all(&mut l, opt_chars(&v[i], "(invalid option)").as_slice());
        push_line(&mut items, l);
        i = i + 1;
        proof {
            assert(items.deep_view() =~= Seq::new(
                i as nat,
                |k: int| decimal((k + 1) as nat) + ". "@ + text_or(v@[k], "(invalid option)"@),
            ));
        }
    }
    let mut m = chars_of("[Waiting for emperor's decision] Please choose one:\n");
    let sep = chars_of("\n");
    let body = join_chars(&items, sep.as_slice());
    push_all(&mut m, body.as_slice());
    push_str(&mut m, "\n");
    let t = trim_chars(m.as_slice());
    proof {
        assert(Seq::new(i as nat, |k: int| decimal((k + 1) as nat) + ". "@ + text_or(v@[k], "(invalid option)"@))
            =~= Seq::new(v@.len(), |k: int| decimal((k + 1) as nat) + ". "@ + text_or(v@[k], "(invalid option)"@)));
    }
    Ok(string_of(t.as_slice()))
}

} // verus!
