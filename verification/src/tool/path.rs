//! Safety check for shell commands that the model asks to run.
//!
//! A command is refused when it uses shell control operators, starts with a
//! blocked command, reaches outside the project directory, matches a
//! destructive pattern, or is not on the allowlist.
use crate::text::{
    any_pattern, any_sub, chars_of, contains_str, str_views, eq_chars, eq_str, has_sub, join, join_chars, lowercase, split_words, starts_with,
    starts_with_str, to_lowercase, trim, trim_chars, words, all_ascii, ascii_lowered, lemma_collapsed_ascii, lemma_trim_ascii,
};
use vstd::prelude::*;

verus! {

/// The characters of each pair of string slices.
pub open spec fn pair_views(v: Seq<(&'static str, &'static str)>) -> Seq<(Seq<char>, Seq<char>)> {
    Seq::new(v.len(), |i: int| (v[i].0@, v[i].1@))
}

/// Command blocklist on every platform: (keyword, reason).
pub open spec fn system_blocks() -> Seq<(Seq<char>, Seq<char>)> {
    seq![
        ("del"@, "file deletion command forbidden"@),
        ("erase"@, "file deletion command forbidden"@),
        ("rd"@, "directory deletion command forbidden"@),
        ("rmdir"@, "directory deletion command forbidden"@),
        ("remove-item"@, "PowerShell recursive deletion forbidden"@),
        ("format"@, "formatting disk forbidden"@),
        ("mkfs"@, "formatting disk forbidden"@),
        ("fdisk"@, "modifying partition table forbidden"@),
        ("diskpart"@, "modifying disk partitions forbidden"@),
        ("shutdown"@, "shutdown/reboot system forbidden"@),
        ("reboot"@, "shutdown/reboot system forbidden"@),
        ("restart-computer"@, "reboot system forbidden"@),
        ("stop-computer"@, "shutdown system forbidden"@),
        ("poweroff"@, "shutdown system forbidden"@),
        ("halt"@, "shutdown system forbidden"@),
        ("sudo"@, "sudo privilege escalation forbidden"@),
        ("runas"@, "elevated execution forbidden"@),
        ("takeown"@, "taking file ownership forbidden"@),
        ("reg delete"@, "modifying registry forbidden"@),
        ("reg add"@, "modifying registry forbidden"@),
        ("sc delete"@, "deleting services forbidden"@),
        ("net user"@, "managing user accounts forbidden"@),
        ("net localgroup"@, "managing user groups forbidden"@),
        ("cacls"@, "modifying file permissions forbidden"@),
        ("wget"@, "remote download/execution forbidden"@),
        ("curl"@, "remote download/execution forbidden"@),
        ("iwr"@, "remote download forbidden"@),
        ("invoke-webrequest"@, "remote download forbidden"@),
        ("powershell -enc"@, "encoded PowerShell execution forbidden"@),
        ("powershell -encodedcommand"@, "encoded PowerShell execution forbidden"@),
        ("certutil -urlcache"@, "remote download forbidden"@),
        ("bitsadmin /transfer"@, "remote download forbidden"@),
        ("mshta"@, "MSHTA script execution forbidden"@),
        ("npm install -g"@, "global install forbidden"@),
    ]
}

/// Further blocked commands off Windows: (keyword, reason).
pub open spec fn unix_system_blocks() -> Seq<(Seq<char>, Seq<char>)> {
    seq![
        ("dd"@, "disk write operation forbidden"@),
        ("chroot"@, "chroot privilege escalation forbidden"@),
        ("chmod"@, "permission modification forbidden"@),
    ]
}

/// Substrings that reach outside the project directory.
pub open spec fn path_escape() -> Seq<Seq<char>> {
    seq![
        "..\\"@,
        "../"@,
        "/windows"@,
        "/windows/system32"@,
        "/program files"@,
        "/programdata"@,
        "/users"@,
        "%systemroot%"@,
        "%windir%"@,
        "%appdata%"@,
        "%programfiles%"@,
        "$env:"@,
        "$home"@,
        "c:\\windows"@,
        "c:/windows"@,
        "\\\\"@,
    ]
}

/// Unix system paths, checked off Windows.
pub open spec fn unix_path_escape() -> Seq<Seq<char>> {
    seq![
        "/etc/"@,
        "/root/"@,
        "/proc/"@,
        "/sys/"@,
        "/dev/"@,
        "/boot/"@,
        "/sbin/"@,
        "/usr/sbin/"@,
    ]
}

/// Destructive command substrings, checked on every platform.
pub open spec fn destructive_patterns() -> Seq<Seq<char>> {
    seq![
        "rm -rf /"@,
        "rm -fr /"@,
        "rm -rf /*"@,
        "rm -fr /*"@,
        "remove-item"@,
        " -recurse"@,
        ":(){ :|:& };:"@,
    ]
}

/// Shell control operators.
pub open spec fn shell_control_patterns() -> Seq<Seq<char>> {
    seq![
        "&&"@,
        "||"@,
        "|"@,
        ";"@,
        ">"@,
        "<"@,
        "`"@,
        "$("@,
    ]
}

/// Commands that may run, possibly followed by arguments.
pub open spec fn allowed_command_prefixes() -> Seq<Seq<char>> {
    seq![
        "cargo test"@,
        "cargo check"@,
        "cargo clippy"@,
        "cargo fmt --check"@,
        "cargo build"@,
        "cargo --version"@,
        "rustc --version"@,
        "rustc --explain"@,
        "npm test"@,
        "npm run lint"@,
        "npm run format:check"@,
        "npm run build"@,
        "npm --version"@,
        "node --version"@,
        "npx vitest run"@,
        "npx jest"@,
        "python -m pytest"@,
        "python --version"@,
        "py -m pytest"@,
        "py --version"@,
        "ruff check"@,
        "ruff --version"@,
    ]
}

fn system_blocks_table() -> (v: Vec<(&'static str, &'static str)>)
    ensures
        pair_views(v@) == system_blocks(),
{
    let mut v: Vec<(&'static str, &'static str)> = Vec::new();
    v.push(("del", "file deletion command forbidden"));
    v.push(("erase", "file deletion command forbidden"));
    v.push(("rd", "directory deletion command forbidden"));
    v.push(("rmdir", "directory deletion command forbidden"));
    v.push(("remove-item", "PowerShell recursive deletion forbidden"));
    v.push(("format", "formatting disk forbidden"));
    v.push(("mkfs", "formatting disk forbidden"));
    v.push(("fdisk", "modifying partition table forbidden"));
    v.push(("diskpart", "modifying disk partitions forbidden"));
    v.push(("shutdown", "shutdown/reboot system forbidden"));
    v.push(("reboot", "shutdown/reboot system forbidden"));
    v.push(("restart-computer", "reboot system forbidden"));
    v.push(("stop-computer", "shutdown system forbidden"));
    v.push(("poweroff", "shutdown system forbidden"));
    v.push(("halt", "shutdown system forbidden"));
    v.push(("sudo", "sudo privilege escalation forbidden"));
    v.push(("runas", "elevated execution forbidden"));
    v.push(("takeown", "taking file ownership forbidden"));
    v.push(("reg delete", "modifying registry forbidden"));
    v.push(("reg add", "modifying registry forbidden"));
    v.push(("sc delete", "deleting services forbidden"));
    v.push(("net user", "managing user accounts forbidden"));
    v.push(("net localgroup", "managing user groups forbidden"));
    v.push(("cacls", "modifying file permissions forbidden"));
    v.push(("wget", "remote download/execution forbidden"));
    v.push(("curl", "remote download/execution forbidden"));
    v.push(("iwr", "remote download forbidden"));
    v.push(("invoke-webrequest", "remote download forbidden"));
    v.push(("powershell -enc", "encoded PowerShell execution forbidden"));
    v.push(("powershell -encodedcommand", "encoded PowerShell execution forbidden"));
    v.push(("certutil -urlcache", "remote download forbidden"));
    v.push(("bitsadmin /transfer", "remote download forbidden"));
    v.push(("mshta", "MSHTA script execution forbidden"));
    v.push(("npm install -g", "global install forbidden"));
    proof {
        assert(pair_views(v@) =~= system_blocks());
    }
    v
}

fn unix_system_blocks_table() -> (v: Vec<(&'static str, &'static str)>)
    ensures
        pair_views(v@) == unix_system_blocks(),
{
    let mut v: Vec<(&'static str, &'static str)> = Vec::new();
    v.push(("dd", "disk write operation forbidden"));
    v.push(("chroot", "chroot privilege escalation forbidden"));
    v.push(("chmod", "permission modification forbidden"));
    proof {
        assert(pair_views(v@) =~= unix_system_blocks());
    }
    v
}

fn path_escape_table() -> (v: Vec<&'static str>)
    ensures
        str_views(v@) == path_escape(),
{
    let mut v: Vec<&'static str> = Vec::new();
    v.push("..\\");
    v.push("../");
    v.push("/windows");
    v.push("/windows/system32");
    v.push("/program files");
    v.push("/programdata");
    v.push("/users");
    v.push("%systemroot%");
    v.push("%windir%");
    v.push("%appdata%");
    v.push("%programfiles%");
    v.push("$env:");
    v.push("$home");
    v.push("c:\\windows");
    v.push("c:/windows");
    v.push("\\\\");
    proof {
        assert(str_views(v@) =~= path_escape());
    }
    v
}

fn unix_path_escape_table() -> (v: Vec<&'static str>)
    ensures
        str_views(v@) == unix_path_escape(),
{
    let mut v: Vec<&'static str> = Vec::new();
    v.push("/etc/");
    v.push("/root/");
    v.push("/proc/");
    v.push("/sys/");
    v.push("/dev/");
    v.push("/boot/");
    v.push("/sbin/");
    v.push("/usr/sbin/");
    proof {
        assert(str_views(v@) =~= unix_path_escape());
    }
    v
}

fn destructive_table() -> (v: Vec<&'static str>)
    ensures
        str_views(v@) == destructive_patterns(),
{
    let mut v: Vec<&'static str> = Vec::new();
    v.push("rm -rf /");
    v.push("rm -fr /");
    v.push("rm -rf /*");
    v.push("rm -fr /*");
    v.push("remove-item");
    v.push(" -recurse");
    v.push(":(){ :|:& };:");
    proof {
        assert(str_views(v@) =~= destructive_patterns());
    }
    v
}

fn shell_control_table() -> (v: Vec<&'static str>)
    ensures
        str_views(v@) == shell_control_patterns(),
{
    let mut v: Vec<&'static str> = Vec::new();
    v.push("&&");
    v.push("||");
    v.push("|");
    v.push(";");
    v.push(">");
    v.push("<");
    v.push("`");
    v.push("$(");
    proof {
        assert(str_views(v@) =~= shell_control_patterns());
    }
    v
}

fn allowed_prefixes_table() -> (v: Vec<&'static str>)
    ensures
        str_views(v@) == allowed_command_prefixes(),
{
    let mut v: Vec<&'static str> = Vec::new();
    v.push("cargo test");
    v.push("cargo check");
    v.push("cargo clippy");
    v.push("cargo fmt --check");
    v.push("cargo build");
    v.push("cargo --version");
    v.push("rustc --version");
    v.push("rustc --explain");
    v.push("npm test");
    v.push("npm run lint");
    v.push("npm run format:check");
    v.push("npm run build");
    v.push("npm --version");
    v.push("node --version");
    v.push("npx vitest run");
    v.push("npx jest");
    v.push("python -m pytest");
    v.push("python --version");
    v.push("py -m pytest");
    v.push("py --version");
    v.push("ruff check");
    v.push("ruff --version");
    proof {
        assert(str_views(v@) =~= allowed_command_prefixes());
    }
    v
}

/// The command with runs of whitespace collapsed to single spaces, trimmed, and lowercased.
pub open spec fn normalized(cmd: Seq<char>) -> Seq<char> {
    lowercase(join(words(trim(cmd)), " "@))
}

/// Whether a blocklist keyword matches the command's tokens: a one-word
/// keyword must equal the first token (`mkfs` must begin it), a longer
/// keyword must equal the first tokens.
pub open spec fn block_matches(tokens: Seq<Seq<char>>, kw: Seq<char>) -> bool {
    let kwt = words(kw);
    if kwt.len() == 1 {
        if kw == "mkfs"@ {
            starts_with(tokens[0], "mkfs"@)
        } else {
            tokens[0] == kw
        }
    } else {
        tokens.len() >= kwt.len() && tokens.take(kwt.len() as int) == kwt
    }
}

/// The reason of the first blocklist entry that matches.
pub open spec fn first_block(tokens: Seq<Seq<char>>, list: Seq<(Seq<char>, Seq<char>)>) -> Option<Seq<char>>
    decreases list.len(),
{
    if list.len() == 0 {
        None
    } else if block_matches(tokens, list[0].0) {
        Some(list[0].1)
    } else {
        first_block(tokens, list.drop_first())
    }
}

/// `lower` is the allowed prefix `p`, alone or followed by a space.
pub open spec fn allowed_by(lower: Seq<char>, p: Seq<char>) -> bool {
    lower == p || (lower.len() > p.len() && starts_with(lower, p) && lower[p.len() as int] == ' ')
}

/// Some allowed prefix admits `lower`.
pub open spec fn is_allowed(lower: Seq<char>) -> bool {
    exists|i: int| 0 <= i < allowed_command_prefixes().len() && allowed_by(lower, #[trigger] allowed_command_prefixes()[i])
}

/// The blocklists in force.
pub open spec fn blocklist(windows: bool) -> Seq<(Seq<char>, Seq<char>)> {
    if windows {
        system_blocks()
    } else {
        system_blocks() + unix_system_blocks()
    }
}

/// The path patterns in force.
pub open spec fn path_patterns(windows: bool) -> Seq<Seq<char>> {
    if windows {
        path_escape()
    } else {
        path_escape() + unix_path_escape()
    }
}

/// Why the command is refused (`None` when it may run).
pub open spec fn command_verdict(cmd: Seq<char>, windows: bool) -> Option<Seq<char>> {
    let lower = normalized(cmd);
    let tokens = words(lower);
    if tokens.len() == 0 {
        None
    } else if any_sub(lower, shell_control_patterns()) {
        Some("shell control operators are forbidden"@)
    } else if first_block(tokens, blocklist(windows)) is Some {
        first_block(tokens, blocklist(windows))
    } else if any_sub(lower, path_patterns(windows)) {
        Some("Operation on files outside the project directory is prohibited"@)
    } else if any_sub(lower, destructive_patterns()) {
        Some("destructive system operation forbidden"@)
    } else if !is_allowed(lower) {
        Some("command is not in the restricted allowlist; use run_tests/run_lint or an approved build/format command"@)
    } else {
        None
    }
}

/// Whether the program runs on Windows: `std::path::MAIN_SEPARATOR` is a
/// backslash there and a slash elsewhere. Nothing is stated: it depends on
/// the platform the program was built for.
#[verifier::external_body]
pub(crate) fn built_for_windows() -> bool {
    std::path::MAIN_SEPARATOR == '\\'
}

/// The command with runs of whitespace collapsed, lowercased.
fn normalized_command(cmd: &[char]) -> (r: Vec<char>)
    ensures
        r@ == lowercase(join(words(cmd@), " "@)),
        all_ascii(cmd@) ==> r@ == ascii_lowered(join(words(cmd@), " "@)),
{
    let ws = split_words(cmd);
    let sp = chars_of(" ");
    let joined = join_chars(&ws, sp.as_slice());
    proof {
        if all_ascii(cmd@) {
            lemma_collapsed_ascii(cmd@);
        }
    }
    to_lowercase(joined.as_slice())
}

/// Whether the keyword matches the tokens.
fn keyword_matches(tokens: &Vec<Vec<char>>, kw: &'static str) -> (r: bool)
    requires
        tokens@.len() > 0,
    ensures
        r == block_matches(tokens.deep_view(), kw@),
{
    let kv = chars_of(kw);
    let kw_tokens = split_words(kv.as_slice());
    proof {
        crate::text::lemma_chars_deep_view(tokens@[0]);
    }
    if kw_tokens.len() == 1 {
        if eq_str(kv.as_slice(), "mkfs") {
            starts_with_str(tokens[0].as_slice(), "mkfs")
        } else {
            eq_chars(tokens[0].as_slice(), kv.as_slice())
        }
    } else {
        if tokens.len() < kw_tokens.len() {
            return false;
        }
        let mut i: usize = 0;
        while i < kw_tokens.len()
            invariant
                i <= kw_tokens@.len() <= tokens@.len(),
                kw_tokens@.len() != 1,
                kw_tokens.deep_view() == words(kw@),
                forall|j: int| 0 <= j < i ==> #[trigger] tokens.deep_view()[j] == kw_tokens.deep_view()[j],
            decreases kw_tokens@.len() - i,
        {
            proof {
                crate::text::lemma_chars_deep_view(tokens@[i as int]);
                crate::text::lemma_chars_deep_view(kw_tokens@[i as int]);
            }
            if !eq_chars(tokens[i].as_slice(), kw_tokens[i].as_slice()) {
                proof {
                    assert(tokens.deep_view()[i as int] == tokens@[i as int]@);
                    assert(kw_tokens.deep_view()[i as int] == kw_tokens@[i as int]@);
                    assert(tokens.deep_view().take(kw_tokens@.len() as int)[i as int] != words(kw@)[i as int]);
                }
                return false;
            }
            i = i + 1;
        }
        proof {
            assert(tokens.deep_view().take(kw_tokens@.len() as int) =~= kw_tokens.deep_view());
        }
        true
    }
}

/// The reason of the first entry of `list` that matches the tokens.
fn first_blocked(tokens: &Vec<Vec<char>>, list: &Vec<(&'static str, &'static str)>) -> (r: Option<&'static str>)
    requires
        tokens@.len() > 0,
    ensures
        (match r {
            Some(s) => Some(s@),
            None => None,
        }) == first_block(tokens.deep_view(), pair_views(list@)),
{
    let mut i: usize = 0;
    proof {
        assert(pair_views(list@).skip(0) =~= pair_views(list@));
    }
    while i < list.len()
        invariant
            i <= list@.len(),
            tokens@.len() > 0,
            first_block(tokens.deep_view(), pair_views(list@)) == first_block(
                tokens.deep_view(),
                pair_views(list@).skip(i as int),
            ),
        decreases list@.len() - i,
    {
        let ghost rest = pair_views(list@).skip(i as int);
        proof {
            assert(rest[0] == (list@[i as int].0@, list@[i as int].1@));
            assert(rest.drop_first() =~= pair_views(list@).skip(i as int + 1));
        }
        if keyword_matches(tokens, list[i].0) {
            return Some(list[i].1);
        }
        i = i + 1;
    }
    proof {
        assert(pair_views(list@).skip(i as int) =~= Seq::<(Seq<char>, Seq<char>)>::empty());
    }
    None
}

/// Whether an allowed prefix admits the normalized command.
fn is_allowed_command(lower: &[char]) -> (r: bool)
    ensures
        r == is_allowed(lower@),
{
    let prefixes = allowed_prefixes_table();
    let mut i: usize = 0;
    while i < prefixes.len()
        invariant
            i <= prefixes@.len(),
            str_views(prefixes@) == allowed_command_prefixes(),
            forall|j: int| 0 <= j < i ==> !allowed_by(lower@, #[trigger] allowed_command_prefixes()[j]),
        decreases prefixes@.len() - i,
    {
        let p = chars_of(prefixes[i]);
        proof {
            assert(p@ == allowed_command_prefixes()[i as int]);
        }
        if eq_chars(lower, p.as_slice()) {
            return true;
        }
        if lower.len() > p.len() && crate::text::starts_with_at(lower, p.as_slice()) && lower[p.len()] == ' ' {
            return true;
        }
        i = i + 1;
    }
    false
}

/// Checks a command for the given platform (`windows` selects the Windows lists).
pub fn check_command_safety_for(cmd: &str, windows: bool) -> (r: Result<(), &'static str>)
    ensures
        r is Ok <==> command_verdict(cmd@, windows) is None,
        r matches Err(e) ==> Some(e@) == command_verdict(cmd@, windows),
        all_ascii(cmd@) ==> normalized(cmd@) == ascii_lowered(join(words(trim(cmd@)), " "@)),
{
    let cv = chars_of(cmd);
    let c = trim_chars(cv.as_slice());
    proof {
        if all_ascii(cmd@) {
            lemma_trim_ascii(cmd@);
        }
    }
    let lower = normalized_command(c.as_slice());
    let tokens = split_words(lower.as_slice());
    if tokens.len() == 0 {
        return Ok(());
    }
    if any_pattern(lower.as_slice(), &shell_control_table()) {
        return Err("shell control operators are forbidden");
    }
    let mut blocks = system_blocks_table();
    if !windows {
        let unix = unix_system_blocks_table();
        let mut k: usize = 0;
        let ghost b0 = blocks@;
        while k < unix.len()
            invariant
                k <= unix@.len(),
                blocks@ == b0 + unix@.take(k as int),
            decreases unix@.len() - k,
        {
            blocks.push(unix[k]);
            k = k + 1;
            proof {
                assert(blocks@ =~= b0 + unix@.take(k as int));
            }
        }
        proof {
            assert(unix@.take(k as int) =~= unix@);
            assert(pair_views(blocks@) =~= system_blocks() + unix_system_blocks());
        }
    }
    match first_blocked(&tokens, &blocks) {
        Some(reason) => {
            return Err(reason);
        },
        None => {},
    }
    let mut paths = path_escape_table();
    if !windows {
        let unix = unix_path_escape_table();
        let mut k: usize = 0;
        let ghost p0 = paths@;
        while k < unix.len()
            invariant
                k <= unix@.len(),
                paths@ == p0 + unix@.take(k as int),
            decreases unix@.len() - k,
        {
            paths.push(unix[k]);
            k = k + 1;
            proof {
                assert(paths@ =~= p0 + unix@.take(k as int));
            }
        }
        proof {
            assert(unix@.take(k as int) =~= unix@);
            assert(str_views(paths@) =~= path_escape() + unix_path_escape());
        }
    }
    if any_pattern(lower.as_slice(), &paths) {
        return Err("Operation on files outside the project directory is prohibited");
    }
    if any_pattern(lower.as_slice(), &destructive_table()) {
        return Err("destructive system operation forbidden");
    }
    if !is_allowed_command(lower.as_slice()) {
        return Err(
            "command is not in the restricted allowlist; use run_tests/run_lint or an approved build/format command",
        );
    }
    Ok(())
}

/// Checks a command for the platform the program runs on.
pub fn check_command_safety(cmd: &str) -> (r: Result<(), &'static str>)
    ensures
        ({
            let v = match r {
                Ok(_) => None,
                Err(e) => Some(e@),
            };
            v == command_verdict(cmd@, true) || v == command_verdict(cmd@, false)
        }),
        all_ascii(cmd@) ==> normalized(cmd@) == ascii_lowered(join(words(trim(cmd@)), " "@)),
{
    check_command_safety_for(cmd, built_for_windows())
}

} // verus!
