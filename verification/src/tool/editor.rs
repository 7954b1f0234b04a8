//! External editor settings: which editor to launch, checks on a custom
//! command, the arguments that open a file or a project, and where the
//! editors are usually installed.
use crate::text::{
    ascii_lower, ascii_lowered, chars_of, fmt_u64, lines, slice_chars, push_all, push_str, split_lines, split_words, string_of, strip_prefix_all,
    strip_prefix_all_chars, trim, trim_chars, words, strs,
};
use crate::tool::command_ops::{nonempty_trims, tokens, tokens_of};
use crate::tool::scope::lower_ascii;
use vstd::prelude::*;

verus! {

/// The supported editors.
#[derive(Debug, Clone, Copy, PartialEq, Eq, Structural)]
pub enum EditorKind {
    Vscode,
    Cursor,
    Trae,
    Zed,
    Sublime,
    Jetbrains,
    Custom,
}

/// The editor settings.
#[derive(Debug, Clone)]
pub struct EditorConfig {
    pub editor: EditorKind,
    pub custom_command: Option<String>,
    pub reuse_window: bool,
}

/// The platform a program runs on, as far as editor paths depend on it.
#[derive(Debug, Clone, Copy, PartialEq, Eq, Structural)]
pub enum TargetOs {
    Windows,
    MacOs,
    Linux,
    Other,
}

/// The directory a well-known editor path is relative to.
#[derive(Debug, Clone, Copy, PartialEq, Eq, Structural)]
pub enum BaseDir {
    /// `%LOCALAPPDATA%`.
    LocalAppData,
    /// `%ProgramFiles%`.
    ProgramFiles,
    /// `%ProgramFiles(x86)%`.
    ProgramFilesX86,
    /// `$HOME`.
    Home,
    /// None: the path is absolute.
    Root,
}

/// A place where an editor's launcher is often installed.
#[derive(Debug, Clone, Copy)]
pub struct BinCandidate {
    pub base: BaseDir,
    pub path: &'static str,
}

/// The default for `reuse_window`.
pub fn default_true() -> (r: bool)
    ensures
        r,
{
    true
}

impl Default for EditorConfig {
    /// VS Code, reusing its window.
    fn default() -> (c: Self)
        ensures
            c.editor == EditorKind::Vscode,
            c.custom_command is None,
            c.reuse_window,
    {
        EditorConfig { editor: EditorKind::Vscode, custom_command: None, reuse_window: default_true() }
    }
}

/// Characters a custom command must not contain.
pub open spec fn forbidden_char(c: char) -> bool {
    c == ';' || c == '|' || c == '&' || c == '>' || c == '<' || c == '\n' || c == '\r' || c == '`' || c == '$' || c
        == '(' || c == ')' || c == '"' || c == '\''
}

/// Why a custom command is refused (`None` when it is acceptable): shell
/// metacharacters, or more than one word.
pub open spec fn custom_command_problem(cmd: Seq<char>) -> Option<Seq<char>> {
    if exists|i: int| 0 <= i < cmd.len() && forbidden_char(#[trigger] cmd[i]) {
        Some("custom command must not contain shell metacharacters"@)
    } else if words(cmd).len() > 1 {
        Some("custom command must be a single executable name or path without arguments"@)
    } else {
        None
    }
}

/// Checks a custom editor command.
pub fn validate_custom_command(cmd: &str) -> (r: Result<(), String>)
    ensures
        r is Ok <==> custom_command_problem(cmd@) is None,
        r matches Err(e) ==> Some(e@) == custom_command_problem(cmd@),
{
    let cv = chars_of(cmd);
    let mut i: usize = 0;
    while i < cv.len()
        invariant
            i <= cv@.len(),
            cv@ == cmd@,
            forall|k: int| 0 <= k < i ==> !forbidden_char(#[trigger] cv@[k]),
        decreases cv@.len() - i,
    {
        let c = cv[i];
        if c == ';' || c == '|' || c == '&' || c == '>' || c == '<' || c == '\n' || c == '\r' || c == '`' || c == '$'
            || c == '(' || c == ')' || c == '"' || c == '\'' {
            proof {
                assert(forbidden_char(cmd@[i as int]));
            }
            return Err("custom command must not contain shell metacharacters".to_owned());
        }
        i = i + 1;
    }
    let ws = split_words(cv.as_slice());
    if ws.len() > 1 {
        return Err("custom command must be a single executable name or path without arguments".to_owned());
    }
    Ok(())
}

/// The custom command as configured, trimmed (empty when unset).
pub open spec fn custom_cmd_text(c: EditorConfig) -> Seq<char> {
    match c.custom_command {
        Some(s) => trim(s@),
        None => Seq::empty(),
    }
}

/// Why an editor configuration is refused (`None` when it is acceptable).
pub open spec fn config_problem(c: EditorConfig) -> Option<Seq<char>> {
    if c.editor == EditorKind::Custom {
        if custom_cmd_text(c).len() == 0 {
            Some("custom editor command cannot be empty"@)
        } else {
            custom_command_problem(custom_cmd_text(c))
        }
    } else {
        None
    }
}

fn custom_cmd_of(config: &EditorConfig) -> (r: String)
    ensures
        r@ == custom_cmd_text(*config),
{
    match &config.custom_command {
        Some(s) => {
            let v = chars_of(s.as_str());
            string_of(trim_chars(v.as_slice()).as_slice())
        },
        None => {
            let r = String::new();
            proof {
                assert(r@ =~= Seq::<char>::empty());
            }
            r
        },
    }
}

/// Checks an editor configuration: a custom editor needs a non-empty,
/// acceptable command.
pub fn validate_editor_config(config: &EditorConfig) -> (r: Result<(), String>)
    ensures
        r is Ok <==> config_problem(*config) is None,
        r matches Err(e) ==> Some(e@) == config_problem(*config),
{
    if config.editor == EditorKind::Custom {
        let cmd = custom_cmd_of(config);
        let cv = chars_of(cmd.as_str());
        if cv.len() == 0 {
            return Err("custom editor command cannot be empty".to_owned());
        }
        validate_custom_command(cmd.as_str())?;
    }
    Ok(())
}

/// The executable of each built-in editor.
pub open spec fn builtin_executable(k: EditorKind) -> Seq<char> {
    match k {
        EditorKind::Vscode => "code"@,
        EditorKind::Cursor => "cursor"@,
        EditorKind::Trae => "trae"@,
        EditorKind::Zed => "zed"@,
        EditorKind::Sublime => "subl"@,
        EditorKind::Jetbrains => "idea"@,
        EditorKind::Custom => Seq::empty(),
    }
}

/// The command that launches the configured editor.
pub fn resolve_editor_executable(config: &EditorConfig) -> (r: Result<String, String>)
    ensures
        config.editor != EditorKind::Custom ==> (r matches Ok(s) && s@ == builtin_executable(config.editor)),
        config.editor == EditorKind::Custom ==> {
            &&& r is Ok <==> custom_command_problem(custom_cmd_text(*config)) is None
            &&& r matches Ok(s) ==> s@ == custom_cmd_text(*config)
            &&& r matches Err(e) ==> Some(e@) == custom_command_problem(custom_cmd_text(*config))
        },
{
    match config.editor {
        EditorKind::Vscode => Ok("code".to_owned()),
        EditorKind::Cursor => Ok("cursor".to_owned()),
        EditorKind::Trae => Ok("trae".to_owned()),
        EditorKind::Zed => Ok("zed".to_owned()),
        EditorKind::Sublime => Ok("subl".to_owned()),
        EditorKind::Jetbrains => Ok("idea".to_owned()),
        EditorKind::Custom => {
            let cmd = custom_cmd_of(config);
            validate_custom_command(cmd.as_str())?;
            Ok(cmd)
        },
    }
}

/// Whether a command names a path (holds `/` or `\`).
pub fn has_path_separator(cmd: &str) -> (r: bool)
    ensures
        r == (cmd@.contains('/') || cmd@.contains('\\')),
{
    let cv = chars_of(cmd);
    let mut i: usize = 0;
    while i < cv.len()
        invariant
            i <= cv@.len(),
            cv@ == cmd@,
            forall|k: int| 0 <= k < i ==> #[trigger] cv@[k] != '/' && cv@[k] != '\\',
        decreases cv@.len() - i,
    {
        if cv[i] == '/' || cv[i] == '\\' {
            proof {
                assert(cmd@[i as int] == cv[i as int]);
            }
            return true;
        }
        i = i + 1;
    }
    false
}

/// The message when the editor's command cannot be found.
pub open spec fn not_found_message(editor: Seq<char>) -> Seq<char> {
    "editor command '"@ + editor
        + "' not found; install it, add it to PATH, or configure a custom command in Settings"@
}

/// The message when the editor's command cannot be found.
pub fn editor_not_found_message(editor: &str) -> (r: String)
    ensures
        r@ == not_found_message(editor@),
{
    let mut v = chars_of("editor command '");
    push_str(&mut v, editor);
    push_str(&mut v, "' not found; install it, add it to PATH, or configure a custom command in Settings");
    string_of(v.as_slice())
}

/// `target` followed by `:line` when a line is given.
pub open spec fn path_with_line(target: Seq<char>, line: Option<u32>) -> Seq<char> {
    match line {
        Some(l) => target + ":"@ + crate::text::decimal(l as nat),
        None => target,
    }
}

/// `target` followed by `:line` when a line is given.
pub fn format_path_with_line(target: &str, line: Option<u32>) -> (r: String)
    ensures
        r@ == path_with_line(target@, line),
{
    match line {
        Some(l) => {
            let mut v = chars_of(target);
            push_str(&mut v, ":");
            push_all(&mut v, fmt_u64(l as u64).as_slice());
            string_of(v.as_slice())
        },
        None => target.to_owned(),
    }
}

/// The arguments that open `target` (a file at an optional line, or a
/// directory) in the configured editor.
pub open spec fn spawn_args(c: EditorConfig, target: Seq<char>, line: Option<u32>, is_directory: bool) -> Seq<Seq<char>> {
    match c.editor {
        EditorKind::Zed | EditorKind::Sublime => seq![path_with_line(target, if is_directory { None } else { line })],
        EditorKind::Jetbrains => if !is_directory && line is Some {
            seq![target, "--line"@, crate::text::decimal(line->0 as nat)]
        } else {
            seq![target]
        },
        _ => (if c.reuse_window { seq!["--reuse-window"@] } else { Seq::empty() }) + (if is_directory {
            seq![target]
        } else {
            seq!["--goto"@, path_with_line(target, line)]
        }),
    }
}

/// The arguments that open `target` in the configured editor.
pub fn build_spawn_args(config: &EditorConfig, target: &str, line: Option<u32>, is_directory: bool) -> (r: Vec<String>)
    ensures
        strs(r@) == spawn_args(*config, target@, line, is_directory),
{
    let mut args: Vec<String> = Vec::new();
    match config.editor {
        EditorKind::Zed | EditorKind::Sublime => {
            args.push(format_path_with_line(target, if is_directory { None } else { line }));
        },
        EditorKind::Jetbrains => {
            args.push(target.to_owned());
            if !is_directory {
                match line {
                    Some(l) => {
                        args.push("--line".to_owned());
                        args.push(string_of(fmt_u64(l as u64).as_slice()));
                    },
                    None => {},
                }
            }
        },
        _ => {
            if config.reuse_window {
                args.push("--reuse-window".to_owned());
            }
            if is_directory {
                args.push(target.to_owned());
            } else {
                args.push("--goto".to_owned());
                args.push(format_path_with_line(target, line));
            }
        },
    }
    proof {
        assert(strs(args@) =~= spawn_args(*config, target@, line, is_directory));
    }
    args
}

/// The arguments that open a file in the configured editor.
pub fn build_editor_args(config: &EditorConfig, abs_path: &str, line: Option<u32>) -> (r: Vec<String>)
    ensures
        strs(r@) == spawn_args(*config, abs_path@, line, false),
{
    build_spawn_args(config, abs_path, line, false)
}

/// The launcher locations under the Windows base directories that are known.
pub open spec fn install_dir_bins(kind: EditorKind, local_app_data: bool, program_files: bool, program_files_x86: bool) -> Seq<
    (BaseDir, Seq<char>),
> {
    match kind {
        EditorKind::Vscode => (if local_app_data {
            seq![(BaseDir::LocalAppData, "Programs/Microsoft VS Code/bin/code.cmd"@)]
        } else {
            Seq::empty()
        }) + (if program_files {
            seq![(BaseDir::ProgramFiles, "Microsoft VS Code/bin/code.cmd"@)]
        } else {
            Seq::empty()
        }) + (if program_files_x86 {
            seq![(BaseDir::ProgramFilesX86, "Microsoft VS Code/bin/code.cmd"@)]
        } else {
            Seq::empty()
        }),
        EditorKind::Cursor => (if local_app_data {
            seq![
                (BaseDir::LocalAppData, "Programs/cursor/resources/app/bin/cursor.cmd"@),
                (BaseDir::LocalAppData, "Programs/Cursor/resources/app/bin/cursor.cmd"@),
            ]
        } else {
            Seq::empty()
        }) + (if program_files {
            seq![
                (BaseDir::ProgramFiles, "cursor/resources/app/bin/cursor.cmd"@),
                (BaseDir::ProgramFiles, "Cursor/resources/app/bin/cursor.cmd"@),
            ]
        } else {
            Seq::empty()
        }),
        EditorKind::Trae => if local_app_data {
            seq![(BaseDir::LocalAppData, "Programs/Trae/bin/trae.cmd"@)]
        } else {
            Seq::empty()
        },
        EditorKind::Zed => if local_app_data {
            seq![(BaseDir::LocalAppData, "Programs/Zed/bin/zed.exe"@)]
        } else {
            Seq::empty()
        },
        EditorKind::Sublime => if program_files {
            seq![(BaseDir::ProgramFiles, "Sublime Text/subl.exe"@), (BaseDir::ProgramFiles, "Sublime Text 3/subl.exe"@)]
        } else {
            Seq::empty()
        },
        EditorKind::Jetbrains => if program_files {
            seq![(BaseDir::ProgramFiles, "JetBrains/IntelliJ IDEA/bin/idea64.exe"@)]
        } else {
            Seq::empty()
        },
        EditorKind::Custom => Seq::empty(),
    }
}

/// The launcher locations specific to a platform.
pub open spec fn platform_bins(kind: EditorKind, os: TargetOs, home: bool) -> Seq<(BaseDir, Seq<char>)> {
    match os {
        TargetOs::MacOs => match kind {
            EditorKind::Vscode => seq![
                (BaseDir::Root, "/usr/local/bin/code"@),
                (BaseDir::Root, "/Applications/Visual Studio Code.app/Contents/Resources/app/bin/code"@),
            ],
            EditorKind::Cursor => seq![
                (BaseDir::Root, "/usr/local/bin/cursor"@),
                (BaseDir::Root, "/Applications/Cursor.app/Contents/Resources/app/bin/cursor"@),
            ],
            EditorKind::Zed => seq![
                (BaseDir::Root, "/usr/local/bin/zed"@),
                (BaseDir::Root, "/Applications/Zed.app/Contents/MacOS/zed"@),
            ],
            EditorKind::Sublime => seq![
                (BaseDir::Root, "/Applications/Sublime Text.app/Contents/SharedSupport/bin/subl"@),
            ],
            _ => Seq::empty(),
        },
        TargetOs::Linux => (if home {
            seq![
                (BaseDir::Home, ".local/share/flatpak/exports/bin/com.visualstudio.code"@),
                (BaseDir::Home, ".local/share/flatpak/exports/bin/cursor"@),
            ]
        } else {
            Seq::empty()
        }) + match kind {
            EditorKind::Vscode => seq![
                (BaseDir::Root, "/usr/bin/code"@),
                (BaseDir::Root, "/usr/local/bin/code"@),
                (BaseDir::Root, "/snap/bin/code"@),
                (BaseDir::Root, "/var/lib/flatpak/exports/bin/com.visualstudio.code"@),
            ],
            EditorKind::Cursor => seq![
                (BaseDir::Root, "/usr/bin/cursor"@),
                (BaseDir::Root, "/usr/local/bin/cursor"@),
                (BaseDir::Root, "/snap/bin/cursor"@),
                (BaseDir::Root, "/var/lib/flatpak/exports/bin/cursor"@),
            ],
            EditorKind::Zed => seq![(BaseDir::Root, "/usr/bin/zed"@), (BaseDir::Root, "/usr/local/bin/zed"@)],
            EditorKind::Sublime => seq![(BaseDir::Root, "/usr/bin/subl"@), (BaseDir::Root, "/usr/local/bin/subl"@)],
            EditorKind::Jetbrains => seq![(BaseDir::Root, "/usr/bin/idea"@), (BaseDir::Root, "/usr/local/bin/idea"@)],
            _ => Seq::empty(),
        },
        _ => Seq::empty(),
    }
}

/// The well-known launcher locations, as (base, path) pairs, for an editor
/// on a platform, given which base directories are known.
pub open spec fn well_known_bins(
    kind: EditorKind,
    os: TargetOs,
    local_app_data: bool,
    program_files: bool,
    program_files_x86: bool,
    home: bool,
) -> Seq<(BaseDir, Seq<char>)> {
    install_dir_bins(kind, local_app_data, program_files, program_files_x86) + platform_bins(kind, os, home)
}

/// The values of each candidate.
pub open spec fn bin_views(v: Seq<BinCandidate>) -> Seq<(BaseDir, Seq<char>)> {
    Seq::new(v.len(), |i: int| (v[i].base, v[i].path@))
}

fn bin(base: BaseDir, path: &'static str) -> (b: BinCandidate)
    ensures
        b.base == base,
        b.path@ == path@,
{
    BinCandidate { base, path }
}

fn install_dir_bins_of(kind: EditorKind, local_app_data: bool, program_files: bool, program_files_x86: bool) -> (r: Vec<
    BinCandidate,
>)
    ensures
        bin_views(r@) == install_dir_bins(kind, local_app_data, program_files, program_files_x86),
{
    let mut bins: Vec<BinCandidate> = Vec::new();
    match kind {
        EditorKind::Vscode => {
            if local_app_data {
                bins.push(bin(BaseDir::LocalAppData, "Programs/Microsoft VS Code/bin/code.cmd"));
            }
            if program_files {
                bins.push(bin(BaseDir::ProgramFiles, "Microsoft VS Code/bin/code.cmd"));
            }
            if program_files_x86 {
                bins.push(bin(BaseDir::ProgramFilesX86, "Microsoft VS Code/bin/code.cmd"));
            }
        },
        EditorKind::Cursor => {
            if local_app_data {
                bins.push(bin(BaseDir::LocalAppData, "Programs/cursor/resources/app/bin/cursor.cmd"));
                bins.push(bin(BaseDir::LocalAppData, "Programs/Cursor/resources/app/bin/cursor.cmd"));
            }
            if program_files {
                bins.push(bin(BaseDir::ProgramFiles, "cursor/resources/app/bin/cursor.cmd"));
                bins.push(bin(BaseDir::ProgramFiles, "Cursor/resources/app/bin/cursor.cmd"));
            }
        },
        EditorKind::Trae => {
            if local_app_data {
                bins.push(bin(BaseDir::LocalAppData, "Programs/Trae/bin/trae.cmd"));
            }
        },
        EditorKind::Zed => {
            if local_app_data {
                bins.push(bin(BaseDir::LocalAppData, "Programs/Zed/bin/zed.exe"));
            }
        },
        EditorKind::Sublime => {
            if program_files {
                bins.push(bin(BaseDir::ProgramFiles, "Sublime Text/subl.exe"));
                bins.push(bin(BaseDir::ProgramFiles, "Sublime Text 3/subl.exe"));
            }
        },
        EditorKind::Jetbrains => {
            if program_files {
                bins.push(bin(BaseDir::ProgramFiles, "JetBrains/IntelliJ IDEA/bin/idea64.exe"));
            }
        },
        EditorKind::Custom => {},
    }
    proof {
        assert(bin_views(bins@) =~= install_dir_bins(kind, local_app_data, program_files, program_files_x86));
    }
    bins
}

fn platform_bins_of(kind: EditorKind, os: TargetOs, home: bool) -> (r: Vec<BinCandidate>)
    ensures
        bin_views(r@) == platform_bins(kind, os, home),
{
    let mut bins: Vec<BinCandidate> = Vec::new();
    match os {
        TargetOs::MacOs => {
            match kind {
                EditorKind::Vscode => {
                    bins.push(bin(BaseDir::Root, "/usr/local/bin/code"));
                    bins.push(bin(BaseDir::Root, "/Applications/Visual Studio Code.app/Contents/Resources/app/bin/code"));
                },
                EditorKind::Cursor => {
                    bins.push(bin(BaseDir::Root, "/usr/local/bin/cursor"));
                    bins.push(bin(BaseDir::Root, "/Applications/Cursor.app/Contents/Resources/app/bin/cursor"));
                },
                EditorKind::Zed => {
                    bins.push(bin(BaseDir::Root, "/usr/local/bin/zed"));
                    bins.push(bin(BaseDir::Root, "/Applications/Zed.app/Contents/MacOS/zed"));
                },
                EditorKind::Sublime => {
                    bins.push(bin(BaseDir::Root, "/Applications/Sublime Text.app/Contents/SharedSupport/bin/subl"));
                },
                _ => {},
            }
        },
        TargetOs::Linux => {
            if home {
                bins.push(bin(BaseDir::Home, ".local/share/flatpak/exports/bin/com.visualstudio.code"));
                bins.push(bin(BaseDir::Home, ".local/share/flatpak/exports/bin/cursor"));
            }
            match kind {
                EditorKind::Vscode => {
                    bins.push(bin(BaseDir::Root, "/usr/bin/code"));
                    bins.push(bin(BaseDir::Root, "/usr/local/bin/code"));
                    bins.push(bin(BaseDir::Root, "/snap/bin/code"));
                    bins.push(bin(BaseDir::Root, "/var/lib/flatpak/exports/bin/com.visualstudio.code"));
                },
                EditorKind::Cursor => {
                    bins.push(bin(BaseDir::Root, "/usr/bin/cursor"));
                    bins.push(bin(BaseDir::Root, "/usr/local/bin/cursor"));
                    bins.push(bin(BaseDir::Root, "/snap/bin/cursor"));
                    bins.push(bin(BaseDir::Root, "/var/lib/flatpak/exports/bin/cursor"));
                },
                EditorKind::Zed => {
                    bins.push(bin(BaseDir::Root, "/usr/bin/zed"));
                    bins.push(bin(BaseDir::Root, "/usr/local/bin/zed"));
                },
                EditorKind::Sublime => {
                    bins.push(bin(BaseDir::Root, "/usr/bin/subl"));
                    bins.push(bin(BaseDir::Root, "/usr/local/bin/subl"));
                },
                EditorKind::Jetbrains => {
                    bins.push(bin(BaseDir::Root, "/usr/bin/idea"));
                    bins.push(bin(BaseDir::Root, "/usr/local/bin/idea"));
                },
                _ => {},
            }
        },
        _ => {},
    }
    proof {
        assert(bin_views(bins@) =~= platform_bins(kind, os, home));
    }
    bins
}

/// Where the editor's launcher is usually installed, in the order to try.
/// The flags tell which base directories the environment defines.
pub fn well_known_editor_bins(
    kind: EditorKind,
    os: TargetOs,
    local_app_data: bool,
    program_files: bool,
    program_files_x86: bool,
    home: bool,
) -> (r: Vec<BinCandidate>)
    ensures
        bin_views(r@) == well_known_bins(kind, os, local_app_data, program_files, program_files_x86, home),
{
    let mut bins = install_dir_bins_of(kind, local_app_data, program_files, program_files_x86);
    let more = platform_bins_of(kind, os, home);
    let ghost first = bin_views(bins@);
    let mut i: usize = 0;
    while i < more.len()
        invariant
            i <= more@.len(),
            bin_views(bins@) == first + bin_views(more@).take(i as int),
        decreases more@.len() - i,
    {
        let ghost before = bin_views(bins@);
        let c = more[i];
        bins.push(c);
        proof {
            assert(bin_views(bins@) =~= before.push((c.base, c.path@)));
            assert(bin_views(more@).take(i + 1) =~= bin_views(more@).take(i as int).push((c.base, c.path@)));
        }
        i = i + 1;
    }
    proof {
        assert(bin_views(more@).take(i as int) =~= bin_views(more@));
    }
    bins
}

// ───────────────────────── finding executables ─────────────────────────

/// A file extension that Windows launches directly: `exe`, `cmd`, `bat` or
/// `com`, in any ASCII case.
pub open spec fn launchable_ext(ext: Seq<char>) -> bool {
    let l = ascii_lowered(ext);
    l == "exe"@ || l == "cmd"@ || l == "bat"@ || l == "com"@
}

/// Whether a file with this extension is launched directly on Windows.
pub fn is_windows_launchable_ext(ext: &str) -> (r: bool)
    ensures
        r == launchable_ext(ext@),
{
    let v = chars_of(ext);
    let mut l: Vec<char> = Vec::new();
    let mut i: usize = 0;
    while i < v.len()
        invariant
            i <= v@.len(),
            l@ == ascii_lowered(v@.take(i as int)),
        decreases v@.len() - i,
    {
        l.push(lower_ascii(v[i]));
        proof {
            assert(ascii_lowered(v@.take(i + 1)) =~= ascii_lowered(v@.take(i as int)).push(ascii_lower(v@[i as int])));
        }
        i = i + 1;
    }
    proof {
        assert(v@.take(v@.len() as int) =~= v@);
    }
    let s = l.as_slice();
    crate::text::eq_str(s, "exe") || crate::text::eq_str(s, "cmd") || crate::text::eq_str(s, "bat")
        || crate::text::eq_str(s, "com")
}

/// The extensions a `PATHEXT` value lists, in order: its `;`-separated
/// entries trimmed, empty ones left out, leading dots removed.
pub open spec fn pathext_exts(pathext: Seq<char>) -> Seq<Seq<char>> {
    tokens_of(pathext, seq![';']).map_values(|t: Seq<char>| strip_prefix_all(t, "."@))
}

/// The extensions a `PATHEXT` value lists (see [`pathext_exts`]).
pub fn pathext_extensions(pathext: &str) -> (r: Vec<String>)
    ensures
        strs(r@) == pathext_exts(pathext@),
{
    let v = chars_of(pathext);
    let seps = vec![';'];
    let ts = tokens(v.as_slice(), seps.as_slice());
    proof {
        assert(seps@ =~= seq![';']);
    }
    let ghost tv = ts.deep_view();
    let mut out: Vec<String> = Vec::new();
    let mut i: usize = 0;
    while i < ts.len()
        invariant
            i <= ts@.len(),
            tv == ts.deep_view(),
            tv == tokens_of(pathext@, seq![';']),
            strs(out@) == tv.take(i as int).map_values(|t: Seq<char>| strip_prefix_all(t, "."@)),
        decreases ts@.len() - i,
    {
        let stripped = strip_prefix_all_chars(ts[i].as_slice(), ".");
        proof {
            crate::text::lemma_chars_deep_view(ts@[i as int]);
            reveal_strlit(".");
        }
        let ghost prev = out@;
        let e = string_of(stripped.as_slice());
        out.push(e);
        proof {
            assert(tv[i as int] == ts@[i as int]@);
            assert(strs(out@) =~= strs(prev).push(e@));
            assert(tv.take(i + 1) =~= tv.take(i as int).push(tv[i as int]));
            assert(strs(out@) =~= tv.take(i + 1).map_values(|t: Seq<char>| strip_prefix_all(t, "."@)));
        }
        i = i + 1;
    }
    proof {
        assert(tv.take(ts@.len() as int) =~= tv);
    }
    out
}

/// The lines of `where` output that name a file: each line trimmed, empty
/// ones left out, in order.
pub open spec fn where_lines_of(out: Seq<char>) -> Seq<Seq<char>> {
    nonempty_trims(lines(out))
}

/// The lines of `where` output that name a file (see [`where_lines_of`]).
pub fn where_lines(output: &str) -> (r: Vec<String>)
    ensures
        strs(r@) == where_lines_of(output@),
{
    let v = chars_of(output);
    let ls = split_lines(v.as_slice());
    let ghost lv = ls.deep_view();
    let mut out: Vec<String> = Vec::new();
    let mut i: usize = 0;
    while i < ls.len()
        invariant
            i <= ls@.len(),
            lv == ls.deep_view(),
            lv == lines(output@),
            strs(out@) == nonempty_trims(lv.take(i as int)),
        decreases ls@.len() - i,
    {
        proof {
            crate::text::lemma_chars_deep_view(ls@[i as int]);
            assert(lv.take(i + 1).drop_last() =~= lv.take(i as int));
            assert(lv.take(i + 1).last() == lv[i as int]);
        }
        let t = trim_chars(ls[i].as_slice());
        if t.len() > 0 {
            let ghost prev = out@;
            let e = string_of(t.as_slice());
            out.push(e);
            proof {
                assert(strs(out@) =~= strs(prev).push(e@));
            }
        }
        i = i + 1;
    }
    proof {
        assert(lv.take(ls@.len() as int) =~= lv);
    }
    out
}

/// The first index from `i` on where `p` occurs in `s`.
pub open spec fn sub_pos_from(s: Seq<char>, p: Seq<char>, i: int) -> Option<int>
    decreases s.len() + 1 - i,
{
    if i < 0 || i + p.len() > s.len() {
        None
    } else if s.subrange(i, i + p.len()) == p {
        Some(i)
    } else {
        sub_pos_from(s, p, i + 1)
    }
}

/// The text after the first `marker` in `line`, up to the next one (what
/// `line.split(marker).nth(1)` gives).
pub open spec fn after_marker(line: Seq<char>, marker: Seq<char>) -> Option<Seq<char>> {
    match sub_pos_from(line, marker, 0) {
        None => None,
        Some(k) => {
            let rest = line.skip(k + marker.len());
            match sub_pos_from(rest, marker, 0) {
                Some(k2) => Some(rest.take(k2)),
                None => Some(rest),
            }
        },
    }
}

/// The value a `reg query` output line gives: after its `REG_EXPAND_SZ`,
/// else after its `REG_SZ`.
pub open spec fn reg_line_value(line: Seq<char>) -> Option<Seq<char>> {
    match after_marker(line, "REG_EXPAND_SZ"@) {
        Some(v) => Some(v),
        None => after_marker(line, "REG_SZ"@),
    }
}

/// The value of the first line of `ls` (from `i` on) that gives one.
pub open spec fn first_reg_value(ls: Seq<Seq<char>>, i: int) -> Option<Seq<char>>
    decreases ls.len() - i,
{
    if i < 0 || i >= ls.len() {
        None
    } else {
        match reg_line_value(ls[i]) {
            Some(v) => Some(v),
            None => first_reg_value(ls, i + 1),
        }
    }
}

/// The `Path` value in the output of `reg query HKCU\Environment /v Path`:
/// the first line's value, trimmed; `None` when no line gives one or it is
/// empty.
pub open spec fn registry_path_of(output: Seq<char>) -> Option<Seq<char>> {
    match first_reg_value(lines(output), 0) {
        Some(v) => if trim(v).len() > 0 {
            Some(trim(v))
        } else {
            None
        },
        None => None,
    }
}

fn sub_pos(s: &[char], p: &[char], start: usize) -> (r: Option<usize>)
    ensures
        match r {
            Some(k) => sub_pos_from(s@, p@, start as int) == Some(k as int) && k + p@.len() <= s@.len(),
            None => sub_pos_from(s@, p@, start as int) is None,
        },
{
    let mut i = start;
    while i <= s.len()
        invariant
            start <= i,
            sub_pos_from(s@, p@, start as int) == sub_pos_from(s@, p@, i as int),
        decreases s@.len() + 1 - i,
    {
        if p.len() > s.len() - i {
            return None;
        }
        if crate::text::matches_at(s, p, i) {
            return Some(i);
        }
        assert(i < s.len()) by {
            if i == s.len() {
                assert(s@.subrange(i as int, i as int) =~= p@);
            }
        }
        i = i + 1;
    }
    None
}

fn after_marker_of(line: &[char], marker: &str) -> (r: Option<Vec<char>>)
    ensures
        (match r {
            Some(v) => Some(v@),
            None => None,
        }) == after_marker(line@, marker@),
{
    let mv = chars_of(marker);
    match sub_pos(line, mv.as_slice(), 0) {
        None => None,
        Some(k) => {
            let n = line.len();
            assert(k + mv@.len() <= n);
            let start = k + mv.len();
            let rest = slice_chars(line, start, n);
            assert(rest@ =~= line@.skip(k + marker@.len()));
            match sub_pos(rest.as_slice(), mv.as_slice(), 0) {
                Some(k2) => {
                    let v = slice_chars(rest.as_slice(), 0, k2);
                    assert(v@ =~= rest@.take(k2 as int));
                    Some(v)
                },
                None => Some(rest),
            }
        },
    }
}

/// The `Path` value in `reg query` output (see [`registry_path_of`]).
pub fn registry_path_value(output: &str) -> (r: Option<String>)
    ensures
        (match r {
            Some(v) => Some(v@),
            None => None,
        }) == registry_path_of(output@),
{
    let v = chars_of(output);
    let ls = split_lines(v.as_slice());
    let ghost lv = ls.deep_view();
    let mut i: usize = 0;
    while i < ls.len()
        invariant
            i <= ls@.len(),
            lv == ls.deep_view(),
            lv == lines(output@),
            first_reg_value(lv, 0) == first_reg_value(lv, i as int),
        decreases ls@.len() - i,
    {
        proof {
            crate::text::lemma_chars_deep_view(ls@[i as int]);
        }
        let a = after_marker_of(ls[i].as_slice(), "REG_EXPAND_SZ");
        let b = match a {
            Some(x) => Some(x),
            None => after_marker_of(ls[i].as_slice(), "REG_SZ"),
        };
        if let Some(x) = b {
            let t = trim_chars(x.as_slice());
            if t.len() > 0 {
                return Some(string_of(t.as_slice()));
            } else {
                return None;
            }
        }
        i = i + 1;
    }
    None
}

} // verus!
