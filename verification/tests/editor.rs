use shuji::tool::editor::{
    is_windows_launchable_ext, pathext_extensions, registry_path_value, where_lines,
    build_editor_args, build_spawn_args, validate_custom_command, well_known_editor_bins,
    BaseDir, EditorConfig, EditorKind, TargetOs,
};

#[test]
fn build_args_with_line() {
    let config = EditorConfig {
        editor: EditorKind::Vscode,
        custom_command: None,
        reuse_window: true,
    };
    let args = build_editor_args(&config, "/tmp/foo.rs", Some(42));
    assert_eq!(args[0], "--reuse-window");
    assert_eq!(args[1], "--goto");
    assert!(args[2].ends_with("foo.rs:42"));
}

#[test]
fn zed_uses_path_colon_line() {
    let config = EditorConfig {
        editor: EditorKind::Zed,
        custom_command: None,
        reuse_window: true,
    };
    let args = build_spawn_args(&config, "/tmp/foo.rs", Some(7), false);
    assert_eq!(args, vec!["/tmp/foo.rs:7"]);
}

#[test]
fn jetbrains_uses_line_flag() {
    let config = EditorConfig {
        editor: EditorKind::Jetbrains,
        custom_command: None,
        reuse_window: false,
    };
    let args = build_spawn_args(&config, "/tmp/foo.rs", Some(12), false);
    assert_eq!(args[0], "/tmp/foo.rs");
    assert_eq!(args[1], "--line");
    assert_eq!(args[2], "12");
}

#[test]
fn project_root_vscode_no_goto() {
    let config = EditorConfig {
        editor: EditorKind::Vscode,
        custom_command: None,
        reuse_window: true,
    };
    let args = build_spawn_args(&config, "/tmp/project", None, true);
    assert_eq!(args, vec!["--reuse-window", "/tmp/project"]);
}

#[test]
fn rejects_custom_command_with_shell_metacharacters() {
    assert!(validate_custom_command("code --wait").is_err());
    assert!(validate_custom_command("cmd /C code").is_err());
    assert!(validate_custom_command("editor.exe").is_ok());
}

#[test]
fn well_known_vscode_includes_local_appdata_bin() {
    let bins = well_known_editor_bins(EditorKind::Vscode, TargetOs::Windows, true, true, true, true);
    assert!(bins.iter().any(|b| {
        b.base == BaseDir::LocalAppData
            && b.path.to_lowercase().contains("microsoft vs code")
            && b.path.to_lowercase().ends_with("code.cmd")
    }));
}

#[test]
fn well_known_vscode_includes_linux_paths() {
    let bins = well_known_editor_bins(EditorKind::Vscode, TargetOs::Linux, false, false, false, true);
    let paths: Vec<String> = bins.iter().map(|b| b.path.to_string()).collect();
    assert!(
        paths.iter().any(|p| p.contains("/usr/bin/code") || p.contains("/snap/bin/code")),
        "expected Linux VS Code paths, got: {paths:?}"
    );
}

#[test]
fn well_known_cursor_includes_linux_paths() {
    let bins = well_known_editor_bins(EditorKind::Cursor, TargetOs::Linux, false, false, false, true);
    let paths: Vec<String> = bins.iter().map(|b| b.path.to_string()).collect();
    assert!(
        paths.iter().any(|p| p.contains("/usr/bin/cursor") || p.contains("/snap/bin/cursor")),
        "expected Linux Cursor paths, got: {paths:?}"
    );
}

#[test]
fn windows_paths_need_their_base_directory() {
    let bins = well_known_editor_bins(EditorKind::Vscode, TargetOs::Windows, false, false, false, false);
    assert!(bins.iter().all(|b| b.base != BaseDir::LocalAppData));
}

#[test]
fn executable_lookup_helpers() {
    assert!(is_windows_launchable_ext("EXE"));
    assert!(is_windows_launchable_ext("cmd"));
    assert!(!is_windows_launchable_ext("ps1"));
    assert!(!is_windows_launchable_ext(""));
    assert_eq!(pathext_extensions(".COM;.EXE; ;.BAT;"), vec!["COM", "EXE", "BAT"]);
    assert_eq!(
        where_lines("C:\\a\\code\r\n\r\n  C:\\b\\code.cmd  \n"),
        vec!["C:\\a\\code", "C:\\b\\code.cmd"]
    );
    let out = "\r\nHKEY_CURRENT_USER\\Environment\r\n    Path    REG_EXPAND_SZ    C:\\x;C:\\y\r\n\r\n";
    assert_eq!(registry_path_value(out), Some("C:\\x;C:\\y".to_string()));
    assert_eq!(registry_path_value("    Path    REG_SZ    D:\\z\n"), Some("D:\\z".to_string()));
    assert_eq!(registry_path_value("    Path    REG_SZ    \n"), None);
    assert_eq!(registry_path_value("nothing here"), None);
}
