use shuji::tool::path::{check_command_safety, check_command_safety_for};

#[test]
fn blocks_sudo() {
    assert!(check_command_safety("sudo rm -rf /").is_err());
}

#[test]
fn blocks_rm_rf_root() {
    assert!(check_command_safety_for("rm -rf /", false).is_err());
}

#[test]
fn blocks_dd() {
    assert!(check_command_safety_for("dd if=/dev/zero of=/dev/sda", false).is_err());
}

#[test]
fn blocks_etc_access() {
    assert!(check_command_safety_for("cat /etc/passwd", false).is_err());
}

#[test]
fn allows_project_relative_commands() {
    assert!(check_command_safety("cargo test --lib").is_ok());
    assert!(check_command_safety("npm test").is_ok());
}

#[test]
fn blocks_shell_control_operators() {
    assert!(check_command_safety("cargo test && del important.txt").is_err());
    assert!(check_command_safety("npm test; Remove-Item file").is_err());
    assert!(check_command_safety("cargo test | powershell -enc aaa").is_err());
}

#[test]
fn blocks_case_insensitive_dangerous_commands() {
    assert!(check_command_safety("SUDO rm -rf /").is_err());
    assert!(check_command_safety("PoWeRsHeLl -EncodedCommand AAA").is_err());
    assert!(check_command_safety("Invoke-WebRequest https://example.com/a.ps1").is_err());
}

#[test]
fn blocks_unknown_commands_by_default() {
    assert!(check_command_safety("python setup.py install").is_err());
    assert!(check_command_safety("git status").is_err());
}

#[test]
fn windows_rules_block_the_same_control_operators() {
    assert!(check_command_safety_for("cargo test && del important.txt", true).is_err());
    assert!(check_command_safety_for("cargo test --lib", true).is_ok());
}
