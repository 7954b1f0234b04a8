use shuji::tool::scope::{
    check_scoped_parts, check_scoped_path, normalize_canonical_for, out_of_bounds_message,
    safe_starts_with, safe_starts_with_for, PathPart,
};

fn normal(s: &str) -> PathPart {
    PathPart::Normal(s.to_string())
}

#[test]
fn relative_paths_stay_inside() {
    assert!(check_scoped_path("src/main.rs").is_ok());
    assert!(check_scoped_path("").is_ok());
    assert_eq!(
        check_scoped_path("../etc/passwd").unwrap_err(),
        "parent directory traversal forbidden: ../etc/passwd"
    );
    assert_eq!(check_scoped_path("/etc/passwd").unwrap_err(), "absolute paths forbidden: /etc/passwd");
    assert!(check_scoped_path("a/../../b").is_err());
}

#[test]
fn part_checks_in_order() {
    let parts = vec![PathPart::Prefix("C:".to_string()), PathPart::ParentDir];
    assert_eq!(
        check_scoped_parts("C:..", false, &parts).unwrap_err(),
        "parent directory traversal forbidden: C:.."
    );
    let parts = vec![PathPart::Prefix("C:".to_string()), normal("x")];
    assert_eq!(check_scoped_parts("C:x", false, &parts).unwrap_err(), "drive letter or UNC path forbidden: C:x");
    assert_eq!(check_scoped_parts("C:x", true, &parts).unwrap_err(), "absolute paths forbidden: C:x");
    assert!(check_scoped_parts("x", false, &vec![PathPart::CurDir, normal("x")]).is_ok());
}

#[test]
fn containment_by_components() {
    let root = vec![PathPart::RootDir, normal("home"), normal("p")];
    let inside = vec![PathPart::RootDir, normal("home"), normal("p"), normal("a.rs")];
    let sibling = vec![PathPart::RootDir, normal("home"), normal("p2")];
    assert!(safe_starts_with_for(&inside, &root, false));
    assert!(!safe_starts_with_for(&sibling, &root, false));
    assert!(!safe_starts_with_for(&root, &inside, false));
    assert!(safe_starts_with(&inside, &root));
    let upper = vec![PathPart::RootDir, normal("HOME"), normal("P"), normal("a.rs")];
    assert!(!safe_starts_with_for(&upper, &root, false));
    assert!(safe_starts_with_for(&upper, &root, true));
}

#[test]
fn verbatim_prefix_on_windows() {
    assert_eq!(normalize_canonical_for(r"\\?\C:\work\p", true), r"C:\work\p");
    assert_eq!(normalize_canonical_for(r"\\?\C:\work\p", false), r"\\?\C:\work\p");
    assert_eq!(normalize_canonical_for("/home/p", true), "/home/p");
}

#[test]
fn out_of_bounds_text() {
    assert_eq!(
        out_of_bounds_message("link", "/etc"),
        "path out of bounds: link resolves to /etc, not within project directory"
    );
}
