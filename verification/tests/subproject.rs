use shuji::tool::command_ops::ProjectCandidate;
use shuji::tool::subproject::{
    common_subdir_list, escaping_subproject_message, missing_subproject_message, named_subproject,
    order_candidates,
};

fn cand(rel: &str, ty: &str) -> ProjectCandidate {
    ProjectCandidate { relative: rel.to_string(), project_type: ty.to_string() }
}

#[test]
fn candidates_shallowest_first_and_stable() {
    let found = vec![
        cand(".", "rust"),
        cand("shuji-app", "node"),
        cand("shuji-app/src-tauri", "rust"),
        cand("frontend", "node"),
    ];
    let ordered: Vec<String> = order_candidates(found).into_iter().map(|c| c.relative).collect();
    assert_eq!(ordered, vec![".", "shuji-app", "frontend", "shuji-app/src-tauri"]);
}

#[test]
fn at_most_six_candidates() {
    let found: Vec<ProjectCandidate> = (0..9).map(|i| cand(&format!("d{}", i), "node")).collect();
    let ordered = order_candidates(found);
    assert_eq!(ordered.len(), 6);
    assert_eq!(ordered[5].relative, "d5");
}

#[test]
fn subproject_names_and_messages() {
    assert_eq!(named_subproject(None), None);
    assert_eq!(named_subproject(Some("")), None);
    assert_eq!(named_subproject(Some("web")), Some("web"));
    assert_eq!(
        missing_subproject_message("web", "No such file"),
        "subproject 'web' does not exist: No such file"
    );
    assert_eq!(escaping_subproject_message("../x"), "subproject '../x' escapes the project root directory");
    assert_eq!(common_subdir_list().len(), 10);
    assert_eq!(common_subdir_list()[1], "shuji-app/src-tauri");
}
