use shuji::workflow::chain::ChainEngine;

#[test]
fn test_greenfield_full_chain() {
    let chain = ChainEngine::get_chain("greenfield_full").unwrap();
    assert_eq!(chain.steps.len(), 5);
    assert_eq!(chain.steps[0].role, "吏部");
    assert_eq!(chain.steps[1].role, "兵部");
    assert_eq!(chain.steps[2].role, "工部");
    assert_eq!(chain.steps[3].role, "刑部");
    assert_eq!(chain.steps[4].role, "礼部");
}

#[test]
fn test_brownfield_patch_chain() {
    let chain = ChainEngine::get_chain("brownfield_patch").unwrap();
    assert_eq!(chain.steps.len(), 2);
    assert_eq!(chain.steps[0].role, "工部");
    assert_eq!(chain.steps[1].role, "刑部");
}

#[test]
fn test_unknown_chain() {
    assert!(ChainEngine::get_chain("nonexistent").is_none());
}

#[test]
fn test_build_injection_greenfield() {
    let inj = ChainEngine::build_injection("greenfield_full").unwrap();
    assert!(inj.contains("Execution Chain"));
    assert!(inj.contains("吏部"));
    assert!(inj.contains("礼部"));
    assert!(inj.contains("5."));
}

#[test]
fn test_build_injection_brownfield() {
    let inj = ChainEngine::build_injection("brownfield_patch").unwrap();
    assert!(inj.contains("Execution Chain"));
    assert!(inj.contains("工部"));
    assert!(inj.contains("刑部"));
    assert!(!inj.contains("吏部"));
}

#[test]
fn unknown_chain_has_no_injection() {
    assert!(ChainEngine::build_injection("nonexistent").is_none());
}
