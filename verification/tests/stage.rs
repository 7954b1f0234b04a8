use shuji::workflow::stage::{StageTracker, WorkflowStage};

fn stage(id: &str, actor: &str, description: &str, requires_approval: bool) -> WorkflowStage {
    WorkflowStage {
        id: id.to_string(),
        actor: actor.to_string(),
        skill: None,
        output_doc: None,
        description: description.to_string(),
        requires_approval,
    }
}

fn sample_stages() -> Vec<WorkflowStage> {
    vec![
        stage("init", "内阁", "任务记录", false),
        stage("design", "中书令", "方案设计", true),
        stage("execution", "尚书令", "执行", false),
    ]
}

#[test]
fn test_starts_at_index_0() {
    let t = StageTracker::new(sample_stages());
    assert_eq!(t.current_index, 0);
    assert_eq!(t.current().unwrap().id, "init");
}

#[test]
fn test_advance_forward() {
    let mut t = StageTracker::new(sample_stages());
    assert!(t.advance());
    assert_eq!(t.current_index, 1);
    assert_eq!(t.current().unwrap().id, "design");
}

#[test]
fn test_advance_past_end() {
    let mut t = StageTracker::new(sample_stages());
    t.advance();
    t.advance();
    assert!(!t.advance());
    assert_eq!(t.current_index, 2);
}

#[test]
fn test_check_route_allows_current_actor() {
    let t = StageTracker::new(sample_stages());
    assert!(t.check_route_to("内阁").is_ok());
}

#[test]
fn test_check_route_allows_next_actor() {
    let t = StageTracker::new(sample_stages());
    assert!(t.check_route_to("中书令").is_ok());
}

#[test]
fn test_check_route_blocks_wrong_actor() {
    let t = StageTracker::new(sample_stages());
    assert!(t.check_route_to("礼部").is_err());
}

#[test]
fn test_build_injection_contains_design_marker() {
    let mut t = StageTracker::new(sample_stages());
    t.advance();
    let inj = t.build_injection();
    assert!(inj.contains("✓"), "stage 0 (init) should be marked done: {}", inj);
    assert!(inj.contains("→"), "stage 1 (design) should be current: {}", inj);
    assert!(inj.contains("[需朱批]"), "design requires approval: {}", inj);
}

#[test]
fn test_default_for_greenfield() {
    let t = StageTracker::default_for_profile("greenfield_standard");
    assert!(t.stages.len() >= 5);
    assert_eq!(t.stages[0].actor, "内阁");
}

#[test]
fn test_default_for_bugfix() {
    let t = StageTracker::default_for_profile("bugfix");
    assert_eq!(t.stages.len(), 3);
}

#[test]
fn route_past_the_last_stage_is_refused() {
    let mut t = StageTracker::new(sample_stages());
    t.advance();
    t.advance();
    assert!(t.check_route_to("尚书令").is_ok());
    assert!(t.check_route_to("内阁").is_err());
}
