use lib::dcs::{count_verified, plan_cycle, DCSTask};
use lib::pipeline::{is_specialist_output_tile, specialist_mask, TileTag};

fn task(id: &str, desc: &str, agent: &str, spec: bool) -> DCSTask {
    DCSTask { id: id.to_string(), description: desc.to_string(), assigned_to: agent.to_string(), is_specialist_work: spec }
}

fn roster() -> Vec<String> {
    vec!["spec-1".to_string(), "spec-2".to_string(), "gen-1".to_string(), "gen-2".to_string()]
}

fn default_tasks() -> Vec<DCSTask> {
    vec![
        task("t1", "specialist task 1", "spec-1", true),
        task("t2", "specialist task 2", "spec-2", true),
        task("t3", "generalist task 1", "gen-1", false),
        task("t4", "generalist task 2", "gen-2", false),
    ]
}

#[test]
fn plan_places_each_task() {
    let plan = plan_cycle(&roster(), default_tasks());
    assert_eq!(plan.total_tasks, 4);
    assert_eq!(plan.specialist_count, 2);
    assert_eq!(plan.assignments.len(), 4);
    for (i, a) in plan.assignments.iter().enumerate() {
        assert_eq!(a.agent_index, Some(i));
        assert_eq!(a.task_id, format!("t{}", i + 1));
        assert!(a.tile_id.starts_with(&format!("tile-t{}-", i + 1)));
    }
    assert_eq!(plan.assignments[0].content, "specialist task 1");
    assert_eq!(plan.assignments[2].agent_id, "gen-1");
    assert!(plan.assignments[1].is_specialist);
    assert!(!plan.assignments[3].is_specialist);
}

#[test]
fn plan_task_for_unknown_agent() {
    let plan = plan_cycle(&roster(), vec![task("t9", "orphan", "nobody", false)]);
    assert_eq!(plan.assignments[0].agent_index, None);
    assert_eq!(plan.specialist_count, 0);
}

#[test]
fn plan_of_no_tasks() {
    let plan = plan_cycle(&Vec::new(), Vec::new());
    assert_eq!(plan.total_tasks, 0);
    assert_eq!(plan.specialist_count, 0);
    assert!(plan.assignments.is_empty());
}

#[test]
fn verified_flags_counted() {
    assert_eq!(count_verified(&vec![true, true, false, false]), 2);
    assert_eq!(count_verified(&vec![false]), 0);
    assert_eq!(count_verified(&Vec::new()), 0);
}

fn tag(id: &str, spec: bool) -> TileTag {
    TileTag { tile_id: id.to_string(), is_specialist: spec }
}

#[test]
fn mask_follows_specialist_outputs() {
    let outputs = vec![tag("tile-t1-1", true), tag("tile-t2-2", true), tag("tile-t3-3", false), tag("tile-t4-4", false)];
    let ids: Vec<String> = outputs.iter().map(|o| o.tile_id.clone()).collect();
    assert_eq!(specialist_mask(&outputs, &ids), vec![true, true, false, false]);
}

#[test]
fn mask_unknown_tile_is_generalist() {
    let outputs = vec![tag("tile-t1-1", true)];
    assert!(!is_specialist_output_tile(&outputs, &"tile-t9-9".to_string()));
    assert_eq!(specialist_mask(&outputs, &Vec::new()), Vec::<bool>::new());
}

#[test]
fn mask_shared_tile_goes_specialist() {
    let outputs = vec![tag("tile-t1-5", false), tag("tile-t1-5", true)];
    let ids = vec!["tile-t1-5".to_string(), "tile-t1-5".to_string()];
    assert_eq!(specialist_mask(&outputs, &ids), vec![true, true]);
}
