use lib::agents::{first_agent_index, AgentTable};

fn roster() -> Vec<String> {
    vec!["spec-1".to_string(), "spec-2".to_string(), "gen-1".to_string(), "gen-2".to_string()]
}

#[test]
fn finds_agent_by_id() {
    let ids = roster();
    assert_eq!(first_agent_index(&ids, &"spec-1".to_string()), Some(0));
    assert_eq!(first_agent_index(&ids, &"gen-1".to_string()), Some(2));
    assert_eq!(first_agent_index(&ids, &"gen-2".to_string()), Some(3));
}

#[test]
fn missing_agent_is_none() {
    assert_eq!(first_agent_index(&roster(), &"nobody".to_string()), None);
    assert_eq!(first_agent_index(&Vec::new(), &"spec-1".to_string()), None);
}

#[test]
fn first_of_duplicate_ids_wins() {
    let ids = vec!["a".to_string(), "b".to_string(), "a".to_string()];
    assert_eq!(first_agent_index(&ids, &"a".to_string()), Some(0));
}

#[test]
fn table_reads_back_what_was_set() {
    let mut t: AgentTable<f32> = AgentTable::new();
    t.insert("spec-1".to_string(), 0.9);
    t.insert("spec-2".to_string(), 0.85);
    t.insert("gen-1".to_string(), 0.5);
    t.insert("gen-2".to_string(), 0.5);
    assert_eq!(t.get(&"spec-1".to_string()), Some(&0.9));
    assert_eq!(t.get(&"spec-2".to_string()), Some(&0.85));
    assert_eq!(t.get(&"gen-2".to_string()), Some(&0.5));
    assert_eq!(t.get(&"bad-spec".to_string()), None);
}

#[test]
fn table_later_value_replaces_earlier() {
    let mut t: AgentTable<u32> = AgentTable::new();
    t.insert("a".to_string(), 1);
    t.insert("b".to_string(), 2);
    t.insert("a".to_string(), 3);
    assert_eq!(t.get(&"a".to_string()), Some(&3));
    assert_eq!(t.get(&"b".to_string()), Some(&2));
}

#[test]
fn empty_table_holds_nothing() {
    let t: AgentTable<f32> = AgentTable::new();
    assert_eq!(t.get(&"a".to_string()), None);
}
