use hassctl::domains::{
    entity_matches_any, entity_matches_domain, filter_entities_by_domains, filter_scenes,
};
use hassctl::records::StateDto;

fn state(id: &str) -> StateDto {
    StateDto {
        attributes: Vec::new(),
        entity_id: id.to_string(),
        last_changed: String::new(),
        state: "on".to_string(),
    }
}

#[test]
fn domain_matches_with_separator() {
    assert!(entity_matches_domain("light.kitchen", "light"));
}

#[test]
fn domain_prefix_without_separator_does_not_match() {
    assert!(!entity_matches_domain("lighting.kitchen", "light"));
}

#[test]
fn domain_equal_to_whole_id_does_not_match() {
    assert!(!entity_matches_domain("light", "light"));
}

#[test]
fn domain_longer_than_id_does_not_match() {
    assert!(!entity_matches_domain("li", "light"));
}

#[test]
fn empty_domain_matches_only_leading_separator() {
    assert!(entity_matches_domain(".odd", ""));
    assert!(!entity_matches_domain("light.kitchen", ""));
}

#[test]
fn matches_any_over_several_domains() {
    let domains = vec!["light".to_string(), "switch".to_string()];
    assert!(entity_matches_any("switch.porch", &domains));
    assert!(!entity_matches_any("lock.front", &domains));
    assert!(!entity_matches_any("light.kitchen", &Vec::new()));
}

#[test]
fn filter_keeps_matching_entities_in_order() {
    let entities = vec![
        state("light.a"),
        state("lock.b"),
        state("switch.c"),
        state("lighting.d"),
    ];
    let domains = vec!["light".to_string(), "switch".to_string()];
    let kept = filter_entities_by_domains(entities, &domains);
    let ids: Vec<String> = kept.iter().map(|e| e.entity_id.clone()).collect();
    assert_eq!(ids, vec!["light.a".to_string(), "switch.c".to_string()]);
}

#[test]
fn scene_filter_keeps_only_scene_domain() {
    let states = vec![state("scene.a"), state("light.b"), state("scene.c")];
    let scenes = filter_scenes(states);
    assert_eq!(scenes.len(), 2);
    assert_eq!(scenes[0].entity_id, "scene.a".to_string());
    assert_eq!(scenes[1].entity_id, "scene.c".to_string());
}
