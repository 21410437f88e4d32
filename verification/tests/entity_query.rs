use axiom_core::entity_query::{
    apply_limit, entity_passes, filter_entity_indices, find_entity_by_network_id, parse_bool_param, parse_limit_param, EntityFacts,
    EntityFilter,
};

fn facts(tags: &[&str], alive: Option<bool>, script: bool, state: Option<&str>, comps: &[&str]) -> EntityFacts {
    EntityFacts {
        tags: tags.iter().map(|s| s.to_string()).collect(),
        alive,
        has_script: script,
        machine_state: state.map(|s| s.to_string()),
        components: comps.iter().map(|s| s.to_string()).collect(),
        within_radius: true,
    }
}

fn no_filter() -> EntityFilter {
    EntityFilter { tag: None, alive: None, has_script: None, near_x_given: false, entity_state: None, component: None }
}

fn world() -> Vec<EntityFacts> {
    vec![
        facts(&["player"], Some(true), false, None, &["Health"]),
        facts(&["enemy"], Some(true), true, Some("patrol"), &["Health", "AiBehavior"]),
        facts(&["enemy", "boss"], Some(false), true, Some("rage"), &["Health"]),
        facts(&[], None, false, None, &[]),
    ]
}

#[test]
fn no_filters_list_everything() {
    assert_eq!(filter_entity_indices(&world(), &no_filter()), vec![0, 1, 2, 3]);
    let mut ids = filter_entity_indices(&world(), &no_filter());
    apply_limit(&mut ids, Some(2));
    assert_eq!(ids, vec![0, 1]);
}

#[test]
fn filters_combine() {
    let f = EntityFilter { tag: Some("enemy".into()), ..no_filter() };
    assert_eq!(filter_entity_indices(&world(), &f), vec![1, 2]);
    let f = EntityFilter { tag: Some("enemy".into()), alive: Some(true), ..no_filter() };
    assert_eq!(filter_entity_indices(&world(), &f), vec![1]);
    let f = EntityFilter { has_script: Some(false), ..no_filter() };
    assert_eq!(filter_entity_indices(&world(), &f), vec![0, 3]);
    let f = EntityFilter { entity_state: Some("rage".into()), ..no_filter() };
    assert_eq!(filter_entity_indices(&world(), &f), vec![2]);
    let f = EntityFilter { component: Some("AiBehavior".into()), ..no_filter() };
    assert_eq!(filter_entity_indices(&world(), &f), vec![1]);
    // An alive filter never matches an entity whose liveness is unknown.
    let f = EntityFilter { alive: Some(false), ..no_filter() };
    assert_eq!(filter_entity_indices(&world(), &f), vec![2]);
}

#[test]
fn spatial_query_uses_radius_outcome() {
    let mut w = world();
    w[0].within_radius = false;
    w[3].within_radius = false;
    let f = EntityFilter { near_x_given: true, ..no_filter() };
    assert_eq!(filter_entity_indices(&w, &f), vec![1, 2]);
    assert!(!entity_passes(&w[0], &no_filter()));
}

#[test]
fn query_parameters_parse_like_std() {
    for s in ["true", "false", "True", "1", "", " true"] {
        assert_eq!(parse_bool_param(Some(s)), s.parse::<bool>().ok());
    }
    assert_eq!(parse_bool_param(None), None);
    for s in ["10", "+3", "0", "18446744073709551615", "18446744073709551616", "-1", "x"] {
        assert_eq!(parse_limit_param(Some(s)), s.parse::<usize>().ok());
    }
    let mut v = vec![1, 2, 3];
    apply_limit(&mut v, Some(10));
    assert_eq!(v, vec![1, 2, 3]);
    apply_limit(&mut v, None);
    assert_eq!(v, vec![1, 2, 3]);
    apply_limit(&mut v, Some(0));
    assert!(v.is_empty());
}

#[test]
fn entities_are_found_by_network_id() {
    let ids = vec![7u64, 3, 9, 3];
    assert_eq!(find_entity_by_network_id(&ids, 3), Some(1));
    assert_eq!(find_entity_by_network_id(&ids, 9), Some(2));
    assert_eq!(find_entity_by_network_id(&ids, 4), None);
    assert_eq!(find_entity_by_network_id(&vec![], 1), None);
}
