use modbus_bridge::{GlobalSensorState, SensorState};

fn registry_with(tag: &str) -> GlobalSensorState {
    let mut g = GlobalSensorState::new();
    g.add_sensor(tag.to_string(), SensorState::default());
    g
}

#[test]
fn default_sensor_state_is_quiet() {
    let s = SensorState::default();
    assert!(!s.triggered);
    assert!(!s.last_triggered);
    assert!(!s.changed);
}

#[test]
fn repeated_identical_set_triggered_clears_changed() {
    let mut g = registry_with("s1");
    g.set_triggered("s1", true);
    assert!(g.has_changed("s1"));
    g.set_triggered("s1", true);
    // the second identical call is idempotent on the edge detector
    assert!(!g.has_changed("s1"));
}

#[test]
fn alternating_set_triggered_keeps_changed() {
    let mut g = registry_with("s1");
    g.set_triggered("s1", true);
    assert!(g.has_changed("s1"));
    g.set_triggered("s1", false);
    assert!(g.has_changed("s1"));
    g.set_triggered("s1", true);
    assert!(g.has_changed("s1"));
}

#[test]
fn consume_changed_reports_a_transition_once() {
    let mut g = registry_with("s1");
    g.set_triggered("s1", true);
    assert!(g.consume_changed("s1"));
    // no set_triggered in between: the second consume observes nothing
    assert!(!g.consume_changed("s1"));
    g.set_triggered("s1", false);
    assert!(g.consume_changed("s1"));
    assert!(!g.consume_changed("s1"));
}

#[test]
fn set_triggered_on_unknown_tag_is_ignored() {
    let mut g = registry_with("s1");
    g.set_triggered("nobody", true);
    assert!(!g.is_triggered("nobody"));
    assert!(!g.has_changed("nobody"));
    assert!(!g.consume_changed("nobody"));
    assert_eq!(g.get_state("nobody"), None);
}

#[test]
fn set_triggered_shifts_history() {
    let mut g = registry_with("s1");
    g.set_triggered("s1", true);
    let st = g.get_state("s1").unwrap();
    assert_eq!(
        st,
        SensorState { triggered: true, last_triggered: false, changed: true }
    );
    g.set_triggered("s1", false);
    let st = g.get_state("s1").unwrap();
    assert_eq!(
        st,
        SensorState { triggered: false, last_triggered: true, changed: true }
    );
}

#[test]
fn clear_changed_resets_only_the_edge() {
    let mut g = registry_with("s1");
    g.set_triggered("s1", true);
    g.clear_changed("s1");
    let st = g.get_state("s1").unwrap();
    assert_eq!(
        st,
        SensorState { triggered: true, last_triggered: false, changed: false }
    );
}

#[test]
fn get_changed_sensors_lists_each_changed_tag_once() {
    let mut g = GlobalSensorState::new();
    g.add_sensor("a".to_string(), SensorState::default());
    g.add_sensor("b".to_string(), SensorState::default());
    g.add_sensor("c".to_string(), SensorState::default());
    g.set_triggered("a", true);
    g.set_triggered("c", true);
    let mut changed = g.get_changed_sensors();
    changed.sort();
    assert_eq!(changed, vec!["a".to_string(), "c".to_string()]);
}

#[test]
fn get_state_mut_writes_back_into_the_registry() {
    let mut g = registry_with("s1");
    assert!(g.get_state_mut("missing").is_none());
    {
        let st = g.get_state_mut("s1").unwrap();
        st.triggered = true;
        st.changed = true;
    }
    assert!(g.is_triggered("s1"));
    assert!(g.has_changed("s1"));
}

#[test]
fn add_sensor_replaces_an_existing_record() {
    let mut g = registry_with("s1");
    g.set_triggered("s1", true);
    g.add_sensor("s1".to_string(), SensorState::default());
    assert!(!g.is_triggered("s1"));
    assert!(!g.has_changed("s1"));
}
