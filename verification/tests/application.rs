use roxide::application::{
    initial_selector_state, motor_selector_entries, no_motor_id, select_motor, DisplayAction, LinkGuard,
    MotorSelection,
};

fn names() -> Vec<String> {
    vec!["Estes A8".to_string(), "Estes B6".to_string(), "Estes C6".to_string()]
}

#[test]
fn selector_lists_none_then_each_motor() {
    let entries = motor_selector_entries(&names());
    assert_eq!(entries.len(), 4);
    assert_eq!(entries[0].id, "-1");
    assert_eq!(entries[0].label, "None");
    assert_eq!(entries[1].id, "0");
    assert_eq!(entries[1].label, "Estes A8");
    assert_eq!(entries[3].id, "2");
    assert_eq!(entries[3].label, "Estes C6");
}

#[test]
fn selector_of_no_motors_lists_only_none() {
    let entries = motor_selector_entries(&Vec::new());
    assert_eq!(entries.len(), 1);
    assert_eq!(entries[0].id, no_motor_id());
}

#[test]
fn initial_state_shows_stored_motor() {
    let state = initial_selector_state(Some(12));
    assert_eq!(state.active_id, "12");
    assert!(state.enable_graph_button);
    let state = initial_selector_state(None);
    assert_eq!(state.active_id, "-1");
    assert!(!state.enable_graph_button);
}

#[test]
fn selecting_a_motor_entry_redraws_its_graph() {
    assert_eq!(
        select_motor(Some("2")),
        MotorSelection { motor: Some(2), graph_button_sensitive: true, display: DisplayAction::Redraw }
    );
}

#[test]
fn selecting_none_entry_hides_graph() {
    assert_eq!(
        select_motor(Some("-1")),
        MotorSelection { motor: None, graph_button_sensitive: false, display: DisplayAction::Hide }
    );
}

#[test]
fn no_active_entry_keeps_graph() {
    assert_eq!(
        select_motor(None),
        MotorSelection { motor: None, graph_button_sensitive: false, display: DisplayAction::Keep }
    );
}

#[test]
fn every_entry_selects_its_own_motor() {
    let entries = motor_selector_entries(&names());
    for (i, entry) in entries.iter().enumerate() {
        let selection = select_motor(Some(&entry.id));
        if i == 0 {
            assert_eq!(selection.motor, None);
        } else {
            assert_eq!(selection.motor, Some(i - 1));
        }
    }
}

#[test]
fn initial_entry_selects_stored_motor_again() {
    for stored in [None, Some(0), Some(5), Some(usize::MAX)] {
        let state = initial_selector_state(stored);
        assert_eq!(select_motor(Some(&state.active_id)).motor, stored);
    }
}

#[test]
fn linked_inputs_update_each_other_once() {
    let mut guard = LinkGuard::new();
    assert!(guard.begin_update());
    // setting the other input fires its handler while the update is under way
    assert!(!guard.begin_update());
    guard.end_update();
    assert!(guard.begin_update());
    guard.end_update();
}
