use drag_value::session::MonoState;
use drag_value::total_order::ClampRange;

fn busy() -> MonoState {
    MonoState {
        last_dragged_id: Some(7),
        last_dragged_value: Some(2.5_f64.to_bits()),
        edit_string: Some(String::from("2.")),
    }
}

#[test]
fn a_fresh_memory_is_empty() {
    for state in [MonoState::new(), MonoState::default()] {
        assert_eq!(state.last_dragged_id, None);
        assert_eq!(state.last_dragged_value, None);
        assert_eq!(state.edit_string, None);
    }
}

#[test]
fn pointer_press_clears_the_drag() {
    let mut state = busy();
    state.end_frame(true, false);
    assert_eq!(state.last_dragged_id, None);
    assert_eq!(state.last_dragged_value, None);
    assert_eq!(state.edit_string, Some(String::from("2.")));
}

#[test]
fn pointer_release_clears_the_drag() {
    let mut state = busy();
    state.end_frame(false, true);
    assert_eq!(state.last_dragged_id, None);
    assert_eq!(state.last_dragged_value, None);
    let mut state = busy();
    state.end_frame(true, true);
    assert_eq!(state.last_dragged_id, None);
    assert_eq!(state.last_dragged_value, None);
}

#[test]
fn a_frame_without_pointer_edge_keeps_the_drag() {
    let mut state = busy();
    state.end_frame(false, false);
    assert_eq!(state.last_dragged_id, Some(7));
    assert_eq!(state.last_dragged_value, Some(2.5_f64.to_bits()));
    assert_eq!(state.edit_string, Some(String::from("2.")));
}

#[test]
fn edit_string_is_a_single_slot() {
    let mut state = MonoState::new();
    assert_eq!(state.take_edit_string(), None);
    state.store_edit_string(Some(String::from("12")));
    assert_eq!(state.take_edit_string(), Some(String::from("12")));
    assert_eq!(state.take_edit_string(), None);
    state.store_edit_string(Some(String::from("a")));
    state.store_edit_string(None);
    assert_eq!(state.edit_string, None);
}

#[test]
fn baseline_is_the_stored_value_of_the_same_widget_only() {
    let state = busy();
    assert_eq!(state.drag_baseline(7, 3.0_f64.to_bits()), 2.5_f64.to_bits());
    assert_eq!(state.drag_baseline(8, 3.0_f64.to_bits()), 3.0_f64.to_bits());
    let fresh = MonoState::new();
    assert_eq!(fresh.drag_baseline(7, 3.0_f64.to_bits()), 3.0_f64.to_bits());
    let half = MonoState { last_dragged_id: Some(7), last_dragged_value: None, edit_string: None };
    assert_eq!(half.drag_baseline(7, 3.0_f64.to_bits()), 3.0_f64.to_bits());
}

#[test]
fn commit_drag_keeps_the_unrounded_value() {
    let mut state = MonoState::new();
    let range = ClampRange { start: 0.0_f64.to_bits(), end: 10.0_f64.to_bits() };
    let committed = state.commit_drag(4, 12.34_f64.to_bits(), 12.0_f64.to_bits(), range);
    assert_eq!(committed, 10.0_f64.to_bits());
    assert_eq!(state.last_dragged_id, Some(4));
    assert_eq!(state.last_dragged_value, Some(12.34_f64.to_bits()));
    assert_eq!(state.drag_baseline(4, committed), 12.34_f64.to_bits());
    let committed = state.commit_drag(4, 5.26_f64.to_bits(), 5.3_f64.to_bits(), range);
    assert_eq!(committed, 5.3_f64.to_bits());
    assert_eq!(state.last_dragged_value, Some(5.26_f64.to_bits()));
}
