use yew_json_viewer::collapse::{get_collapsed_state, should_reinitialize, CollapseState};
use yew_json_viewer::parse::parse_strict;
use yew_json_viewer::value::JsonValue;
use yew_json_viewer::JsonViewerOption;

fn nulls(n: usize) -> JsonValue {
    JsonValue::Array((0..n).map(|_| JsonValue::Null).collect())
}

#[test]
fn initial_state_has_one_flag_for_each_child() {
    let option = JsonViewerOption::default();
    for text in ["[]", "{}", "[1]", "[1,[2],{\"a\":3}]", "{\"a\":1,\"b\":[1,2,3]}", "null", "\"s\"", "3"] {
        let v = parse_strict(text).unwrap();
        let state = get_collapsed_state(&v, &option);
        assert_eq!(state.len(), yew_json_viewer::common::value_length(&v));
    }
}

#[test]
fn children_start_expanded_by_default() {
    let v = parse_strict("{\"a\":1,\"b\":[1,2,3]}").unwrap();
    let state = get_collapsed_state(&v, &JsonViewerOption::default());
    assert_eq!(state.flags, vec![false, false]);
}

#[test]
fn collapsable_collapses_every_child() {
    let v = parse_strict("[1,[2],{\"a\":3},[]]").unwrap();
    let option = JsonViewerOption { collapsable: true, ..JsonViewerOption::default() };
    let state = get_collapsed_state(&v, &option);
    assert_eq!(state.flags, vec![true, true, true, true]);
}

#[test]
fn size_rule_collapses_a_large_child() {
    let v = JsonValue::Array(vec![nulls(99), nulls(100), nulls(101), JsonValue::Null]);
    let state = get_collapsed_state(&v, &JsonViewerOption::default());
    assert_eq!(state.flags, vec![false, true, true, false]);
}

#[test]
fn size_rule_uses_the_configured_threshold() {
    let v = JsonValue::Array(vec![nulls(1), nulls(2), nulls(3)]);
    let option = JsonViewerOption { force_default_collapse_length_gte: 2, ..JsonViewerOption::default() };
    assert_eq!(get_collapsed_state(&v, &option).flags, vec![false, true, true]);
}

#[test]
fn threshold_zero_switches_the_size_rule_off() {
    let v = JsonValue::Array(vec![nulls(500), nulls(0)]);
    let option = JsonViewerOption { force_default_collapse_length_gte: 0, ..JsonViewerOption::default() };
    assert_eq!(get_collapsed_state(&v, &option).flags, vec![false, false]);
    assert!(!option.is_force_default_collapse(500));
    assert!(!option.is_force_default_collapse(0));
}

#[test]
fn is_force_default_collapse_compares_with_the_threshold() {
    let option = JsonViewerOption::default();
    assert!(!option.is_force_default_collapse(0));
    assert!(!option.is_force_default_collapse(99));
    assert!(option.is_force_default_collapse(100));
    assert!(option.is_force_default_collapse(150));
}

#[test]
fn toggle_changes_only_its_index() {
    let mut state = CollapseState { flags: vec![false, true, false, true] };
    state.toggle(2);
    assert_eq!(state.flags, vec![false, true, true, true]);
    state.toggle(0);
    assert_eq!(state.flags, vec![true, true, true, true]);
    state.toggle(3);
    assert_eq!(state.flags, vec![true, true, true, false]);
}

#[test]
fn toggle_twice_gives_the_state_back() {
    let start = CollapseState { flags: vec![false, true, false] };
    for index in 0..5 {
        let mut state = start.clone();
        state.toggle(index);
        state.toggle(index);
        assert_eq!(state, start);
    }
}

#[test]
fn toggle_out_of_bounds_does_nothing() {
    let mut state = CollapseState { flags: vec![false, true] };
    state.toggle(2);
    assert_eq!(state.flags, vec![false, true]);
    state.toggle(usize::MAX);
    assert_eq!(state.flags, vec![false, true]);
    let mut empty = CollapseState { flags: vec![] };
    empty.toggle(0);
    assert_eq!(empty.flags, Vec::<bool>::new());
}

#[test]
fn is_collapsed_reads_the_flag_or_the_default() {
    let state = CollapseState { flags: vec![false, true] };
    let closed = JsonViewerOption { collapsable: true, ..JsonViewerOption::default() };
    let open = JsonViewerOption::default();
    assert!(!state.is_collapsed(0, &closed));
    assert!(state.is_collapsed(1, &open));
    assert!(state.is_collapsed(2, &closed));
    assert!(!state.is_collapsed(2, &open));
}

#[test]
fn should_reinitialize_when_the_counts_differ() {
    assert!(!should_reinitialize(0, 0));
    assert!(!should_reinitialize(3, 3));
    assert!(should_reinitialize(3, 4));
    assert!(should_reinitialize(4, 3));
    assert!(should_reinitialize(0, 1));
}

#[test]
fn reconcile_keeps_the_state_while_the_count_stays() {
    let v = parse_strict("[1,2,3]").unwrap();
    let state = CollapseState { flags: vec![true, false, true] };
    let next = state.reconcile(&v, &JsonViewerOption::default());
    assert_eq!(next.flags, vec![true, false, true]);
}

#[test]
fn reconcile_starts_afresh_when_the_count_changes() {
    let option = JsonViewerOption::default();
    let grown = parse_strict("[1,2,3,4]").unwrap();
    let state = CollapseState { flags: vec![true, true, true] };
    let next = state.reconcile(&grown, &option);
    assert_eq!(next.flags, vec![false, false, false, false]);
    assert_eq!(next.len(), 4);
    let shrunk = parse_strict("[1]").unwrap();
    let state = CollapseState { flags: vec![true, true, true] };
    assert_eq!(state.reconcile(&shrunk, &option).flags, vec![false]);
}
