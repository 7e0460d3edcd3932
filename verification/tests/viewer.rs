use yew_json_viewer::interaction::Decorator;
use yew_json_viewer::parse::parse_strict;
use yew_json_viewer::render::{ContainerKind, Content};
use yew_json_viewer::tree::TreeState;
use yew_json_viewer::value::JsonValue;
use yew_json_viewer::{
    json_view_render, mount_viewer, JsonViewRenderOption, JsonViewer, JsonViewerOption, MountError,
};

fn none(_: &JsonValue) -> Vec<Decorator> {
    Vec::new()
}

fn no_additional() -> Option<fn(&JsonValue) -> Vec<Decorator>> {
    None
}

fn flags(state: &TreeState) -> Vec<bool> {
    state.collapsed.flags.clone()
}

#[test]
fn standard_configuration() {
    let option = JsonViewerOption::default();
    assert!(!option.collapsable);
    assert!(!option.root_collapsable);
    assert_eq!(option.force_default_collapse_length_gte, 100);
    assert_eq!(option.dialog_index, None);
    assert!(!option.use_json5);
}

#[test]
fn configurations_compare_by_what_lays_a_tree_out() {
    let a = JsonViewerOption::default();
    assert!(a == JsonViewerOption { use_json5: true, ..a });
    assert!(a != JsonViewerOption { collapsable: true, ..a });
    assert!(a != JsonViewerOption { root_collapsable: true, ..a });
    assert!(a != JsonViewerOption { force_default_collapse_length_gte: 5, ..a });
    assert!(a != JsonViewerOption { dialog_index: Some(0), ..a });
}

#[test]
fn unset_settings_keep_the_standard_values() {
    let option = JsonViewRenderOption::new().to_viewer_option();
    assert!(!option.collapsable);
    assert!(!option.root_collapsable);
    assert_eq!(option.force_default_collapse_length_gte, 100);
    assert!(!option.use_json5);
    assert_eq!(option.dialog_index, None);
}

#[test]
fn set_settings_override_each_on_its_own() {
    let mut settings = JsonViewRenderOption::new();
    settings.collapsable = Some(true);
    let option = settings.to_viewer_option();
    assert!(option.collapsable && !option.root_collapsable);
    let mut settings = JsonViewRenderOption::new();
    settings.root_collapsable = Some(true);
    settings.force_default_collapse_length_gte = Some(0);
    settings.use_json5 = Some(true);
    let option = settings.to_viewer_option();
    assert!(!option.collapsable && option.root_collapsable && option.use_json5);
    assert_eq!(option.force_default_collapse_length_gte, 0);
}

#[test]
fn mounting_parses_the_text_and_builds_the_viewer() {
    let viewer = json_view_render("root", "{\"a\":1,\"b\":[1,2,3]}", JsonViewRenderOption::new(), true).unwrap();
    assert_eq!(viewer.value, parse_strict("{\"a\":1,\"b\":[1,2,3]}").unwrap());
    assert!(!viewer.root_collapsed);
    assert_eq!(flags(&viewer.state), vec![false, false]);
    assert_eq!(viewer.state.children.len(), 2);
    assert_eq!(flags(&viewer.state.children[1]), vec![false, false, false]);
}

#[test]
fn mounting_follows_the_grammar_asked_for() {
    let mut relaxed = JsonViewRenderOption::new();
    relaxed.use_json5 = Some(true);
    let viewer = json_view_render("root", "{a: [1,],}", relaxed, true).unwrap();
    assert_eq!(viewer.value, parse_strict("{\"a\":[1]}").unwrap());
    assert!(viewer.option.use_json5);
    let mut strict = JsonViewRenderOption::new();
    strict.use_json5 = Some(false);
    let error = json_view_render("root", "{a: [1,],}", strict, true).unwrap_err();
    assert_eq!(error, MountError::Parse("{a: [1,],}".to_string()));
}

#[test]
fn a_text_that_does_not_parse_is_an_error() {
    let error = json_view_render("root", "{oops", JsonViewRenderOption::new(), true).unwrap_err();
    assert_eq!(error, MountError::Parse("{oops".to_string()));
    assert_eq!(error.message(), "JSON parse error: {oops");
    let error = json_view_render("root", "{oops", JsonViewRenderOption::new(), false).unwrap_err();
    assert_eq!(error, MountError::Parse("{oops".to_string()));
}

#[test]
fn a_missing_element_is_an_error() {
    let error = json_view_render("viewer", "[1]", JsonViewRenderOption::new(), false).unwrap_err();
    assert_eq!(error, MountError::MissingAnchor("viewer".to_string()));
    assert_eq!(error.message(), "element(viewer) not found");
}

#[test]
fn toggling_the_root_changes_the_root_flag_only() {
    let mut viewer = JsonViewer::new(parse_strict("[[1],[2]]").unwrap());
    let before = flags(&viewer.state);
    viewer.toggle_root();
    assert!(viewer.root_collapsed);
    assert_eq!(flags(&viewer.state), before);
    let tree = viewer.render(&none, &no_additional());
    assert_eq!(tree.root.content, Content::Placeholder(ContainerKind::Array, "2 items".to_string()));
    viewer.toggle_root();
    assert!(!viewer.root_collapsed);
    assert_eq!(viewer.render(&none, &no_additional()).root.content, Content::Open(ContainerKind::Array));
}

#[test]
fn toggling_a_child_collapses_that_child_only() {
    let mut viewer = JsonViewer::new(parse_strict("{\"a\":[1,[2,3]],\"b\":[4]}").unwrap());
    viewer.toggle(&vec![0]);
    assert_eq!(flags(&viewer.state), vec![true, false]);
    assert!(!viewer.root_collapsed);
    assert_eq!(flags(&viewer.state.children[0]), vec![false, false]);
    assert_eq!(viewer.render(&none, &no_additional()).root.text(), "{\"a\": [2 items],\"b\": [4]}");
    viewer.toggle(&vec![0]);
    viewer.toggle(&vec![0, 1]);
    assert_eq!(flags(&viewer.state), vec![false, false]);
    assert_eq!(flags(&viewer.state.children[0]), vec![false, true]);
    assert_eq!(flags(&viewer.state.children[1]), vec![false]);
    assert_eq!(viewer.render(&none, &no_additional()).root.text(), "{\"a\": [1,[2 items]],\"b\": [4]}");
}

#[test]
fn toggling_twice_gives_the_tree_state_back() {
    let start = JsonViewer::new(parse_strict("{\"a\":[1,[2,3]],\"b\":[4]}").unwrap());
    for path in [vec![], vec![0], vec![1], vec![0, 1], vec![0, 1, 0], vec![5], vec![0, 9], vec![1, 0, 0]] {
        let mut viewer = JsonViewer::new(start.value.clone());
        viewer.toggle(&path);
        viewer.toggle(&path);
        assert_eq!(viewer.state, start.state);
        assert_eq!(viewer.root_collapsed, start.root_collapsed);
    }
}

#[test]
fn a_stale_path_changes_nothing() {
    let start = JsonViewer::new(parse_strict("[[1],2]").unwrap());
    for path in [vec![], vec![2], vec![7, 0], vec![0, 1], vec![1, 0], vec![0, 0, 0]] {
        let mut viewer = JsonViewer::new(start.value.clone());
        viewer.toggle(&path);
        assert_eq!(viewer.state, start.state);
    }
}

#[test]
fn the_tree_state_has_one_flag_for_each_child_everywhere() {
    fn check(value: &JsonValue, state: &TreeState) {
        let children: Vec<&JsonValue> = match value {
            JsonValue::Array(items) => items.iter().collect(),
            JsonValue::Object(entries) => entries.iter().map(|e| &e.value).collect(),
            _ => Vec::new(),
        };
        assert_eq!(state.collapsed.len(), children.len());
        assert_eq!(state.children.len(), children.len());
        for (child, below) in children.iter().zip(state.children.iter()) {
            check(child, below);
        }
    }
    let first = parse_strict("{\"a\":[1,[2,3]],\"b\":{\"c\":[]},\"d\":null}").unwrap();
    let mut viewer = JsonViewer::new(first.clone());
    check(&viewer.value, &viewer.state);
    viewer.toggle(&vec![0, 1]);
    check(&viewer.value, &viewer.state);
    let second = parse_strict("{\"a\":[1,[2,3,4]],\"b\":[1,2]}").unwrap();
    viewer.set_value(second);
    check(&viewer.value, &viewer.state);
}

#[test]
fn a_new_value_keeps_flags_where_the_shape_stays() {
    let mut viewer = JsonViewer::new(parse_strict("[[1,2],[3]]").unwrap());
    viewer.toggle(&vec![0]);
    viewer.toggle(&vec![1, 0]);
    viewer.set_value(parse_strict("[[5,6],[7]]").unwrap());
    assert_eq!(flags(&viewer.state), vec![true, false]);
    assert_eq!(flags(&viewer.state.children[1]), vec![true]);
}

#[test]
fn a_new_value_resets_flags_where_the_shape_changes() {
    let mut viewer = JsonViewer::new(parse_strict("[[1,2],[3]]").unwrap());
    viewer.toggle(&vec![0]);
    viewer.toggle(&vec![0, 1]);
    viewer.toggle(&vec![1, 0]);
    viewer.set_value(parse_strict("[[1,2],[3,4]]").unwrap());
    assert_eq!(flags(&viewer.state), vec![true, false]);
    assert_eq!(flags(&viewer.state.children[0]), vec![false, true]);
    assert_eq!(flags(&viewer.state.children[1]), vec![false, false]);
    viewer.set_value(parse_strict("[[1,2],[3,4],5]").unwrap());
    assert_eq!(flags(&viewer.state), vec![false, false, false]);
    assert_eq!(flags(&viewer.state.children[0]), vec![false, false]);
}

#[test]
fn mount_viewer_takes_the_parse_result() {
    let settings = JsonViewRenderOption::new();
    let error = mount_viewer("root", "{oops", None, settings, true).unwrap_err();
    assert_eq!(error, MountError::Parse("{oops".to_string()));
    let error = mount_viewer("root", "{oops", None, settings, false).unwrap_err();
    assert_eq!(error, MountError::Parse("{oops".to_string()));
    let parsed = parse_strict("[[1],2]").unwrap();
    let error = mount_viewer("root", "[[1],2]", Some(parsed.clone()), settings, false).unwrap_err();
    assert_eq!(error, MountError::MissingAnchor("root".to_string()));
    let mut settings = JsonViewRenderOption::new();
    settings.collapsable = Some(true);
    settings.root_collapsable = Some(true);
    let viewer = mount_viewer("root", "[[1],2]", Some(parsed.clone()), settings, true).unwrap();
    assert_eq!(viewer.value, parsed);
    assert!(viewer.option.collapsable);
    assert!(viewer.root_collapsed);
    assert_eq!(flags(&viewer.state), vec![true, true]);
    assert_eq!(flags(&viewer.state.children[0]), vec![true]);
}
