use yew_json_viewer::interaction::{
    button_control_dialog_json_viewer, default_interaction, embedded_interaction, host_request,
    link_interaction, long_text_viewer, string_interaction, ButtonControlDialogJsonViewerProps,
    Decorator, DialogContent, HostReply,
};
use yew_json_viewer::parse::{parse_strict, ParsedUrl};
use yew_json_viewer::value::JsonValue;
use yew_json_viewer::JsonViewerOption;

fn string(text: &str) -> JsonValue {
    JsonValue::String(text.to_string())
}

fn long_text(n: usize) -> String {
    "word ".chars().cycle().take(n).collect()
}

#[test]
fn a_web_address_gets_a_link() {
    let out = default_interaction(&string("https://example.com"), HostReply::Absent, false);
    assert_eq!(out, vec![Decorator::OpenLink("https://example.com/".to_string())]);
}

#[test]
fn each_allowed_scheme_gets_a_link() {
    for text in ["http://a.example/x", "https://a.example/x", "ftp://a.example/x", "ftps://a.example/x"] {
        let out = string_interaction(text, false);
        assert_eq!(out, vec![Decorator::OpenLink(text.to_string())]);
    }
}

#[test]
fn a_link_wins_over_the_long_text_rule() {
    let text = format!("https://example.com/{}", "a".repeat(200));
    let out = string_interaction(&text, false);
    assert_eq!(out, vec![Decorator::OpenLink(text.clone())]);
}

#[test]
fn another_scheme_gets_no_link() {
    assert_eq!(string_interaction("mailto:someone@example.com", false), vec![]);
    assert_eq!(string_interaction("file:///etc/hosts", false), vec![]);
    let long = format!("mailto:{}@example.com", "a".repeat(120));
    assert_eq!(string_interaction(&long, false), vec![Decorator::TextDialog(long.clone())]);
}

#[test]
fn link_interaction_decides_by_the_scheme() {
    let url = |scheme: &str| ParsedUrl { scheme: scheme.to_string(), href: format!("{}://h/", scheme) };
    assert_eq!(link_interaction(Some(url("http"))), Some(Decorator::OpenLink("http://h/".to_string())));
    assert_eq!(link_interaction(Some(url("ftps"))), Some(Decorator::OpenLink("ftps://h/".to_string())));
    assert_eq!(link_interaction(Some(url("ws"))), None);
    assert_eq!(link_interaction(Some(url("httpx"))), None);
    assert_eq!(link_interaction(Some(url(""))), None);
    assert_eq!(link_interaction(None), None);
}

#[test]
fn a_string_of_json_gets_a_nested_viewer() {
    let out = default_interaction(&string("{\"x\":1}"), HostReply::Absent, false);
    assert_eq!(out, vec![Decorator::JsonDialog(parse_strict("{\"x\":1}").unwrap())]);
    let out = default_interaction(&string("[1,2]"), HostReply::Absent, false);
    assert_eq!(out, vec![Decorator::JsonDialog(parse_strict("[1,2]").unwrap())]);
    let out = default_interaction(&string("\"inner\""), HostReply::Absent, false);
    assert_eq!(out, vec![Decorator::JsonDialog(string("inner"))]);
}

#[test]
fn a_string_of_a_json_scalar_gets_nothing() {
    assert_eq!(string_interaction("12", false), vec![]);
    assert_eq!(string_interaction("true", false), vec![]);
    assert_eq!(string_interaction("null", false), vec![]);
    let digits = "1".repeat(150);
    assert_eq!(string_interaction(&digits, false), vec![]);
}

#[test]
fn the_grammar_follows_the_flag() {
    assert_eq!(string_interaction("{x:1}", false), vec![]);
    assert_eq!(
        string_interaction("{x:1}", true),
        vec![Decorator::JsonDialog(parse_strict("{\"x\":1}").unwrap())]
    );
}

#[test]
fn a_long_text_gets_a_text_viewer() {
    let text = long_text(150);
    let out = default_interaction(&string(&text), HostReply::Absent, false);
    assert_eq!(out, vec![Decorator::TextDialog(text.clone())]);
}

#[test]
fn a_short_text_gets_nothing() {
    let out = default_interaction(&string(&long_text(50)), HostReply::Absent, false);
    assert_eq!(out, vec![]);
}

#[test]
fn the_long_text_limit_is_a_hundred_characters() {
    assert_eq!(string_interaction(&long_text(100), false), vec![]);
    assert_eq!(string_interaction(&long_text(101), false), vec![Decorator::TextDialog(long_text(101))]);
    let accented = "é".repeat(100);
    assert_eq!(string_interaction(&accented, false), vec![]);
    let accented = "é".repeat(101);
    assert_eq!(string_interaction(&accented, false), vec![Decorator::TextDialog(accented.clone())]);
}

#[test]
fn embedded_interaction_takes_the_parse_result() {
    assert_eq!(embedded_interaction("x", Some(JsonValue::Null)), vec![]);
    assert_eq!(embedded_interaction("x", Some(JsonValue::Bool(true))), vec![]);
    assert_eq!(embedded_interaction("x", Some(JsonValue::Number("1".to_string()))), vec![]);
    assert_eq!(
        embedded_interaction("x", Some(JsonValue::Array(vec![]))),
        vec![Decorator::JsonDialog(JsonValue::Array(vec![]))]
    );
    assert_eq!(embedded_interaction("x", None), vec![]);
    let text = long_text(101);
    assert_eq!(embedded_interaction(&text, None), vec![Decorator::TextDialog(text.clone())]);
    assert_eq!(embedded_interaction(&text, Some(JsonValue::Null)), vec![]);
}

#[test]
fn a_container_with_children_gets_a_nested_viewer() {
    let v = parse_strict("[1,2,3]").unwrap();
    assert_eq!(default_interaction(&v, HostReply::Absent, false), vec![Decorator::JsonDialog(v.clone())]);
    let v = parse_strict("{\"a\":1}").unwrap();
    assert_eq!(default_interaction(&v, HostReply::Absent, true), vec![Decorator::JsonDialog(v.clone())]);
}

#[test]
fn an_empty_container_and_a_scalar_get_nothing() {
    for text in ["[]", "{}", "1", "true", "null"] {
        let v = parse_strict(text).unwrap();
        assert_eq!(default_interaction(&v, HostReply::Absent, false), vec![]);
    }
}

#[test]
fn the_host_action_replaces_the_built_in_rules() {
    let v = string("https://example.com");
    let out = default_interaction(&v, HostReply::Callable, false);
    assert_eq!(out, vec![Decorator::HostAction("\"https://example.com\"".to_string())]);
    let v = parse_strict("{\"a\":[1,2]}").unwrap();
    let out = default_interaction(&v, HostReply::Callable, false);
    assert_eq!(out, vec![Decorator::HostAction("{\"a\":[1,2]}".to_string())]);
    let out = default_interaction(&JsonValue::Null, HostReply::Callable, false);
    assert_eq!(out, vec![Decorator::HostAction("null".to_string())]);
}

#[test]
fn a_host_that_gives_no_action_leaves_no_decorator() {
    let long = long_text(150);
    for value in [
        string("https://example.com"),
        string("{\"x\":1}"),
        string(&long),
        parse_strict("[1]").unwrap(),
        parse_strict("{\"a\":[1,2]}").unwrap(),
        JsonValue::Null,
    ] {
        assert_eq!(default_interaction(&value, HostReply::Declined, false), vec![]);
        assert_eq!(default_interaction(&value, HostReply::Declined, true), vec![]);
    }
}

#[test]
fn without_a_hook_the_built_in_rules_apply() {
    let v = string("https://example.com");
    assert_eq!(
        default_interaction(&v, HostReply::Absent, false),
        vec![Decorator::OpenLink("https://example.com/".to_string())]
    );
}

#[test]
fn the_host_is_handed_the_compact_text() {
    let v = parse_strict("{ \"a\" : [ 1, \"x\\\"y\" ] }").unwrap();
    assert_eq!(host_request(&v), "{\"a\":[1,\"x\\\"y\"]}");
}

#[test]
fn a_json_dialog_hosts_a_viewer_with_its_index() {
    let props = ButtonControlDialogJsonViewerProps { value: parse_strict("{\"a\":[1,2]}").unwrap() };
    let option = JsonViewerOption::default();
    assert!(button_control_dialog_json_viewer(&props, &option, 0, false).is_none());
    let view = button_control_dialog_json_viewer(&props, &option, 2, true).unwrap();
    assert_eq!(view.index, 2);
    assert_eq!(view.title, "JSON");
    assert_eq!(view.copy_text, "{\"a\":[1,2]}");
    match view.content {
        DialogContent::Viewer(viewer) => {
            assert_eq!(viewer.value, props.value);
            assert_eq!(viewer.option.dialog_index, Some(2));
            assert!(!viewer.option.collapsable);
            assert_eq!(viewer.option.force_default_collapse_length_gte, 100);
            assert!(!viewer.root_collapsed);
        }
        DialogContent::Text(_) => panic!("not a viewer"),
    }
}

#[test]
fn a_json_dialog_inherits_the_configuration_around_it() {
    let props = ButtonControlDialogJsonViewerProps { value: parse_strict("[[1,2],[3]]").unwrap() };
    let around = JsonViewerOption {
        collapsable: true,
        root_collapsable: true,
        force_default_collapse_length_gte: 2,
        dialog_index: Some(0),
        use_json5: true,
    };
    let view = button_control_dialog_json_viewer(&props, &around, 1, true).unwrap();
    match view.content {
        DialogContent::Viewer(viewer) => {
            assert!(viewer.option.collapsable);
            assert!(viewer.option.root_collapsable);
            assert_eq!(viewer.option.force_default_collapse_length_gte, 2);
            assert!(viewer.option.use_json5);
            assert_eq!(viewer.option.dialog_index, Some(1));
            assert!(viewer.root_collapsed);
            assert_eq!(viewer.state.collapsed.flags, vec![true, true]);
        }
        DialogContent::Text(_) => panic!("not a viewer"),
    }
    let plain = JsonViewerOption { force_default_collapse_length_gte: 2, ..JsonViewerOption::default() };
    let view = button_control_dialog_json_viewer(&props, &plain, 0, true).unwrap();
    match view.content {
        DialogContent::Viewer(viewer) => {
            assert!(viewer.root_collapsed);
            assert_eq!(viewer.state.collapsed.flags, vec![true, false]);
            assert_eq!(viewer.option.dialog_index, Some(0));
        }
        DialogContent::Text(_) => panic!("not a viewer"),
    }
}

#[test]
fn a_text_dialog_shows_the_text_as_it_is() {
    assert!(long_text_viewer("abc", 0, false).is_none());
    let view = long_text_viewer("{not json", 1, true).unwrap();
    assert_eq!(view.index, 1);
    assert_eq!(view.title, "Long Text");
    assert_eq!(view.copy_text, "{not json");
    match view.content {
        DialogContent::Text(text) => assert_eq!(text, "{not json"),
        DialogContent::Viewer(_) => panic!("not a text"),
    }
}
