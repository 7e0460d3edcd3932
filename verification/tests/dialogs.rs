use yew_json_viewer::common::{copy_button, CopyButtonProps, COPIED_MILLIS};
use yew_json_viewer::dialog::{overlay_style, page_effects, DialogEvent, DialogStack, PageEffects};

fn escape() -> DialogEvent {
    DialogEvent::KeyDown("Escape".to_string())
}

#[test]
fn a_dialog_gets_the_count_of_mounted_dialogs_as_index() {
    let mut stack = DialogStack::new();
    assert_eq!(stack.len(), 0);
    assert_eq!(stack.open(), 0);
    assert_eq!(stack.open(), 1);
    assert_eq!(stack.open(), 2);
    assert_eq!(stack.mounted, vec![0, 1, 2]);
    assert_eq!(stack.len(), 3);
}

#[test]
fn escape_closes_a_dialog_that_is_alone() {
    let mut stack = DialogStack::new();
    let first = stack.open();
    assert!(stack.dialog(first, &escape()));
}

#[test]
fn escape_closes_only_the_topmost_dialog() {
    let mut stack = DialogStack::new();
    let first = stack.open();
    let second = stack.open();
    assert!(!stack.dialog(first, &escape()));
    assert!(stack.dialog(second, &escape()));
    stack.close(second);
    assert!(stack.dialog(first, &escape()));
    stack.close(first);
    assert_eq!(stack.len(), 0);
}

#[test]
fn another_key_closes_nothing() {
    let mut stack = DialogStack::new();
    let first = stack.open();
    assert!(!stack.dialog(first, &DialogEvent::KeyDown("Enter".to_string())));
    assert!(!stack.dialog(first, &DialogEvent::KeyDown("escape".to_string())));
    assert!(!stack.dialog(first, &DialogEvent::KeyDown("".to_string())));
}

#[test]
fn a_backdrop_click_closes_and_a_content_click_does_not() {
    let mut stack = DialogStack::new();
    let first = stack.open();
    let second = stack.open();
    assert!(stack.dialog(first, &DialogEvent::BackdropClick));
    assert!(stack.dialog(second, &DialogEvent::BackdropClick));
    assert!(!stack.dialog(first, &DialogEvent::ContentClick));
    assert!(!stack.dialog(second, &DialogEvent::ContentClick));
}

#[test]
fn top_is_the_highest_index_mounted() {
    assert_eq!(DialogStack::new().top(), 0);
    assert_eq!(DialogStack { mounted: vec![0] }.top(), 0);
    assert_eq!(DialogStack { mounted: vec![0, 1, 2] }.top(), 2);
    assert_eq!(DialogStack { mounted: vec![2, 1] }.top(), 2);
    assert_eq!(DialogStack { mounted: vec![1, 3, 2] }.top(), 3);
}

#[test]
fn an_index_is_used_again_after_a_close() {
    let mut stack = DialogStack::new();
    stack.open();
    stack.open();
    stack.open();
    stack.close(0);
    assert_eq!(stack.mounted, vec![1, 2]);
    assert_eq!(stack.open(), 2);
    assert_eq!(stack.mounted, vec![1, 2, 2]);
    stack.close(2);
    assert_eq!(stack.mounted, vec![1, 2]);
}

#[test]
fn close_of_an_unknown_index_changes_nothing() {
    let mut stack = DialogStack { mounted: vec![0, 1] };
    stack.close(5);
    assert_eq!(stack.mounted, vec![0, 1]);
    let mut empty = DialogStack::new();
    empty.close(0);
    assert_eq!(empty.len(), 0);
}

#[test]
fn only_the_bottommost_dialog_locks_the_scroll() {
    assert_eq!(page_effects(0), PageEffects { scroll: true, key_listener: true });
    assert_eq!(page_effects(1), PageEffects { scroll: false, key_listener: true });
    assert_eq!(page_effects(7), PageEffects { scroll: false, key_listener: true });
}

#[test]
fn every_dialog_but_the_bottommost_darkens_the_backdrop() {
    assert_eq!(overlay_style(0), "");
    assert_eq!(overlay_style(1), "background-color: rgba(0, 0, 0, 0.4);");
    assert_eq!(overlay_style(3), "background-color: rgba(0, 0, 0, 0.4);");
}

#[test]
fn a_copy_button_copies_unless_it_is_checked() {
    let props = CopyButtonProps { text: "{\"a\":1}".to_string() };
    let idle = copy_button(&props, false);
    assert_eq!(idle.style, "margin-left: 4px; cursor: pointer;");
    assert!(!idle.checked);
    assert_eq!(idle.copies, Some("{\"a\":1}".to_string()));
    let checked = copy_button(&props, true);
    assert_eq!(checked.style, "margin-left: 4px; ");
    assert!(checked.checked);
    assert_eq!(checked.copies, None);
    assert_eq!(COPIED_MILLIS, 1000);
}
