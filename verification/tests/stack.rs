use toaster::{decode_message, dismiss_toast_message, ToastId, ToastOptions, ToasterPosition, Toasts};

fn options(dismissible: bool) -> ToastOptions {
    ToastOptions { dismissible, duration_ms: Some(1000), position: Some(ToasterPosition::TopLeft) }
}

#[test]
fn add_prepends_newest_first() {
    let mut stack: Toasts<&str> = Toasts::new();
    let first = stack.toast("one", None, None);
    assert_eq!(stack.count(), 1);
    assert_eq!(stack.index_of(&first), Some(0));
    let second = stack.toast("two", None, None);
    assert_eq!(stack.count(), 2);
    assert_eq!(stack.index_of(&second), Some(0));
    assert_eq!(stack.index_of(&first), Some(1));
    assert_eq!(stack.toasts[0].view, "two");
    assert_eq!(stack.toasts[1].view, "one");
}

#[test]
fn add_uses_given_id_and_options() {
    let mut stack: Toasts<&str> = Toasts::new();
    let id = ToastId::from_usize(42);
    let returned = stack.toast("custom", Some(id.clone()), Some(options(false)));
    assert_eq!(returned, id);
    assert!(!stack.toasts[0].options.dismissible);
    assert_eq!(stack.toasts[0].options.duration_ms, Some(1000));
    assert_eq!(stack.toasts[0].options.position, Some(ToasterPosition::TopLeft));
}

#[test]
fn add_defaults_options() {
    let mut stack: Toasts<&str> = Toasts::new();
    stack.toast("plain", None, None);
    assert!(stack.toasts[0].options.dismissible);
    assert_eq!(stack.toasts[0].options.duration_ms, None);
    assert_eq!(stack.toasts[0].options.position, None);
}

#[test]
fn generated_ids_never_repeat() {
    let mut stack: Toasts<&str> = Toasts::new();
    let a = stack.toast("a", None, None);
    let b = stack.toast("b", None, None);
    let c = stack.toast("c", None, None);
    assert!(a != b && b != c && a != c);
}

#[test]
fn dismiss_removes_matching_toast() {
    let mut stack: Toasts<&str> = Toasts::new();
    let first = stack.toast("one", None, None);
    let second = stack.toast("two", None, None);
    stack.dismiss(&first);
    assert_eq!(stack.count(), 1);
    assert_eq!(stack.index_of(&first), None);
    assert_eq!(stack.index_of(&second), Some(0));
}

#[test]
fn dismiss_absent_id_is_a_no_op() {
    let mut stack: Toasts<&str> = Toasts::new();
    let first = stack.toast("one", None, None);
    let second = stack.toast("two", None, None);
    stack.dismiss(&ToastId::from_usize(999));
    assert_eq!(stack.count(), 2);
    assert_eq!(stack.index_of(&second), Some(0));
    assert_eq!(stack.index_of(&first), Some(1));
}

#[test]
fn remove_from_stack_matches_dismiss_semantics() {
    let mut stack: Toasts<&str> = Toasts::new();
    let id = stack.toast("one", None, None);
    stack.remove_from_stack(&id);
    assert_eq!(stack.count(), 0);
}

#[test]
fn expanded_forced_false_at_one_toast() {
    let mut stack: Toasts<&str> = Toasts::new();
    let first = stack.toast("one", None, None);
    stack.toast("two", None, None);
    stack.on_mouse_enter();
    assert!(stack.expanded);
    stack.dismiss(&first);
    assert_eq!(stack.count(), 1);
    assert!(!stack.expanded);
}

#[test]
fn expanded_forced_false_after_purge_path() {
    let mut stack: Toasts<&str> = Toasts::new();
    let first = stack.toast("one", None, None);
    stack.toast("two", None, None);
    stack.on_mouse_move();
    assert!(stack.expanded);
    stack.remove_from_stack(&first);
    assert!(!stack.expanded);
}

#[test]
fn mouse_leave_collapses_unless_interacting() {
    let mut stack: Toasts<&str> = Toasts::new();
    stack.toast("one", None, None);
    stack.toast("two", None, None);
    stack.on_mouse_enter();
    stack.on_mouse_leave();
    assert!(!stack.expanded);
    stack.on_mouse_enter();
    stack.on_pointer_down(true);
    assert!(stack.interacting);
    stack.on_mouse_leave();
    assert!(stack.expanded);
}

#[test]
fn pointer_down_on_non_dismissible_target_skips_interacting() {
    let mut stack: Toasts<&str> = Toasts::new();
    stack.on_pointer_down(false);
    assert!(!stack.interacting);
    stack.on_pointer_up();
    assert!(stack.interacting);
}

#[test]
fn dismiss_message_round_trip() {
    let id = ToastId::from_str_truncated("round-trip");
    let message = dismiss_toast_message(&id);
    assert!(message.starts_with("LEPTOS_TOASTER:"));
    assert_eq!(decode_message(message), Some(id));
}

#[test]
fn decode_message_drops_foreign_messages() {
    assert_eq!(decode_message(String::from("nonsense")), None);
    assert_eq!(decode_message(String::new()), None);
    assert_eq!(decode_message(String::from("OTHER:1,2,3")), None);
}

#[test]
fn decode_message_drops_malformed_payloads() {
    assert_eq!(decode_message(String::from("LEPTOS_TOASTER:")), None);
    assert_eq!(decode_message(String::from("LEPTOS_TOASTER:9999")), None);
    assert_eq!(decode_message(String::from("LEPTOS_TOASTER:1,abc")), None);
}

#[test]
fn decode_message_reads_plain_payload() {
    let decoded = decode_message(String::from("LEPTOS_TOASTER:5,6")).unwrap();
    assert!(decoded.to_decodable_string().starts_with("5,6,0"));
}

#[test]
fn position_anchor_labels() {
    assert_eq!(ToasterPosition::TopLeft.x(), "left");
    assert_eq!(ToasterPosition::BottomCenter.x(), "center");
    assert_eq!(ToasterPosition::BottomRight.x(), "right");
    assert_eq!(ToasterPosition::TopCenter.y(), "top");
    assert_eq!(ToasterPosition::BottomLeft.y(), "bottom");
}

#[test]
fn from_str_error_describes_itself() {
    let long: String = "z".repeat(100);
    let err = ToastId::try_from_str(&long).unwrap_err();
    assert!(err.message().contains("too long"));
}
