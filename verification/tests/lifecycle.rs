use toaster::toast_container::REMOVE_DELAY_MS;
use toaster::{
    Theme, ToastId, ToastLifecycle, ToastOptions, ToastVariant, ToasterConfig, ToasterPosition,
    Toasts,
};

fn bottom_lifecycle(dismissible: bool) -> ToastLifecycle {
    let options = ToastOptions { dismissible, duration_ms: None, position: None };
    ToastLifecycle::new(
        ToastId::from_usize(1),
        &options,
        4000,
        ToasterPosition::BottomRight,
    )
}

#[test]
fn resolves_duration_and_position_overrides() {
    let options = ToastOptions {
        dismissible: true,
        duration_ms: Some(1500),
        position: Some(ToasterPosition::TopCenter),
    };
    let lc = ToastLifecycle::new(
        ToastId::from_usize(1),
        &options,
        4000,
        ToasterPosition::BottomRight,
    );
    assert_eq!(lc.duration_ms, 1500);
    assert_eq!(lc.position, ToasterPosition::TopCenter);
    let defaults = bottom_lifecycle(true);
    assert_eq!(defaults.duration_ms, 4000);
    assert_eq!(defaults.position, ToasterPosition::BottomRight);
}

#[test]
fn swipe_of_25_px_in_100_ms_commits() {
    let mut lc = bottom_lifecycle(true);
    lc.on_pointer_down(0, 0, false, 100, 100);
    assert!(lc.swiping);
    lc.on_pointer_move(100, 125, false);
    assert_eq!(lc.swipe_amount, 25);
    let started = lc.on_pointer_up(100, 5);
    assert!(started);
    assert!(lc.swipe_out);
    assert!(lc.removed);
    assert_eq!(lc.offset_before_remove, 5);
}

#[test]
fn swipe_of_10_px_in_200_ms_snaps_back() {
    let mut lc = bottom_lifecycle(true);
    lc.on_pointer_down(0, 0, false, 100, 100);
    lc.on_pointer_move(100, 110, false);
    assert_eq!(lc.swipe_amount, 10);
    let started = lc.on_pointer_up(200, 5);
    assert!(!started);
    assert!(!lc.swipe_out);
    assert!(!lc.removed);
    assert_eq!(lc.swipe_amount, 0);
    assert!(!lc.swiping);
}

#[test]
fn short_fast_swipe_commits_on_velocity() {
    // 15 px in 50 ms: under the 20 px bar, over 0.11 px/ms.
    let mut lc = bottom_lifecycle(true);
    lc.on_pointer_down(0, 0, false, 0, 0);
    lc.on_pointer_move(0, 15, false);
    assert!(lc.on_pointer_up(50, 0));
    assert!(lc.swipe_out);
}

#[test]
fn top_anchored_toast_only_counts_upward_movement() {
    let options = ToastOptions {
        dismissible: true,
        duration_ms: None,
        position: Some(ToasterPosition::TopLeft),
    };
    let mut lc = ToastLifecycle::new(
        ToastId::from_usize(1),
        &options,
        4000,
        ToasterPosition::BottomRight,
    );
    lc.on_pointer_down(0, 0, false, 100, 100);
    lc.on_pointer_move(100, 130, false); // downward: clamped away
    assert_eq!(lc.swipe_amount, 0);
    lc.on_pointer_move(100, 75, false); // upward: counts
    assert_eq!(lc.swipe_amount, -25);
    assert!(lc.on_pointer_up(100, 0));
}

#[test]
fn sideways_movement_abandons_the_drag() {
    let mut lc = bottom_lifecycle(true);
    lc.on_pointer_down(0, 0, false, 100, 100);
    lc.on_pointer_move(130, 100, false); // crosses the threshold sideways
    assert_eq!(lc.pointer_start, None);
    lc.on_pointer_move(130, 160, false); // drag is over; nothing counts
    assert_eq!(lc.swipe_amount, 0);
}

#[test]
fn touch_pointers_need_a_larger_start_threshold() {
    let mut lc = bottom_lifecycle(true);
    lc.on_pointer_down(0, 0, false, 100, 100);
    lc.on_pointer_move(100, 108, true); // 8 px: below the 10 px touch bar
    assert_eq!(lc.swipe_amount, 0);
    lc.on_pointer_move(100, 112, true);
    assert_eq!(lc.swipe_amount, 12);
    let mut mouse = bottom_lifecycle(true);
    mouse.on_pointer_down(0, 0, false, 100, 100);
    mouse.on_pointer_move(100, 108, false); // 8 px: over the 2 px mouse bar
    assert_eq!(mouse.swipe_amount, 8);
}

#[test]
fn non_dismissible_toast_ignores_pointers() {
    let mut lc = bottom_lifecycle(false);
    lc.on_pointer_down(0, 0, false, 100, 100);
    assert!(!lc.swiping);
    assert_eq!(lc.pointer_start, None);
    lc.on_pointer_move(100, 200, false);
    assert_eq!(lc.swipe_amount, 0);
    assert!(!lc.on_pointer_up(100, 0));
    assert!(!lc.removed);
}

#[test]
fn pointer_down_on_a_button_starts_no_drag() {
    let mut lc = bottom_lifecycle(true);
    lc.on_pointer_down(0, 0, true, 100, 100);
    assert!(!lc.swiping);
    assert_eq!(lc.pointer_start, None);
    assert_eq!(lc.drag_start_time, Some(0));
}

#[test]
fn delete_is_idempotent() {
    let mut lc = bottom_lifecycle(true);
    assert!(lc.delete(10));
    assert_eq!(lc.offset_before_remove, 10);
    assert!(!lc.delete(99));
    assert_eq!(lc.offset_before_remove, 10);
}

#[test]
fn auto_timeout_after_delete_schedules_nothing() {
    let mut lc = bottom_lifecycle(true);
    assert!(lc.delete(0));
    assert!(!lc.on_auto_timeout(0));
}

#[test]
fn purge_fires_once_and_cancels_the_auto_timer() {
    let mut lc = bottom_lifecycle(true);
    lc.on_auto_timer_scheduled();
    assert!(lc.delete(0));
    assert!(lc.auto_timer_active);
    assert!(lc.on_purge());
    assert!(!lc.auto_timer_active);
    assert!(lc.purged);
    assert!(!lc.on_purge());
}

#[test]
fn purge_before_removal_does_nothing() {
    let mut lc = bottom_lifecycle(true);
    assert!(!lc.on_purge());
    assert!(!lc.purged);
}

#[test]
fn auto_dismiss_drives_removal_then_purge() {
    // A toast with duration D enters Removing at D and is purged at
    // D + REMOVE_DELAY_MS; the purge happens exactly once.
    let options =
        ToastOptions { dismissible: true, duration_ms: Some(1000), position: None };
    let mut lc = ToastLifecycle::new(
        ToastId::from_usize(7),
        &options,
        4000,
        ToasterPosition::BottomRight,
    );
    let mut stack: Toasts<&str> = Toasts::new();
    stack.toast("auto", Some(ToastId::from_usize(7)), Some(options));
    lc.on_mount();
    lc.on_auto_timer_scheduled();
    let fire_at: u64 = lc.duration_ms;
    assert_eq!(fire_at, 1000);
    let started = lc.on_auto_timeout(0);
    assert!(started && lc.removed);
    let purge_at: u64 = fire_at + REMOVE_DELAY_MS;
    assert_eq!(purge_at, 1200);
    let mut purges: u32 = 0;
    if lc.on_purge() {
        stack.remove_from_stack(&ToastId::from_usize(7));
        purges += 1;
    }
    if lc.on_purge() {
        stack.remove_from_stack(&ToastId::from_usize(7));
        purges += 1;
    }
    assert_eq!(purges, 1);
    assert_eq!(stack.count(), 0);
}

#[test]
fn dismiss_message_targets_one_lifecycle() {
    let mut mine = bottom_lifecycle(true);
    let options = ToastOptions { dismissible: true, duration_ms: None, position: None };
    let mut other = ToastLifecycle::new(
        ToastId::from_usize(2),
        &options,
        4000,
        ToasterPosition::BottomRight,
    );
    let message = toaster::dismiss_toast_message(&ToastId::from_usize(1));
    assert!(mine.on_dismiss_message(message.clone(), 3));
    assert!(mine.removed);
    assert!(!other.on_dismiss_message(message, 3));
    assert!(!other.removed);
    assert!(!mine.on_dismiss_message(String::from("garbage"), 3));
}

#[test]
fn presentation_pins_the_view_data() {
    let mut lc = bottom_lifecycle(true);
    lc.on_mount();
    lc.on_measured(48);
    let p = lc.presentation(1, 3, 3, false, false, 54);
    assert!(p.mounted && !p.removed);
    assert!(p.visible);
    assert!(!p.is_front);
    assert_eq!(p.index, 1);
    assert_eq!(p.z_index, 2);
    assert_eq!(p.offset_px, 54);
    assert_eq!(p.initial_height_px, Some(48));
    assert_eq!(p.x_position, "right");
    assert_eq!(p.y_position, "bottom");
    let hidden = lc.presentation(4, 5, 3, false, false, 0);
    assert!(!hidden.visible);
    let auto = lc.presentation(0, 1, 3, true, true, 0);
    assert!(auto.expanded);
    assert_eq!(auto.initial_height_px, None);
}

#[test]
fn config_defaults_match_the_stack_contract() {
    let config = ToasterConfig::default();
    assert_eq!(config.position, ToasterPosition::BottomRight);
    assert!(!config.expand_by_default);
    assert_eq!(config.duration_ms, 4000);
    assert_eq!(config.gap, 14);
    assert_eq!(config.visible_toasts, 3);
    let options = ToastOptions::default();
    assert!(options.dismissible);
    assert_eq!(options.duration_ms, None);
    assert_eq!(options.position, None);
}

#[test]
fn variant_and_theme_labels() {
    assert_eq!(ToastVariant::Normal.to_string(), "normal");
    assert_eq!(ToastVariant::Success.to_string(), "success");
    assert_eq!(ToastVariant::Info.to_string(), "info");
    assert_eq!(ToastVariant::Warning.to_string(), "warning");
    assert_eq!(ToastVariant::Error.to_string(), "error");
    assert_eq!(Theme::Light.to_string(), "light");
    assert_eq!(Theme::Dark.to_string(), "dark");
}
