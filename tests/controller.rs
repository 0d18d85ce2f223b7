use desktop_controller::buffer::{MutationBatch, MutationBuffer};
use desktop_controller::controller::{handle_edits_script, into_delivery, DesktopController, Drained};
use desktop_controller::ready::ReadyFlag;

#[test]
fn script_embeds_payload() {
    assert_eq!(handle_edits_script("[1,2]"), "window.interpreter.handleEdits([1,2])");
    assert_eq!(handle_edits_script(""), "window.interpreter.handleEdits()");
}

#[test]
fn register_and_look_up() {
    let mut c: DesktopController<String> = DesktopController::new(true);
    assert_eq!(c.window_count(), 0);
    c.register_window(7, "seven".to_string());
    c.register_window(3, "three".to_string());
    assert_eq!(c.window_count(), 2);
    assert_eq!(c.handle(7).map(|s| s.as_str()), Some("seven"));
    assert_eq!(c.handle(3).map(|s| s.as_str()), Some("three"));
    assert!(c.handle(4).is_none());
}

#[test]
fn register_duplicate_overwrites() {
    let mut c: DesktopController<u32> = DesktopController::new(true);
    c.register_window(1, 10);
    c.register_window(2, 20);
    c.register_window(1, 11);
    assert_eq!(c.window_count(), 2);
    assert_eq!(c.handle(1), Some(&11));
    assert_eq!(c.handle(2), Some(&20));
}

#[test]
fn closing_last_window_requests_exit() {
    let mut c: DesktopController<u32> = DesktopController::new(true);
    c.register_window(1, 10);
    assert!(c.close_window(1));
    assert_eq!(c.window_count(), 0);
}

#[test]
fn closing_with_windows_left_requests_nothing() {
    let mut c: DesktopController<u32> = DesktopController::new(true);
    c.register_window(1, 10);
    c.register_window(2, 20);
    assert!(!c.close_window(1));
    assert_eq!(c.window_count(), 1);
    assert!(c.handle(1).is_none());
    assert!(c.close_window(2));
}

#[test]
fn closing_without_quit_policy_never_exits() {
    let mut c: DesktopController<u32> = DesktopController::new(false);
    assert!(!c.quit_app_on_close());
    c.register_window(1, 10);
    assert!(!c.close_window(1));
}

#[test]
fn closing_unknown_window_keeps_registry() {
    let mut c: DesktopController<u32> = DesktopController::new(true);
    c.register_window(1, 10);
    assert!(!c.close_window(9));
    assert_eq!(c.window_count(), 1);
}

#[test]
fn delivery_goes_to_first_registered_window() {
    let mut c: DesktopController<u32> = DesktopController::new(true);
    c.register_window(5, 50);
    c.register_window(2, 20);
    let mut q = MutationBuffer::new();
    q.push_batch(MutationBatch { templates: "t".to_string(), edits: "e".to_string() });
    let d = c.deliver_if_ready(true, &mut q).unwrap();
    assert_eq!(d.window, 5);
    assert_eq!(d.scripts.len(), 2);
}

#[test]
fn ready_without_windows_keeps_queue() {
    let c: DesktopController<u32> = DesktopController::new(true);
    let mut q = MutationBuffer::new();
    q.push("p".to_string());
    assert!(c.deliver_if_ready(true, &mut q).is_none());
    assert_eq!(q.len(), 1);
}

#[test]
fn ready_with_empty_queue_delivers_nothing() {
    let mut c: DesktopController<u32> = DesktopController::new(true);
    c.register_window(1, 1);
    let mut q = MutationBuffer::new();
    let d = c.deliver_if_ready(true, &mut q).unwrap();
    assert!(d.scripts.is_empty());
}

#[test]
fn delivery_waits_for_readiness_flag() {
    let mut c: DesktopController<u32> = DesktopController::new(true);
    c.register_window(1, 1);
    let mut q = MutationBuffer::new();
    q.push("p".to_string());
    assert!(c.try_load_ready_webviews(&mut q).is_none());
    assert_eq!(q.len(), 1);
    c.readiness().mark_ready();
    let d = c.try_load_ready_webviews(&mut q).unwrap();
    assert_eq!(d.window, 1);
    assert_eq!(d.payloads, vec!["p"]);
    assert!(q.is_empty());
    let delivery = into_delivery(d);
    assert_eq!(delivery.scripts, vec!["window.interpreter.handleEdits(p)"]);
}

#[test]
fn ready_flag_is_shared_and_one_shot() {
    let a = ReadyFlag::new();
    let b = a.share();
    assert!(!a.is_ready());
    b.mark_ready();
    assert!(a.is_ready());
    assert!(b.is_ready());
}

#[test]
fn closing_every_window_in_any_order_exits_once() {
    let mut c: DesktopController<u32> = DesktopController::new(true);
    c.register_window(1, 10);
    c.register_window(2, 20);
    c.register_window(3, 30);
    assert!(!c.close_window(2));
    assert!(!c.close_window(3));
    assert!(c.close_window(1));
}

#[test]
fn several_unready_attempts_then_ready_delivers_everything() {
    let mut c: DesktopController<u32> = DesktopController::new(true);
    c.register_window(4, 40);
    let mut q = MutationBuffer::new();
    q.push_batch(MutationBatch { templates: "t1".to_string(), edits: "e1".to_string() });
    assert!(c.deliver_if_ready(false, &mut q).is_none());
    q.push_batch(MutationBatch { templates: "t2".to_string(), edits: "e2".to_string() });
    assert!(c.deliver_if_ready(false, &mut q).is_none());
    assert!(c.deliver_if_ready(false, &mut q).is_none());
    q.push_batch(MutationBatch { templates: "t3".to_string(), edits: "e3".to_string() });
    let d = c.deliver_if_ready(true, &mut q).unwrap();
    let expected: Vec<String> = ["t1", "e1", "t2", "e2", "t3", "e3"]
        .iter()
        .map(|p| handle_edits_script(p))
        .collect();
    assert_eq!(d.scripts, expected);
    assert!(q.is_empty());
    assert!(c.deliver_if_ready(true, &mut q).unwrap().scripts.is_empty());
}

#[test]
fn take_if_ready_swaps_out_raw_payloads() {
    let mut c: DesktopController<u32> = DesktopController::new(true);
    c.register_window(3, 30);
    let mut q = MutationBuffer::new();
    q.push_batch(MutationBatch { templates: "t".to_string(), edits: "e".to_string() });
    assert!(c.take_if_ready(false, &mut q).is_none());
    assert_eq!(q.len(), 2);
    let d = c.take_if_ready(true, &mut q).unwrap();
    assert_eq!(d.window, 3);
    assert_eq!(d.payloads, vec!["t", "e"]);
    assert!(q.is_empty());
}

#[test]
fn into_delivery_formats_each_payload_in_order() {
    let d = into_delivery(Drained { window: 9, payloads: vec!["a".to_string(), "b".to_string()] });
    assert_eq!(d.window, 9);
    assert_eq!(
        d.scripts,
        vec!["window.interpreter.handleEdits(a)", "window.interpreter.handleEdits(b)"]
    );
    assert!(into_delivery(Drained { window: 1, payloads: vec![] }).scripts.is_empty());
}
