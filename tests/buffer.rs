use desktop_controller::buffer::{MutationBatch, MutationBuffer};
use desktop_controller::controller::DesktopController;

fn batch(t: &str, e: &str) -> MutationBatch {
    MutationBatch { templates: t.to_string(), edits: e.to_string() }
}

fn contents(b: &MutationBuffer) -> Vec<String> {
    (0..b.len()).map(|i| b.get(i).clone()).collect()
}

#[test]
fn new_buffer_is_empty() {
    let b = MutationBuffer::new();
    assert!(b.is_empty());
    assert_eq!(b.len(), 0);
}

#[test]
fn push_batch_puts_templates_before_edits() {
    let mut b = MutationBuffer::new();
    b.push_batch(batch("t", "e"));
    assert_eq!(contents(&b), vec!["t", "e"]);
}

#[test]
fn drain_returns_append_order_and_empties() {
    let mut b = MutationBuffer::new();
    b.push_batch(batch("a1", "a2"));
    b.push_batch(batch("b1", "b2"));
    b.push_batch(batch("c1", "c2"));
    let out = b.drain();
    assert_eq!(out, vec!["a1", "a2", "b1", "b2", "c1", "c2"]);
    assert!(b.is_empty());
}

#[test]
fn drain_of_empty_buffer_gives_nothing() {
    let mut b = MutationBuffer::new();
    assert!(b.drain().is_empty());
    assert!(b.is_empty());
}

#[test]
fn drain_if_not_ready_keeps_everything() {
    let mut b = MutationBuffer::new();
    b.push_batch(batch("x", "y"));
    assert!(b.drain_if_ready(false).is_empty());
    assert_eq!(contents(&b), vec!["x", "y"]);
}

#[test]
fn ready_drain_delivers_batches_accumulated_while_not_ready() {
    let mut b = MutationBuffer::new();
    b.push_batch(batch("1t", "1e"));
    assert!(b.drain_if_ready(false).is_empty());
    b.push_batch(batch("2t", "2e"));
    assert!(b.drain_if_ready(false).is_empty());
    b.push("3t".to_string());
    let out = b.drain_if_ready(true);
    assert_eq!(out, vec!["1t", "1e", "2t", "2e", "3t"]);
    assert!(b.is_empty());
}

#[test]
fn readiness_gated_delivery_scenario() {
    let mut queue = MutationBuffer::new();
    let mut c: DesktopController<&str> = DesktopController::new(true);
    c.register_window(1, "main");
    queue.push_batch(batch("tmpl1", "edit1"));
    queue.push_batch(batch("tmpl2", "edit2"));
    assert!(c.deliver_if_ready(false, &mut queue).is_none());
    assert_eq!(contents(&queue), vec!["tmpl1", "edit1", "tmpl2", "edit2"]);
    let d = c.deliver_if_ready(true, &mut queue).unwrap();
    assert_eq!(d.window, 1);
    assert_eq!(
        d.scripts,
        vec![
            "window.interpreter.handleEdits(tmpl1)",
            "window.interpreter.handleEdits(edit1)",
            "window.interpreter.handleEdits(tmpl2)",
            "window.interpreter.handleEdits(edit2)",
        ]
    );
    assert!(queue.is_empty());
}
