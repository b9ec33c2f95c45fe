use heracles::flaw::Flaw;
use heracles::frame::Frame;
use heracles::frame::FrameTracker;
use heracles::line::EndStatus;
use heracles::line::LineKind;

fn lines(text: &[&str]) -> Vec<String> {
    text.iter().map(|line| line.to_string()).collect()
}

const TARGET: &str = "pAMMBay6oceH9fJKBRHGP5D4bD4sWpmSwMn52FMfXEA";
const TOKEN: &str = "TokenkegQfeZyiNwAJbNbGKPFXCWuBvf9Ss623VQ5DA";

fn invoke(id: &str, depth: u64) -> String {
    format!("Program {} invoke [{}]", id, depth)
}

fn success(id: &str) -> String {
    format!("Program {} success", id)
}

#[test]
fn new_tracker_is_empty() {
    let tracker = FrameTracker::new();
    assert_eq!(tracker.depth(), 0);
    assert_eq!(tracker.scope(), None);
    assert!(!tracker.in_scope(TARGET.as_bytes()));
    assert!(!tracker.in_scope(b""));
}

#[test]
fn depth_is_opened_minus_closed() {
    let mut tracker = FrameTracker::new();
    let lines = [
        (invoke("a", 1), 1),
        ("Program log: hello".to_string(), 1),
        (invoke("b", 2), 2),
        (invoke("c", 3), 3),
        (success("c"), 2),
        (success("c"), 2),
        (invoke("c", 3), 3),
        ("Program c failed: boom".to_string(), 2),
        (success("b"), 1),
        (success("a"), 0),
        (success("a"), 0),
        ("Program log: bye".to_string(), 0),
        (invoke("a", 1), 1),
    ];
    let mut opened = 0;
    let mut closed = 0;
    for (line, height) in lines.iter() {
        let before = tracker.depth();
        tracker.observe(line);
        if tracker.depth() > before {
            opened += 1;
        }
        if tracker.depth() < before {
            closed += 1;
        }
        assert_eq!(tracker.depth(), *height, "{}", line);
        assert_eq!(tracker.depth(), opened - closed);
    }
    assert_eq!(opened, 5);
    assert_eq!(closed, 4);
}

#[test]
fn line_after_the_invocation_belongs_to_the_target() {
    let mut tracker = FrameTracker::new();
    tracker.observe(&invoke("outer", 1));
    assert!(!tracker.in_scope(TARGET.as_bytes()));
    tracker.observe(&invoke(TARGET, 2));
    assert!(tracker.in_scope(TARGET.as_bytes()));
    tracker.observe("Program log: Instruction: Buy");
    assert!(tracker.in_scope(TARGET.as_bytes()));
    tracker.observe(&invoke(TOKEN, 3));
    assert!(!tracker.in_scope(TARGET.as_bytes()));
    assert!(tracker.in_scope(TOKEN.as_bytes()));
    tracker.observe(&success(TOKEN));
    assert!(tracker.in_scope(TARGET.as_bytes()));
    tracker.observe(&success(TARGET));
    assert!(!tracker.in_scope(TARGET.as_bytes()));
    assert!(tracker.in_scope(b"outer"));
    tracker.observe(&success("outer"));
    assert_eq!(tracker.scope(), None);
}

#[test]
fn target_inside_target_stays_in_scope_after_the_inner_return() {
    let mut tracker = FrameTracker::new();
    tracker.observe(&invoke(TARGET, 1));
    tracker.observe(&invoke(TARGET, 2));
    tracker.observe(&success(TARGET));
    assert_eq!(tracker.depth(), 1);
    assert!(tracker.in_scope(TARGET.as_bytes()));
}

#[test]
fn return_without_invocation_is_ignored() {
    let mut tracker = FrameTracker::new();
    tracker.observe(&success(TOKEN));
    assert_eq!(tracker.depth(), 0);
    tracker.observe("Program x failed: y");
    assert_eq!(tracker.depth(), 0);
    tracker.observe(&invoke(TARGET, 2));
    tracker.observe(&success(TOKEN));
    assert_eq!(tracker.depth(), 1);
    assert!(tracker.in_scope(TARGET.as_bytes()));
}

#[test]
fn opening_line_always_pushes() {
    let mut tracker = FrameTracker::new();
    tracker.observe(&invoke("a", 5));
    tracker.observe(&invoke("b", 1));
    tracker.observe(&invoke("b", 1));
    assert_eq!(tracker.depth(), 3);
    assert_eq!(tracker.scope(), Some(&b"b".to_vec()));
}

#[test]
fn scope_of_is_the_scope_when_the_line_is_reached() {
    let mut tracker = FrameTracker::new();
    assert_eq!(tracker.scope_of(&invoke("a", 1)), None);
    assert_eq!(tracker.scope_of("Program log: x"), Some(b"a".to_vec()));
    assert_eq!(tracker.scope_of(&invoke("b", 2)), Some(b"a".to_vec()));
    assert_eq!(tracker.scope_of(&success("b")), Some(b"b".to_vec()));
    assert_eq!(tracker.scope_of(&success("a")), Some(b"a".to_vec()));
    assert_eq!(tracker.scope_of("Program log: x"), None);
    assert_eq!(tracker.depth(), 0);
}

#[test]
fn apply_takes_a_reading() {
    let mut tracker = FrameTracker::new();
    tracker.apply(LineKind::Other);
    assert_eq!(tracker.depth(), 0);
    tracker.apply(LineKind::Invoke { program_id: b"a".to_vec(), depth: 1 });
    assert_eq!(tracker.depth(), 1);
    tracker.apply(LineKind::End { program_id: b"b".to_vec(), status: EndStatus::Success });
    assert_eq!(tracker.depth(), 1);
    tracker.apply(LineKind::End { program_id: b"a".to_vec(), status: EndStatus::Failure });
    assert_eq!(tracker.depth(), 0);
}

#[test]
fn frames_compare_by_program_and_depth() {
    let frame = Frame { program_id: b"a".to_vec(), depth: 1 };
    assert_eq!(frame, Frame { program_id: b"a".to_vec(), depth: 1 });
    assert_ne!(frame, Frame { program_id: b"a".to_vec(), depth: 2 });
}

#[test]
fn whole_batch_is_taken_in_line_by_line() {
    let mut tracker = FrameTracker::new();
    tracker.observe_all(&lines(&[
        "Program a invoke [1]",
        "Program b invoke [2]",
        "Program log: x",
        "Program b success",
        "Program c invoke [2]",
    ]));
    assert_eq!(tracker.depth(), 2);
    assert_eq!(tracker.scope(), Some(&b"c".to_vec()));
    tracker.observe_all(&lines(&["Program c failed: x", "Program a success", "Program a success"]));
    assert_eq!(tracker.depth(), 0);
    tracker.observe_all(&Vec::new());
    assert_eq!(tracker.depth(), 0);
}

#[test]
fn flaws_are_named_and_change_nothing() {
    let mut tracker = FrameTracker::new();
    let other = LineKind::Other;
    let open = LineKind::Invoke { program_id: b"a".to_vec(), depth: 1 };
    let close_a = LineKind::End { program_id: b"a".to_vec(), status: EndStatus::Success };
    let close_b = LineKind::End { program_id: b"b".to_vec(), status: EndStatus::Failure };
    assert_eq!(tracker.check(&other), Some(Flaw::ParseAmbiguous));
    assert_eq!(tracker.check(&open), None);
    assert_eq!(tracker.check(&close_a), Some(Flaw::MalformedFrameNesting));
    tracker.apply(close_a);
    assert_eq!(tracker.depth(), 0);
    tracker.apply(open);
    assert_eq!(tracker.check(&close_b), Some(Flaw::MalformedFrameNesting));
    tracker.apply(close_b);
    assert_eq!(tracker.depth(), 1);
    assert_eq!(tracker.check(&other), Some(Flaw::ParseAmbiguous));
    tracker.apply(other);
    assert_eq!(tracker.depth(), 1);
    let close_a = LineKind::End { program_id: b"a".to_vec(), status: EndStatus::Failure };
    assert_eq!(tracker.check(&close_a), None);
    tracker.apply(close_a);
    assert_eq!(tracker.depth(), 0);
}
