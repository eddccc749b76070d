use slideshow::keyboard::{fragment_after, keyup_action, KeyAction};

#[test]
fn arrows_ignored_without_active_project() {
    assert!(matches!(keyup_action(None, "ArrowLeft"), KeyAction::Ignore));
    assert!(matches!(keyup_action(None, "ArrowRight"), KeyAction::Ignore));
    assert!(matches!(keyup_action(None, "Escape"), KeyAction::Ignore));
}

#[test]
fn escape_requests_fragment_clear() {
    assert!(matches!(
        keyup_action(Some("work"), "Escape"),
        KeyAction::ClearFragment
    ));
}

#[test]
fn escape_clears_any_prior_fragment() {
    for prior in ["", "section-2", "#already-odd", "a long fragment value"] {
        let after = fragment_after(&KeyAction::ClearFragment, prior);
        assert_eq!(after, "");
    }
}

#[test]
fn other_actions_leave_fragment_alone() {
    let after = fragment_after(&KeyAction::Ignore, "kept");
    assert_eq!(after, "kept");
}

#[test]
fn arrow_left_clicks_previous_control() {
    match keyup_action(Some("work"), "ArrowLeft") {
        KeyAction::ClickSelector(s) => assert_eq!(s, ".project.work .prev"),
        _ => panic!("ArrowLeft with an active project must click"),
    }
}

#[test]
fn arrow_right_clicks_next_control() {
    match keyup_action(Some("work"), "ArrowRight") {
        KeyAction::ClickSelector(s) => assert_eq!(s, ".project.work .next"),
        _ => panic!("ArrowRight with an active project must click"),
    }
}

#[test]
fn unrelated_keys_are_ignored() {
    for key in ["ArrowUp", "ArrowDown", "Enter", "a", " "] {
        assert!(matches!(
            keyup_action(Some("work"), key),
            KeyAction::Ignore
        ));
    }
}
