use tadoru::keys::{ends_wait, is_typed_text, KeyCode, KeyEvent, Modifiers};

fn held(code: KeyCode, ctrl: bool, alt: bool, shift: bool) -> KeyEvent {
    KeyEvent { code, modifiers: Modifiers { ctrl, alt, shift, other: false } }
}

#[test]
fn shift_is_text_but_alt_and_ctrl_are_not() {
    let plain = held(KeyCode::Char('d'), false, false, false);
    let shifted = held(KeyCode::Char('D'), false, false, true);
    let alt = held(KeyCode::Char('d'), false, true, false);
    let ctrl = held(KeyCode::Char('d'), true, false, false);
    let altgr = held(KeyCode::Char('@'), true, true, false);

    assert!(is_typed_text(&plain));
    assert!(is_typed_text(&shifted));
    assert!(!is_typed_text(&alt));
    assert!(!is_typed_text(&ctrl));
    assert!(!is_typed_text(&altgr));
}

#[test]
fn enter_esc_and_ctrl_c_end_the_wait_after_an_action() {
    for code in [KeyCode::Enter, KeyCode::Esc] {
        assert!(ends_wait(&held(code, false, false, false)));
    }
    assert!(ends_wait(&held(KeyCode::Char('c'), true, false, false)));
    assert!(!ends_wait(&held(KeyCode::Char('c'), false, false, false)));
    assert!(!ends_wait(&held(KeyCode::Char(' '), false, false, false)));
}
