use acb::browser::input::{
    buttons_field, default_click_count, key_event_kind, plan_input, Button, InputAction,
    InputError, InputMsg, KeyEvent, KeyInput, KeyKind, MouseInput, MouseKind,
};

fn mouse(kind: &str, button: Option<&str>) -> InputMsg {
    InputMsg::Mouse(MouseInput {
        kind: kind.to_string(),
        button: button.map(|b| b.to_string()),
        click_count: 2,
        modifiers: 4,
    })
}

#[test]
fn mouse_messages() {
    match plan_input(&mouse("down", None)) {
        Ok(InputAction::Mouse { kind, button, click_count, modifiers }) => {
            assert_eq!(kind, MouseKind::Pressed);
            assert_eq!(button, Button::Left);
            assert_eq!(click_count, 2);
            assert_eq!(modifiers, 4);
        }
        _ => panic!("a known mouse message is dispatched"),
    }
    match plan_input(&mouse("wheel", Some("none"))) {
        Ok(InputAction::Mouse { kind, button, .. }) => {
            assert_eq!(kind, MouseKind::Wheel);
            assert_eq!(button, Button::NoButton);
        }
        _ => panic!("wheel with no button"),
    }
    match plan_input(&mouse("drag", None)) {
        Err(InputError::UnknownMouseType(t)) => assert_eq!(t, "drag"),
        _ => panic!("unknown mouse type"),
    }
    match plan_input(&mouse("up", Some("back"))) {
        Err(InputError::UnknownMouseButton(b)) => assert_eq!(b, "back"),
        _ => panic!("unknown button"),
    }
}

#[test]
fn key_messages() {
    let msg = InputMsg::Key(KeyInput {
        kind: "down".to_string(),
        key: "a".to_string(),
        code: "KeyA".to_string(),
        text: Some("a".to_string()),
        modifiers: 0,
        windows_virtual_key_code: Some(65),
    });
    match plan_input(&msg) {
        Ok(InputAction::Key(ev)) => {
            assert!(ev.kind_down);
            assert_eq!(ev.key, "a");
            assert_eq!(ev.code, "KeyA");
            assert_eq!(ev.text.as_deref(), Some("a"));
            assert_eq!(ev.windows_virtual_key_code, Some(65));
            assert_eq!(key_event_kind(&ev), KeyKind::Down);
        }
        _ => panic!("key down"),
    }
    let bad = InputMsg::Key(KeyInput {
        kind: "press".to_string(),
        key: "a".to_string(),
        code: "KeyA".to_string(),
        text: None,
        modifiers: 0,
        windows_virtual_key_code: None,
    });
    match plan_input(&bad) {
        Err(InputError::UnknownKeyType(t)) => assert_eq!(t, "press"),
        _ => panic!("unknown key type"),
    }
}

#[test]
fn composition_messages() {
    match plan_input(&InputMsg::CompositionStart) {
        Ok(InputAction::ImeComposition { text, selection_start, selection_end }) => {
            assert_eq!(text, "");
            assert_eq!((selection_start, selection_end), (0, 0));
        }
        _ => panic!("start"),
    }
    let upd = InputMsg::CompositionUpdate {
        text: "にほん".to_string(),
        selection_start: None,
        selection_end: Some(1),
    };
    match plan_input(&upd) {
        Ok(InputAction::ImeComposition { text, selection_start, selection_end }) => {
            assert_eq!(text, "にほん");
            // Defaults count characters, not bytes.
            assert_eq!(selection_start, 3);
            assert_eq!(selection_end, 1);
        }
        _ => panic!("update"),
    }
    match plan_input(&InputMsg::CompositionEnd { text: "日本".to_string() }) {
        Ok(InputAction::InsertText { text }) => assert_eq!(text, "日本"),
        _ => panic!("end"),
    }
}

#[test]
fn key_kinds_and_buttons() {
    let mut ev = KeyEvent::default();
    assert_eq!(key_event_kind(&ev), KeyKind::Up);
    ev.kind_down = true;
    assert_eq!(key_event_kind(&ev), KeyKind::RawDown);
    ev.text = Some("x".to_string());
    assert_eq!(key_event_kind(&ev), KeyKind::Down);
    assert_eq!(buttons_field(MouseKind::Pressed, Button::Left), 1);
    assert_eq!(buttons_field(MouseKind::Pressed, Button::Right), 2);
    assert_eq!(buttons_field(MouseKind::Pressed, Button::Middle), 4);
    assert_eq!(buttons_field(MouseKind::Released, Button::Left), 0);
    assert_eq!(buttons_field(MouseKind::Pressed, Button::NoButton), 0);
    assert_eq!(default_click_count(), 1);
}
