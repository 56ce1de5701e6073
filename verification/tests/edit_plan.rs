use acb::edit::{editor_command, plan_edit, resolve_editor, EditOptions, EditPlan, EditStatus};

fn keyed() -> EditOptions {
    EditOptions { signing_key: Some("/k/id_ed25519".to_string()) }
}

#[test]
fn unchanged_edit_does_nothing() {
    let opts = EditOptions::default();
    assert!(matches!(plan_edit("a: 1\n", "a: 1\n", true, &opts), EditPlan::Unchanged));
    assert!(matches!(plan_edit("a: 1\n", "a: 1\n", false, &keyed()), EditPlan::Unchanged));
}

#[test]
fn signed_policy_needs_a_key() {
    let opts = EditOptions::default();
    assert!(matches!(
        plan_edit("revision: 2\nport: 1\n", "revision: 2\nport: 2\n", true, &opts),
        EditPlan::NeedsSigningKey
    ));
}

#[test]
fn unsigned_edit_is_installed_as_is() {
    match plan_edit("port: 1\n", "port: 2\n", false, &EditOptions::default()) {
        EditPlan::Install { text, signed_revision } => {
            assert_eq!(text, "port: 2\n");
            assert_eq!(signed_revision, None);
        }
        _ => panic!("install"),
    }
}

#[test]
fn signed_edit_bumps_revision() {
    match plan_edit("revision: 9\nport: 1\n", "revision: 9\nport: 2\n", true, &keyed()) {
        EditPlan::Install { text, signed_revision } => {
            assert_eq!(text, "revision: 10\nport: 2\n");
            assert_eq!(signed_revision, Some(10));
        }
        _ => panic!("install"),
    }
    match plan_edit("port: 1\n", "port: 2\n", false, &keyed()) {
        EditPlan::Install { text, signed_revision } => {
            assert_eq!(text, "revision: 1\nport: 2\n");
            assert_eq!(signed_revision, Some(1));
        }
        _ => panic!("install"),
    }
}

#[test]
fn edit_status_values() {
    assert_eq!(EditStatus::Saved { signed_revision: Some(3) }, EditStatus::Saved { signed_revision: Some(3) });
    assert_ne!(EditStatus::Unchanged, EditStatus::Saved { signed_revision: None });
}

#[test]
fn edit_resolve_editor_prefers_visual() {
    let v = Some("my-visual".to_string());
    let e = Some("my-editor".to_string());
    assert_eq!(resolve_editor(&v, &e, false), "my-visual");
}

#[test]
fn mod_resolve_editor_prefers_visual() {
    let v = Some("my-visual".to_string());
    let e = Some("my-editor".to_string());
    assert_eq!(resolve_editor(&v, &e, cfg_windows()), "my-visual");
}

fn cfg_windows() -> bool {
    std::path::MAIN_SEPARATOR == '\\'
}

#[test]
fn resolve_editor_fallbacks() {
    let blank = Some("   ".to_string());
    let e = Some("my-editor".to_string());
    assert_eq!(resolve_editor(&blank, &e, false), "my-editor");
    assert_eq!(resolve_editor(&None, &None, false), "vi");
    assert_eq!(resolve_editor(&None, &blank, true), "notepad");
    // The chosen value is used untrimmed.
    assert_eq!(resolve_editor(&Some(" ed ".to_string()), &None, false), " ed ");
}

#[test]
fn editor_command_appends_the_file() {
    assert_eq!(
        editor_command("code --wait", "/tmp/x/config.yaml"),
        Some(vec!["code".to_string(), "--wait".to_string(), "/tmp/x/config.yaml".to_string()])
    );
    assert_eq!(editor_command("  ", "/tmp/f"), None);
}
