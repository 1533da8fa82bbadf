use umadev::backend_probe::{
    backend_switch_verdict, definitely_unavailable, parse_probe_detail, remediation, AuthMark, ProbeDetail,
    SwitchVerdict, PROBE_AUTH_SENTINEL,
};

fn detail(auth: Option<&str>, login: &str, install: &str, human: &str) -> ProbeDetail {
    ProbeDetail {
        auth_tag: auth.map(str::to_string),
        login_cmd: login.to_string(),
        install_cmd: install.to_string(),
        human: human.to_string(),
    }
}

#[test]
fn detail_without_metadata_is_shown_as_is() {
    assert_eq!(parse_probe_detail("codex 1.2 ready"), detail(None, "", "", "codex 1.2 ready"));
    assert_eq!(parse_probe_detail(""), detail(None, "", "", ""));
}

#[test]
fn unterminated_metadata_fails_open() {
    let packed = format!("{PROBE_AUTH_SENTINEL}auth=logged_in");
    assert_eq!(parse_probe_detail(&packed), detail(None, "", "", "auth=logged_in"));
}

#[test]
fn packed_metadata_is_unpacked() {
    let packed = format!(
        "{s}auth=not_logged_in|login=codex login|install=npm i -g @openai/codex{s}codex 1.2 — sign in first",
        s = PROBE_AUTH_SENTINEL
    );
    assert_eq!(
        parse_probe_detail(&packed),
        detail(Some("not_logged_in"), "codex login", "npm i -g @openai/codex", "codex 1.2 — sign in first")
    );
}

#[test]
fn last_field_wins_and_unknown_fields_are_ignored() {
    let packed = format!("{s}auth=a|colour=blue|auth=b|login=x|login=y{s}human", s = PROBE_AUTH_SENTINEL);
    assert_eq!(parse_probe_detail(&packed), detail(Some("b"), "y", "", "human"));
}

#[test]
fn empty_metadata_has_no_tag() {
    let packed = format!("{s}{s}only human", s = PROBE_AUTH_SENTINEL);
    assert_eq!(parse_probe_detail(&packed), detail(None, "", "", "only human"));
}

#[test]
fn human_text_may_contain_the_separator_characters() {
    let packed = format!("{s}auth=logged_in{s}a|b{s}c", s = PROBE_AUTH_SENTINEL);
    assert_eq!(
        parse_probe_detail(&packed),
        detail(Some("logged_in"), "", "", &format!("a|b{PROBE_AUTH_SENTINEL}c"))
    );
}

#[test]
fn busy_base_is_never_switched() {
    assert_eq!(backend_switch_verdict(true, None, true), SwitchVerdict::Busy);
    assert_eq!(backend_switch_verdict(true, Some((AuthMark::LoggedIn, true)), false), SwitchVerdict::Busy);
}

#[test]
fn missing_base_is_refused() {
    assert_eq!(backend_switch_verdict(false, Some((AuthMark::NotInstalled, false)), true), SwitchVerdict::Unavailable);
    assert_eq!(backend_switch_verdict(false, Some((AuthMark::Unknown, false)), false), SwitchVerdict::Unavailable);
    assert_eq!(backend_switch_verdict(false, Some((AuthMark::Unknown, true)), false), SwitchVerdict::Switch);
}

#[test]
fn not_logged_in_base_needs_a_repeated_request() {
    assert_eq!(backend_switch_verdict(false, Some((AuthMark::NotLoggedIn, true)), false), SwitchVerdict::ConfirmLogin);
    assert_eq!(backend_switch_verdict(false, Some((AuthMark::NotLoggedIn, true)), true), SwitchVerdict::Switch);
}

#[test]
fn unprobed_or_logged_in_base_switches() {
    assert_eq!(backend_switch_verdict(false, None, false), SwitchVerdict::Switch);
    assert_eq!(backend_switch_verdict(false, Some((AuthMark::LoggedIn, false)), false), SwitchVerdict::Switch);
}

#[test]
fn active_base_unavailability() {
    assert!(definitely_unavailable(AuthMark::NotInstalled, true));
    assert!(definitely_unavailable(AuthMark::Unknown, false));
    assert!(!definitely_unavailable(AuthMark::Unknown, true));
    assert!(!definitely_unavailable(AuthMark::NotLoggedIn, false));
    assert!(!definitely_unavailable(AuthMark::LoggedIn, false));
}

#[test]
fn remediation_prefers_a_non_blank_command() {
    assert_eq!(remediation("npm i -g x", "detail"), "npm i -g x");
    assert_eq!(remediation("  \t", "detail"), "detail");
    assert_eq!(remediation("", "detail"), "detail");
}
