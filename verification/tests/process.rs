use umadev::process::{
    child_env_overrides, executable_extensions_for, process_has_exact_argument,
    windows_clipboard_payload, BoundedTail,
};

#[test]
fn windows_children_never_search_the_current_directory() {
    assert_eq!(
        child_env_overrides(true),
        [("NoDefaultCurrentDirectoryInExePath", "1")]
    );
    assert!(child_env_overrides(false).is_empty());
}

#[test]
fn bounded_tail_keeps_only_the_newest_bytes() {
    let mut tail = BoundedTail::new(5);
    tail.push(b"abc");
    tail.push(b"defgh");
    assert_eq!(tail.len(), 5);
    assert_eq!(tail.total_seen(), 8);
    assert!(tail.truncated());
    assert_eq!(tail.into_bytes(), b"defgh");

    let mut zero = BoundedTail::new(0);
    zero.push(b"never retained");
    assert!(zero.is_empty());
    assert!(zero.truncated());
}

#[test]
fn bounded_tail_drops_only_what_overflows() {
    let mut tail = BoundedTail::new(6);
    tail.push(b"abcd");
    assert!(!tail.truncated());
    tail.push(b"ef");
    assert!(!tail.truncated());
    tail.push(b"gh");
    assert_eq!(tail.total_seen(), 8);
    assert!(tail.truncated());
    assert_eq!(tail.clone().into_bytes(), b"cdefgh");
    tail.push(b"0123456789");
    assert_eq!(tail.len(), 6);
    assert_eq!(tail.clone().into_bytes(), b"456789");
    tail.clear();
    assert!(tail.is_empty());
    assert_eq!(tail.total_seen(), 0);
    assert!(!tail.truncated());
}

#[test]
fn bounded_tail_pieces_equal_one_push() {
    let data = b"the quick brown fox jumps over the lazy dog";
    let mut whole = BoundedTail::new(7);
    whole.push(data);
    let mut pieces = BoundedTail::new(7);
    for chunk in data.chunks(3) {
        pieces.push(chunk);
    }
    assert_eq!(whole.into_bytes(), pieces.into_bytes());
}

#[test]
fn windows_clipboard_payload_is_utf16_nul_terminated() {
    let text = "继续补充 MOM e\u{301} 🙂\r\n第二行";
    let payload = windows_clipboard_payload(text).expect("valid clipboard text");
    assert_eq!(payload.last(), Some(&0));
    assert_eq!(
        String::from_utf16(&payload[..payload.len() - 1]).unwrap(),
        text
    );
    assert_eq!(windows_clipboard_payload("a\0b"), None);
}

#[test]
fn clipboard_payload_encodes_surrogate_pairs() {
    assert_eq!(
        windows_clipboard_payload("🙂").unwrap(),
        vec![0xD83D, 0xDE42, 0]
    );
    assert_eq!(windows_clipboard_payload("").unwrap(), vec![0]);
}

#[test]
fn windows_extensions_keep_only_directly_spawnable_types() {
    assert_eq!(
        executable_extensions_for(Some(".PS1;.CMD;.EXE;.JS;.cmd"), true),
        [".CMD", ".EXE", ".COM", ".BAT", ""]
    );
    assert_eq!(
        executable_extensions_for(None, true),
        [".COM", ".EXE", ".BAT", ".CMD", ""]
    );
    assert_eq!(executable_extensions_for(Some(".PS1"), false), [""]);
}

#[test]
fn pathext_entries_are_trimmed_and_case_folded() {
    assert_eq!(
        executable_extensions_for(Some(" .bat ; .com"), true),
        [".BAT", ".COM", ".EXE", ".CMD", ""]
    );
    assert_eq!(
        executable_extensions_for(Some(""), true),
        [".COM", ".EXE", ".BAT", ".CMD", ""]
    );
}

#[test]
fn exact_argument_lookup_fails_closed() {
    let cmdline = b"/usr/bin/tool\0--session\0abc-123\0";
    assert_eq!(process_has_exact_argument(42, "abc-123", Some(cmdline)), Some(true));
    assert_eq!(process_has_exact_argument(42, "abc", Some(cmdline)), Some(false));
    assert_eq!(process_has_exact_argument(0, "abc-123", Some(cmdline)), None);
    assert_eq!(process_has_exact_argument(42, "", Some(cmdline)), None);
    assert_eq!(process_has_exact_argument(42, "a\0b", Some(cmdline)), None);
    assert_eq!(process_has_exact_argument(42, "abc-123", None), None);
    assert_eq!(process_has_exact_argument(42, "abc-123", Some(b"")), None);
    let oversized = vec![b'x'; 1024 * 1024 + 1];
    assert_eq!(process_has_exact_argument(42, "x", Some(&oversized)), None);
}

use umadev::process::{
    find_in_dir, find_on_path, is_installed, process_is_alive, procargs_has_exact_argument,
    resolve_on_path, LivenessProbe,
};

#[test]
fn liveness_maps_native_answers_conservatively() {
    assert_eq!(process_is_alive(None), None);
    assert_eq!(process_is_alive(Some(LivenessProbe::OpenFailed(87))), Some(false));
    assert_eq!(process_is_alive(Some(LivenessProbe::OpenFailed(5))), Some(true));
    assert_eq!(process_is_alive(Some(LivenessProbe::OpenFailed(6))), None);
    assert_eq!(process_is_alive(Some(LivenessProbe::Waited(0))), Some(false));
    assert_eq!(process_is_alive(Some(LivenessProbe::Waited(258))), Some(true));
    assert_eq!(process_is_alive(Some(LivenessProbe::Waited(1))), None);
}

#[test]
fn empty_missing_and_relative_directories_never_match() {
    assert_eq!(find_in_dir(false, &[true, true]), None);
    assert_eq!(find_in_dir(true, &[false, false]), None);
    assert_eq!(find_in_dir(true, &[]), None);
    assert_eq!(find_in_dir(true, &[false, true, true]), Some(1));
}

#[test]
fn unresolved_programs_keep_their_name() {
    assert_eq!(resolve_on_path("codex", Some("/usr/bin/codex")), "/usr/bin/codex");
    assert_eq!(resolve_on_path("codex", None), "codex");
}

#[test]
fn path_lookup_takes_the_first_spawnable_candidate_in_path_order() {
    let dirs = vec![vec![false, false], vec![false, true, true], vec![true]];
    assert_eq!(find_on_path("codex", false, &dirs), Some((1, 1)));
    assert_eq!(find_on_path("codex", false, &[vec![false], vec![]]), None);
    assert_eq!(find_on_path("codex", false, &[]), None);
    // Empty names and names with a separator are never looked up.
    assert_eq!(find_on_path("", false, &dirs), None);
    assert_eq!(find_on_path("bin/codex", false, &dirs), None);
    assert_eq!(find_on_path("bin\\codex", true, &dirs), None);
    assert_eq!(find_on_path("bin\\codex", false, &dirs), Some((1, 1)));
}

#[test]
fn installed_programs_are_checked_by_path_or_lookup() {
    assert!(is_installed("/usr/bin/git", false, true, false));
    assert!(!is_installed("/usr/bin/git", false, false, true));
    assert!(is_installed("git", false, false, true));
    assert!(!is_installed("git", false, true, false));
    assert!(is_installed("C:\\tools\\git.exe", true, true, false));
    assert!(!is_installed("", false, true, false));
}

#[test]
fn job_support_matches_target() {
    // This suite runs on a non-Windows target.
    assert!(!umadev::process::has_kill_on_close_job(false));
    assert!(umadev::process::has_kill_on_close_job(true));
}

fn procargs(argc: i32, exec_path: &[u8], padding: usize, args: &[&[u8]]) -> Vec<u8> {
    let mut buffer = argc.to_le_bytes().to_vec();
    buffer.extend_from_slice(exec_path);
    buffer.push(0);
    buffer.extend(std::iter::repeat(0u8).take(padding));
    for arg in args {
        buffer.extend_from_slice(arg);
        buffer.push(0);
    }
    buffer
}

#[test]
fn macos_argument_buffers_are_matched_exactly() {
    let buffer = procargs(3, b"/usr/bin/codex", 3, &[b"codex", b"--session", b"abc123"]);
    assert_eq!(procargs_has_exact_argument(&buffer, b"--session"), Some(true));
    assert_eq!(procargs_has_exact_argument(&buffer, b"abc123"), Some(true));
    assert_eq!(procargs_has_exact_argument(&buffer, b"abc12"), Some(false));
    assert_eq!(procargs_has_exact_argument(&buffer, b"/usr/bin/codex"), Some(false));
    // Only argc arguments count; later strings are environment.
    let buffer = procargs(1, b"/bin/app", 0, &[b"app", b"SECRET=1"]);
    assert_eq!(procargs_has_exact_argument(&buffer, b"SECRET=1"), Some(false));
    // Malformed buffers fail closed.
    assert_eq!(procargs_has_exact_argument(&[1, 0, 0], b"x"), None);
    let negative = procargs(-1, b"/bin/app", 0, &[b"x"]);
    assert_eq!(procargs_has_exact_argument(&negative, b"x"), None);
    let missing = procargs(3, b"/bin/app", 0, &[b"app"]);
    assert_eq!(procargs_has_exact_argument(&missing, b"--flag"), None);
    let mut unterminated = 1i32.to_le_bytes().to_vec();
    unterminated.extend_from_slice(b"/bin/app");
    assert_eq!(procargs_has_exact_argument(&unterminated, b"x"), None);
    assert_eq!(procargs_has_exact_argument(&procargs(0, b"/bin/app", 0, &[]), b"x"), Some(false));
}
