use umadev::clipboard::{
    clipboard_remote_from_env, clipboard_wsl_from_signals, native_clipboard_plan,
    native_clipboard_plan_for, normalize_clipboard_newlines, plan_uses_crlf, NativeClipboardPlan,
};
use umadev::clipboard_image::{
    contents_verdict, generated_png_expired, helper_failure_verdict, HelperFailure, HelperVerdict, linux_plan, macos_plan,
    metadata_verdict, pasted_image_name, preflight, select_platform, windows_plan, CaptureVerdict,
    OutputMode, Platform, Preflight,
};

#[test]
fn native_plan_never_routes_windows_to_unix_commands() {
    assert_eq!(
        native_clipboard_plan("windows"),
        NativeClipboardPlan::Windows
    );
    assert_eq!(native_clipboard_plan("macos"), NativeClipboardPlan::Macos);
    assert_eq!(
        native_clipboard_plan("linux"),
        NativeClipboardPlan::UnixLike
    );
    assert_eq!(
        native_clipboard_plan("freebsd"),
        NativeClipboardPlan::UnixLike
    );
}

#[test]
fn wsl_routes_text_to_the_windows_clipboard_bridge() {
    assert!(clipboard_wsl_from_signals(true, false, ""));
    assert!(clipboard_wsl_from_signals(false, true, ""));
    assert!(clipboard_wsl_from_signals(
        false,
        false,
        "5.15.153.1-microsoft-standard-WSL2"
    ));
    assert!(!clipboard_wsl_from_signals(false, false, "6.8.0-generic"));
    assert_eq!(
        native_clipboard_plan_for("linux", true),
        NativeClipboardPlan::Wsl
    );
    assert_eq!(
        native_clipboard_plan_for("windows", true),
        NativeClipboardPlan::Windows,
        "native Windows keeps the direct UTF-16 API"
    );
}

#[test]
fn newlines_match_each_platform_without_doubling_crlf() {
    let mixed = "第一行\r\nsecond\rthird\n";
    assert_eq!(
        normalize_clipboard_newlines(mixed, false),
        "第一行\nsecond\nthird\n"
    );
    assert_eq!(
        normalize_clipboard_newlines(mixed, true),
        "第一行\r\nsecond\r\nthird\r\n"
    );
}

#[test]
fn normalizing_twice_changes_nothing() {
    let mixed = "a\r\r\nb\n\rc\r";
    let once = normalize_clipboard_newlines(mixed, true);
    assert_eq!(once, "a\r\n\r\nb\r\n\r\nc\r\n");
    assert_eq!(normalize_clipboard_newlines(&once, true), once);
    assert!(plan_uses_crlf(NativeClipboardPlan::Wsl));
    assert!(!plan_uses_crlf(NativeClipboardPlan::Macos));
}

#[test]
fn remote_detection_ignores_a_stale_ssh_tty() {
    assert!(clipboard_remote_from_env(true, true));
    assert!(clipboard_remote_from_env(true, false));
    assert!(!clipboard_remote_from_env(false, true));
    assert!(!clipboard_remote_from_env(false, false));
}

#[test]
fn preflight_is_honest_and_remote_wins_over_everything() {
    assert_eq!(preflight(false, false, false), Preflight::Ready);
    assert_eq!(preflight(true, false, false), Preflight::Remote);
    assert_eq!(preflight(false, true, false), Preflight::Tmux);
    assert_eq!(preflight(false, false, true), Preflight::Offline);
    assert_eq!(preflight(true, true, true), Preflight::Remote);
}

#[test]
fn macos_argv_passes_the_generated_path_as_data() {
    let target = "/tmp/a path/图.png";
    let plan = macos_plan(target);
    let args = plan.args.clone();
    assert_eq!(plan.program, "osascript");
    assert_eq!(args[0], "-e");
    assert!(args[1].contains("the clipboard as «class PNGf»"));
    assert!(args[1].contains("item 1 of argv"));
    assert!(!args[1].contains("/tmp/a path"));
    assert_eq!(&args[2..], ["--", "/tmp/a path/图.png"]);
}

#[test]
fn linux_argv_is_exact_for_wayland_and_x11() {
    let wayland = linux_plan(true);
    assert_eq!(wayland.program, "wl-paste");
    assert_eq!(wayland.args, ["--type", "image/png"]);
    assert_eq!(wayland.missing_hint, Some("wl-clipboard"));
    assert_eq!(wayland.output, OutputMode::Stdout);

    let x11 = linux_plan(false);
    assert_eq!(x11.program, "xclip");
    assert_eq!(x11.args, ["-selection", "clipboard", "-t", "image/png", "-o"]);
    assert_eq!(x11.missing_hint, Some("xclip"));
}

#[test]
fn platform_selection_covers_native_and_wsl_desktops() {
    assert_eq!(select_platform("macos", false, false), Platform::Macos);
    assert_eq!(select_platform("windows", false, false), Platform::Windows);
    assert_eq!(select_platform("linux", true, false), Platform::Windows);
    assert_eq!(select_platform("linux", false, true), Platform::Wayland);
    assert_eq!(select_platform("linux", false, false), Platform::X11);
}

#[test]
fn windows_argv_locks_sta_and_never_interpolates_the_path_into_script() {
    let path = r"C:\Users\我\shot '); Write-Output pwned; #.png";
    let plan = windows_plan(path);
    let args = plan.args.clone();
    assert_eq!(plan.program, "powershell.exe");
    assert_eq!(
        &args[..4],
        ["-NoProfile", "-NonInteractive", "-STA", "-Command"]
    );
    assert!(args[4].contains("System.Windows.Forms"));
    assert!(args[4].contains("[Convert]::FromBase64String"));
    assert!(args[4].contains("[Text.Encoding]::Unicode.GetString"));
    assert!(!args[4].contains("Write-Output pwned"));
    assert!(!args[4].contains(r"C:\Users"));
    assert_eq!(args.len(), 5, "-Command must be the final argument");
    let start = args[4].find("FromBase64String('").unwrap() + "FromBase64String('".len();
    let end = start + args[4][start..].find('\'').unwrap();
    let encoded = &args[4][start..end];
    let expected: Vec<u8> = path.encode_utf16().flat_map(u16::to_le_bytes).collect();
    assert_eq!(encoded.len() % 4, 0);
    assert_eq!(decode_base64(encoded), expected);
}

fn decode_base64(text: &str) -> Vec<u8> {
    let alphabet = b"ABCDEFGHIJKLMNOPQRSTUVWXYZabcdefghijklmnopqrstuvwxyz0123456789+/";
    let mut bits: u32 = 0;
    let mut count = 0;
    let mut out = Vec::new();
    for byte in text.bytes() {
        if byte == b'=' {
            break;
        }
        let value = alphabet.iter().position(|c| *c == byte).unwrap() as u32;
        bits = (bits << 6) | value;
        count += 6;
        if count >= 8 {
            count -= 8;
            out.push((bits >> count) as u8);
            bits &= (1 << count) - 1;
        }
    }
    out
}

#[test]
fn captured_files_are_judged_by_size_and_signature() {
    assert_eq!(metadata_verdict(false, Some((true, 1)), 10), Some(CaptureVerdict::Failed));
    assert_eq!(metadata_verdict(true, None, 10), Some(CaptureVerdict::Failed));
    assert_eq!(metadata_verdict(true, Some((false, 1)), 10), Some(CaptureVerdict::Failed));
    assert_eq!(metadata_verdict(true, Some((true, 11)), 10), Some(CaptureVerdict::TooLarge(11)));
    assert_eq!(metadata_verdict(true, Some((true, 10)), 10), None);
    let png = [0x89, b'P', b'N', b'G', 0x0d, 0x0a, 0x1a, 0x0a, b'b', b'o', b'd', b'y'];
    assert_eq!(contents_verdict(Some(&png)), CaptureVerdict::Image);
    assert_eq!(contents_verdict(Some(b"not a png")), CaptureVerdict::NoImage);
    assert_eq!(contents_verdict(Some(&png[..7])), CaptureVerdict::NoImage);
    assert_eq!(contents_verdict(None), CaptureVerdict::Failed);
}

#[test]
fn only_old_generated_pngs_expire() {
    let week: u128 = 7 * 24 * 60 * 60 * 1_000_000_000;
    assert!(generated_png_expired(true, Some("png"), Some(week + 1)));
    assert!(!generated_png_expired(true, Some("png"), Some(week)));
    assert!(!generated_png_expired(true, Some("jpg"), Some(week + 1)));
    assert!(!generated_png_expired(false, Some("png"), Some(week + 1)));
    assert!(!generated_png_expired(true, Some("png"), None));
}

#[test]
fn pasted_image_names_come_only_from_time_process_and_sequence() {
    assert_eq!(
        pasted_image_name(1_700_000_000_123, 4242, 0),
        "1700000000123-4242-0.png"
    );
    assert_eq!(
        pasted_image_name(u128::MAX, u32::MAX, u64::MAX),
        format!("{}-{}-{}.png", u128::MAX, u32::MAX, u64::MAX)
    );
    assert_eq!(pasted_image_name(0, 0, 7), "0-0-7.png");
}

#[test]
fn helper_failures_are_reported_honestly() {
    assert_eq!(
        helper_failure_verdict(HelperFailure::NotFound, Some("wl-clipboard")),
        HelperVerdict::MissingTool("wl-clipboard")
    );
    assert_eq!(helper_failure_verdict(HelperFailure::NotFound, None), HelperVerdict::Failed);
    assert_eq!(
        helper_failure_verdict(HelperFailure::OutputTooLarge(11), Some("xclip")),
        HelperVerdict::TooLarge(11)
    );
    assert_eq!(helper_failure_verdict(HelperFailure::TimedOut, Some("xclip")), HelperVerdict::Failed);
    assert_eq!(helper_failure_verdict(HelperFailure::OtherIo, None), HelperVerdict::Failed);
}
