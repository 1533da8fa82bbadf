//! Decisions of the clipboard-image capture: whether a capture may start,
//! which platform command reads the image, the exact argv it gets, and what
//! the captured file is judged to be.
//!
//! The capture target path is generated by the caller, never from clipboard
//! contents, and it only ever reaches a helper as data: an argv element, or a
//! Base64 literal inside a fixed PowerShell script.

use base64::Engine;
use vstd::prelude::*;

use crate::process::utf16_encode;
use crate::numerals::{append_chars, decimal, decimal_chars, lemma_decimal_digits};
use crate::text::{chars_eq_str, chars_of, string_of};

verus! {

/// Largest accepted clipboard image, in bytes.
pub const MAX_IMAGE_BYTES: u64 = 10485760;

/// How long a generated image is kept, in nanoseconds (seven days).
pub const RETENTION_NANOS: u128 = 604800000000000;

/// The eight bytes every PNG file starts with.
pub open spec fn png_signature() -> Seq<u8> {
    seq![0x89u8, 0x50u8, 0x4Eu8, 0x47u8, 0x0Du8, 0x0Au8, 0x1Au8, 0x0Au8]
}

/// The cheap check made before the blocking capture worker starts.
#[derive(Debug, Clone, Copy, PartialEq, Eq, Structural)]
pub enum Preflight {
    Ready,
    Remote,
    Tmux,
    Offline,
}

/// Whether a capture may start: a remote session wins over everything, then
/// tmux, then offline mode.
pub fn preflight(remote: bool, tmux: bool, offline: bool) -> (p: Preflight)
    ensures
        p == if remote {
            Preflight::Remote
        } else if tmux {
            Preflight::Tmux
        } else if offline {
            Preflight::Offline
        } else {
            Preflight::Ready
        },
{
    if remote {
        Preflight::Remote
    } else if tmux {
        Preflight::Tmux
    } else if offline {
        Preflight::Offline
    } else {
        Preflight::Ready
    }
}

/// The desktop a capture runs against.
#[derive(Debug, Clone, Copy, PartialEq, Eq, Structural)]
pub enum Platform {
    Macos,
    Windows,
    Wayland,
    X11,
}

/// The platform for `os` (as `std::env::consts::OS` names it): WSL reads the
/// Windows clipboard.
pub open spec fn platform_of(os: Seq<char>, wsl: bool, wayland: bool) -> Platform {
    if os == "macos"@ {
        Platform::Macos
    } else if os == "windows"@ || wsl {
        Platform::Windows
    } else if wayland {
        Platform::Wayland
    } else {
        Platform::X11
    }
}

/// Select the capture platform.
pub fn select_platform(os: &str, wsl: bool, wayland: bool) -> (p: Platform)
    ensures
        p == platform_of(os@, wsl, wayland),
{
    let cs = chars_of(os);
    if chars_eq_str(cs.as_slice(), "macos") {
        Platform::Macos
    } else if chars_eq_str(cs.as_slice(), "windows") || wsl {
        Platform::Windows
    } else if wayland {
        Platform::Wayland
    } else {
        Platform::X11
    }
}

/// Where a helper puts the image.
#[derive(Debug, Clone, Copy, PartialEq, Eq, Structural)]
pub enum OutputMode {
    /// The command itself writes the path passed in its argv.
    Direct,
    /// The command writes image bytes to stdout; the caller owns the file.
    Stdout,
}

/// One helper invocation.
#[derive(Debug, Clone)]
pub struct CommandPlan {
    pub program: &'static str,
    pub args: Vec<String>,
    pub output: OutputMode,
    /// The package to suggest when the program is missing.
    pub missing_hint: Option<&'static str>,
}

/// The views of a list of strings.
pub open spec fn string_views(v: Seq<String>) -> Seq<Seq<char>> {
    v.map_values(|s: String| s@)
}

fn strings_of(parts: &[&str]) -> (r: Vec<String>)
    ensures
        string_views(r@) == parts@.map_values(|p: &str| p@),
{
    let mut r: Vec<String> = Vec::new();
    let mut i: usize = 0;
    while i < parts.len()
        invariant
            i <= parts@.len(),
            string_views(r@) == parts@.take(i as int).map_values(|p: &str| p@),
        decreases parts.len() - i,
    {
        let ghost prev = string_views(r@);
        r.push(parts[i].to_owned());
        proof {
            assert(string_views(r@) =~= prev.push(parts@[i as int]@));
            assert(parts@.take(i + 1).map_values(|p: &str| p@) =~= parts@.take(i as int).map_values(
                |p: &str| p@,
            ).push(parts@[i as int]@));
        }
        i += 1;
    }
    proof {
        assert(parts@.take(parts@.len() as int) =~= parts@);
    }
    r
}

/// The Linux helper: `wl-paste` on Wayland, `xclip` on X11, both writing the
/// PNG to stdout.
pub fn linux_plan(wayland: bool) -> (p: CommandPlan)
    ensures
        p.output == OutputMode::Stdout,
        p.missing_hint matches Some(h) && h@ == (if wayland {
            "wl-clipboard"@
        } else {
            "xclip"@
        }),
        wayland ==> p.program@ == "wl-paste"@ && string_views(p.args@) == seq![
            "--type"@,
            "image/png"@,
        ],
        !wayland ==> p.program@ == "xclip"@ && string_views(p.args@) == seq![
            "-selection"@,
            "clipboard"@,
            "-t"@,
            "image/png"@,
            "-o"@,
        ],
{
    if wayland {
        let a: &[&str; 2] = &["--type", "image/png"];
        let args = strings_of(a);
        proof {
            assert(a@.map_values(|p: &str| p@) =~= seq!["--type"@, "image/png"@]);
        }
        CommandPlan {
            program: "wl-paste",
            args,
            output: OutputMode::Stdout,
            missing_hint: Some("wl-clipboard"),
        }
    } else {
        let a: &[&str; 5] = &["-selection", "clipboard", "-t", "image/png", "-o"];
        let args = strings_of(a);
        proof {
            assert(a@.map_values(|p: &str| p@) =~= seq![
                "-selection"@,
                "clipboard"@,
                "-t"@,
                "image/png"@,
                "-o"@,
            ]);
        }
        CommandPlan { program: "xclip", args, output: OutputMode::Stdout, missing_hint: Some("xclip") }
    }
}

/// The AppleScript that writes the clipboard's PNG data to the path given as
/// its first argument.
pub const MACOS_SCRIPT: &'static str = "on run argv
set targetFile to POSIX file (item 1 of argv)
set pngData to the clipboard as «class PNGf»
set fileRef to open for access targetFile with write permission
try
    set eof fileRef to 0
    write pngData to fileRef
    close access fileRef
on error errMsg number errNum
    try
        close access fileRef
    end try
    error errMsg number errNum
end try
end run";

/// The macOS helper: `osascript` with the script, and the target path passed
/// as data after `--`.
pub fn macos_plan(target: &str) -> (p: CommandPlan)
    ensures
        p.program@ == "osascript"@,
        string_views(p.args@) == seq!["-e"@, MACOS_SCRIPT@, "--"@, target@],
        p.output == OutputMode::Direct,
        p.missing_hint is None,
{
    let a: [&str; 4] = ["-e", MACOS_SCRIPT, "--", target];
    let args = strings_of(&a);
    proof {
        assert(a@.map_values(|p: &str| p@) =~= seq!["-e"@, MACOS_SCRIPT@, "--"@, target@]);
    }
    CommandPlan { program: "osascript", args, output: OutputMode::Direct, missing_hint: None }
}

/// The little-endian bytes of UTF-16 code units (`u16::to_le_bytes` each).
pub open spec fn le_bytes(units: Seq<u16>) -> Seq<u8>
    decreases units.len(),
{
    if units.len() == 0 {
        seq![]
    } else {
        le_bytes(units.drop_last()) + seq![
            (units.last() % 256) as u8,
            (units.last() / 256) as u8,
        ]
    }
}

/// The character of one 6-bit group in the standard Base64 alphabet
/// (RFC 4648, table 1): `A`–`Z`, `a`–`z`, `0`–`9`, `+`, `/`.
pub open spec fn base64_digit(v: int) -> char {
    if v < 26 {
        (65 + v) as char
    } else if v < 52 {
        (97 + v - 26) as char
    } else if v < 62 {
        (48 + v - 52) as char
    } else if v == 62 {
        '+'
    } else {
        '/'
    }
}

/// The standard, padded Base64 text of `bytes` (RFC 4648, section 4): each
/// group of three bytes becomes four characters, and a final group of one or
/// two bytes becomes four characters ending in `==` or `=`.
pub open spec fn base64_standard(bytes: Seq<u8>) -> Seq<char>
    decreases bytes.len(),
{
    let b0 = bytes[0] as int;
    let b1 = bytes[1] as int;
    let b2 = bytes[2] as int;
    if bytes.len() == 0 {
        seq![]
    } else if bytes.len() == 1 {
        seq![base64_digit(b0 / 4), base64_digit((b0 % 4) * 16), '=', '=']
    } else if bytes.len() == 2 {
        seq![base64_digit(b0 / 4), base64_digit((b0 % 4) * 16 + b1 / 16), base64_digit((b1 % 16) * 4), '=']
    } else {
        seq![
            base64_digit(b0 / 4),
            base64_digit((b0 % 4) * 16 + b1 / 16),
            base64_digit((b1 % 16) * 4 + b2 / 64),
            base64_digit(b2 % 64),
        ] + base64_standard(bytes.skip(3))
    }
}

/// `base64::engine::general_purpose::STANDARD.encode(bytes)`.
///
/// Claimed of the crate: the result is the padded standard Base64 text of the
/// bytes, a function of the bytes alone. The crate panics when the encoded
/// length overflows `usize`, which the bound on the input rules out.
#[verifier::external_body]
fn base64_encode(bytes: &[u8]) -> (s: String)
    requires
        bytes@.len() <= usize::MAX / 2,
    ensures
        s@ == base64_standard(bytes@),
{
    base64::engine::general_purpose::STANDARD.encode(bytes)
}

/// The UTF-16LE bytes of a path.
fn utf16le_bytes(target: &str) -> (b: Vec<u8>)
    ensures
        b@ == le_bytes(utf16_encode(target@)),
        b@.len() <= 4 * target@.len(),
{
    let cs = chars_of(target);
    let mut units: Vec<u16> = Vec::new();
    let mut i: usize = 0;
    while i < cs.len()
        invariant
            i <= cs@.len(),
            cs@ == target@,
            units@ == utf16_encode(cs@.take(i as int)),
            units@.len() <= 2 * i,
        decreases cs.len() - i,
    {
        let c = cs[i];
        proof {
            assert(cs@.take(i + 1).drop_last() =~= cs@.take(i as int));
        }
        let u = c as u32;
        if u < 0x10000 {
            units.push(u as u16);
        } else {
            let v = u - 0x10000;
            units.push((0xD800 + v / 0x400) as u16);
            units.push((0xDC00 + v % 0x400) as u16);
        }
        proof {
            assert(units@ =~= utf16_encode(cs@.take(i as int)) + crate::process::utf16_units(c));
        }
        i += 1;
    }
    proof {
        assert(cs@.take(cs@.len() as int) =~= cs@);
    }
    let mut b: Vec<u8> = Vec::new();
    let mut k: usize = 0;
    while k < units.len()
        invariant
            k <= units@.len(),
            units@.len() <= 2 * cs@.len(),
            b@ == le_bytes(units@.take(k as int)),
            b@.len() == 2 * k,
        decreases units.len() - k,
    {
        let u = units[k];
        b.push((u % 256) as u8);
        b.push((u / 256) as u8);
        proof {
            assert(units@.take(k + 1).drop_last() =~= units@.take(k as int));
        }
        k += 1;
    }
    proof {
        assert(units@.take(units@.len() as int) =~= units@);
    }
    b
}

/// The PowerShell text before the Base64 path literal.
pub const WINDOWS_SCRIPT_HEAD: &'static str = "Add-Type -AssemblyName System.Windows.Forms; $target = [Text.Encoding]::Unicode.GetString([Convert]::FromBase64String('";

/// The PowerShell text after the Base64 path literal.
pub const WINDOWS_SCRIPT_TAIL: &'static str = "')); $img = [Windows.Forms.Clipboard]::GetImage(); if ($null -eq $img) { exit 1 }; $img.Save($target, [System.Drawing.Imaging.ImageFormat]::Png); $img.Dispose()";

/// The Windows helper for a target whose UTF-16LE path is `encoded` in
/// Base64: PowerShell in a single-threaded apartment, with the path embedded
/// only as a Base64 literal so path characters never become script.
pub fn windows_plan_encoded(encoded: &str) -> (p: CommandPlan)
    ensures
        p.program@ == "powershell.exe"@,
        string_views(p.args@) == seq![
            "-NoProfile"@,
            "-NonInteractive"@,
            "-STA"@,
            "-Command"@,
            WINDOWS_SCRIPT_HEAD@ + encoded@ + WINDOWS_SCRIPT_TAIL@,
        ],
        p.output == OutputMode::Direct,
        p.missing_hint is None,
{
    let mut script = chars_of(WINDOWS_SCRIPT_HEAD);
    let mid = chars_of(encoded);
    let tail = chars_of(WINDOWS_SCRIPT_TAIL);
    let ghost head = script@;
    let mut i: usize = 0;
    while i < mid.len()
        invariant
            i <= mid@.len(),
            script@ == head + mid@.take(i as int),
        decreases mid.len() - i,
    {
        script.push(mid[i]);
        proof {
            assert(mid@.take(i + 1) =~= mid@.take(i as int).push(mid@[i as int]));
            assert(script@ =~= head + mid@.take(i + 1));
        }
        i += 1;
    }
    let ghost with_mid = script@;
    proof {
        assert(mid@.take(mid@.len() as int) =~= mid@);
    }
    let mut j: usize = 0;
    while j < tail.len()
        invariant
            j <= tail@.len(),
            script@ == with_mid + tail@.take(j as int),
        decreases tail.len() - j,
    {
        script.push(tail[j]);
        proof {
            assert(tail@.take(j + 1) =~= tail@.take(j as int).push(tail@[j as int]));
            assert(script@ =~= with_mid + tail@.take(j + 1));
        }
        j += 1;
    }
    proof {
        assert(tail@.take(tail@.len() as int) =~= tail@);
    }
    let a: &[&str; 4] = &["-NoProfile", "-NonInteractive", "-STA", "-Command"];
    let mut args = strings_of(a);
    let ghost prev = string_views(args@);
    args.push(string_of(script.as_slice()));
    proof {
        assert(a@.map_values(|p: &str| p@) =~= seq![
            "-NoProfile"@,
            "-NonInteractive"@,
            "-STA"@,
            "-Command"@,
        ]);
        assert(string_views(args@) =~= prev.push(script@));
    }
    CommandPlan { program: "powershell.exe", args, output: OutputMode::Direct, missing_hint: None }
}

/// The Windows helper for `target`: its UTF-16LE path, Base64-encoded, inside
/// the fixed script.
pub fn windows_plan(target: &str) -> (p: CommandPlan)
    requires
        4 * target@.len() <= usize::MAX / 2,
    ensures
        p.program@ == "powershell.exe"@,
        string_views(p.args@) == seq![
            "-NoProfile"@,
            "-NonInteractive"@,
            "-STA"@,
            "-Command"@,
            WINDOWS_SCRIPT_HEAD@ + base64_standard(le_bytes(utf16_encode(target@)))
                + WINDOWS_SCRIPT_TAIL@,
        ],
        p.output == OutputMode::Direct,
{
    let bytes = utf16le_bytes(target);
    let encoded = base64_encode(bytes.as_slice());
    windows_plan_encoded(encoded.as_str())
}

// ---------------------------------------------------------------------------
// Judging the captured file
// ---------------------------------------------------------------------------

/// What a finished capture produced.
#[derive(Debug, Clone, Copy, PartialEq, Eq, Structural)]
pub enum CaptureVerdict {
    /// A valid PNG.
    Image,
    /// The clipboard held no PNG.
    NoImage,
    /// A real image over the size limit, with its size.
    TooLarge(u64),
    /// Anything unexpected.
    Failed,
}

/// The verdict reachable from the target's metadata alone, if any: a target
/// outside the workspace or without metadata fails, one that is not a regular
/// file fails, and one over `max_bytes` is too large. `None` means the
/// contents decide (see [`contents_verdict`]). Every verdict after metadata
/// was read means the caller removes the file.
pub fn metadata_verdict(inside_root: bool, metadata: Option<(bool, u64)>, max_bytes: u64) -> (v: Option<
    CaptureVerdict,
>)
    ensures
        v == if !inside_root {
            Some(CaptureVerdict::Failed)
        } else {
            match metadata {
                None => Some(CaptureVerdict::Failed),
                Some((real_file, len)) => if !real_file {
                    Some(CaptureVerdict::Failed)
                } else if len > max_bytes {
                    Some(CaptureVerdict::TooLarge(len))
                } else {
                    None
                },
            }
        },
{
    if !inside_root {
        return Some(CaptureVerdict::Failed);
    }
    match metadata {
        None => Some(CaptureVerdict::Failed),
        Some((real_file, len)) => if !real_file {
            Some(CaptureVerdict::Failed)
        } else if len > max_bytes {
            Some(CaptureVerdict::TooLarge(len))
        } else {
            None
        },
    }
}

/// The verdict on the bytes read back: a read failure fails, a file that does
/// not start with the PNG signature holds no image.
pub fn contents_verdict(contents: Option<&[u8]>) -> (v: CaptureVerdict)
    ensures
        v == match contents {
            None => CaptureVerdict::Failed,
            Some(b) => if b@.len() >= 8 && b@.take(8) == png_signature() {
                CaptureVerdict::Image
            } else {
                CaptureVerdict::NoImage
            },
        },
{
    let b = match contents {
        None => {
            return CaptureVerdict::Failed;
        },
        Some(b) => b,
    };
    if b.len() < 8 {
        return CaptureVerdict::NoImage;
    }
    let ok = b[0] == 0x89 && b[1] == 0x50 && b[2] == 0x4E && b[3] == 0x47 && b[4] == 0x0D && b[5]
        == 0x0A && b[6] == 0x1A && b[7] == 0x0A;
    proof {
        if ok {
            assert(b@.take(8) =~= png_signature());
        } else {
            if b@.take(8) == png_signature() {
                assert(b@.take(8)[0] == b@[0]);
                assert(b@.take(8)[1] == b@[1]);
                assert(b@.take(8)[2] == b@[2]);
                assert(b@.take(8)[3] == b@[3]);
                assert(b@.take(8)[4] == b@[4]);
                assert(b@.take(8)[5] == b@[5]);
                assert(b@.take(8)[6] == b@[6]);
                assert(b@.take(8)[7] == b@[7]);
            }
        }
    }
    if ok {
        CaptureVerdict::Image
    } else {
        CaptureVerdict::NoImage
    }
}

/// Whether a generated image may be cleaned up: a regular `.png` file older
/// than the retention period. A file whose age is unknown is kept.
pub fn generated_png_expired(is_file: bool, extension: Option<&str>, age_nanos: Option<u128>) -> (b: bool)
    ensures
        b == (is_file && (extension matches Some(e) && e@ == "png"@) && (age_nanos matches Some(a)
            && a > RETENTION_NANOS)),
{
    if !is_file {
        return false;
    }
    let png = match extension {
        Some(e) => chars_eq_str(chars_of(e).as_slice(), "png"),
        None => false,
    };
    png && match age_nanos {
        Some(a) => a > RETENTION_NANOS,
        None => false,
    }
}

/// The file name of a pasted image: the capture time in milliseconds, the
/// process id and a per-process sequence number, joined by `-`, with `.png`.
/// Nothing from the clipboard takes part in it.
pub open spec fn pasted_image_name_spec(millis: u128, pid: u32, seq_no: u64) -> Seq<char> {
    decimal(millis as nat) + seq!['-'] + decimal(pid as nat) + seq!['-'] + decimal(seq_no as nat)
        + seq!['.', 'p', 'n', 'g']
}

/// Build the file name of a pasted image.
pub fn pasted_image_name(millis: u128, pid: u32, seq_no: u64) -> (r: String)
    ensures
        r@ == pasted_image_name_spec(millis, pid, seq_no),
{
    let mut out = decimal_chars(millis);
    out.push('-');
    append_chars(&mut out, decimal_chars(pid as u128).as_slice());
    out.push('-');
    append_chars(&mut out, decimal_chars(seq_no as u128).as_slice());
    out.push('.');
    out.push('p');
    out.push('n');
    out.push('g');
    proof {
        assert(out@ =~= pasted_image_name_spec(millis, pid, seq_no));
    }
    string_of(out.as_slice())
}

/// A pasted image's name is a plain file name whatever the inputs: it
/// starts with a digit, holds only ASCII digits, `-`, `.` and the letters
/// of `png`, and so never a path separator, and it ends in `.png`.
pub proof fn law_pasted_image_name_is_plain(millis: u128, pid: u32, seq_no: u64)
    ensures
        ({
            let name = pasted_image_name_spec(millis, pid, seq_no);
            &&& 48 <= (name[0] as u32) <= 57
            &&& forall|i: int| 0 <= i < name.len() ==> {
                let c = #[trigger] name[i];
                (48 <= (c as u32) <= 57) || c == '-' || c == '.' || c == 'p' || c == 'n' || c == 'g'
            }
            &&& name.len() >= 4 && name.subrange(name.len() - 4, name.len() as int) =~= seq!['.', 'p', 'n', 'g']
        }),
{
    lemma_decimal_digits(millis as nat);
    lemma_decimal_digits(pid as nat);
    lemma_decimal_digits(seq_no as nat);
    let a = decimal(millis as nat);
    let b = decimal(pid as nat);
    let c = decimal(seq_no as nat);
    let name = pasted_image_name_spec(millis, pid, seq_no);
    assert(name[0] == a[0]);
    assert forall|i: int| 0 <= i < name.len() implies {
        let ch = #[trigger] name[i];
        (48 <= (ch as u32) <= 57) || ch == '-' || ch == '.' || ch == 'p' || ch == 'n' || ch == 'g'
    } by {
        if i < a.len() {
            assert(name[i] == a[i]);
        } else if i == a.len() {
        } else if i < a.len() + 1 + b.len() {
            assert(name[i] == b[i - a.len() - 1]);
        } else if i == a.len() + 1 + b.len() {
        } else if i < a.len() + 2 + b.len() + c.len() {
            assert(name[i] == c[i - a.len() - 2 - b.len()]);
        }
    }
}

/// How a capture helper failed.
#[derive(Debug, Clone, Copy, PartialEq, Eq, Structural)]
pub enum HelperFailure {
    /// The helper program is not installed.
    NotFound,
    /// Any other failure to run or read it.
    OtherIo,
    TimedOut,
    /// Its output exceeded the limit; the size seen.
    OutputTooLarge(u64),
}

/// What a failed capture reports.
#[derive(Debug, Clone, Copy, PartialEq, Eq)]
pub enum HelperVerdict {
    /// Clipboard integration is not installed; the package to install.
    MissingTool(&'static str),
    /// The image was over the limit.
    TooLarge(u64),
    Failed,
}

/// Map a helper failure to what the user is told: an oversized image says
/// so, a missing helper names its package when the plan knows one, and
/// everything else is a plain failure.
pub fn helper_failure_verdict(failure: HelperFailure, missing_hint: Option<&'static str>) -> (v: HelperVerdict)
    ensures
        v == match failure {
            HelperFailure::OutputTooLarge(len) => HelperVerdict::TooLarge(len),
            HelperFailure::NotFound => match missing_hint {
                Some(hint) => HelperVerdict::MissingTool(hint),
                None => HelperVerdict::Failed,
            },
            _ => HelperVerdict::Failed,
        },
{
    match failure {
        HelperFailure::OutputTooLarge(len) => HelperVerdict::TooLarge(len),
        HelperFailure::NotFound => match missing_hint {
            Some(hint) => HelperVerdict::MissingTool(hint),
            None => HelperVerdict::Failed,
        },
        _ => HelperVerdict::Failed,
    }
}

} // verus!
