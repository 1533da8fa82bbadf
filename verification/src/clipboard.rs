//! Decisions of the native text clipboard: which OS path a copy takes, when a
//! session is remote, and how newlines are written for each platform.

use vstd::prelude::*;

use crate::text::{chars_eq_str, chars_of, contains_str, has_sub, lower_chars, lower_seq, string_of};

verus! {

/// Whether a native clipboard command would reach the user's terminal.
/// `SSH_CONNECTION` is authoritative: a locally reattached tmux pane may keep
/// a stale `SSH_TTY`, which must not disable the native clipboard.
pub fn clipboard_remote_from_env(ssh_connection: bool, ssh_tty: bool) -> (r: bool)
    ensures
        r == ssh_connection,
{
    ssh_connection
}

/// Whether the process runs under WSL: an interop socket, a distro name, or a
/// kernel release that names Microsoft (in any case).
pub fn clipboard_wsl_from_signals(interop: bool, distro: bool, kernel_release: &str) -> (r: bool)
    ensures
        r == (interop || distro || has_sub(lower_seq(kernel_release@), "microsoft"@)),
{
    if interop || distro {
        return true;
    }
    let lowered = lower_chars(chars_of(kernel_release).as_slice());
    contains_str(lowered.as_slice(), "microsoft")
}

/// The platform line break: CRLF on Windows, LF elsewhere.
pub open spec fn line_break(windows: bool) -> Seq<char> {
    if windows {
        seq!['\r', '\n']
    } else {
        seq!['\n']
    }
}

/// `text` with every line break (CRLF, a bare CR or a bare LF) written as the
/// platform's line break.
pub open spec fn normalized_newlines(s: Seq<char>, windows: bool) -> Seq<char>
    decreases s.len(),
{
    if s.len() == 0 {
        seq![]
    } else if s[0] == '\r' {
        let rest = if s.len() > 1 && s[1] == '\n' {
            s.skip(2)
        } else {
            s.skip(1)
        };
        line_break(windows) + normalized_newlines(rest, windows)
    } else if s[0] == '\n' {
        line_break(windows) + normalized_newlines(s.skip(1), windows)
    } else {
        seq![s[0]] + normalized_newlines(s.skip(1), windows)
    }
}

/// Normalize the internal line breaks at the native-OS boundary. A bare CR is
/// treated as a line break and an existing CRLF pair is never doubled.
pub fn normalize_clipboard_newlines(text: &str, windows: bool) -> (r: String)
    ensures
        r@ == normalized_newlines(text@, windows),
{
    let cs = chars_of(text);
    let mut out: Vec<char> = Vec::new();
    let mut i: usize = 0;
    proof {
        assert(cs@.skip(0) =~= cs@);
        assert(out@ + normalized_newlines(cs@, windows) =~= normalized_newlines(cs@, windows));
    }
    while i < cs.len()
        invariant
            i <= cs@.len(),
            cs@ == text@,
            normalized_newlines(text@, windows) == out@ + normalized_newlines(
                cs@.skip(i as int),
                windows,
            ),
        decreases cs.len() - i,
    {
        let ghost rest = cs@.skip(i as int);
        let ghost before = out@;
        let c = cs[i];
        proof {
            assert(rest[0] == c);
        }
        if c == '\r' || c == '\n' {
            let mut step: usize = 1;
            if c == '\r' && i + 1 < cs.len() && cs[i + 1] == '\n' {
                step = 2;
                proof {
                    assert(rest[1] == cs@[i + 1]);
                }
            }
            if windows {
                out.push('\r');
                out.push('\n');
            } else {
                out.push('\n');
            }
            proof {
                assert(rest.skip(step as int) =~= cs@.skip(i + step));
                assert(out@ =~= before + line_break(windows));
                assert(before + (line_break(windows) + normalized_newlines(cs@.skip(i + step), windows))
                    =~= out@ + normalized_newlines(cs@.skip(i + step), windows));
            }
            i = i + step;
        } else {
            out.push(c);
            proof {
                assert(rest.skip(1) =~= cs@.skip(i + 1));
                assert(before + (seq![c] + normalized_newlines(cs@.skip(i + 1), windows)) =~= out@
                    + normalized_newlines(cs@.skip(i + 1), windows));
            }
            i = i + 1;
        }
    }
    proof {
        assert(cs@.skip(cs@.len() as int) =~= Seq::<char>::empty());
        assert(out@ + Seq::<char>::empty() =~= out@);
    }
    string_of(out.as_slice())
}

/// Normalizing twice writes nothing new: no CRLF pair is ever doubled.
pub proof fn law_newline_normalization_is_idempotent(s: Seq<char>, windows: bool)
    ensures
        normalized_newlines(normalized_newlines(s, windows), windows) == normalized_newlines(
            s,
            windows,
        ),
        !windows ==> !normalized_newlines(s, windows).contains('\r'),
    decreases s.len(),
{
    if s.len() > 0 {
        let rest = if s[0] == '\r' {
            if s.len() > 1 && s[1] == '\n' {
                s.skip(2)
            } else {
                s.skip(1)
            }
        } else {
            s.skip(1)
        };
        law_newline_normalization_is_idempotent(rest, windows);
        let x = normalized_newlines(rest, windows);
        let head = if s[0] == '\r' || s[0] == '\n' {
            line_break(windows)
        } else {
            seq![s[0]]
        };
        let n = head + x;
        assert(normalized_newlines(s, windows) == n);
        assert(n.skip(head.len() as int) =~= x);
        if s[0] == '\r' || s[0] == '\n' {
            if windows {
                assert(n[0] == '\r' && n[1] == '\n');
            } else {
                assert(n[0] == '\n');
            }
        } else {
            assert(n[0] == s[0]);
        }
        assert(normalized_newlines(n, windows) =~= head + normalized_newlines(x, windows));
        if !windows {
            assert forall|i: int| 0 <= i < n.len() implies n[i] != '\r' by {
                if i >= head.len() {
                    assert(n[i] == x[i - head.len()]);
                }
            }
        }
    }
}

/// The native clipboard path for an operating system.
#[derive(Debug, Clone, Copy, PartialEq, Eq, Structural)]
pub enum NativeClipboardPlan {
    /// The direct UTF-16 clipboard API.
    Windows,
    /// `pbcopy`.
    Macos,
    /// PowerShell's `Set-Clipboard`, across the WSL bridge.
    Wsl,
    /// `wl-copy`, then `xclip`, then `xsel`.
    UnixLike,
}

/// The plan for `os` (as `std::env::consts::OS` names it) under WSL or not.
pub open spec fn clipboard_plan(os: Seq<char>, wsl: bool) -> NativeClipboardPlan {
    if os == "windows"@ {
        NativeClipboardPlan::Windows
    } else if os == "macos"@ {
        NativeClipboardPlan::Macos
    } else if wsl {
        NativeClipboardPlan::Wsl
    } else {
        NativeClipboardPlan::UnixLike
    }
}

/// The native clipboard path for `os`: native Windows keeps the direct API
/// even when a WSL signal is present.
pub fn native_clipboard_plan_for(os: &str, wsl: bool) -> (p: NativeClipboardPlan)
    ensures
        p == clipboard_plan(os@, wsl),
{
    let cs = chars_of(os);
    if chars_eq_str(cs.as_slice(), "windows") {
        NativeClipboardPlan::Windows
    } else if chars_eq_str(cs.as_slice(), "macos") {
        NativeClipboardPlan::Macos
    } else if wsl {
        NativeClipboardPlan::Wsl
    } else {
        NativeClipboardPlan::UnixLike
    }
}

/// The native clipboard path for `os` outside WSL.
pub fn native_clipboard_plan(os: &str) -> (p: NativeClipboardPlan)
    ensures
        p == clipboard_plan(os@, false),
{
    native_clipboard_plan_for(os, false)
}

/// Whether a plan hands the text to Windows, which needs CRLF line breaks.
pub fn plan_uses_crlf(plan: NativeClipboardPlan) -> (b: bool)
    ensures
        b == (plan == NativeClipboardPlan::Windows || plan == NativeClipboardPlan::Wsl),
{
    match plan {
        NativeClipboardPlan::Windows | NativeClipboardPlan::Wsl => true,
        _ => false,
    }
}

} // verus!
