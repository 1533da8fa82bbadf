//! Backend probe details. A probe packs its authentication metadata in
//! front of the human-readable detail:
//! `SENTINEL auth=<tag>|login=<command>|install=<command> SENTINEL <detail>`.
//! Unpacking fails open: a detail without the metadata is shown as it is,
//! with no authentication tag and no remediation commands.

use vstd::prelude::*;

use crate::text::{
    chars_of, slice_chars, split_char, split_on_char, starts_with, starts_with_str, string_of, trim_whitespace,
    trim_ws, views,
};

verus! {

/// The character that brackets a probe's packed metadata.
pub const PROBE_AUTH_SENTINEL: char = '\u{1}';

/// A probe detail, unpacked.
#[derive(Debug, Clone, PartialEq, Eq)]
pub struct ProbeDetail {
    /// The `auth=` tag, when one was packed (the last one wins); none means
    /// the authentication state is unknown.
    pub auth_tag: Option<String>,
    /// The `login=` command, or empty.
    pub login_cmd: String,
    /// The `install=` command, or empty.
    pub install_cmd: String,
    /// The human-readable detail.
    pub human: String,
}

/// The first index of `c` in `s`.
pub open spec fn first_index_of(s: Seq<char>, c: char) -> Option<int>
    decreases s.len(),
{
    if s.len() == 0 {
        None
    } else if s[0] == c {
        Some(0)
    } else {
        match first_index_of(s.drop_first(), c) {
            Some(k) => Some(k + 1),
            None => None,
        }
    }
}

/// The value of the last field that starts with `key`.
pub open spec fn last_field(fields: Seq<Seq<char>>, key: Seq<char>) -> Option<Seq<char>>
    decreases fields.len(),
{
    if fields.len() == 0 {
        None
    } else if starts_with(fields.last(), key) {
        Some(fields.last().skip(key.len() as int))
    } else {
        last_field(fields.drop_last(), key)
    }
}

/// What a probe detail unpacks to: the `auth=` tag, the `login=` and
/// `install=` commands, and the human-readable detail.
pub open spec fn probe_detail(d: Seq<char>) -> (Option<Seq<char>>, Seq<char>, Seq<char>, Seq<char>) {
    if d.len() == 0 || d[0] != PROBE_AUTH_SENTINEL {
        (None, seq![], seq![], d)
    } else {
        let rest = d.drop_first();
        match first_index_of(rest, PROBE_AUTH_SENTINEL) {
            None => (None, seq![], seq![], rest),
            Some(k) => {
                let fields = split_char(rest.take(k), '|');
                (
                    last_field(fields, "auth="@),
                    match last_field(fields, "login="@) {
                        Some(v) => v,
                        None => seq![],
                    },
                    match last_field(fields, "install="@) {
                        Some(v) => v,
                        None => seq![],
                    },
                    rest.skip(k + 1),
                )
            },
        }
    }
}

/// A string option taken by its view.
pub open spec fn option_view(o: Option<String>) -> Option<Seq<char>> {
    match o {
        Some(s) => Some(s@),
        None => None,
    }
}

fn first_index_of_char(s: &[char], c: char) -> (r: Option<usize>)
    ensures
        match first_index_of(s@, c) {
            Some(k) => r == Some(k as usize) && 0 <= k < s@.len(),
            None => r is None,
        },
{
    let mut i: usize = 0;
    proof {
        assert(s@.skip(0) =~= s@);
    }
    while i < s.len()
        invariant
            i <= s@.len(),
            forall|j: int| 0 <= j < i ==> s@[j] != c,
            first_index_of(s@, c) == match first_index_of(s@.skip(i as int), c) {
                Some(k) => Some(k + i),
                None => None,
            },
        decreases s.len() - i,
    {
        proof {
            assert(s@.skip(i as int)[0] == s@[i as int]);
            assert(s@.skip(i as int).drop_first() =~= s@.skip(i + 1));
        }
        if s[i] == c {
            return Some(i);
        }
        i += 1;
    }
    None
}

/// The value after `key`, when `field` starts with it.
fn field_value(field: &[char], key: &str) -> (r: Option<Vec<char>>)
    ensures
        r is Some == starts_with(field@, key@),
        r matches Some(v) ==> v@ == field@.skip(key@.len() as int),
{
    let k = chars_of(key);
    if starts_with_str(field, key) {
        let v = slice_chars(field, k.len(), field.len());
        proof {
            assert(v@ =~= field@.skip(key@.len() as int));
        }
        Some(v)
    } else {
        None
    }
}

/// Unpack a probe detail (see [`probe_detail`]).
pub fn parse_probe_detail(detail: &str) -> (r: ProbeDetail)
    ensures
        (option_view(r.auth_tag), r.login_cmd@, r.install_cmd@, r.human@) == probe_detail(detail@),
{
    let d = chars_of(detail);
    if d.len() == 0 || d[0] != PROBE_AUTH_SENTINEL {
        return ProbeDetail {
            auth_tag: None,
            login_cmd: String::new(),
            install_cmd: String::new(),
            human: detail.to_owned(),
        };
    }
    let rest = slice_chars(d.as_slice(), 1, d.len());
    proof {
        assert(rest@ =~= d@.drop_first());
    }
    let k = match first_index_of_char(rest.as_slice(), PROBE_AUTH_SENTINEL) {
        None => {
            return ProbeDetail {
                auth_tag: None,
                login_cmd: String::new(),
                install_cmd: String::new(),
                human: string_of(rest.as_slice()),
            };
        },
        Some(k) => k,
    };
    let meta = slice_chars(rest.as_slice(), 0, k);
    let human = slice_chars(rest.as_slice(), k + 1, rest.len());
    proof {
        assert(meta@ =~= rest@.take(k as int));
        assert(human@ =~= rest@.skip(k + 1));
    }
    let fields = split_on_char(meta.as_slice(), '|');
    let ghost fs = views(fields@);
    let mut auth: Option<Vec<char>> = None;
    let mut login: Option<Vec<char>> = None;
    let mut install: Option<Vec<char>> = None;
    let mut i: usize = 0;
    proof {
        assert(fs.take(0) =~= Seq::<Seq<char>>::empty());
    }
    while i < fields.len()
        invariant
            i <= fields@.len(),
            fs == views(fields@),
            fs.len() == fields@.len(),
            match auth {
                Some(v) => last_field(fs.take(i as int), "auth="@) == Some(v@),
                None => last_field(fs.take(i as int), "auth="@) is None,
            },
            match login {
                Some(v) => last_field(fs.take(i as int), "login="@) == Some(v@),
                None => last_field(fs.take(i as int), "login="@) is None,
            },
            match install {
                Some(v) => last_field(fs.take(i as int), "install="@) == Some(v@),
                None => last_field(fs.take(i as int), "install="@) is None,
            },
        decreases fields.len() - i,
    {
        proof {
            assert(fs.take(i + 1).drop_last() =~= fs.take(i as int));
            assert(fs.take(i + 1).last() == fs[i as int]);
            assert(fs[i as int] == fields@[i as int]@);
        }
        let field = fields[i].as_slice();
        match field_value(field, "auth=") {
            Some(v) => {
                auth = Some(v);
            },
            None => {},
        }
        match field_value(field, "login=") {
            Some(v) => {
                login = Some(v);
            },
            None => {},
        }
        match field_value(field, "install=") {
            Some(v) => {
                install = Some(v);
            },
            None => {},
        }
        i += 1;
    }
    proof {
        assert(fs.take(fields@.len() as int) =~= fs);
    }
    let auth_tag = match auth {
        Some(v) => Some(string_of(v.as_slice())),
        None => None,
    };
    let login_cmd = match login {
        Some(v) => string_of(v.as_slice()),
        None => String::new(),
    };
    let install_cmd = match install {
        Some(v) => string_of(v.as_slice()),
        None => String::new(),
    };
    ProbeDetail { auth_tag, login_cmd, install_cmd, human: string_of(human.as_slice()) }
}

// ---------------------------------------------------------------------------
// Switching the active base
// ---------------------------------------------------------------------------

/// What a base's latest probe says about its authentication.
#[derive(Debug, Clone, Copy, PartialEq, Eq, Structural)]
pub enum AuthMark {
    LoggedIn,
    NotLoggedIn,
    NotInstalled,
    Unknown,
}

/// A base that cannot take a turn: its executable is missing, or its state
/// is unknown and the probe found it not ready. (Not being logged in stays
/// overridable: local configurations can make that probe inconclusive.)
pub open spec fn unavailable(auth: AuthMark, ready: bool) -> bool {
    auth == AuthMark::NotInstalled || (auth == AuthMark::Unknown && !ready)
}

/// Whether a probed base is definitely unavailable.
pub fn definitely_unavailable(auth: AuthMark, ready: bool) -> (b: bool)
    ensures
        b == unavailable(auth, ready),
{
    match auth {
        AuthMark::NotInstalled => true,
        AuthMark::Unknown => !ready,
        _ => false,
    }
}

/// What a request to switch the active base gets.
#[derive(Debug, Clone, Copy, PartialEq, Eq, Structural)]
pub enum SwitchVerdict {
    /// A run or a streaming chat owns the current base: cancel it first.
    Busy,
    /// The target cannot take a turn: show how to install it.
    Unavailable,
    /// The target is not logged in: show how to log in, and switch if the
    /// same switch is asked for again.
    ConfirmLogin,
    /// Switch now (clearing any pending login confirmation).
    Switch,
}

/// The decision on a switch to a target whose latest probe, if any, is
/// `probe` (authentication and readiness); `confirming` says that the last
/// refused switch was to this same not-logged-in target.
pub open spec fn switch_verdict(busy: bool, probe: Option<(AuthMark, bool)>, confirming: bool) -> SwitchVerdict {
    if busy {
        SwitchVerdict::Busy
    } else {
        match probe {
            Some((auth, ready)) => if (auth == AuthMark::NotInstalled || auth == AuthMark::Unknown) && !ready {
                SwitchVerdict::Unavailable
            } else if auth == AuthMark::NotLoggedIn && !confirming {
                SwitchVerdict::ConfirmLogin
            } else {
                SwitchVerdict::Switch
            },
            None => SwitchVerdict::Switch,
        }
    }
}

/// Decide a switch of the active base (see [`switch_verdict`]).
pub fn backend_switch_verdict(busy: bool, probe: Option<(AuthMark, bool)>, confirming: bool) -> (v: SwitchVerdict)
    ensures
        v == switch_verdict(busy, probe, confirming),
{
    if busy {
        return SwitchVerdict::Busy;
    }
    match probe {
        Some((auth, ready)) => {
            let missing = match auth {
                AuthMark::NotInstalled | AuthMark::Unknown => !ready,
                _ => false,
            };
            if missing {
                SwitchVerdict::Unavailable
            } else if auth == AuthMark::NotLoggedIn && !confirming {
                SwitchVerdict::ConfirmLogin
            } else {
                SwitchVerdict::Switch
            }
        },
        None => SwitchVerdict::Switch,
    }
}

/// The remediation shown for a base: its command, or the probe's detail
/// when the command is blank.
pub open spec fn remediation_spec(command: Seq<char>, detail: Seq<char>) -> Seq<char> {
    if trim_ws(command).len() == 0 {
        detail
    } else {
        command
    }
}

/// Pick the remediation to show (see [`remediation_spec`]).
pub fn remediation(command: &str, detail: &str) -> (r: String)
    ensures
        r@ == remediation_spec(command@, detail@),
{
    let c = chars_of(command);
    let trimmed = trim_whitespace(c.as_slice());
    if trimmed.len() == 0 {
        detail.to_owned()
    } else {
        command.to_owned()
    }
}

/// A switch never lands on a base whose probe found it missing or unknown
/// and not ready, whatever was confirmed; a base that is not logged in is
/// switched to only when the request repeats a refused one; nothing is
/// switched while work is running.
pub proof fn law_switch_is_guarded(busy: bool, auth: AuthMark, ready: bool, confirming: bool)
    ensures
        unavailable(auth, ready) && !ready ==> switch_verdict(busy, Some((auth, ready)), confirming)
            != SwitchVerdict::Switch,
        auth == AuthMark::NotLoggedIn ==> (switch_verdict(busy, Some((auth, ready)), confirming) == SwitchVerdict::Switch
            <==> !busy && confirming),
        busy ==> switch_verdict(busy, Some((auth, ready)), confirming) == SwitchVerdict::Busy,
{
}

} // verus!
