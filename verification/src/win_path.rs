//! Windows path prefixes, as the platform's path parser reads them, and the
//! conversion of a verbatim temporary-index path into a form Git accepts in
//! `GIT_INDEX_FILE`.
//!
//! Git does not understand verbatim (`\\?\`) paths. A verbatim disk path
//! becomes its plain drive form and a verbatim UNC path its plain UNC form;
//! other verbatim and device-namespace paths cannot be expressed and fail
//! closed; everything else is handed over unchanged.

use vstd::prelude::*;

use crate::numerals::append_chars;
use crate::text::{chars_of, slice_chars, string_of, views};

verus! {

/// A path separator on Windows.
pub open spec fn is_sep(c: char) -> bool {
    c == '/' || c == '\\'
}

/// The separator of verbatim paths.
pub open spec fn is_verbatim_sep(c: char) -> bool {
    c == '\\'
}

/// The separator test in force: `\` alone inside verbatim prefixes.
pub open spec fn sep_for(c: char, verbatim: bool) -> bool {
    if verbatim {
        is_verbatim_sep(c)
    } else {
        is_sep(c)
    }
}

/// The position of the first separator in `s`, if any.
pub open spec fn first_sep(s: Seq<char>, verbatim: bool) -> Option<int>
    decreases s.len(),
{
    if s.len() == 0 {
        None
    } else if sep_for(s[0], verbatim) {
        Some(0)
    } else {
        match first_sep(s.drop_first(), verbatim) {
            Some(i) => Some(i + 1),
            None => None,
        }
    }
}

pub proof fn lemma_first_sep(s: Seq<char>, verbatim: bool)
    ensures
        match first_sep(s, verbatim) {
            Some(i) => 0 <= i < s.len() && sep_for(s[i], verbatim) && forall|j: int|
                0 <= j < i ==> !sep_for(#[trigger] s[j], verbatim),
            None => forall|j: int| 0 <= j < s.len() ==> !sep_for(#[trigger] s[j], verbatim),
        },
    decreases s.len(),
{
    if s.len() > 0 && !sep_for(s[0], verbatim) {
        lemma_first_sep(s.drop_first(), verbatim);
        assert forall|j: int| 1 <= j < s.len() implies s[j] == s.drop_first()[j - 1] by {}
    }
}

/// The next component of `s` and what follows its separator.
pub open spec fn next_component(s: Seq<char>, verbatim: bool) -> (Seq<char>, Seq<char>) {
    match first_sep(s, verbatim) {
        Some(i) => (s.take(i), s.skip(i + 1)),
        None => (s, Seq::empty()),
    }
}

/// The ASCII upper-case form of an ASCII letter.
pub open spec fn upper(c: char) -> char {
    if 'a' <= c && c <= 'z' {
        ((c as u32) - 32) as char
    } else {
        c
    }
}

pub open spec fn is_ascii_letter(c: char) -> bool {
    ('a' <= c && c <= 'z') || ('A' <= c && c <= 'Z')
}

/// A drive prefix `X:` at the start of `s`.
pub open spec fn drive(s: Seq<char>) -> Option<char> {
    if s.len() >= 2 && s[1] == ':' && is_ascii_letter(s[0]) {
        Some(upper(s[0]))
    } else {
        None
    }
}

/// A drive prefix that is the whole component, or followed by a separator.
pub open spec fn drive_exact(s: Seq<char>) -> Option<char> {
    if s.len() == 2 || (s.len() > 2 && is_sep(s[2])) {
        drive(s)
    } else {
        None
    }
}

/// The prefix of a Windows path.
pub enum WinPrefix {
    /// `\\?\UNC\server\share`
    VerbatimUnc(Seq<char>, Seq<char>),
    /// `\\?\X:`
    VerbatimDisk(char),
    /// `\\?\anything`
    Verbatim(Seq<char>),
    /// `\\.\name`
    DeviceNs(Seq<char>),
    /// `\\server\share`
    Unc(Seq<char>, Seq<char>),
    /// `X:`
    Disk(char),
}

/// The prefix of `s`, read as the platform's path parser reads it.
pub open spec fn parse_prefix(s: Seq<char>) -> Option<WinPrefix> {
    if s.len() >= 2 && s[0] == '\\' && s[1] == '\\' {
        let p = s.skip(2);
        if p.len() >= 2 && p[0] == '?' && p[1] == '\\' {
            let p = p.skip(2);
            if p.len() >= 4 && p[0] == 'U' && p[1] == 'N' && p[2] == 'C' && p[3] == '\\' {
                let (server, rest) = next_component(p.skip(4), true);
                let (share, _) = next_component(rest, true);
                Some(WinPrefix::VerbatimUnc(server, share))
            } else {
                let (first, _) = next_component(p, true);
                match drive_exact(first) {
                    Some(d) => Some(WinPrefix::VerbatimDisk(d)),
                    None => Some(WinPrefix::Verbatim(first)),
                }
            }
        } else if p.len() >= 2 && p[0] == '.' && p[1] == '\\' {
            let (name, _) = next_component(p.skip(2), false);
            Some(WinPrefix::DeviceNs(name))
        } else {
            let (server, rest) = next_component(p, false);
            let (share, _) = next_component(rest, false);
            if server.len() > 0 && share.len() > 0 {
                Some(WinPrefix::Unc(server, share))
            } else {
                None
            }
        }
    } else {
        match drive(s) {
            Some(d) => Some(WinPrefix::Disk(d)),
            None => None,
        }
    }
}

/// How many characters a prefix spans.
pub open spec fn prefix_len(p: Option<WinPrefix>) -> int {
    match p {
        None => 0,
        Some(WinPrefix::VerbatimUnc(x, y)) => 8 + x.len() + if y.len() > 0 {
            1 + y.len() as int
        } else {
            0int
        },
        Some(WinPrefix::VerbatimDisk(_)) => 6,
        Some(WinPrefix::Verbatim(x)) => 4 + x.len() as int,
        Some(WinPrefix::DeviceNs(x)) => 4 + x.len() as int,
        Some(WinPrefix::Unc(x, y)) => 2 + x.len() + if y.len() > 0 {
            1 + y.len() as int
        } else {
            0int
        },
        Some(WinPrefix::Disk(_)) => 2,
    }
}

/// The components after a verbatim prefix of length `plen`: an optional
/// root separator is skipped, the rest is split at `\`, and empty pieces are
/// dropped; `.` and `..` stay as they are.
pub open spec fn verbatim_components(s: Seq<char>, plen: int) -> Seq<Seq<char>> {
    let body = s.skip(plen);
    let rest = if body.len() > 0 && is_sep(body[0]) {
        body.drop_first()
    } else {
        body
    };
    nonempty_pieces(rest)
}

/// The non-empty pieces of `s` between backslashes.
pub open spec fn nonempty_pieces(s: Seq<char>) -> Seq<Seq<char>>
    decreases s.len(),
{
    if s.len() == 0 {
        seq![]
    } else {
        match first_sep(s, true) {
            Some(i) => {
                proof {
                    lemma_first_sep(s, true);
                }
                let rest = nonempty_pieces(s.skip(i + 1));
                if i == 0 {
                    rest
                } else {
                    seq![s.take(i)] + rest
                }
            },
            None => seq![s],
        }
    }
}

/// Push one component onto a path, as the platform's path buffer does: a
/// component with a prefix replaces the path; one starting with a separator
/// keeps only the path's prefix; otherwise a `\` joins them unless the path
/// already ends in a separator or is a bare drive.
pub open spec fn push(buf: Seq<char>, c: Seq<char>) -> Seq<char> {
    let bp = parse_prefix(buf);
    let bpl = prefix_len(bp);
    let bare_drive = bpl > 0 && bpl == buf.len() && (bp matches Some(WinPrefix::Disk(_))
        || bp matches Some(WinPrefix::VerbatimDisk(_)));
    let need_sep = buf.len() > 0 && !is_sep(buf.last()) && !bare_drive;
    if parse_prefix(c) is Some {
        c
    } else if c.len() > 0 && is_sep(c[0]) {
        buf.take(bpl) + c
    } else if need_sep {
        buf + seq!['\\'] + c
    } else {
        buf + c
    }
}

/// Push the components in order.
pub open spec fn push_all(buf: Seq<char>, cs: Seq<Seq<char>>) -> Seq<char>
    decreases cs.len(),
{
    if cs.len() == 0 {
        buf
    } else {
        push_all(push(buf, cs[0]), cs.drop_first())
    }
}

/// Why a temporary-index path cannot be handed to Git.
#[derive(Debug, Clone, Copy, PartialEq, Eq, Structural)]
pub enum IndexPathError {
    /// A verbatim path that is neither a disk nor a UNC path, or a device
    /// namespace path.
    UnsupportedDevicePath,
}

/// The path Git receives for a temporary index at `index`: on Windows a
/// verbatim disk or UNC path is rewritten to its plain form; other verbatim
/// and device paths are refused; everything else is unchanged.
pub open spec fn index_env_path(index: Seq<char>, windows: bool) -> Result<Seq<char>, IndexPathError> {
    if !windows {
        Ok(index)
    } else {
        let p = parse_prefix(index);
        let comps = verbatim_components(index, prefix_len(p));
        match p {
            Some(WinPrefix::VerbatimDisk(d)) => Ok(push_all(seq![d, ':', '\\'], comps)),
            Some(WinPrefix::VerbatimUnc(x, y)) => Ok(push_all(seq!['\\', '\\'] + x + seq!['\\'] + y, comps)),
            Some(WinPrefix::Verbatim(_)) => Err(IndexPathError::UnsupportedDevicePath),
            Some(WinPrefix::DeviceNs(_)) => Err(IndexPathError::UnsupportedDevicePath),
            _ => Ok(index),
        }
    }
}

// ---------------------------------------------------------------------------
// Executable reading
// ---------------------------------------------------------------------------

fn sep_exec(c: char, verbatim: bool) -> (b: bool)
    ensures
        b == sep_for(c, verbatim),
{
    if verbatim {
        c == '\\'
    } else {
        c == '/' || c == '\\'
    }
}

fn first_sep_exec(s: &[char], verbatim: bool) -> (r: Option<usize>)
    ensures
        match first_sep(s@, verbatim) {
            Some(i) => r == Some(i as usize),
            None => r is None,
        },
{
    proof {
        lemma_first_sep(s@, verbatim);
    }
    let mut i: usize = 0;
    while i < s.len()
        invariant
            i <= s@.len(),
            forall|j: int| 0 <= j < i ==> !sep_for(#[trigger] s@[j], verbatim),
        decreases s.len() - i,
    {
        if sep_exec(s[i], verbatim) {
            proof {
                lemma_first_sep(s@, verbatim);
                match first_sep(s@, verbatim) {
                    Some(k) => {
                        if k < i {
                        }
                        if k > i {
                            assert(!sep_for(s@[i as int], verbatim));
                        }
                    },
                    None => {
                        assert(!sep_for(s@[i as int], verbatim));
                    },
                }
            }
            return Some(i);
        }
        i += 1;
    }
    proof {
        if let Some(k) = first_sep(s@, verbatim) {
            assert(!sep_for(s@[k], verbatim));
        }
    }
    None
}

fn next_component_exec(s: &[char], verbatim: bool) -> (r: (Vec<char>, Vec<char>))
    ensures
        r.0@ == next_component(s@, verbatim).0,
        r.1@ == next_component(s@, verbatim).1,
{
    proof {
        lemma_first_sep(s@, verbatim);
    }
    match first_sep_exec(s, verbatim) {
        Some(i) => {
            let n = s.len();
            assert(i < n);
            let a = slice_chars(s, 0, i);
            let b = slice_chars(s, i + 1, n);
            proof {
                assert(a@ =~= s@.take(i as int));
                assert(b@ =~= s@.skip(i + 1));
            }
            (a, b)
        },
        None => {
            let a = slice_chars(s, 0, s.len());
            proof {
                assert(a@ =~= s@);
            }
            (a, Vec::new())
        },
    }
}

fn ascii_letter_exec(c: char) -> (b: bool)
    ensures
        b == is_ascii_letter(c),
{
    ('a' <= c && c <= 'z') || ('A' <= c && c <= 'Z')
}

fn upper_exec(c: char) -> (r: char)
    requires
        is_ascii_letter(c),
    ensures
        r == upper(c),
{
    if 'a' <= c && c <= 'z' {
        let u = (c as u32) - 32;
        (u as u8) as char
    } else {
        c
    }
}

fn drive_exec(s: &[char]) -> (r: Option<char>)
    ensures
        r == drive(s@),
{
    if s.len() >= 2 && s[1] == ':' && ascii_letter_exec(s[0]) {
        Some(upper_exec(s[0]))
    } else {
        None
    }
}

fn drive_exact_exec(s: &[char]) -> (r: Option<char>)
    ensures
        r == drive_exact(s@),
{
    if s.len() == 2 || (s.len() > 2 && (s[2] == '/' || s[2] == '\\')) {
        drive_exec(s)
    } else {
        None
    }
}

/// Which prefix a path has.
#[derive(Debug, Clone, Copy, PartialEq, Eq, Structural)]
enum PrefixKind {
    VerbatimUnc,
    VerbatimDisk,
    Verbatim,
    DeviceNs,
    Unc,
    Disk,
}

/// A parsed prefix: its kind, drive letter, and first and second names
/// (server and share; the single name of verbatim and device prefixes).
struct ParsedPrefix {
    kind: PrefixKind,
    drive: char,
    first: Vec<char>,
    second: Vec<char>,
}

spec fn parsed_view(p: ParsedPrefix) -> WinPrefix {
    match p.kind {
        PrefixKind::VerbatimUnc => WinPrefix::VerbatimUnc(p.first@, p.second@),
        PrefixKind::VerbatimDisk => WinPrefix::VerbatimDisk(p.drive),
        PrefixKind::Verbatim => WinPrefix::Verbatim(p.first@),
        PrefixKind::DeviceNs => WinPrefix::DeviceNs(p.first@),
        PrefixKind::Unc => WinPrefix::Unc(p.first@, p.second@),
        PrefixKind::Disk => WinPrefix::Disk(p.drive),
    }
}

fn skip_chars(s: &[char], n: usize) -> (r: Vec<char>)
    requires
        n <= s@.len(),
    ensures
        r@ == s@.skip(n as int),
{
    let r = slice_chars(s, n, s.len());
    proof {
        assert(r@ =~= s@.skip(n as int));
    }
    r
}

fn parse_prefix_exec(s: &[char]) -> (r: Option<ParsedPrefix>)
    ensures
        match r {
            Some(p) => parse_prefix(s@) == Some(parsed_view(p)),
            None => parse_prefix(s@) is None,
        },
{
    if s.len() >= 2 && s[0] == '\\' && s[1] == '\\' {
        let p = skip_chars(s, 2);
        if p.len() >= 2 && p[0] == '?' && p[1] == '\\' {
            let p = skip_chars(p.as_slice(), 2);
            if p.len() >= 4 && p[0] == 'U' && p[1] == 'N' && p[2] == 'C' && p[3] == '\\' {
                let q = skip_chars(p.as_slice(), 4);
                let (server, rest) = next_component_exec(q.as_slice(), true);
                let (share, _) = next_component_exec(rest.as_slice(), true);
                Some(ParsedPrefix { kind: PrefixKind::VerbatimUnc, drive: 'C', first: server, second: share })
            } else {
                let (first, _) = next_component_exec(p.as_slice(), true);
                match drive_exact_exec(first.as_slice()) {
                    Some(d) => Some(ParsedPrefix { kind: PrefixKind::VerbatimDisk, drive: d, first: Vec::new(), second: Vec::new() }),
                    None => Some(ParsedPrefix { kind: PrefixKind::Verbatim, drive: 'C', first, second: Vec::new() }),
                }
            }
        } else if p.len() >= 2 && p[0] == '.' && p[1] == '\\' {
            let q = skip_chars(p.as_slice(), 2);
            let (name, _) = next_component_exec(q.as_slice(), false);
            Some(ParsedPrefix { kind: PrefixKind::DeviceNs, drive: 'C', first: name, second: Vec::new() })
        } else {
            let (server, rest) = next_component_exec(p.as_slice(), false);
            let (share, _) = next_component_exec(rest.as_slice(), false);
            if server.len() > 0 && share.len() > 0 {
                Some(ParsedPrefix { kind: PrefixKind::Unc, drive: 'C', first: server, second: share })
            } else {
                None
            }
        }
    } else {
        match drive_exec(s) {
            Some(d) => Some(ParsedPrefix { kind: PrefixKind::Disk, drive: d, first: Vec::new(), second: Vec::new() }),
            None => None,
        }
    }
}

proof fn lemma_next_component_len(s: Seq<char>, verbatim: bool)
    ensures
        next_component(s, verbatim).0.len() <= s.len(),
        next_component(s, verbatim).1.len() <= s.len(),
        first_sep(s, verbatim) is Some ==> next_component(s, verbatim).0.len() + 1
            + next_component(s, verbatim).1.len() == s.len(),
        first_sep(s, verbatim) is None ==> next_component(s, verbatim).1.len() == 0
            && next_component(s, verbatim).0 == s,
{
    lemma_first_sep(s, verbatim);
}

/// The prefix of a path is no longer than the path.
proof fn lemma_prefix_len_bound(s: Seq<char>)
    ensures
        0 <= prefix_len(parse_prefix(s)) <= s.len(),
{
    if s.len() >= 2 && s[0] == '\\' && s[1] == '\\' {
        let p = s.skip(2);
        if p.len() >= 2 && p[0] == '?' && p[1] == '\\' {
            let p2 = p.skip(2);
            if p2.len() >= 4 && p2[0] == 'U' && p2[1] == 'N' && p2[2] == 'C' && p2[3] == '\\' {
                let q = p2.skip(4);
                lemma_next_component_len(q, true);
                let rest = next_component(q, true).1;
                lemma_next_component_len(rest, true);
            } else {
                lemma_next_component_len(p2, true);
            }
        } else if p.len() >= 2 && p[0] == '.' && p[1] == '\\' {
            lemma_next_component_len(p.skip(2), false);
        } else {
            lemma_next_component_len(p, false);
            let rest = next_component(p, false).1;
            lemma_next_component_len(rest, false);
        }
    }
}

fn prefix_len_exec(s: &[char], p: &Option<ParsedPrefix>) -> (n: usize)
    requires
        match *p {
            Some(q) => parse_prefix(s@) == Some(parsed_view(q)),
            None => parse_prefix(s@) is None,
        },
    ensures
        n == prefix_len(parse_prefix(s@)),
{
    let len = s.len();
    proof {
        lemma_prefix_len_bound(s@);
        assert(prefix_len(parse_prefix(s@)) <= len);
    }
    match p {
        None => 0,
        Some(q) => {
            proof {
                assert(parse_prefix(s@) == Some(parsed_view(*q)));
            }
            match q.kind {
            PrefixKind::VerbatimUnc => if q.second.len() > 0 {
                8 + q.first.len() + 1 + q.second.len()
            } else {
                8 + q.first.len()
            },
            PrefixKind::VerbatimDisk => 6,
            PrefixKind::Verbatim => 4 + q.first.len(),
            PrefixKind::DeviceNs => 4 + q.first.len(),
            PrefixKind::Unc => if q.second.len() > 0 {
                2 + q.first.len() + 1 + q.second.len()
            } else {
                2 + q.first.len()
            },
            PrefixKind::Disk => 2,
        }
        },
    }
}

fn push_exec(buf: &[char], c: &[char]) -> (r: Vec<char>)
    ensures
        r@ == push(buf@, c@),
{
    let bp = parse_prefix_exec(buf);
    let bpl = prefix_len_exec(buf, &bp);
    proof {
        lemma_prefix_len_bound(buf@);
    }
    let drive_kind = match &bp {
        Some(q) => q.kind == PrefixKind::Disk || q.kind == PrefixKind::VerbatimDisk,
        None => false,
    };
    let bare_drive = bpl > 0 && bpl == buf.len() && drive_kind;
    let need_sep = buf.len() > 0 && !(buf[buf.len() - 1] == '/' || buf[buf.len() - 1] == '\\')
        && !bare_drive;
    proof {
        if buf@.len() > 0 {
            assert(buf@.last() == buf@[buf@.len() - 1]);
        }
    }
    let cp = parse_prefix_exec(c);
    if cp.is_some() {
        let r = slice_chars(c, 0, c.len());
        proof {
            assert(r@ =~= c@);
        }
        return r;
    }
    if c.len() > 0 && (c[0] == '/' || c[0] == '\\') {
        let mut r = slice_chars(buf, 0, bpl);
        append_chars(&mut r, c);
        proof {
            assert(buf@.subrange(0, bpl as int) =~= buf@.take(bpl as int));
        }
        return r;
    }
    let mut r = slice_chars(buf, 0, buf.len());
    proof {
        assert(r@ =~= buf@);
    }
    if need_sep {
        r.push('\\');
    }
    append_chars(&mut r, c);
    r
}

fn nonempty_pieces_exec(s: &[char]) -> (r: Vec<Vec<char>>)
    ensures
        views(r@) == nonempty_pieces(s@),
{
    let mut out: Vec<Vec<char>> = Vec::new();
    let mut rest = slice_chars(s, 0, s.len());
    proof {
        assert(rest@ =~= s@);
        assert(views(out@) =~= Seq::<Seq<char>>::empty());
    }
    while rest.len() > 0
        invariant
            views(out@) + nonempty_pieces(rest@) == nonempty_pieces(s@),
        decreases rest@.len(),
    {
        proof {
            lemma_first_sep(rest@, true);
        }
        let ghost before = rest@;
        let ghost out_before = views(out@);
        match first_sep_exec(rest.as_slice(), true) {
            Some(i) => {
                let n = rest.len();
                let tail = slice_chars(rest.as_slice(), i + 1, n);
                proof {
                    assert(tail@ =~= before.skip(i + 1));
                }
                if i > 0 {
                    let piece = slice_chars(rest.as_slice(), 0, i);
                    proof {
                        assert(piece@ =~= before.take(i as int));
                    }
                    out.push(piece);
                    proof {
                        assert(views(out@) =~= out_before.push(before.take(i as int)));
                        assert(views(out@) + nonempty_pieces(tail@) =~= out_before + (seq![before.take(i as int)] + nonempty_pieces(tail@)));
                    }
                }
                rest = tail;
            },
            None => {
                let piece = slice_chars(rest.as_slice(), 0, rest.len());
                proof {
                    assert(piece@ =~= before);
                }
                out.push(piece);
                rest = Vec::new();
                proof {
                    assert(views(out@) =~= out_before.push(before));
                    assert(nonempty_pieces(rest@) =~= Seq::<Seq<char>>::empty());
                    assert(views(out@) + nonempty_pieces(rest@) =~= out_before + seq![before]);
                }
            },
        }
    }
    proof {
        assert(nonempty_pieces(rest@) =~= Seq::<Seq<char>>::empty());
        assert(views(out@) + nonempty_pieces(rest@) =~= views(out@));
    }
    out
}

fn verbatim_components_exec(s: &[char], plen: usize) -> (r: Vec<Vec<char>>)
    requires
        plen <= s@.len(),
    ensures
        views(r@) == verbatim_components(s@, plen as int),
{
    let body = slice_chars(s, plen, s.len());
    proof {
        assert(body@ =~= s@.skip(plen as int));
    }
    if body.len() > 0 && (body[0] == '/' || body[0] == '\\') {
        let rest = slice_chars(body.as_slice(), 1, body.len());
        proof {
            assert(rest@ =~= body@.drop_first());
        }
        nonempty_pieces_exec(rest.as_slice())
    } else {
        nonempty_pieces_exec(body.as_slice())
    }
}

fn push_all_exec(base: Vec<char>, comps: &Vec<Vec<char>>) -> (r: Vec<char>)
    ensures
        r@ == push_all(base@, views(comps@)),
{
    let ghost cs = views(comps@);
    let mut cur = base;
    let mut k: usize = 0;
    proof {
        assert(cs.skip(0) =~= cs);
    }
    while k < comps.len()
        invariant
            k <= comps@.len(),
            cs == views(comps@),
            push_all(cur@, cs.skip(k as int)) == push_all(base@, cs),
        decreases comps.len() - k,
    {
        let next = push_exec(cur.as_slice(), comps[k].as_slice());
        proof {
            let t = cs.skip(k as int);
            assert(t[0] == comps@[k as int]@);
            assert(t.drop_first() =~= cs.skip(k + 1));
        }
        cur = next;
        k += 1;
    }
    proof {
        assert(cs.skip(comps@.len() as int) =~= Seq::<Seq<char>>::empty());
    }
    cur
}

/// The path Git receives in `GIT_INDEX_FILE` for a temporary index at
/// `index` (see [`index_env_path`]).
pub fn git_index_env_path(index: &str, windows: bool) -> (r: Result<String, IndexPathError>)
    ensures
        match index_env_path(index@, windows) {
            Ok(p) => r matches Ok(s) && s@ == p,
            Err(e) => r matches Err(f) && f == e,
        },
{
    if !windows {
        return Ok(string_of(chars_of(index).as_slice()));
    }
    let s = chars_of(index);
    let p = parse_prefix_exec(s.as_slice());
    let plen = prefix_len_exec(s.as_slice(), &p);
    proof {
        lemma_prefix_len_bound(s@);
    }
    match p {
        Some(q) => match q.kind {
            PrefixKind::VerbatimDisk => {
                let mut base: Vec<char> = Vec::new();
                base.push(q.drive);
                base.push(':');
                base.push('\\');
                proof {
                    assert(base@ =~= seq![q.drive, ':', '\\']);
                    assert(parse_prefix(index@) == Some(WinPrefix::VerbatimDisk(q.drive)));
                }
                let comps = verbatim_components_exec(s.as_slice(), plen);
                let out = push_all_exec(base, &comps);
                Ok(string_of(out.as_slice()))
            },
            PrefixKind::VerbatimUnc => {
                let mut base: Vec<char> = Vec::new();
                base.push('\\');
                base.push('\\');
                append_chars(&mut base, q.first.as_slice());
                base.push('\\');
                append_chars(&mut base, q.second.as_slice());
                proof {
                    assert(base@ =~= seq!['\\', '\\'] + q.first@ + seq!['\\'] + q.second@);
                    assert(parse_prefix(index@) == Some(WinPrefix::VerbatimUnc(q.first@, q.second@)));
                }
                let comps = verbatim_components_exec(s.as_slice(), plen);
                let out = push_all_exec(base, &comps);
                Ok(string_of(out.as_slice()))
            },
            PrefixKind::Verbatim => Err(IndexPathError::UnsupportedDevicePath),
            PrefixKind::DeviceNs => Err(IndexPathError::UnsupportedDevicePath),
            _ => Ok(string_of(s.as_slice())),
        },
        None => Ok(string_of(s.as_slice())),
    }
}

} // verus!
