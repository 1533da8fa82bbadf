//! Guards of the host-only Git commit transaction: which environment
//! variables redirect Git, which values read from `git config` are safe to
//! use, and how the index listing of one path and the single-value output of
//! a temporary-index command are read. The temporary-index path itself is
//! prepared in [`crate::win_path`].

use vstd::prelude::*;
use vstd::utf8::{decode_utf8, encode_utf8, valid_utf8};

use crate::git::{split_nul, split_on_nul, str_from_utf8};
use crate::text::{
    chars_eq_str, chars_of, control, slice_chars, split_words, words, insert_sorted, insert_sorted_chars, is_control,
    is_one_of, starts_with, starts_with_str, string_of, trim_whitespace, trim_ws, upper_chars,
    upper_seq, views,
};

verus! {

/// Variables that change which repository, index, configuration or pathspec
/// semantics Git uses.
pub open spec fn git_environment_overrides() -> Seq<&'static str> {
    seq![
        "GIT_DIR",
        "GIT_WORK_TREE",
        "GIT_COMMON_DIR",
        "GIT_INDEX_FILE",
        "GIT_OBJECT_DIRECTORY",
        "GIT_ALTERNATE_OBJECT_DIRECTORIES",
        "GIT_NAMESPACE",
        "GIT_SHALLOW_FILE",
        "GIT_GRAFT_FILE",
        "GIT_REPLACE_REF_BASE",
        "GIT_NO_REPLACE_OBJECTS",
        "GIT_CEILING_DIRECTORIES",
        "GIT_DISCOVERY_ACROSS_FILESYSTEM",
        "GIT_CONFIG_COUNT",
        "GIT_CONFIG_PARAMETERS",
        "GIT_CONFIG",
        "GIT_CONFIG_SYSTEM",
        "GIT_CONFIG_GLOBAL",
        "GIT_CONFIG_NOSYSTEM",
        "GIT_ATTR_NOSYSTEM",
        "GIT_LITERAL_PATHSPECS",
        "GIT_GLOB_PATHSPECS",
        "GIT_NOGLOB_PATHSPECS",
        "GIT_ICASE_PATHSPECS",
    ]
}

fn git_environment_overrides_list() -> (r: &'static [&'static str])
    ensures
        r@ == git_environment_overrides(),
{
    let a: &'static [&'static str; 24] = &[
        "GIT_DIR",
        "GIT_WORK_TREE",
        "GIT_COMMON_DIR",
        "GIT_INDEX_FILE",
        "GIT_OBJECT_DIRECTORY",
        "GIT_ALTERNATE_OBJECT_DIRECTORIES",
        "GIT_NAMESPACE",
        "GIT_SHALLOW_FILE",
        "GIT_GRAFT_FILE",
        "GIT_REPLACE_REF_BASE",
        "GIT_NO_REPLACE_OBJECTS",
        "GIT_CEILING_DIRECTORIES",
        "GIT_DISCOVERY_ACROSS_FILESYSTEM",
        "GIT_CONFIG_COUNT",
        "GIT_CONFIG_PARAMETERS",
        "GIT_CONFIG",
        "GIT_CONFIG_SYSTEM",
        "GIT_CONFIG_GLOBAL",
        "GIT_CONFIG_NOSYSTEM",
        "GIT_ATTR_NOSYSTEM",
        "GIT_LITERAL_PATHSPECS",
        "GIT_GLOB_PATHSPECS",
        "GIT_NOGLOB_PATHSPECS",
        "GIT_ICASE_PATHSPECS",
    ];
    let r: &'static [&'static str] = a;
    r
}

/// A variable that redirects Git: one of the known redirects (in any ASCII
/// case), or a `GIT_CONFIG_KEY_*` / `GIT_CONFIG_VALUE_*` injection.
pub open spec fn is_git_redirect(key: Seq<char>) -> bool {
    let upper = upper_seq(key);
    is_one_of(upper, git_environment_overrides()) || starts_with(upper, "GIT_CONFIG_KEY_"@)
        || starts_with(upper, "GIT_CONFIG_VALUE_"@)
}

/// Whether an environment variable redirects Git.
pub fn git_environment_override(key: &str) -> (b: bool)
    ensures
        b == is_git_redirect(key@),
{
    let upper = upper_chars(chars_of(key).as_slice());
    let list = git_environment_overrides_list();
    crate::text::equals_any(upper.as_slice(), list) || starts_with_str(
        upper.as_slice(),
        "GIT_CONFIG_KEY_",
    ) || starts_with_str(upper.as_slice(), "GIT_CONFIG_VALUE_")
}

/// Whether an environment variable belongs to Git (`GIT_*`, in any case).
pub fn git_environment_variable(key: &str) -> (b: bool)
    ensures
        b == starts_with(upper_seq(key@), "GIT_"@),
{
    let upper = upper_chars(chars_of(key).as_slice());
    starts_with_str(upper.as_slice(), "GIT_")
}

/// The redirecting variables among `keys`, ordered and without repeats.
pub open spec fn redirects_of(keys: Seq<Seq<char>>) -> Seq<Seq<char>>
    decreases keys.len(),
{
    if keys.len() == 0 {
        seq![]
    } else if is_git_redirect(keys.last()) {
        insert_sorted(redirects_of(keys.drop_last()), keys.last())
    } else {
        redirects_of(keys.drop_last())
    }
}

/// The views of a list of strings.
pub open spec fn string_views(v: Seq<String>) -> Seq<Seq<char>> {
    v.map_values(|s: String| s@)
}

/// The names of the variables, among the environment's `keys`, that would
/// redirect the transaction's Git; a non-empty list blocks the commit.
pub fn repository_redirect_variables(keys: &[String]) -> (r: Vec<String>)
    ensures
        string_views(r@) == redirects_of(string_views(keys@)),
{
    let mut found: Vec<Vec<char>> = Vec::new();
    let mut i: usize = 0;
    proof {
        assert(views(found@) =~= redirects_of(string_views(keys@).take(0)));
    }
    while i < keys.len()
        invariant
            i <= keys@.len(),
            views(found@) == redirects_of(string_views(keys@).take(i as int)),
        decreases keys.len() - i,
    {
        let ghost t = string_views(keys@).take(i + 1);
        proof {
            assert(t.drop_last() =~= string_views(keys@).take(i as int));
            assert(t.last() == keys@[i as int]@);
        }
        if git_environment_override(keys[i].as_str()) {
            let cs = chars_of(keys[i].as_str());
            insert_sorted_chars(&mut found, cs);
            proof {
                assert(views(found@) == found@.map_values(|v: Vec<char>| v@));
            }
        }
        i += 1;
    }
    proof {
        assert(string_views(keys@).take(keys@.len() as int) =~= string_views(keys@));
    }
    let mut out: Vec<String> = Vec::new();
    let mut k: usize = 0;
    while k < found.len()
        invariant
            k <= found@.len(),
            string_views(out@) == views(found@).take(k as int),
        decreases found.len() - k,
    {
        let ghost prev = string_views(out@);
        out.push(string_of(found[k].as_slice()));
        proof {
            assert(string_views(out@) =~= prev.push(found@[k as int]@));
            assert(views(found@).take(k + 1) =~= views(found@).take(k as int).push(found@[k as int]@));
        }
        k += 1;
    }
    proof {
        assert(views(found@).take(found@.len() as int) =~= views(found@));
    }
    out
}

// ---------------------------------------------------------------------------
// Values read from `git config`
// ---------------------------------------------------------------------------

/// Why a value read from `git config` is refused.
#[derive(Debug, Clone, Copy, PartialEq, Eq, Structural)]
pub enum GitValueError {
    /// The value is not UTF-8.
    NotUtf8,
    /// The value is empty, too long, or holds characters that are not safe.
    Unsafe,
}

/// The trimmed text of a `git config --get` answer, when it is UTF-8.
pub open spec fn config_text(stdout: Seq<u8>) -> Option<Seq<char>> {
    if valid_utf8(stdout) {
        Some(trim_ws(decode_utf8(stdout)))
    } else {
        None
    }
}

/// A value without control characters.
pub open spec fn free_of_controls(v: Seq<char>) -> bool {
    forall|i: int| 0 <= i < v.len() ==> !is_control(#[trigger] v[i])
}

/// An identity (`user.name`, `user.email`): 1 to 512 UTF-8 bytes, no control
/// characters and no angle brackets.
pub open spec fn safe_identity(v: Seq<char>) -> bool {
    v.len() > 0 && encode_utf8(v).len() <= 512 && free_of_controls(v) && !v.contains('<')
        && !v.contains('>')
}

/// A configured path: 1 to 4096 UTF-8 bytes and no control characters.
pub open spec fn safe_config_path(v: Seq<char>) -> bool {
    v.len() > 0 && encode_utf8(v).len() <= 4096 && free_of_controls(v)
}

fn trimmed_config_text(stdout: &[u8]) -> (r: Option<Vec<char>>)
    ensures
        match config_text(stdout@) {
            None => r is None,
            Some(t) => r matches Some(v) && v@ == t,
        },
{
    match str_from_utf8(stdout) {
        None => None,
        Some(s) => Some(trim_whitespace(chars_of(s).as_slice())),
    }
}

fn utf8_len(v: &[char]) -> (n: usize)
    ensures
        n == encode_utf8(v@).len(),
{
    let s = string_of(v);
    let b = s.as_str().as_bytes();
    b.len()
}

fn controls_free(v: &[char]) -> (b: bool)
    ensures
        b == free_of_controls(v@),
{
    let mut i: usize = 0;
    while i < v.len()
        invariant
            i <= v@.len(),
            forall|k: int| 0 <= k < i ==> !is_control(#[trigger] v@[k]),
        decreases v.len() - i,
    {
        if control(v[i]) {
            return false;
        }
        i += 1;
    }
    true
}

/// A Git identity value read from `git config --get`, trimmed.
pub fn git_identity_value(stdout: &[u8]) -> (r: Result<String, GitValueError>)
    ensures
        match config_text(stdout@) {
            None => r == Err::<String, GitValueError>(GitValueError::NotUtf8),
            Some(t) => if safe_identity(t) {
                r matches Ok(s) && s@ == t
            } else {
                r == Err::<String, GitValueError>(GitValueError::Unsafe)
            },
        },
{
    let v = match trimmed_config_text(stdout) {
        None => {
            return Err(GitValueError::NotUtf8);
        },
        Some(v) => v,
    };
    if v.len() == 0 || utf8_len(v.as_slice()) > 512 || !controls_free(v.as_slice())
        || crate::text::contains_char(v.as_slice(), '<') || crate::text::contains_char(
        v.as_slice(),
        '>',
    ) {
        return Err(GitValueError::Unsafe);
    }
    Ok(string_of(v.as_slice()))
}

/// A path value read from `git config --path --get`, trimmed.
pub fn git_path_value(stdout: &[u8]) -> (r: Result<String, GitValueError>)
    ensures
        match config_text(stdout@) {
            None => r == Err::<String, GitValueError>(GitValueError::NotUtf8),
            Some(t) => if safe_config_path(t) {
                r matches Ok(s) && s@ == t
            } else {
                r == Err::<String, GitValueError>(GitValueError::Unsafe)
            },
        },
{
    let v = match trimmed_config_text(stdout) {
        None => {
            return Err(GitValueError::NotUtf8);
        },
        Some(v) => v,
    };
    if v.len() == 0 || utf8_len(v.as_slice()) > 4096 || !controls_free(v.as_slice()) {
        return Err(GitValueError::Unsafe);
    }
    Ok(string_of(v.as_slice()))
}

/// Why listing one exact path in the index (`git ls-files --stage -z -- path`)
/// did not give its stage-zero entry.
#[derive(Debug, Clone, Copy, PartialEq, Eq, Structural)]
pub enum StageEntryError {
    /// The path has more than one index stage.
    MultipleStages,
    NotUtf8,
    /// The record has no tab between its metadata and its path.
    Malformed,
    /// The record names another path.
    OtherPath,
    /// The metadata is not `mode object 0`.
    NotStageZero,
}

/// The non-empty records among `rs`, in order.
pub open spec fn nonempty_records(rs: Seq<Seq<u8>>) -> Seq<Seq<u8>>
    decreases rs.len(),
{
    if rs.len() == 0 {
        seq![]
    } else {
        let p = nonempty_records(rs.drop_last());
        if rs.last().len() == 0 {
            p
        } else {
            p.push(rs.last())
        }
    }
}

/// The position of the first tab in `t`, if any.
pub open spec fn first_tab(t: Seq<char>) -> Option<int> {
    if exists|i: int| 0 <= i < t.len() && t[i] == '\t' {
        Some(choose|i: int| 0 <= i < t.len() && t[i] == '\t' && forall|j: int| 0 <= j < i ==> t[j] != '\t')
    } else {
        None
    }
}

/// The stage-zero entry of `path` in the NUL-terminated listing `stdout`:
/// its mode and object name, none when the path is not in the index.
pub open spec fn stage_zero_entry(stdout: Seq<u8>, path: Seq<char>) -> Result<
    Option<(Seq<char>, Seq<char>)>,
    StageEntryError,
> {
    let records = nonempty_records(split_nul(stdout));
    if records.len() == 0 {
        Ok(None)
    } else if records.len() != 1 {
        Err(StageEntryError::MultipleStages)
    } else if !valid_utf8(records[0]) {
        Err(StageEntryError::NotUtf8)
    } else {
        let text = decode_utf8(records[0]);
        match first_tab(text) {
            None => Err(StageEntryError::Malformed),
            Some(t) => if text.skip(t + 1) != path {
                Err(StageEntryError::OtherPath)
            } else {
                let fields = words(text.take(t));
                if fields.len() != 3 || fields[2] != seq!['0'] {
                    Err(StageEntryError::NotStageZero)
                } else {
                    Ok(Some((fields[0], fields[1])))
                }
            },
        }
    }
}

/// Parse the index listing of one exact path into its stage-zero mode and
/// object name (see [`stage_zero_entry`]).
pub fn parse_stage_zero_entry(stdout: &[u8], path: &str) -> (r: Result<Option<(String, String)>, StageEntryError>)
    ensures
        match stage_zero_entry(stdout@, path@) {
            Ok(None) => r matches Ok(None),
            Ok(Some((mode, object))) => r matches Ok(Some((m, o))) && m@ == mode && o@ == object,
            Err(e) => r matches Err(f) && f == e,
        },
{
    let pieces = split_on_nul(stdout);
    let ghost pv = split_nul(stdout@);
    proof {
        assert forall|k: int| 0 <= k < pieces@.len() implies #[trigger] pieces@[k]@ == pv[k] by {
            assert(pieces@.map_values(|v: Vec<u8>| v@)[k] == pieces@[k]@);
        }
    }
    let mut count: usize = 0;
    let mut first: usize = 0;
    let mut i: usize = 0;
    while i < pieces.len()
        invariant
            i <= pieces@.len(),
            pieces@.len() == pv.len(),
            forall|k: int| 0 <= k < pieces@.len() ==> #[trigger] pieces@[k]@ == pv[k],
            count == nonempty_records(pv.take(i as int)).len(),
            count <= i,
            count >= 1 ==> first < i && pv[first as int] == nonempty_records(pv.take(i as int))[0],
        decreases pieces.len() - i,
    {
        proof {
            assert(pv.take(i + 1).drop_last() =~= pv.take(i as int));
            assert(pv.take(i + 1).last() == pv[i as int]);
        }
        if pieces[i].len() > 0 {
            if count == 0 {
                first = i;
            }
            count += 1;
        }
        i += 1;
    }
    proof {
        assert(pv.take(pv.len() as int) =~= pv);
    }
    if count == 0 {
        return Ok(None);
    }
    if count != 1 {
        return Err(StageEntryError::MultipleStages);
    }
    let text = match str_from_utf8(pieces[first].as_slice()) {
        None => {
            return Err(StageEntryError::NotUtf8);
        },
        Some(t) => t,
    };
    let t = chars_of(text);
    let mut k: usize = 0;
    while k < t.len() && t[k] != '\t'
        invariant
            k <= t@.len(),
            forall|j: int| 0 <= j < k ==> t@[j] != '\t',
        decreases t.len() - k,
    {
        k += 1;
    }
    if k == t.len() {
        proof {
            assert(!(exists|j: int| 0 <= j < t@.len() && t@[j] == '\t'));
        }
        return Err(StageEntryError::Malformed);
    }
    proof {
        let c = choose|j: int| 0 <= j < t@.len() && t@[j] == '\t' && forall|q: int| 0 <= q < j ==> t@[q] != '\t';
        assert(t@[k as int] == '\t');
        if c < k {
            assert(t@[c] != '\t');
        }
        if c > k {
            assert(t@[k as int] != '\t');
        }
        assert(first_tab(t@) == Some(k as int));
    }
    let metadata = slice_chars(t.as_slice(), 0, k);
    let recorded = slice_chars(t.as_slice(), k + 1, t.len());
    proof {
        assert(metadata@ =~= t@.take(k as int));
        assert(recorded@ =~= t@.skip(k + 1));
    }
    if !chars_eq_str(recorded.as_slice(), path) {
        return Err(StageEntryError::OtherPath);
    }
    let fields = split_words(metadata.as_slice());
    proof {
        assert(fields@.len() == words(metadata@).len());
        assert forall|q: int| 0 <= q < fields@.len() implies #[trigger] fields@[q]@ == words(metadata@)[q] by {
            assert(views(fields@)[q] == fields@[q]@);
        }
    }
    if fields.len() != 3 || !(fields[2].len() == 1 && fields[2][0] == '0') {
        proof {
            if fields@.len() == 3 {
                assert(fields@[2]@ != seq!['0']) by {
                    if fields@[2]@ =~= seq!['0'] {
                        assert(fields@[2]@.len() == 1 && fields@[2]@[0] == '0');
                    }
                }
            }
        }
        return Err(StageEntryError::NotStageZero);
    }
    proof {
        assert(fields@[2]@ =~= seq!['0']);
    }
    let mode = string_of(fields[0].as_slice());
    let object = string_of(fields[1].as_slice());
    Ok(Some((mode, object)))
}

/// Why a temporary-index Git command gave no usable single value.
#[derive(Debug, Clone, Copy, PartialEq, Eq, Structural)]
pub enum RequiredTextError {
    NotUtf8,
    /// Nothing but whitespace.
    Empty,
}

/// The value a temporary-index Git command printed: its UTF-8 output with
/// surrounding whitespace trimmed, which must not be empty.
pub open spec fn required_text(stdout: Seq<u8>) -> Result<Seq<char>, RequiredTextError> {
    if !valid_utf8(stdout) {
        Err(RequiredTextError::NotUtf8)
    } else if trim_ws(decode_utf8(stdout)).len() == 0 {
        Err(RequiredTextError::Empty)
    } else {
        Ok(trim_ws(decode_utf8(stdout)))
    }
}

/// Check and trim the output of a temporary-index Git command.
pub fn required_git_text(stdout: &[u8]) -> (r: Result<String, RequiredTextError>)
    ensures
        match required_text(stdout@) {
            Ok(v) => r matches Ok(s) && s@ == v,
            Err(e) => r matches Err(f) && f == e,
        },
{
    let text = match str_from_utf8(stdout) {
        None => {
            return Err(RequiredTextError::NotUtf8);
        },
        Some(t) => t,
    };
    let trimmed = trim_whitespace(chars_of(text).as_slice());
    if trimmed.len() == 0 {
        return Err(RequiredTextError::Empty);
    }
    Ok(string_of(trimmed.as_slice()))
}

} // verus!
