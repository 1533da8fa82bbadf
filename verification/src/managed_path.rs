//! The path policy of managed storage: a managed path is a non-empty list of
//! plain names below its root, and a managed file name is one plain name.
//!
//! The platform splits a path into components; this module decides what the
//! components may be, so that no managed path can climb out of its root or
//! name another root.

use vstd::prelude::*;

use crate::privacy::fill_random;
use crate::text::{chars_of, contains_char, string_of};

verus! {

/// One component of a path, as the platform's path parser yields it.
#[derive(Debug, Clone)]
pub enum PathComponent {
    /// A drive or UNC prefix.
    Prefix,
    /// The root separator.
    RootDir,
    /// `.`
    CurDir,
    /// `..`
    ParentDir,
    /// A plain name.
    Normal(String),
}

/// Why a managed path or name is refused.
#[derive(Debug, Clone, Copy, PartialEq, Eq, Structural)]
pub enum ManagedPathError {
    /// A component that climbs out of the root or names another root.
    Escaping,
    /// A path with no plain name.
    Empty,
    /// A file name that is not exactly one plain name.
    UnsafeName,
    /// A sibling suffix that is empty or holds a separator.
    BadSuffix,
}

/// A component that climbs out of the root or names another root.
pub open spec fn escapes(c: PathComponent) -> bool {
    match c {
        PathComponent::ParentDir | PathComponent::RootDir | PathComponent::Prefix => true,
        _ => false,
    }
}

/// The plain names among `cs`, in order.
pub open spec fn plain_names(cs: Seq<PathComponent>) -> Seq<Seq<char>>
    decreases cs.len(),
{
    if cs.len() == 0 {
        seq![]
    } else {
        let prev = plain_names(cs.drop_last());
        match cs.last() {
            PathComponent::Normal(n) => prev.push(n@),
            _ => prev,
        }
    }
}

/// The views of a list of strings.
pub open spec fn string_views(v: Seq<String>) -> Seq<Seq<char>> {
    v.map_values(|s: String| s@)
}

/// The plain names of a managed relative path: refused when any component
/// escapes the root, and when no plain name remains (`.` is skipped).
pub fn relative_parts(components: &[PathComponent]) -> (r: Result<Vec<String>, ManagedPathError>)
    ensures
        (exists|i: int| 0 <= i < components@.len() && escapes(#[trigger] components@[i])) ==> r
            == Err::<Vec<String>, ManagedPathError>(ManagedPathError::Escaping),
        !(exists|i: int| 0 <= i < components@.len() && escapes(#[trigger] components@[i])) ==> (
        if plain_names(components@).len() == 0 {
            r == Err::<Vec<String>, ManagedPathError>(ManagedPathError::Empty)
        } else {
            r matches Ok(parts) && string_views(parts@) == plain_names(components@)
        }),
{
    let mut parts: Vec<String> = Vec::new();
    let mut i: usize = 0;
    proof {
        assert(string_views(parts@) =~= plain_names(components@.take(0)));
    }
    while i < components.len()
        invariant
            i <= components@.len(),
            forall|j: int| 0 <= j < i ==> !escapes(#[trigger] components@[j]),
            string_views(parts@) == plain_names(components@.take(i as int)),
        decreases components.len() - i,
    {
        let ghost t = components@.take(i + 1);
        let ghost prev = string_views(parts@);
        proof {
            assert(t.drop_last() =~= components@.take(i as int));
            assert(t.last() == components@[i as int]);
        }
        match &components[i] {
            PathComponent::Normal(part) => {
                parts.push(part.clone());
                proof {
                    assert(string_views(parts@) =~= prev.push(part@));
                }
            },
            PathComponent::CurDir => {},
            _ => {
                proof {
                    assert(escapes(components@[i as int]));
                }
                return Err(ManagedPathError::Escaping);
            },
        }
        i += 1;
    }
    proof {
        assert(components@.take(components@.len() as int) =~= components@);
    }
    if parts.len() == 0 {
        return Err(ManagedPathError::Empty);
    }
    Ok(parts)
}

/// A file name whose path is exactly one plain name.
pub open spec fn single_plain_name(cs: Seq<PathComponent>) -> bool {
    cs.len() == 1 && cs[0] is Normal
}

/// Check that a file name, split into path components, is one plain name.
pub fn validate_child_name(components: &[PathComponent]) -> (r: Result<(), ManagedPathError>)
    ensures
        r is Ok <==> single_plain_name(components@),
        r is Err ==> r == Err::<(), ManagedPathError>(ManagedPathError::UnsafeName),
{
    if components.len() == 1 {
        if let PathComponent::Normal(_) = &components[0] {
            return Ok(());
        }
    }
    Err(ManagedPathError::UnsafeName)
}

/// A file name that is one plain name on every platform: not empty, not `.`
/// or `..`, and without a `/` or `\` separator.
pub open spec fn plain_file_name(name: Seq<char>) -> bool {
    name.len() > 0 && name != seq!['.'] && name != seq!['.', '.'] && !name.contains('/')
        && !name.contains('\\')
}

/// The hidden sibling `.<name>.<suffix>` of a managed file, used for its
/// pending and temporary copies. `name_components` is `name` split by the
/// platform's path parser; the name must be one plain name both by those
/// components and by its own characters.
pub fn sibling_name(name: &str, name_components: &[PathComponent], suffix: &str) -> (r: Result<
    String,
    ManagedPathError,
>)
    ensures
        !(single_plain_name(name_components@) && plain_file_name(name@)) ==> r == Err::<
            String,
            ManagedPathError,
        >(ManagedPathError::UnsafeName),
        single_plain_name(name_components@) && plain_file_name(name@) && (suffix@.len() == 0
            || suffix@.contains('/') || suffix@.contains('\\')) ==> r == Err::<String, ManagedPathError>(
            ManagedPathError::BadSuffix,
        ),
        single_plain_name(name_components@) && plain_file_name(name@) && !(suffix@.len() == 0
            || suffix@.contains('/') || suffix@.contains('\\')) ==> (r matches Ok(s) && s@ == seq!['.']
            + name@ + seq!['.'] + suffix@),
{
    if validate_child_name(name_components).is_err() {
        return Err(ManagedPathError::UnsafeName);
    }
    let name_chars0 = chars_of(name);
    let n0 = name_chars0.len();
    let dot = n0 == 1 && name_chars0[0] == '.';
    let dotdot = n0 == 2 && name_chars0[0] == '.' && name_chars0[1] == '.';
    proof {
        if n0 == 1 && !dot {
            assert(name@ != seq!['.']) by {
                assert(name@[0] != seq!['.'][0]);
            }
        }
        if n0 == 2 && !dotdot {
            assert(name@ != seq!['.', '.']) by {
                if name@[0] != '.' {
                    assert(name@[0] != seq!['.', '.'][0]);
                } else {
                    assert(name@[1] != seq!['.', '.'][1]);
                }
            }
        }
        if dot {
            assert(name@ =~= seq!['.']);
        }
        if dotdot {
            assert(name@ =~= seq!['.', '.']);
        }
    }
    if n0 == 0 || dot || dotdot || contains_char(name_chars0.as_slice(), '/') || contains_char(
        name_chars0.as_slice(),
        '\\',
    ) {
        return Err(ManagedPathError::UnsafeName);
    }
    let suffix_chars = chars_of(suffix);
    if suffix_chars.len() == 0 || contains_char(suffix_chars.as_slice(), '/') || contains_char(
        suffix_chars.as_slice(),
        '\\',
    ) {
        return Err(ManagedPathError::BadSuffix);
    }
    let mut out: Vec<char> = Vec::new();
    out.push('.');
    let name_chars = chars_of(name);
    let mut i: usize = 0;
    while i < name_chars.len()
        invariant
            i <= name_chars@.len(),
            out@ == seq!['.'] + name_chars@.take(i as int),
        decreases name_chars.len() - i,
    {
        out.push(name_chars[i]);
        proof {
            assert(name_chars@.take(i + 1) =~= name_chars@.take(i as int).push(name_chars@[i as int]));
            assert(out@ =~= seq!['.'] + name_chars@.take(i + 1));
        }
        i += 1;
    }
    out.push('.');
    let ghost base = out@;
    proof {
        assert(name_chars@.take(name_chars@.len() as int) =~= name_chars@);
    }
    let mut j: usize = 0;
    while j < suffix_chars.len()
        invariant
            j <= suffix_chars@.len(),
            out@ == base + suffix_chars@.take(j as int),
        decreases suffix_chars.len() - j,
    {
        out.push(suffix_chars[j]);
        proof {
            assert(suffix_chars@.take(j + 1) =~= suffix_chars@.take(j as int).push(
                suffix_chars@[j as int],
            ));
            assert(out@ =~= base + suffix_chars@.take(j + 1));
        }
        j += 1;
    }
    proof {
        assert(suffix_chars@.take(suffix_chars@.len() as int) =~= suffix_chars@);
        assert(out@ =~= seq!['.'] + name@ + seq!['.'] + suffix@);
    }
    Ok(string_of(out.as_slice()))
}

/// The fixed start of the name a file is moved to before it is unlinked.
pub const UNLINK_PREFIX: &'static str = "umadev-unlink-";

/// The lower-case hexadecimal digit for `d`, below sixteen.
pub open spec fn hex_digit(d: u8) -> char {
    if d < 10 {
        (48 + d) as char
    } else {
        (87 + d) as char
    }
}

/// The bytes as lower-case hexadecimal, two digits each.
pub open spec fn hex_lower(b: Seq<u8>) -> Seq<char>
    decreases b.len(),
{
    if b.len() == 0 {
        Seq::empty()
    } else {
        hex_lower(b.drop_last()) + seq![hex_digit(b.last() / 16), hex_digit(b.last() % 16)]
    }
}

/// The suffix of the quarantine sibling for a random nonce.
pub open spec fn quarantine_suffix_spec(nonce: Seq<u8>) -> Seq<char> {
    UNLINK_PREFIX@ + hex_lower(nonce)
}

fn hex_char(d: u8) -> (c: char)
    requires
        d < 16,
    ensures
        c == hex_digit(d),
{
    if d < 10 {
        (48u8 + d) as char
    } else {
        (87u8 + d) as char
    }
}

/// The quarantine suffix for `nonce`: [`UNLINK_PREFIX`] and the nonce in
/// lower-case hexadecimal.
pub fn quarantine_suffix(nonce: &[u8; 16]) -> (s: String)
    ensures
        s@ == quarantine_suffix_spec(nonce@),
{
    let mut out = chars_of(UNLINK_PREFIX);
    let ghost base = out@;
    let mut i: usize = 0;
    while i < 16
        invariant
            i <= 16,
            nonce@.len() == 16,
            out@ == base + hex_lower(nonce@.take(i as int)),
        decreases 16 - i,
    {
        let b = nonce[i];
        out.push(hex_char(b / 16));
        out.push(hex_char(b % 16));
        proof {
            let t = nonce@.take(i + 1);
            assert(t.drop_last() =~= nonce@.take(i as int));
            assert(t.last() == b);
            assert(out@ =~= base + hex_lower(t));
        }
        i += 1;
    }
    proof {
        assert(nonce@.take(16) =~= nonce@);
    }
    string_of(out.as_slice())
}

/// A fresh, unpredictable quarantine suffix, or `None` when the random
/// source fails.
pub fn new_quarantine_suffix() -> (r: Option<String>)
    ensures
        r matches Some(s) ==> exists|nonce: [u8; 16]| s@ == #[trigger] quarantine_suffix_spec(nonce@),
{
    let mut nonce = [0u8; 16];
    if !fill_random(&mut nonce) {
        return None;
    }
    let s = quarantine_suffix(&nonce);
    Some(s)
}

} // verus!
