//! Decimal and hexadecimal spellings of unsigned numbers, as `{}` and
//! `{:x}` print them, for the names and identifiers this library makes.

use vstd::prelude::*;

verus! {

/// The decimal digit character for `d`, below ten.
pub open spec fn digit_char(d: nat) -> char {
    (48 + d) as char
}

/// The canonical decimal spelling of `n`: no sign, no leading zeros.
pub open spec fn decimal(n: nat) -> Seq<char>
    decreases n,
{
    if n < 10 {
        seq![digit_char(n)]
    } else {
        decimal(n / 10).push(digit_char(n % 10))
    }
}

pub proof fn lemma_decimal_digits(n: nat)
    ensures
        decimal(n).len() >= 1,
        forall|i: int| 0 <= i < decimal(n).len() ==> 48 <= #[trigger] (decimal(n)[i] as u32) <= 57,
    decreases n,
{
    if n >= 10 {
        lemma_decimal_digits(n / 10);
        let p = decimal(n / 10);
        assert forall|i: int| 0 <= i < decimal(n).len() implies 48 <= #[trigger] (decimal(n)[i] as u32) <= 57 by {
            if i < p.len() {
                assert(decimal(n)[i] == p[i]);
            }
        }
    }
}

/// The decimal spelling of `n`.
pub fn decimal_chars(n: u128) -> (r: Vec<char>)
    ensures
        r@ == decimal(n as nat),
{
    let mut rev: Vec<char> = Vec::new();
    let mut m: u128 = n;
    loop
        invariant_except_break
            m <= n,
            decimal(n as nat) == decimal(m as nat) + rev@.reverse(),
        ensures
            decimal(n as nat) == rev@.reverse(),
        decreases m,
    {
        let d = m % 10;
        let c = ((48u8 + (d as u8)) as char);
        proof {
            assert(c == digit_char((m % 10) as nat));
        }
        if m < 10 {
            proof {
                assert(decimal(m as nat) == seq![c]);
                assert(rev@.push(c).reverse() =~= seq![c] + rev@.reverse());
            }
            rev.push(c);
            break;
        }
        proof {
            assert(decimal(m as nat) == decimal((m / 10) as nat).push(c));
            assert(rev@.push(c).reverse() =~= seq![c] + rev@.reverse());
            assert(decimal((m / 10) as nat).push(c) + rev@.reverse() =~= decimal((m / 10) as nat) + rev@.push(c).reverse());
        }
        rev.push(c);
        m = m / 10;
    }
    reversed(&rev)
}


/// The lower-case hexadecimal digit character for `d`, below sixteen.
pub open spec fn hex_char(d: nat) -> char {
    if d < 10 {
        (48 + d) as char
    } else {
        (87 + d) as char
    }
}

/// The lower-case hexadecimal spelling of `n` (`{:x}`): no prefix, no
/// leading zeros.
pub open spec fn hex(n: nat) -> Seq<char>
    decreases n,
{
    if n < 16 {
        seq![hex_char(n)]
    } else {
        hex(n / 16).push(hex_char(n % 16))
    }
}

/// Every character of a hexadecimal spelling is an ASCII digit or `a`–`f`.
pub proof fn lemma_hex_digits(n: nat)
    ensures
        1 <= hex(n).len(),
        forall|i: int| 0 <= i < hex(n).len() ==> {
            let c = #[trigger] hex(n)[i] as u32;
            (48 <= c <= 57) || (97 <= c <= 102)
        },
    decreases n,
{
    if n >= 16 {
        lemma_hex_digits(n / 16);
        let p = hex(n / 16);
        assert forall|i: int| 0 <= i < hex(n).len() implies {
            let c = #[trigger] hex(n)[i] as u32;
            (48 <= c <= 57) || (97 <= c <= 102)
        } by {
            if i < p.len() {
                assert(hex(n)[i] == p[i]);
            }
        }
    }
}

/// Sixteen to the power `k`.
pub open spec fn pow16(k: nat) -> nat
    decreases k,
{
    if k == 0 {
        1
    } else {
        16 * pow16((k - 1) as nat)
    }
}

/// A number below `16^k` (with `k` at least one) is spelled with at most
/// `k` hexadecimal digits.
pub proof fn lemma_hex_len(n: nat, k: nat)
    requires
        k >= 1,
        n < pow16(k),
    ensures
        hex(n).len() <= k,
    decreases k,
{
    if n >= 16 {
        assert(k >= 2) by {
            if k == 1 {
                assert(pow16(1) == 16);
            }
        }
        assert(n / 16 < pow16((k - 1) as nat)) by (nonlinear_arith)
            requires
                n < 16 * pow16((k - 1) as nat),
        ;
        lemma_hex_len(n / 16, (k - 1) as nat);
    }
}

/// The hexadecimal spelling of `n`.
pub fn hex_chars(n: u128) -> (r: Vec<char>)
    ensures
        r@ == hex(n as nat),
{
    let mut rev: Vec<char> = Vec::new();
    let mut m: u128 = n;
    loop
        invariant_except_break
            m <= n,
            hex(n as nat) == hex(m as nat) + rev@.reverse(),
        ensures
            hex(n as nat) == rev@.reverse(),
        decreases m,
    {
        let d = (m % 16) as u8;
        let c = if d < 10 {
            (48u8 + d) as char
        } else {
            (87u8 + d) as char
        };
        proof {
            assert(c == hex_char((m % 16) as nat));
        }
        if m < 16 {
            proof {
                assert(hex(m as nat) == seq![c]);
                assert(rev@.push(c).reverse() =~= seq![c] + rev@.reverse());
            }
            rev.push(c);
            break;
        }
        proof {
            assert(hex(m as nat) == hex((m / 16) as nat).push(c));
            assert(rev@.push(c).reverse() =~= seq![c] + rev@.reverse());
            assert(hex((m / 16) as nat).push(c) + rev@.reverse() =~= hex((m / 16) as nat) + rev@.push(c).reverse());
        }
        rev.push(c);
        m = m / 16;
    }
    reversed(&rev)
}

/// The characters of `v` in reverse order.
fn reversed(v: &Vec<char>) -> (r: Vec<char>)
    ensures
        r@ == v@.reverse(),
{
    let mut out: Vec<char> = Vec::new();
    let mut i: usize = v.len();
    while i > 0
        invariant
            i <= v@.len(),
            out@ == v@.reverse().take((v@.len() - i) as int),
        decreases i,
    {
        i = i - 1;
        out.push(v[i]);
        proof {
            assert(out@ =~= v@.reverse().take((v@.len() - i) as int));
        }
    }
    proof {
        assert(v@.reverse().take(v@.len() as int) =~= v@.reverse());
    }
    out
}

/// Append all of `src` to `dst`.
pub fn append_chars(dst: &mut Vec<char>, src: &[char])
    ensures
        final(dst)@ == old(dst)@ + src@,
{
    let mut i: usize = 0;
    while i < src.len()
        invariant
            i <= src@.len(),
            dst@ == old(dst)@ + src@.take(i as int),
        decreases src.len() - i,
    {
        dst.push(src[i]);
        proof {
            assert(src@.take(i + 1) =~= src@.take(i as int).push(src@[i as int]));
            assert(dst@ =~= old(dst)@ + src@.take(i + 1));
        }
        i += 1;
    }
    proof {
        assert(src@.take(src@.len() as int) =~= src@);
    }
}

} // verus!
