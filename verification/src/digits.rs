//! Decimal rendering and parsing of 16-bit numbers, used for the numeric
//! labels of the protocol (session tokens and chunk identifiers are carried
//! as ASCII decimal strings inside DNS names).

use vstd::prelude::*;

verus! {

/// The ASCII decimal digits of `n`, most significant first.
pub open spec fn dec_digits(n: nat) -> Seq<u8>
    decreases n,
{
    if n < 10 {
        seq![(n + 48) as u8]
    } else {
        dec_digits(n / 10) + seq![((n % 10) + 48) as u8]
    }
}

pub open spec fn is_dec_digit(b: u8) -> bool {
    48 <= b <= 57
}

pub open spec fn all_dec_digits(s: Seq<u8>) -> bool {
    forall|i: int| 0 <= i < s.len() ==> is_dec_digit(#[trigger] s[i])
}

/// The numeric value of a digit string, read left to right.
pub open spec fn dec_value(s: Seq<u8>) -> int
    decreases s.len(),
{
    if s.len() == 0 {
        0
    } else {
        dec_value(s.drop_last()) * 10 + (s.last() - 48)
    }
}

/// What parsing a label as a 16-bit decimal number yields: a value exactly
/// when the label is a nonempty, all-digit string whose value fits.
pub open spec fn spec_parse_u16(s: Seq<u8>) -> Option<u16> {
    if s.len() >= 1 && all_dec_digits(s) && dec_value(s) <= 65535 {
        Some(dec_value(s) as u16)
    } else {
        None
    }
}

/// Renders `n` as its ASCII decimal digits.
pub fn u16_to_dec_label(n: u16) -> (r: Vec<u8>)
    ensures
        r@ == dec_digits(n as nat),
{
    let mut out: Vec<u8> = Vec::new();
    push_dec_digits(n, &mut out);
    proof {
        assert(out@ =~= dec_digits(n as nat));
    }
    out
}

fn push_dec_digits(n: u16, out: &mut Vec<u8>)
    ensures
        final(out)@ == old(out)@ + dec_digits(n as nat),
    decreases n,
{
    if n < 10 {
        out.push((n as u8) + 48);
        proof {
            assert(old(out)@.push((n + 48) as u8) =~= old(out)@ + dec_digits(n as nat));
        }
    } else {
        push_dec_digits(n / 10, out);
        out.push(((n % 10) as u8) + 48);
        proof {
            assert(old(out)@ + dec_digits((n / 10) as nat) + seq![((n % 10) + 48) as u8]
                =~= old(out)@ + dec_digits(n as nat));
        }
    }
}

proof fn lemma_dec_value_extend(s: Seq<u8>, i: int)
    requires
        0 <= i < s.len(),
    ensures
        dec_value(s.subrange(0, i + 1)) == dec_value(s.subrange(0, i)) * 10 + (s[i] - 48),
{
    let t = s.subrange(0, i + 1);
    assert(t.drop_last() =~= s.subrange(0, i));
    assert(t.last() == s[i]);
}

proof fn lemma_dec_value_nonneg(s: Seq<u8>)
    requires
        all_dec_digits(s),
    ensures
        dec_value(s) >= 0,
    decreases s.len(),
{
    if s.len() > 0 {
        assert(all_dec_digits(s.drop_last()));
        lemma_dec_value_nonneg(s.drop_last());
    }
}

/// For an all-digit string, the value of a prefix never exceeds the value of
/// the whole string.
proof fn lemma_dec_value_prefix_le(s: Seq<u8>, i: int)
    requires
        all_dec_digits(s),
        0 <= i <= s.len(),
    ensures
        dec_value(s.subrange(0, i)) <= dec_value(s),
    decreases s.len() - i,
{
    if i == s.len() {
        assert(s.subrange(0, i) =~= s);
    } else {
        lemma_dec_value_extend(s, i);
        assert(all_dec_digits(s.subrange(0, i)));
        lemma_dec_value_nonneg(s.subrange(0, i));
        lemma_dec_value_prefix_le(s, i + 1);
    }
}

/// Rendering a number as decimal digits and reading the digits back yields
/// the same number.
pub proof fn lemma_dec_digits_value(n: nat)
    ensures
        all_dec_digits(dec_digits(n)),
        dec_digits(n).len() >= 1,
        dec_value(dec_digits(n)) == n,
    decreases n,
{
    if n < 10 {
        let s = dec_digits(n);
        assert(s.drop_last() =~= Seq::<u8>::empty());
        assert(dec_value(s) == dec_value(s.drop_last()) * 10 + (s.last() - 48));
        assert(dec_value(s.drop_last()) == 0);
        assert(s.last() == (n + 48) as u8);
        assert(dec_value(s) == n);
    } else {
        lemma_dec_digits_value(n / 10);
        let s = dec_digits(n);
        let p = dec_digits(n / 10);
        assert(s.drop_last() =~= p);
        assert(s.last() == ((n % 10) + 48) as u8);
        assert(forall|i: int| 0 <= i < s.len() - 1 ==> s[i] == p[i]);
        assert(dec_value(s) == dec_value(p) * 10 + (n % 10));
    }
}

/// A rendered 16-bit number parses back to itself.
pub proof fn lemma_parse_dec_digits(n: u16)
    ensures
        spec_parse_u16(dec_digits(n as nat)) == Some(n),
{
    lemma_dec_digits_value(n as nat);
}

/// Parses a label as a 16-bit decimal number.
pub fn parse_u16_label(s: &[u8]) -> (r: Option<u16>)
    ensures
        r == spec_parse_u16(s@),
{
    if s.len() == 0 {
        return None;
    }
    let mut acc: u32 = 0;
    let mut i: usize = 0;
    while i < s.len()
        invariant
            0 <= i <= s@.len(),
            acc <= 65535,
            all_dec_digits(s@.subrange(0, i as int)),
            acc == dec_value(s@.subrange(0, i as int)),
        decreases s@.len() - i,
    {
        let b = s[i];
        if b < 48 || b > 57 {
            proof {
                assert(!is_dec_digit(s@[i as int]));
                assert(!all_dec_digits(s@));
            }
            return None;
        }
        let d: u32 = (b - 48) as u32;
        proof {
            lemma_dec_value_extend(s@, i as int);
        }
        acc = acc * 10 + d;
        if acc > 65535 {
            proof {
                assert(all_dec_digits(s@.subrange(0, i + 1)));
                if all_dec_digits(s@) {
                    lemma_dec_value_prefix_le(s@, i + 1);
                }
            }
            return None;
        }
        i = i + 1;
    }
    proof {
        assert(s@.subrange(0, i as int) =~= s@);
    }
    Some(acc as u16)
}

} // verus!
