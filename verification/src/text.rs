//! Building the text of match strings and output records.

use vstd::arithmetic::div_mod::{lemma_basic_div, lemma_div_decreases, lemma_mod_bound};
use vstd::prelude::*;

verus! {

/// The digits of the number formats, in order of their value.
pub const DIGITS: [char; 16] = [
    '0', '1', '2', '3', '4', '5', '6', '7', '8', '9', 'A', 'B', 'C', 'D', 'E', 'F',
];

/// Calls `String::push`. Trusted: the string afterwards is the string before
/// with `c` appended as its last character.
#[verifier::external_body]
pub(crate) fn push_char(s: &mut String, c: char)
    ensures
        final(s)@ == old(s)@.push(c),
{
    s.push(c)
}

/// The digits of `n` in base `base`, most significant first, with zeros in
/// front where there are fewer than `width` of them. Zero has one digit.
pub open spec fn radix_text(n: nat, base: nat, width: nat) -> Seq<char>
    decreases n, width,
    when base >= 2
{
    if n < base && width <= 1 {
        seq![DIGITS@[n as int]]
    } else {
        proof {
            lemma_quotient_smaller(n, base);
        }
        let less = if width > 0 {
            (width - 1) as nat
        } else {
            0
        };
        radix_text(n / base, base, less) + seq![DIGITS@[(n % base) as int]]
    }
}

/// Dividing by a base of 2 or more makes a positive number smaller and
/// leaves a remainder below the base.
pub proof fn lemma_quotient_smaller(n: nat, base: nat)
    requires
        base >= 2,
    ensures
        n > 0 ==> n / base < n,
        n == 0 ==> n / base == 0,
        0 <= n % base < base,
{
    if n > 0 {
        lemma_div_decreases(n as int, base as int);
    } else {
        lemma_basic_div(n as int, base as int);
    }
    lemma_mod_bound(n as int, base as int);
}

/// Appends the digits of `n` in base `base` to the string, at least `width`
/// of them.
pub fn push_radix(s: &mut String, n: u32, base: u32, width: u8)
    requires
        2 <= base <= 16,
    ensures
        final(s)@ == old(s)@ + radix_text(n as nat, base as nat, width as nat),
    decreases n, width,
{
    if n < base && width <= 1 {
        push_char(s, DIGITS[n as usize]);
        assert(s@ =~= old(s)@ + radix_text(n as nat, base as nat, width as nat));
    } else {
        proof {
            lemma_quotient_smaller(n as nat, base as nat);
        }
        let less: u8 = if width > 0 {
            width - 1
        } else {
            0
        };
        push_radix(s, n / base, base, less);
        push_char(s, DIGITS[(n % base) as usize]);
        assert(s@ =~= old(s)@ + radix_text(n as nat, base as nat, width as nat));
    }
}

/// The bytes in upper-case hexadecimal, two digits each, nothing between.
pub open spec fn hex_bytes(bytes: Seq<u8>) -> Seq<char>
    decreases bytes.len(),
{
    if bytes.len() == 0 {
        Seq::empty()
    } else {
        hex_bytes(bytes.drop_last()) + radix_text(bytes.last() as nat, 16, 2)
    }
}

/// Appends the bytes of a glyph in upper-case hexadecimal to the string.
pub fn push_hex_bytes(s: &mut String, bytes: &[u8; 32])
    ensures
        final(s)@ == old(s)@ + hex_bytes(bytes@),
{
    let mut i: usize = 0;
    assert(bytes@.take(0) =~= Seq::<u8>::empty());
    while i < 32
        invariant
            i <= 32,
            s@ == old(s)@ + hex_bytes(bytes@.take(i as int)),
        decreases 32 - i,
    {
        let ghost before = s@;
        push_radix(s, bytes[i] as u32, 16, 2);
        proof {
            let next = bytes@.take(i + 1);
            assert(next.drop_last() =~= bytes@.take(i as int));
            assert(next.last() == bytes@[i as int]);
            assert(s@ =~= old(s)@ + hex_bytes(next));
        }
        i = i + 1;
    }
    assert(bytes@.take(32) =~= bytes@);
}

} // verus!
