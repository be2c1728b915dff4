//! Decimal rendering of integers into strings.

use vstd::prelude::*;
use vstd::utf8::*;

verus! {

/// The character of decimal digit `d` (0..=9).
pub open spec fn digit_char(d: int) -> char {
    (d + 48) as char
}

/// The decimal digits of `n`, most significant first, without leading zeros.
pub open spec fn decimal(n: nat) -> Seq<char>
    decreases n,
{
    if n < 10 {
        seq![digit_char(n as int)]
    } else {
        decimal(n / 10).push(digit_char((n % 10) as int))
    }
}

/// `n` in decimal, with a leading `-` when negative (what `{}` prints for an integer).
pub open spec fn signed_decimal(n: int) -> Seq<char> {
    if n < 0 {
        seq!['-'] + decimal((-n) as nat)
    } else {
        decimal(n as nat)
    }
}

/// `n` in decimal padded with zeros to at least two characters (what `{:02}` prints).
pub open spec fn zero_padded2(n: nat) -> Seq<char> {
    if n < 10 {
        seq!['0'] + decimal(n)
    } else {
        decimal(n)
    }
}

/// Appends one character to a string (`String::push`).
#[verifier::external_body]
pub(crate) fn push_char(s: &mut String, c: char)
    ensures
        final(s)@ == old(s)@.push(c),
{
    s.push(c);
}

/// Appends the decimal digits of `n` to `out`.
pub fn push_decimal(out: &mut String, n: u32)
    ensures
        final(out)@ == old(out)@ + decimal(n as nat),
    decreases n,
{
    let ghost start = out@;
    if n >= 10 {
        push_decimal(out, n / 10);
    }
    let ghost mid = out@;
    let d: u32 = n % 10;
    let c: char = ((48 + d) as u8) as char;
    assert(c == digit_char(d as int));
    push_char(out, c);
    if n >= 10 {
        assert(out@ =~= start + decimal(n as nat));
    } else {
        assert(out@ =~= start + decimal(n as nat));
    }
}

/// Appends `n` in decimal, with a leading `-` when negative.
pub fn push_signed_decimal(out: &mut String, n: i32)
    ensures
        final(out)@ == old(out)@ + signed_decimal(n as int),
{
    let ghost start = out@;
    if n < 0 {
        push_char(out, '-');
        let magnitude: u32 = (-(n as i64)) as u32;
        push_decimal(out, magnitude);
        assert(out@ =~= start + signed_decimal(n as int));
    } else {
        push_decimal(out, n as u32);
    }
}

/// Appends `n` in decimal, padded with zeros to at least two digits.
pub fn push_zero_padded2(out: &mut String, n: u32)
    ensures
        final(out)@ == old(out)@ + zero_padded2(n as nat),
{
    let ghost start = out@;
    if n < 10 {
        push_char(out, '0');
    }
    push_decimal(out, n);
    assert(out@ =~= start + zero_padded2(n as nat));
}

/// UTF-8 encoding distributes over concatenation.
pub proof fn lemma_encode_utf8_concat(a: Seq<char>, b: Seq<char>)
    ensures
        encode_utf8(a + b) == encode_utf8(a) + encode_utf8(b),
    decreases a.len(),
{
    if a.len() == 0 {
        assert(a + b =~= b);
        assert(encode_utf8(a) + encode_utf8(b) =~= encode_utf8(b));
    } else {
        assert((a + b).drop_first() =~= a.drop_first() + b);
        assert((a + b)[0] == a[0]);
        lemma_encode_utf8_concat(a.drop_first(), b);
        assert(encode_utf8(a + b) =~= encode_utf8(a) + encode_utf8(b));
    }
}

/// A character boundary in the UTF-8 encoding of `s` ends the encoding of a
/// prefix of `s`, and decoding the bytes before it gives that prefix.
pub proof fn lemma_char_boundary_prefix(s: Seq<char>, k: int) -> (j: int)
    requires
        is_char_boundary(encode_utf8(s), k),
    ensures
        0 <= j <= s.len(),
        encode_utf8(s.take(j)).len() == k,
        encode_utf8(s).subrange(0, k) == encode_utf8(s.take(j)),
        decode_utf8(encode_utf8(s).subrange(0, k)) == s.take(j),
    decreases s.len(),
{
    broadcast use encode_utf8_valid_utf8, encode_utf8_decode_utf8;

    let bytes = encode_utf8(s);
    if k == 0 {
        assert(s.take(0) =~= Seq::<char>::empty());
        assert(bytes.subrange(0, 0) =~= encode_utf8(s.take(0)));
        0
    } else {
        assert(s.len() > 0) by {
            if s.len() == 0 {
                assert(bytes.len() == 0);
            }
        }
        encode_utf8_first_scalar(s);
        let rest = s.drop_first();
        let first_len = length_of_first_scalar(bytes);
        assert(encode_utf8(s) == encode_scalar(s[0] as u32) + encode_utf8(rest));
        assert(pop_first_scalar(bytes) =~= encode_utf8(rest));
        assert(is_char_boundary(encode_utf8(rest), k - first_len));
        let j0 = lemma_char_boundary_prefix(rest, k - first_len);
        let j = j0 + 1;
        assert(s.take(j) =~= seq![s[0]] + rest.take(j0));
        assert(seq![s[0]].drop_first() =~= Seq::<char>::empty());
        assert(encode_utf8(Seq::<char>::empty()) =~= Seq::<u8>::empty());
        assert(encode_utf8(seq![s[0]]) == encode_scalar(seq![s[0]][0] as u32) + encode_utf8(
            seq![s[0]].drop_first(),
        ));
        assert(encode_utf8(seq![s[0]]) =~= encode_scalar(s[0] as u32));
        lemma_encode_utf8_concat(seq![s[0]], rest.take(j0));
        assert(s =~= s.take(j) + s.skip(j));
        lemma_encode_utf8_concat(s.take(j), s.skip(j));
        assert(encode_utf8(s).subrange(0, k) =~= encode_utf8(s.take(j)));
        j
    }
}

/// The end of the encoding of `a` is a character boundary of the encoding of `a + b`.
pub proof fn lemma_char_boundary_after_prefix(a: Seq<char>, b: Seq<char>)
    ensures
        is_char_boundary(encode_utf8(a + b), encode_utf8(a).len() as int),
    decreases a.len(),
{
    broadcast use encode_utf8_valid_utf8;

    if a.len() == 0 {
    } else {
        let s = a + b;
        let bytes = encode_utf8(s);
        assert(s[0] == a[0]);
        assert(s.drop_first() =~= a.drop_first() + b);
        encode_utf8_first_scalar(s);
        assert(pop_first_scalar(bytes) =~= encode_utf8(a.drop_first() + b));
        lemma_encode_utf8_concat(a, b);
        assert(encode_utf8(a).len() == encode_scalar(a[0] as u32).len() + encode_utf8(
            a.drop_first(),
        ).len());
        lemma_char_boundary_after_prefix(a.drop_first(), b);
    }
}

} // verus!
