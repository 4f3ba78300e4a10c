//! Small byte-level helpers shared by the wire formats: lower-case
//! hexadecimal rendering and parsing, and appending slices.
use vstd::prelude::*;
use vstd::utf8::{valid_utf8, decode_utf8};

verus! {

/// The ASCII character of a hexadecimal digit value, lower case.
pub open spec fn hex_char(d: nat) -> u8
    recommends
        d < 16,
{
    if d < 10 {
        (d + 48) as u8
    } else {
        (d + 87) as u8
    }
}

/// The hexadecimal digits of `n`, most significant first, without leading zeros
/// (a single `0` for zero).
pub open spec fn hex_digits(n: nat) -> Seq<u8>
    decreases n,
{
    if n < 16 {
        seq![hex_char(n)]
    } else {
        hex_digits(n / 16).push(hex_char(n % 16))
    }
}

/// `n` in lower-case hexadecimal, left-padded with zeros to at least four
/// digits: what `format!("{:04x}", n)` produces.
pub open spec fn hex04(n: nat) -> Seq<u8> {
    let d = hex_digits(n);
    if d.len() < 4 {
        Seq::new((4 - d.len()) as nat, |i: int| 48u8) + d
    } else {
        d
    }
}

/// The value of a hexadecimal digit character (either case), if it is one.
pub open spec fn hex_value_of(c: u8) -> Option<nat> {
    if 48 <= c <= 57 {
        Some((c - 48) as nat)
    } else if 97 <= c <= 102 {
        Some((c - 87) as nat)
    } else if 65 <= c <= 70 {
        Some((c - 55) as nat)
    } else {
        None
    }
}

pub open spec fn is_hex_digit(c: u8) -> bool {
    hex_value_of(c) is Some
}

pub open spec fn all_hex(s: Seq<u8>) -> bool {
    forall|i: int| 0 <= i < s.len() ==> is_hex_digit(#[trigger] s[i])
}

/// The number written by a string of hexadecimal digits, most significant first.
pub open spec fn hex_number(s: Seq<u8>) -> nat
    decreases s.len(),
{
    if s.len() == 0 {
        0
    } else {
        hex_number(s.drop_last()) * 16 + hex_value_of(s.last()).unwrap_or(0)
    }
}

proof fn lemma_hex_digits_len(n: nat)
    ensures
        1 <= hex_digits(n).len(),
        n < 0x10000 ==> hex_digits(n).len() <= 4,
        n < 0x1000 ==> hex_digits(n).len() <= 3,
        n < 0x100 ==> hex_digits(n).len() <= 2,
        n < 0x10 ==> hex_digits(n).len() <= 1,
    decreases n,
{
    if n >= 16 {
        lemma_hex_digits_len(n / 16);
    }
}

/// The value of one hexadecimal digit character, or `None`.
pub fn hex_digit_value(c: u8) -> (r: Option<u8>)
    ensures
        match r {
            Some(v) => hex_value_of(c) == Some(v as nat) && v < 16,
            None => hex_value_of(c) is None,
        },
{
    if 48 <= c && c <= 57 {
        Some(c - 48)
    } else if 97 <= c && c <= 102 {
        Some(c - 87)
    } else if 65 <= c && c <= 70 {
        Some(c - 55)
    } else {
        None
    }
}

fn hex_char_of(d: usize) -> (c: u8)
    requires
        d < 16,
    ensures
        c == hex_char(d as nat),
{
    if d < 10 {
        (d + 48) as u8
    } else {
        (d + 87) as u8
    }
}

/// Renders `n` as `format!("{:04x}", n)` does.
pub fn hex04_bytes(n: usize) -> (r: Vec<u8>)
    ensures
        r@ == hex04(n as nat),
{
    let mut digits: Vec<u8> = Vec::new();
    let mut m: usize = n;
    while m >= 16
        invariant
            hex_digits(n as nat) == hex_digits(m as nat) + digits@,
        decreases m,
    {
        let c = hex_char_of(m % 16);
        digits.insert(0, c);
        assert(hex_digits(m as nat) == hex_digits((m / 16) as nat).push(c));
        m = m / 16;
    }
    digits.insert(0, hex_char_of(m));
    assert(hex_digits(n as nat) =~= digits@);
    let ghost d = digits@;
    proof {
        lemma_hex_digits_len(n as nat);
    }
    while digits.len() < 4
        invariant
            d == hex_digits(n as nat),
            d.len() >= 1,
            digits@.len() <= 4 ==> digits@ == Seq::new((digits@.len() - d.len()) as nat, |i: int| 48u8) + d,
            d.len() <= 4 ==> digits@.len() <= 4,
            d.len() > 4 ==> digits@ == d,
        decreases 4 - digits.len(),
    {
        digits.insert(0, 48u8);
        assert(digits@ =~= Seq::new((digits@.len() - d.len()) as nat, |i: int| 48u8) + d);
    }
    proof {
        if d.len() < 4 {
            assert(digits@ =~= hex04(n as nat));
        }
    }
    digits
}

/// Appends all of `src` to `dst`.
pub fn push_all(dst: &mut Vec<u8>, src: &[u8])
    ensures
        final(dst)@ == old(dst)@ + src@,
{
    let mut i: usize = 0;
    while i < src.len()
        invariant
            i <= src@.len(),
            dst@ == old(dst)@ + src@.subrange(0, i as int),
        decreases src@.len() - i,
    {
        dst.push(src[i]);
        i = i + 1;
        assert(dst@ =~= old(dst)@ + src@.subrange(0, i as int));
    }
    assert(src@.subrange(0, src@.len() as int) =~= src@);
}

/// Rendering a number in hexadecimal and reading it back gives the number.
pub proof fn lemma_hex_digits_value(n: nat)
    ensures
        all_hex(hex_digits(n)),
        hex_number(hex_digits(n)) == n,
        hex_digits(n).len() >= 1,
    decreases n,
{
    if n < 16 {
        assert(seq![hex_char(n)].drop_last() =~= Seq::<u8>::empty());
        assert(hex_number(Seq::<u8>::empty()) == 0);
        assert(hex_value_of(hex_char(n)) == Some(n));
    } else {
        lemma_hex_digits_value(n / 16);
        let s = hex_digits(n / 16);
        assert(s.push(hex_char(n % 16)).drop_last() =~= s);
        assert(hex_value_of(hex_char(n % 16)) == Some(n % 16));
        assert forall|i: int| 0 <= i < hex_digits(n).len() implies is_hex_digit(
            #[trigger] hex_digits(n)[i],
        ) by {
            if i < s.len() {
                assert(hex_digits(n)[i] == s[i]);
            }
        }
    }
}

/// Leading zero digits do not change the value of a hexadecimal numeral.
pub proof fn lemma_zero_padding(k: nat, s: Seq<u8>)
    ensures
        hex_number(Seq::new(k, |i: int| 48u8) + s) == hex_number(s),
    decreases s.len(), k,
{
    let z = Seq::new(k, |i: int| 48u8);
    if s.len() == 0 {
        assert(z + s =~= z);
        if k > 0 {
            assert(z.drop_last() =~= Seq::new((k - 1) as nat, |i: int| 48u8));
            lemma_zero_padding((k - 1) as nat, s);
            assert(Seq::new((k - 1) as nat, |i: int| 48u8) + s =~= Seq::new((k - 1) as nat, |i: int| 48u8));
        }
    } else {
        assert((z + s).drop_last() =~= z + s.drop_last());
        lemma_zero_padding(k, s.drop_last());
    }
}

/// `hex04` writes a number below 0x10000 as exactly four hexadecimal digits
/// that read back as the number.
pub proof fn lemma_hex04_value(n: nat)
    requires
        n < 0x10000,
    ensures
        hex04(n).len() == 4,
        all_hex(hex04(n)),
        hex_number(hex04(n)) == n,
{
    lemma_hex_digits_len(n);
    lemma_hex_digits_value(n);
    let d = hex_digits(n);
    if d.len() < 4 {
        let z = Seq::new((4 - d.len()) as nat, |i: int| 48u8);
        lemma_zero_padding((4 - d.len()) as nat, d);
        assert forall|i: int| 0 <= i < hex04(n).len() implies is_hex_digit(#[trigger] hex04(n)[i]) by {
            if i < z.len() {
                assert(hex04(n)[i] == 48u8);
            } else {
                assert(hex04(n)[i] == d[i - z.len()]);
            }
        }
    }
}

/// `String::from_utf8`: the text that `bytes` encode, when they are valid UTF-8.
/// Trusted: std documents that the conversion fails exactly on invalid UTF-8 and
/// otherwise keeps the bytes, whose characters vstd's `decode_utf8` reads.
#[verifier::external_body]
pub(crate) fn string_from_utf8(bytes: Vec<u8>) -> (r: Option<String>)
    ensures
        r is Some <==> valid_utf8(bytes@),
        r matches Some(s) ==> s@ == decode_utf8(bytes@),
{
    String::from_utf8(bytes).ok()
}

} // verus!
