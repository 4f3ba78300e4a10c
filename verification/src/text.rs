//! Text helpers over std's `str` and `String`, with what std documents of them.
use vstd::prelude::*;

verus! {

/// `==` on string slices. Trusted: std compares the two slices' contents, so
/// they are equal exactly when their characters are.
#[verifier::external_body]
pub(crate) fn str_eq(a: &str, b: &str) -> (r: bool)
    ensures
        r == (a@ == b@),
{
    a == b
}

/// The characters of `s`, in order (`s.chars().collect()`). Trusted: std's
/// `chars` yields each character of the slice once, in order.
#[verifier::external_body]
pub(crate) fn chars_of(s: &str) -> (r: Vec<char>)
    ensures
        r@ == s@,
{
    s.chars().collect()
}

/// The string made of the characters `cs`, in order (`cs.iter().collect()`).
/// Trusted: std's `FromIterator<&char>` for `String` pushes each character.
#[verifier::external_body]
pub(crate) fn string_of_chars(cs: &Vec<char>) -> (r: String)
    ensures
        r@ == cs@,
{
    cs.iter().collect()
}

/// Whether `c` is white space as `char::is_whitespace` says: the Unicode
/// White_Space characters.
pub open spec fn is_whitespace(c: char) -> bool {
    let u = c as u32;
    ||| 9 <= u <= 13
    ||| u == 32
    ||| u == 0x85
    ||| u == 0xA0
    ||| u == 0x1680
    ||| 0x2000 <= u <= 0x200A
    ||| u == 0x2028
    ||| u == 0x2029
    ||| u == 0x202F
    ||| u == 0x205F
    ||| u == 0x3000
}

pub fn char_is_whitespace(c: char) -> (r: bool)
    ensures
        r == is_whitespace(c),
{
    let u = c as u32;
    (9 <= u && u <= 13) || u == 32 || u == 0x85 || u == 0xA0 || u == 0x1680 || (0x2000 <= u && u
        <= 0x200A) || u == 0x2028 || u == 0x2029 || u == 0x202F || u == 0x205F || u == 0x3000
}

/// `s` without its leading white space.
pub open spec fn trim_start(s: Seq<char>) -> Seq<char>
    decreases s.len(),
{
    if s.len() > 0 && is_whitespace(s[0]) {
        trim_start(s.drop_first())
    } else {
        s
    }
}

/// `s` without its trailing white space.
pub open spec fn trim_end(s: Seq<char>) -> Seq<char>
    decreases s.len(),
{
    if s.len() > 0 && is_whitespace(s.last()) {
        trim_end(s.drop_last())
    } else {
        s
    }
}

/// `s` without leading and trailing white space, as `str::trim` gives it.
pub open spec fn trim(s: Seq<char>) -> Seq<char> {
    trim_end(trim_start(s))
}

/// The characters of `s` without leading and trailing white space.
pub fn trim_chars(s: &Vec<char>) -> (r: Vec<char>)
    ensures
        r@ == trim(s@),
{
    let mut a: usize = 0;
    assert(s@.skip(0) =~= s@);
    while a < s.len() && char_is_whitespace(s[a])
        invariant
            a <= s@.len(),
            trim_start(s@) == trim_start(s@.skip(a as int)),
        decreases s@.len() - a,
    {
        assert(s@.skip(a as int).drop_first() =~= s@.skip(a + 1));
        a = a + 1;
    }
    let ghost t = s@.skip(a as int);
    assert(trim_start(s@) == t) by {
        if a < s@.len() {
            assert(t[0] == s@[a as int]);
        } else {
            assert(t.len() == 0);
        }
    }
    let mut b: usize = s.len();
    assert(t.subrange(0, (b - a) as int) =~= t);
    while b > a && char_is_whitespace(s[b - 1])
        invariant
            a <= b <= s@.len(),
            t == s@.skip(a as int),
            trim_end(t) == trim_end(t.subrange(0, (b - a) as int)),
        decreases b,
    {
        assert(t.subrange(0, (b - a) as int).last() == s@[b - 1]);
        assert(t.subrange(0, (b - a) as int).drop_last() =~= t.subrange(0, (b - 1 - a) as int));
        b = b - 1;
    }
    let mut r: Vec<char> = Vec::new();
    let mut k: usize = a;
    while k < b
        invariant
            a <= k <= b <= s@.len(),
            r@ == s@.subrange(a as int, k as int),
        decreases b - k,
    {
        r.push(s[k]);
        k = k + 1;
        assert(r@ =~= s@.subrange(a as int, k as int));
    }
    assert(t.subrange(0, (b - a) as int) =~= r@);
    proof {
        if b > a {
            assert(r@.last() == s@[b - 1]);
        }
    }
    r
}

/// The position of the first space in `s`, or its length when it has none.
pub open spec fn space_index(s: Seq<char>) -> nat
    decreases s.len(),
{
    if s.len() == 0 {
        0
    } else if s[0] == ' ' {
        0
    } else {
        1 + space_index(s.drop_first())
    }
}

proof fn lemma_space_index_bound(s: Seq<char>)
    ensures
        space_index(s) <= s.len(),
    decreases s.len(),
{
    if s.len() > 0 && s[0] != ' ' {
        lemma_space_index_bound(s.drop_first());
    }
}

/// Splits `s` before its first space: the part before and the rest, which
/// starts with the space, if any.
pub fn split_at_space(s: &Vec<char>) -> (r: (Vec<char>, Vec<char>))
    ensures
        r.0@ == s@.take(space_index(s@) as int),
        r.1@ == s@.skip(space_index(s@) as int),
{
    let mut k: usize = 0;
    assert(s@.skip(0) =~= s@);
    while k < s.len() && s[k] != ' '
        invariant
            k <= s@.len(),
            space_index(s@) == k + space_index(s@.skip(k as int)),
        decreases s@.len() - k,
    {
        assert(s@.skip(k as int).drop_first() =~= s@.skip(k + 1));
        k = k + 1;
    }
    let mut a: Vec<char> = Vec::new();
    let mut b: Vec<char> = Vec::new();
    let mut i: usize = 0;
    while i < s.len()
        invariant
            k <= s@.len(),
            i <= s@.len(),
            i <= k ==> a@ == s@.subrange(0, i as int) && b@.len() == 0,
            i > k ==> a@ == s@.subrange(0, k as int) && b@ == s@.subrange(k as int, i as int),
        decreases s@.len() - i,
    {
        if i < k {
            a.push(s[i]);
        } else {
            b.push(s[i]);
        }
        i = i + 1;
        assert(i <= k ==> a@ =~= s@.subrange(0, i as int));
        assert(i > k ==> b@ =~= s@.subrange(k as int, i as int));
    }
    proof {
        if k == s@.len() {
            assert(b@ =~= s@.skip(k as int));
        }
        assert(a@ =~= s@.take(k as int));
        assert(b@ =~= s@.skip(k as int));
    }
    (a, b)
}

} // verus!
