//! Git object ids: twenty bytes, written as forty lower-case hexadecimal
//! digits.
use vstd::prelude::*;
use vstd::string::StringSliceAdditionalSpecFns;
use crate::bytes::{hex_char, hex_value_of, is_hex_digit};

verus! {

/// A git object id (a SHA-1 hash).
#[derive(Debug, Clone, Copy)]
pub struct Oid {
    pub bytes: [u8; 20],
}

impl PartialEq for Oid {
    fn eq(&self, other: &Oid) -> (r: bool) {
        let mut i: usize = 0;
        while i < 20
            invariant
                i <= 20,
                self.bytes@.len() == 20,
                other.bytes@.len() == 20,
                forall|j: int| 0 <= j < i ==> self.bytes@[j] == other.bytes@[j],
            decreases 20 - i,
        {
            if self.bytes[i] != other.bytes[i] {
                return false;
            }
            i = i + 1;
        }
        assert(self.bytes@ =~= other.bytes@);
        true
    }
}

impl vstd::std_specs::cmp::PartialEqSpecImpl for Oid {
    open spec fn obeys_eq_spec() -> bool {
        true
    }

    open spec fn eq_spec(&self, other: &Oid) -> bool {
        self.bytes@ == other.bytes@
    }
}

impl Eq for Oid {
}

/// The object id that a hexadecimal string names, as git parses one: one to
/// forty hexadecimal digits of either case, read as the leading digits of the
/// forty-digit id, the missing ones zero.
pub open spec fn oid_from_hex(s: Seq<u8>) -> Option<Seq<u8>> {
    if 1 <= s.len() <= 40 && forall|i: int| 0 <= i < s.len() ==> is_hex_digit(#[trigger] s[i]) {
        Some(
            Seq::new(
                20,
                |k: int|
                    (digit_at(s, 2 * k) * 16 + digit_at(s, 2 * k + 1)) as u8,
            ),
        )
    } else {
        None
    }
}

/// The value of the hexadecimal digit at `i`, zero past the end.
pub open spec fn digit_at(s: Seq<u8>, i: int) -> nat {
    if 0 <= i < s.len() {
        hex_value_of(s[i]).unwrap_or(0)
    } else {
        0
    }
}

/// The forty lower-case hexadecimal digits of an id.
pub open spec fn oid_hex(bytes: Seq<u8>) -> Seq<char> {
    Seq::new(
        2 * bytes.len(),
        |i: int|
            (if i % 2 == 0 {
                hex_char((bytes[i / 2] / 16) as nat)
            } else {
                hex_char((bytes[i / 2] % 16) as nat)
            }) as char,
    )
}

/// `git2::Oid::from_str`: the id that `s` names. Trusted: git2 hands the
/// bytes of `s` to libgit2's `git_oid_fromstrn`, which refuses an empty
/// string, one longer than forty and any non-hexadecimal byte, and otherwise
/// sets the high and low halves of each byte from successive digits, the rest
/// zero.
#[verifier::external_body]
pub(crate) fn parse_oid(s: &str) -> (r: Option<Oid>)
    ensures
        match (r, oid_from_hex(s.spec_bytes())) {
            (Some(o), Some(b)) => o.bytes@ == b,
            (None, None) => true,
            _ => false,
        },
{
    match git2::Oid::from_str(s) {
        Ok(o) => Some(Oid { bytes: o.as_bytes().try_into().unwrap_or([0u8; 20]) }),
        Err(_) => None,
    }
}

impl Oid {
    /// The id in hexadecimal, as git2's `Display` for `Oid` writes it.
    /// Trusted: git2 formats the id with libgit2's `git_oid_tostr`, which
    /// writes each byte as two lower-case hexadecimal digits, high half first.
    #[verifier::external_body]
    pub(crate) fn to_string(&self) -> (r: String)
        ensures
            r@ == oid_hex(self.bytes@),
    {
        match git2::Oid::from_bytes(&self.bytes) {
            Ok(o) => o.to_string(),
            Err(_) => String::new(),
        }
    }
}

} // verus!
