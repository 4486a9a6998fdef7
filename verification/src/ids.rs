//! UUIDs, held as their 128-bit value, and their text form.

use uuid::Uuid;
use vstd::arithmetic::power2::pow2;
use vstd::prelude::*;

verus! {

/// A lowercase hexadecimal digit.
pub open spec fn hex_digit(n: int) -> char {
    if n < 10 {
        (48 + n) as char
    } else {
        (87 + n) as char
    }
}

/// The `j`-th hexadecimal digit of `id`, most significant first (0 to 31).
pub open spec fn uuid_nibble(id: u128, j: int) -> int {
    (id as int / pow2((4 * (31 - j)) as nat) as int) % 16
}

/// How many hyphens of the hyphenated form stand before position `i`.
pub open spec fn hyphens_before(i: int) -> int {
    if i < 8 {
        0
    } else if i < 13 {
        1
    } else if i < 18 {
        2
    } else if i < 23 {
        3
    } else {
        4
    }
}

/// The hyphenated lowercase form of a UUID, `xxxxxxxx-xxxx-xxxx-xxxx-xxxxxxxxxxxx`.
pub open spec fn uuid_text(id: u128) -> Seq<char> {
    Seq::new(
        36,
        |i: int|
            if i == 8 || i == 13 || i == 18 || i == 23 {
                '-'
            } else {
                hex_digit(uuid_nibble(id, i - hyphens_before(i)))
            },
    )
}

/// What `Uuid::parse_str` accepts and yields (hyphenated, simple, braced or
/// URN forms, in either case).
pub uninterp spec fn uuid_parse_spec(text: Seq<char>) -> Option<u128>;

/// Calls `Uuid::from_u128(id).to_string()`. `Uuid`'s `Display` writes the
/// hyphenated form with lowercase digits, most significant digit first.
#[verifier::external_body]
pub(crate) fn uuid_to_string(id: u128) -> (s: String)
    ensures
        s@ == uuid_text(id),
{
    Uuid::from_u128(id).to_string()
}

/// Calls `Uuid::parse_str`; the result is named. The contract also claims
/// what the crate documents: the hyphenated lowercase form of a UUID parses
/// back to that UUID.
#[verifier::external_body]
pub(crate) fn uuid_parse(text: &str) -> (id: Option<u128>)
    ensures
        id == uuid_parse_spec(text@),
        id is None ==> forall|u: u128| #[trigger] uuid_text(u) != text@,
        id matches Some(v) ==> forall|u: u128| #[trigger] uuid_text(u) == text@ ==> v == u,
{
    Uuid::parse_str(text).ok().map(|u| u.as_u128())
}

/// A version-4 (random) UUID with the RFC 4122 variant: its 13th hex digit
/// is 4 and its 17th one of 8, 9, a, b.
pub open spec fn is_version4(id: u128) -> bool {
    uuid_nibble(id, 12) == 4 && 8 <= uuid_nibble(id, 16) <= 11
}

/// Calls `Uuid::new_v4`: a random UUID whose version and variant bits the
/// source sets (version 4, RFC 4122 variant). Nothing else is claimed of
/// its value.
#[verifier::external_body]
pub(crate) fn new_uuid_v4() -> (id: u128)
    ensures
        is_version4(id),
{
    Uuid::new_v4().as_u128()
}

/// The text of a version-4 UUID shows it: the character after the second
/// hyphen is `4` and the one after the third is `8`, `9`, `a` or `b`. In
/// particular it is never the nil UUID's text.
pub proof fn law_version4_text(id: u128)
    requires
        is_version4(id),
    ensures
        uuid_text(id)[14] == '4',
        uuid_text(id)[19] == '8' || uuid_text(id)[19] == '9' || uuid_text(id)[19] == 'a' || uuid_text(id)[19] == 'b',
        uuid_text(id) != uuid_text(0),
{
    assert(uuid_text(id)[14] == hex_digit(uuid_nibble(id, 12)));
    assert(uuid_text(id)[19] == hex_digit(uuid_nibble(id, 16)));
    assert(uuid_nibble(0, 12) == 0) by {
        assert(pow2((4 * (31 - 12)) as nat) > 0) by {
            vstd::arithmetic::power2::lemma_pow2_pos((4 * (31 - 12)) as nat);
        }
    }
    assert(uuid_text(0)[14] == hex_digit(uuid_nibble(0, 12)));
}

} // verus!
