//! Standard Base64 (RFC 4648 alphabet, with padding), as the `base64`
//! crate's `BASE64_STANDARD` engine writes and reads it.

use base64::Engine;
use base64::prelude::BASE64_STANDARD;
use vstd::prelude::*;

verus! {

/// The symbol of a 6-bit value in the standard alphabet.
pub open spec fn b64_symbol(n: u8) -> char {
    if n < 26 {
        (65 + n) as char
    } else if n < 52 {
        (71 + n) as char
    } else if n < 62 {
        (n - 4) as char
    } else if n == 62 {
        '+'
    } else {
        '/'
    }
}

/// The four symbols of a group of three bytes.
pub open spec fn b64_group(b0: u8, b1: u8, b2: u8) -> Seq<char> {
    seq![
        b64_symbol(b0 >> 2u8),
        b64_symbol(((b0 & 3u8) << 4u8) | (b1 >> 4u8)),
        b64_symbol(((b1 & 15u8) << 2u8) | (b2 >> 6u8)),
        b64_symbol(b2 & 63u8),
    ]
}

/// Standard Base64 with padding: every three bytes become four symbols; a
/// final group of one or two bytes is padded with `=`.
pub open spec fn base64_standard_encode(b: Seq<u8>) -> Seq<char>
    decreases b.len(),
{
    if b.len() == 0 {
        Seq::empty()
    } else if b.len() == 1 {
        b64_group(b[0], 0, 0).subrange(0, 2) + seq!['=', '=']
    } else if b.len() == 2 {
        b64_group(b[0], b[1], 0).subrange(0, 3) + seq!['=']
    } else {
        b64_group(b[0], b[1], b[2]) + base64_standard_encode(b.subrange(3, b.len() as int))
    }
}

/// What canonical decoding gives: the bytes whose encoding is `text`, if
/// there are any.
pub open spec fn base64_standard_decode(text: Seq<char>) -> Option<Seq<u8>> {
    if exists|b: Seq<u8>| #[trigger] base64_standard_encode(b) == text {
        Some(choose|b: Seq<u8>| #[trigger] base64_standard_encode(b) == text)
    } else {
        None
    }
}

proof fn lemma_symbol_injective(x: u8, y: u8)
    requires
        x < 64,
        y < 64,
        b64_symbol(x) == b64_symbol(y),
    ensures
        x == y,
{
    assert((b64_symbol(x) as u32) == (b64_symbol(y) as u32));
}

proof fn lemma_symbol_not_pad(x: u8)
    requires
        x < 64,
    ensures
        b64_symbol(x) != '=',
{
}

proof fn lemma_sextets_bounded(b0: u8, b1: u8, b2: u8)
    ensures
        b0 >> 2u8 < 64,
        ((b0 & 3u8) << 4u8) | (b1 >> 4u8) < 64,
        ((b1 & 15u8) << 2u8) | (b2 >> 6u8) < 64,
        b2 & 63u8 < 64,
{
    assert(b0 >> 2u8 < 64) by (bit_vector);
    assert(((b0 & 3u8) << 4u8) | (b1 >> 4u8) < 64) by (bit_vector);
    assert(((b1 & 15u8) << 2u8) | (b2 >> 6u8) < 64) by (bit_vector);
    assert(b2 & 63u8 < 64) by (bit_vector);
}

proof fn lemma_group_symbols(b0: u8, b1: u8, b2: u8)
    ensures
        forall|i: int| 0 <= i < 4 ==> #[trigger] b64_group(b0, b1, b2)[i] != '=',
        b64_group(b0, b1, b2).len() == 4,
{
    lemma_sextets_bounded(b0, b1, b2);
    lemma_symbol_not_pad(b0 >> 2u8);
    lemma_symbol_not_pad(((b0 & 3u8) << 4u8) | (b1 >> 4u8));
    lemma_symbol_not_pad(((b1 & 15u8) << 2u8) | (b2 >> 6u8));
    lemma_symbol_not_pad(b2 & 63u8);
}

proof fn lemma_group_prefix_injective(a0: u8, a1: u8, a2: u8, c0: u8, c1: u8, c2: u8, k: int)
    requires
        1 <= k <= 3,
        k < 2 ==> a1 == 0 && c1 == 0,
        k < 3 ==> a2 == 0 && c2 == 0,
        b64_group(a0, a1, a2).subrange(0, k + 1) == b64_group(c0, c1, c2).subrange(0, k + 1),
    ensures
        a0 == c0,
        k >= 2 ==> a1 == c1,
        k >= 3 ==> a2 == c2,
{
    let ga = b64_group(a0, a1, a2);
    let gc = b64_group(c0, c1, c2);
    lemma_sextets_bounded(a0, a1, a2);
    lemma_sextets_bounded(c0, c1, c2);
    assert(ga[0] == gc[0] && ga[1] == gc[1]) by {
        assert(ga.subrange(0, k + 1)[0] == gc.subrange(0, k + 1)[0]);
        assert(ga.subrange(0, k + 1)[1] == gc.subrange(0, k + 1)[1]);
    }
    lemma_symbol_injective(a0 >> 2u8, c0 >> 2u8);
    lemma_symbol_injective(((a0 & 3u8) << 4u8) | (a1 >> 4u8), ((c0 & 3u8) << 4u8) | (c1 >> 4u8));
    if k == 1 {
        assert(a0 >> 2u8 == c0 >> 2u8 && ((a0 & 3u8) << 4u8) | (0u8 >> 4u8) == ((c0 & 3u8) << 4u8) | (0u8
            >> 4u8) ==> a0 == c0) by (bit_vector);
    } else {
        assert(ga[2] == gc[2]) by {
            assert(ga.subrange(0, k + 1)[2] == gc.subrange(0, k + 1)[2]);
        }
        lemma_symbol_injective(((a1 & 15u8) << 2u8) | (a2 >> 6u8), ((c1 & 15u8) << 2u8) | (c2 >> 6u8));
        if k == 2 {
            assert(a0 >> 2u8 == c0 >> 2u8 && ((a0 & 3u8) << 4u8) | (a1 >> 4u8) == ((c0 & 3u8) << 4u8) | (c1
                >> 4u8) && ((a1 & 15u8) << 2u8) | (0u8 >> 6u8) == ((c1 & 15u8) << 2u8) | (0u8 >> 6u8) ==> a0
                == c0 && a1 == c1) by (bit_vector);
        } else {
            assert(ga[3] == gc[3]) by {
                assert(ga.subrange(0, k + 1)[3] == gc.subrange(0, k + 1)[3]);
            }
            lemma_symbol_injective(a2 & 63u8, c2 & 63u8);
            assert(a0 >> 2u8 == c0 >> 2u8 && ((a0 & 3u8) << 4u8) | (a1 >> 4u8) == ((c0 & 3u8) << 4u8) | (c1
                >> 4u8) && ((a1 & 15u8) << 2u8) | (a2 >> 6u8) == ((c1 & 15u8) << 2u8) | (c2 >> 6u8) && a2
                & 63u8 == c2 & 63u8 ==> a0 == c0 && a1 == c1 && a2 == c2) by (bit_vector);
        }
    }
}

/// The kind of the first group of an encoding: 1 or 2 for a final padded
/// group, 3 for a full group.
spec fn first_group_kind(b: Seq<u8>) -> int {
    if b.len() <= 2 {
        b.len() as int
    } else {
        3
    }
}

proof fn lemma_encode_shape(b: Seq<u8>)
    requires
        b.len() > 0,
    ensures
        base64_standard_encode(b).len() >= 4,
        base64_standard_encode(b)[2] == '=' <==> first_group_kind(b) == 1,
        base64_standard_encode(b)[3] == '=' <==> first_group_kind(b) <= 2,
        base64_standard_encode(b).subrange(0, first_group_kind(b) + 1) == (if b.len() == 1 {
            b64_group(b[0], 0, 0)
        } else if b.len() == 2 {
            b64_group(b[0], b[1], 0)
        } else {
            b64_group(b[0], b[1], b[2])
        }).subrange(0, first_group_kind(b) + 1),
        b.len() >= 3 ==> base64_standard_encode(b).subrange(4, base64_standard_encode(b).len() as int)
            == base64_standard_encode(b.subrange(3, b.len() as int)),
{
    let e = base64_standard_encode(b);
    if b.len() == 1 {
        lemma_group_symbols(b[0], 0, 0);
        assert(e[0] == b64_group(b[0], 0, 0)[0]);
        assert(e[1] == b64_group(b[0], 0, 0)[1]);
    } else if b.len() == 2 {
        lemma_group_symbols(b[0], b[1], 0);
        assert(e[2] == b64_group(b[0], b[1], 0)[2]);
    } else {
        lemma_group_symbols(b[0], b[1], b[2]);
        assert(e[2] == b64_group(b[0], b[1], b[2])[2]);
        assert(e[3] == b64_group(b[0], b[1], b[2])[3]);
        assert(e.subrange(4, e.len() as int) == base64_standard_encode(b.subrange(3, b.len() as int)));
    }
}

/// Every started group of three bytes takes four symbols.
pub proof fn lemma_encode_len(b: Seq<u8>)
    ensures
        base64_standard_encode(b).len() == 4 * ((b.len() + 2) / 3),
    decreases b.len(),
{
    if b.len() >= 3 {
        lemma_encode_len(b.subrange(3, b.len() as int));
    }
}

/// Distinct byte strings have distinct encodings.
pub proof fn lemma_encode_injective(a: Seq<u8>, b: Seq<u8>)
    requires
        base64_standard_encode(a) == base64_standard_encode(b),
    ensures
        a == b,
    decreases a.len(),
{
    if a.len() == 0 {
        if b.len() > 0 {
            lemma_encode_shape(b);
        }
        assert(a =~= b);
    } else {
        if b.len() == 0 {
            lemma_encode_shape(a);
        }
        lemma_encode_shape(a);
        lemma_encode_shape(b);
        let e = base64_standard_encode(a);
        let k = first_group_kind(a);
        assert(first_group_kind(b) == k);
        if k == 1 {
            lemma_group_prefix_injective(a[0], 0, 0, b[0], 0, 0, 1);
            assert(a =~= b);
        } else if k == 2 {
            lemma_group_prefix_injective(a[0], a[1], 0, b[0], b[1], 0, 2);
            assert(a =~= b);
        } else {
            lemma_group_prefix_injective(a[0], a[1], a[2], b[0], b[1], b[2], 3);
            lemma_encode_injective(a.subrange(3, a.len() as int), b.subrange(3, b.len() as int));
            assert(a =~= b) by {
                assert forall|i: int| 0 <= i < a.len() implies a[i] == b[i] by {
                    if i >= 3 {
                        assert(a.subrange(3, a.len() as int)[i - 3] == b.subrange(3, b.len() as int)[i - 3]);
                    }
                }
            }
        }
    }
}

/// Decoding gives back exactly the bytes that were encoded.
pub proof fn lemma_decode_encode(b: Seq<u8>)
    ensures
        base64_standard_decode(base64_standard_encode(b)) == Some(b),
{
    let t = base64_standard_encode(b);
    assert(exists|x: Seq<u8>| #[trigger] base64_standard_encode(x) == t);
    let c = choose|x: Seq<u8>| #[trigger] base64_standard_encode(x) == t;
    lemma_encode_injective(c, b);
}

/// Calls `BASE64_STANDARD.encode`.
#[verifier::external_body]
pub(crate) fn base64_encode(bytes: &[u8]) -> (text: String)
    ensures
        text@ == base64_standard_encode(bytes@),
{
    BASE64_STANDARD.encode(bytes)
}

/// Calls `BASE64_STANDARD.decode`. The engine requires canonical input
/// (padding as the encoder writes it, no stray trailing bits), so it accepts
/// exactly the texts the encoder produces, and what it returns encodes back
/// to the input.
#[verifier::external_body]
fn canonical_decode(text: &str) -> (decoded: Option<Vec<u8>>)
    ensures
        decoded matches Some(v) ==> base64_standard_encode(v@) == text@,
        decoded is None ==> forall|b: Seq<u8>| #[trigger] base64_standard_encode(b) != text@,
{
    BASE64_STANDARD.decode(text).ok()
}

/// Decodes standard Base64; `None` for text that is not a canonical
/// encoding.
pub fn base64_decode(text: &str) -> (decoded: Option<Vec<u8>>)
    ensures
        match base64_standard_decode(text@) {
            Some(b) => decoded matches Some(v) && v@ == b,
            None => decoded is None,
        },
{
    let decoded = canonical_decode(text);
    proof {
        if decoded is Some {
            let v = decoded->0@;
            let c = choose|x: Seq<u8>| #[trigger] base64_standard_encode(x) == text@;
            lemma_encode_injective(c, v);
        }
    }
    decoded
}

} // verus!
