//! Text helpers: e-mail normalisation and the whitespace rules it rests on.

use vstd::prelude::*;

verus! {

/// The Unicode `White_Space` property, which `char::is_whitespace` and
/// `str::trim` use.
pub open spec fn is_unicode_whitespace(c: char) -> bool {
    let u = c as u32;
    ||| 0x09 <= u <= 0x0d
    ||| u == 0x20
    ||| u == 0x85
    ||| u == 0xa0
    ||| u == 0x1680
    ||| 0x2000 <= u <= 0x200a
    ||| u == 0x2028
    ||| u == 0x2029
    ||| u == 0x202f
    ||| u == 0x205f
    ||| u == 0x3000
}

/// `s` without its leading whitespace.
pub open spec fn trim_start_spec(s: Seq<char>) -> Seq<char>
    decreases s.len(),
{
    if s.len() > 0 && is_unicode_whitespace(s[0]) {
        trim_start_spec(s.drop_first())
    } else {
        s
    }
}

/// `s` without its trailing whitespace.
pub open spec fn trim_end_spec(s: Seq<char>) -> Seq<char>
    decreases s.len(),
{
    if s.len() > 0 && is_unicode_whitespace(s.last()) {
        trim_end_spec(s.drop_last())
    } else {
        s
    }
}

/// `s` without leading and trailing whitespace.
pub open spec fn trim_spec(s: Seq<char>) -> Seq<char> {
    trim_end_spec(trim_start_spec(s))
}

/// What `str::to_lowercase` returns: the Unicode lowercase mapping of the
/// whole string (context-dependent for a final sigma).
pub uninterp spec fn unicode_lowercase(s: Seq<char>) -> Seq<char>;

/// Calls `str::trim`, which removes leading and trailing characters with
/// the Unicode `White_Space` property.
#[verifier::external_body]
fn str_trim<'a>(s: &'a str) -> (t: &'a str)
    ensures
        t@ == trim_spec(s@),
{
    s.trim()
}

/// Whether every character is ASCII.
pub open spec fn is_ascii_text(s: Seq<char>) -> bool {
    forall|i: int| 0 <= i < s.len() ==> (#[trigger] s[i] as u32) < 128
}

/// ASCII lowercasing of one character: `A`..`Z` become `a`..`z`.
pub open spec fn ascii_lower_char(c: char) -> char {
    if 65 <= (c as u32) <= 90 {
        ((c as u32) + 32) as char
    } else {
        c
    }
}

/// ASCII uppercasing of one character: `a`..`z` become `A`..`Z`.
pub open spec fn ascii_upper_char(c: char) -> char {
    if 97 <= (c as u32) <= 122 {
        ((c as u32) - 32) as char
    } else {
        c
    }
}

/// ASCII lowercasing of a string.
pub open spec fn ascii_lowercase(s: Seq<char>) -> Seq<char> {
    Seq::new(s.len(), |i: int| ascii_lower_char(s[i]))
}

/// ASCII uppercasing of a string.
pub open spec fn ascii_uppercase(s: Seq<char>) -> Seq<char> {
    Seq::new(s.len(), |i: int| ascii_upper_char(s[i]))
}

/// Calls `str::to_lowercase`; the result is named, not spelled out. The
/// contract also claims what the Unicode lowercase mapping is on ASCII:
/// `A`..`Z` map to `a`..`z` and every other ASCII character to itself.
#[verifier::external_body]
fn str_to_lowercase(s: &str) -> (r: String)
    ensures
        r@ == unicode_lowercase(s@),
        is_ascii_text(s@) ==> r@ == ascii_lowercase(s@),
{
    s.to_lowercase()
}

/// The canonical form of an e-mail address: surrounding whitespace removed,
/// then lowercased.
pub open spec fn normalized_email(email: Seq<char>) -> Seq<char> {
    unicode_lowercase(trim_spec(email))
}

/// The canonical form of an ASCII e-mail address: trimmed, then ASCII
/// lowercased.
pub open spec fn ascii_normalized_email(email: Seq<char>) -> Seq<char> {
    ascii_lowercase(trim_spec(email))
}

/// Normalises an e-mail address before it is looked up or stored.
pub fn normalize_email(email: &str) -> (res: String)
    ensures
        res@ == normalized_email(email@),
        is_ascii_text(email@) ==> res@ == ascii_normalized_email(email@),
{
    let trimmed = str_trim(email);
    proof {
        lemma_trim_is_slice(email@);
    }
    str_to_lowercase(trimmed)
}

/// `trim_start_spec` drops a prefix: what remains is a suffix of `s`.
proof fn lemma_trim_start_suffix(s: Seq<char>)
    ensures
        trim_start_spec(s).len() <= s.len(),
        trim_start_spec(s) == s.subrange(s.len() - trim_start_spec(s).len(), s.len() as int),
    decreases s.len(),
{
    if s.len() > 0 && is_unicode_whitespace(s[0]) {
        lemma_trim_start_suffix(s.drop_first());
        let t = trim_start_spec(s.drop_first());
        assert(s.drop_first().subrange(s.drop_first().len() - t.len(), s.drop_first().len() as int)
            =~= s.subrange(s.len() - t.len(), s.len() as int));
    } else {
        assert(s.subrange(0, s.len() as int) =~= s);
    }
}

/// `trim_end_spec` drops a suffix: what remains is a prefix of `s`.
proof fn lemma_trim_end_prefix(s: Seq<char>)
    ensures
        trim_end_spec(s).len() <= s.len(),
        trim_end_spec(s) == s.subrange(0, trim_end_spec(s).len() as int),
    decreases s.len(),
{
    if s.len() > 0 && is_unicode_whitespace(s.last()) {
        lemma_trim_end_prefix(s.drop_last());
        let t = trim_end_spec(s.drop_last());
        assert(s.drop_last().subrange(0, t.len() as int) =~= s.subrange(0, t.len() as int));
    } else {
        assert(s.subrange(0, s.len() as int) =~= s);
    }
}

/// Trimming keeps ASCII text ASCII.
proof fn lemma_trim_is_slice(s: Seq<char>)
    ensures
        is_ascii_text(s) ==> is_ascii_text(trim_spec(s)),
{
    lemma_trim_start_suffix(s);
    let t = trim_start_spec(s);
    lemma_trim_end_prefix(t);
    if is_ascii_text(s) {
        let k = s.len() - t.len();
        assert forall|i: int| 0 <= i < t.len() implies (#[trigger] t[i] as u32) < 128 by {
            assert(t[i] == s[k + i]);
        }
        let r = trim_end_spec(t);
        assert forall|i: int| 0 <= i < r.len() implies (#[trigger] r[i] as u32) < 128 by {
            assert(r[i] == t[i]);
        }
    }
}

/// A character-by-character mapping of a string.
spec fn map_chars(s: Seq<char>, f: spec_fn(char) -> char) -> Seq<char> {
    Seq::new(s.len(), |i: int| f(s[i]))
}

/// ASCII case changes keep whitespace whitespace and other characters not,
/// and lowercasing after either case change is plain lowercasing.
proof fn lemma_case_chars(c: char)
    ensures
        is_unicode_whitespace(ascii_lower_char(c)) == is_unicode_whitespace(c),
        is_unicode_whitespace(ascii_upper_char(c)) == is_unicode_whitespace(c),
        ascii_lower_char(ascii_lower_char(c)) == ascii_lower_char(c),
        ascii_lower_char(ascii_upper_char(c)) == ascii_lower_char(c),
        (c as u32) < 128 ==> (ascii_upper_char(c) as u32) < 128,
{
    let u = c as u32;
    if 65 <= u <= 90 {
        assert((((u + 32) as char) as u32) == u + 32);
    }
    if 97 <= u <= 122 {
        assert((((u - 32) as char) as u32) == u - 32);
    }
}

proof fn lemma_trim_start_map(s: Seq<char>, f: spec_fn(char) -> char)
    requires
        forall|c: char| #[trigger] is_unicode_whitespace(f(c)) == is_unicode_whitespace(c),
    ensures
        trim_start_spec(map_chars(s, f)) == map_chars(trim_start_spec(s), f),
    decreases s.len(),
{
    let m = map_chars(s, f);
    if s.len() > 0 {
        assert(m[0] == f(s[0]));
        assert(is_unicode_whitespace(f(s[0])) == is_unicode_whitespace(s[0]));
        if is_unicode_whitespace(s[0]) {
            assert(m.drop_first() =~= map_chars(s.drop_first(), f));
            lemma_trim_start_map(s.drop_first(), f);
        }
    } else {
        assert(m =~= map_chars(trim_start_spec(s), f));
    }
}

proof fn lemma_trim_end_map(s: Seq<char>, f: spec_fn(char) -> char)
    requires
        forall|c: char| #[trigger] is_unicode_whitespace(f(c)) == is_unicode_whitespace(c),
    ensures
        trim_end_spec(map_chars(s, f)) == map_chars(trim_end_spec(s), f),
    decreases s.len(),
{
    let m = map_chars(s, f);
    if s.len() > 0 {
        assert(m.last() == f(s.last()));
        assert(is_unicode_whitespace(f(s.last())) == is_unicode_whitespace(s.last()));
        if is_unicode_whitespace(s.last()) {
            assert(m.drop_last() =~= map_chars(s.drop_last(), f));
            lemma_trim_end_map(s.drop_last(), f);
        }
    } else {
        assert(m =~= map_chars(trim_end_spec(s), f));
    }
}

/// Trimming commutes with ASCII case changes.
proof fn lemma_trim_case(s: Seq<char>)
    ensures
        trim_spec(ascii_lowercase(s)) == ascii_lowercase(trim_spec(s)),
        trim_spec(ascii_uppercase(s)) == ascii_uppercase(trim_spec(s)),
{
    let lo = |c: char| ascii_lower_char(c);
    let up = |c: char| ascii_upper_char(c);
    assert forall|c: char| #[trigger] is_unicode_whitespace(lo(c)) == is_unicode_whitespace(c) by {
        lemma_case_chars(c);
    }
    assert forall|c: char| #[trigger] is_unicode_whitespace(up(c)) == is_unicode_whitespace(c) by {
        lemma_case_chars(c);
    }
    assert(ascii_lowercase(s) =~= map_chars(s, lo));
    assert(ascii_uppercase(s) =~= map_chars(s, up));
    lemma_trim_start_map(s, lo);
    lemma_trim_end_map(trim_start_spec(s), lo);
    lemma_trim_start_map(s, up);
    lemma_trim_end_map(trim_start_spec(s), up);
    assert(ascii_lowercase(trim_spec(s)) =~= map_chars(trim_spec(s), lo));
    assert(ascii_uppercase(trim_spec(s)) =~= map_chars(trim_spec(s), up));
}

/// What trimming leaves starts and ends with a character that is not
/// whitespace.
proof fn lemma_trim_bounds(s: Seq<char>)
    ensures
        trim_spec(s).len() > 0 ==> !is_unicode_whitespace(trim_spec(s)[0]) && !is_unicode_whitespace(
            trim_spec(s).last(),
        ),
    decreases s.len(),
{
    lemma_trim_start_first(s);
    let t = trim_start_spec(s);
    lemma_trim_end_last(t);
    lemma_trim_end_prefix(t);
    if trim_spec(s).len() > 0 {
        assert(trim_spec(s)[0] == t[0]);
    }
}

proof fn lemma_trim_start_first(s: Seq<char>)
    ensures
        trim_start_spec(s).len() > 0 ==> !is_unicode_whitespace(trim_start_spec(s)[0]),
    decreases s.len(),
{
    if s.len() > 0 && is_unicode_whitespace(s[0]) {
        lemma_trim_start_first(s.drop_first());
    }
}

proof fn lemma_trim_end_last(s: Seq<char>)
    ensures
        trim_end_spec(s).len() > 0 ==> !is_unicode_whitespace(trim_end_spec(s).last()),
    decreases s.len(),
{
    if s.len() > 0 && is_unicode_whitespace(s.last()) {
        lemma_trim_end_last(s.drop_last());
    }
}

/// Trimming twice is trimming once.
proof fn lemma_trim_idempotent(s: Seq<char>)
    ensures
        trim_spec(trim_spec(s)) == trim_spec(s),
{
    let t = trim_spec(s);
    lemma_trim_bounds(s);
    if t.len() > 0 {
        assert(trim_start_spec(t) == t);
        assert(trim_end_spec(t) == t);
    }
}

/// Whether every character is whitespace.
pub open spec fn all_whitespace(s: Seq<char>) -> bool {
    forall|i: int| 0 <= i < s.len() ==> is_unicode_whitespace(#[trigger] s[i])
}

proof fn lemma_trim_start_skips(p: Seq<char>, z: Seq<char>)
    requires
        all_whitespace(p),
    ensures
        trim_start_spec(p + z) == trim_start_spec(z),
    decreases p.len(),
{
    if p.len() > 0 {
        assert(is_unicode_whitespace(p[0]));
        assert((p + z)[0] == p[0]);
        assert((p + z).drop_first() =~= p.drop_first() + z);
        assert(all_whitespace(p.drop_first())) by {
            assert forall|i: int| 0 <= i < p.drop_first().len() implies is_unicode_whitespace(
                #[trigger] p.drop_first()[i],
            ) by {
                assert(p.drop_first()[i] == p[i + 1]);
            }
        }
        lemma_trim_start_skips(p.drop_first(), z);
    } else {
        assert(p + z =~= z);
    }
}

proof fn lemma_trim_end_skips(z: Seq<char>, q: Seq<char>)
    requires
        all_whitespace(q),
    ensures
        trim_end_spec(z + q) == trim_end_spec(z),
    decreases q.len(),
{
    if q.len() > 0 {
        assert(is_unicode_whitespace(q.last()));
        assert((z + q).last() == q.last());
        assert((z + q).drop_last() =~= z + q.drop_last());
        assert(all_whitespace(q.drop_last())) by {
            assert forall|i: int| 0 <= i < q.drop_last().len() implies is_unicode_whitespace(
                #[trigger] q.drop_last()[i],
            ) by {
                assert(q.drop_last()[i] == q[i]);
            }
        }
        lemma_trim_end_skips(z, q.drop_last());
    } else {
        assert(z + q =~= z);
    }
}

proof fn lemma_trim_ignores_trailing(x: Seq<char>, q: Seq<char>)
    requires
        all_whitespace(q),
    ensures
        trim_end_spec(trim_start_spec(x + q)) == trim_end_spec(trim_start_spec(x)),
    decreases x.len(),
{
    if x.len() == 0 {
        assert(x + q =~= q);
        lemma_trim_start_skips(q, Seq::<char>::empty());
        assert(q + Seq::<char>::empty() =~= q);
    } else if is_unicode_whitespace(x[0]) {
        assert((x + q)[0] == x[0]);
        assert((x + q).drop_first() =~= x.drop_first() + q);
        lemma_trim_ignores_trailing(x.drop_first(), q);
    } else {
        assert((x + q)[0] == x[0]);
        lemma_trim_end_skips(x, q);
    }
}

/// Surrounding whitespace does not change what trimming leaves.
proof fn lemma_trim_surrounded(p: Seq<char>, x: Seq<char>, q: Seq<char>)
    requires
        all_whitespace(p),
        all_whitespace(q),
    ensures
        trim_spec(p + x + q) == trim_spec(x),
{
    assert(p + x + q =~= p + (x + q));
    lemma_trim_start_skips(p, x + q);
    lemma_trim_ignores_trailing(x, q);
}

/// Normalising an ASCII address twice is normalising it once.
pub proof fn law_normalize_email_idempotent(email: Seq<char>)
    requires
        is_ascii_text(email),
    ensures
        is_ascii_text(ascii_normalized_email(email)),
        ascii_normalized_email(ascii_normalized_email(email)) == ascii_normalized_email(email),
{
    let t = trim_spec(email);
    lemma_trim_is_slice(email);
    let n = ascii_lowercase(t);
    assert forall|i: int| 0 <= i < n.len() implies (#[trigger] n[i] as u32) < 128 by {
        lemma_case_chars(t[i]);
        let u = t[i] as u32;
        if 65 <= u <= 90 {
            assert((((u + 32) as char) as u32) == u + 32);
        }
    }
    lemma_trim_case(t);
    lemma_trim_idempotent(email);
    assert forall|i: int| 0 <= i < n.len() implies #[trigger] ascii_lowercase(n)[i] == n[i] by {
        lemma_case_chars(t[i]);
    }
    assert(ascii_lowercase(n) =~= n);
}

/// A normalised address has no surrounding whitespace.
pub proof fn law_normalized_email_is_trimmed(email: Seq<char>)
    ensures
        ascii_normalized_email(email).len() > 0 ==> {
            &&& !is_unicode_whitespace(ascii_normalized_email(email)[0])
            &&& !is_unicode_whitespace(ascii_normalized_email(email).last())
        },
{
    let t = trim_spec(email);
    lemma_trim_bounds(email);
    if t.len() > 0 {
        lemma_case_chars(t[0]);
        lemma_case_chars(t.last());
    }
}

/// An ASCII address normalises the same whatever its letter case and
/// whatever whitespace surrounds it.
pub proof fn law_normalize_email_ignores_case_and_space(p: Seq<char>, email: Seq<char>, q: Seq<char>)
    requires
        is_ascii_text(email),
        is_ascii_text(p),
        is_ascii_text(q),
        all_whitespace(p),
        all_whitespace(q),
    ensures
        is_ascii_text(p + ascii_uppercase(email) + q),
        ascii_normalized_email(p + ascii_uppercase(email) + q) == ascii_normalized_email(email),
{
    let up = ascii_uppercase(email);
    let whole = p + up + q;
    assert forall|i: int| 0 <= i < whole.len() implies (#[trigger] whole[i] as u32) < 128 by {
        if i < p.len() {
            assert(whole[i] == p[i]);
        } else if i < p.len() + up.len() {
            assert(whole[i] == up[i - p.len()]);
            lemma_case_chars(email[i - p.len()]);
        } else {
            assert(whole[i] == q[i - p.len() - up.len()]);
        }
    }
    lemma_trim_surrounded(p, up, q);
    lemma_trim_case(email);
    let t = trim_spec(email);
    assert forall|i: int| 0 <= i < t.len() implies #[trigger] ascii_lowercase(ascii_uppercase(t))[i]
        == ascii_lowercase(t)[i] by {
        lemma_case_chars(t[i]);
    }
    assert(ascii_lowercase(ascii_uppercase(t)) =~= ascii_lowercase(t));
}

/// Where bytes stop being UTF-8: `k` is the length of their longest prefix
/// that is valid UTF-8 (what `Utf8Error::valid_up_to` reports).
pub open spec fn utf8_valid_up_to(bytes: Seq<u8>, k: int) -> bool {
    &&& 0 <= k <= bytes.len()
    &&& vstd::utf8::valid_utf8(bytes.subrange(0, k))
    &&& forall|j: int| k < j <= bytes.len() ==> !vstd::utf8::valid_utf8(#[trigger] bytes.subrange(0, j))
}

/// What `Utf8Error::error_len` reports for bytes that are not UTF-8: the
/// length of the invalid sequence after the valid prefix, or `None` where the
/// input ends inside a sequence.
pub uninterp spec fn utf8_error_len(bytes: Seq<u8>) -> Option<u8>;

/// Only one prefix length is the longest valid one.
pub proof fn lemma_valid_up_to_unique(bytes: Seq<u8>, k1: int, k2: int)
    requires
        utf8_valid_up_to(bytes, k1),
        utf8_valid_up_to(bytes, k2),
    ensures
        k1 == k2,
{
    if k1 < k2 {
        assert(!vstd::utf8::valid_utf8(bytes.subrange(0, k2)));
    } else if k2 < k1 {
        assert(!vstd::utf8::valid_utf8(bytes.subrange(0, k1)));
    }
}

/// Calls `String::from_utf8` on a copy of the bytes: the text they encode,
/// or, where they are not valid UTF-8, the error's `valid_up_to` (the
/// longest valid prefix, as its documentation defines it) and `error_len`
/// (named).
#[verifier::external_body]
pub(crate) fn utf8_to_string(bytes: &[u8]) -> (res: Result<String, (usize, Option<u8>)>)
    ensures
        res is Ok <==> vstd::utf8::valid_utf8(bytes@),
        res matches Ok(t) ==> t@ == vstd::utf8::decode_utf8(bytes@),
        res matches Err((k, len)) ==> utf8_valid_up_to(bytes@, k as int) && len == utf8_error_len(bytes@),
{
    match String::from_utf8(bytes.to_vec()) {
        Ok(s) => Ok(s),
        Err(e) => Err((e.utf8_error().valid_up_to(), e.utf8_error().error_len().map(|n| n as u8))),
    }
}

} // verus!
