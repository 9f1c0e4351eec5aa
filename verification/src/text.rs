//! Text helpers: Unicode lowercasing through std, exact comparison and byte search of strings.
use vstd::prelude::*;
use vstd::string::StringSliceAdditionalSpecFns;
use vstd::utf8::{
    encode_utf8, is_char_boundary, is_leading_byte_width_1, length_of_first_scalar,
    pop_first_scalar, valid_utf8,
};
use vstd::utf8::is_ascii_chars;

verus! {

/// The lowercase of a string by the Unicode `Lowercase` property, as std computes it.
pub uninterp spec fn lowercase_of(s: Seq<char>) -> Seq<char>;

/// ASCII lowercase of a character: `A`..`Z` become `a`..`z`, others stay.
pub open spec fn ascii_lower_char(c: char) -> char {
    if 'A' <= c <= 'Z' {
        ((c as u32) + 32) as char
    } else {
        c
    }
}

/// ASCII lowercase of each character of `s`.
pub open spec fn ascii_lowercase(s: Seq<char>) -> Seq<char> {
    s.map_values(|c: char| ascii_lower_char(c))
}

/// std `str::to_lowercase`: the lowercase of `s` by the Unicode `Lowercase` property. Its
/// result is named by `lowercase_of`; the one fact stated besides is that an ASCII string is
/// lowercased character by character, `A`..`Z` to `a`..`z`, the other ASCII characters kept.
#[verifier::external_body]
pub(crate) fn to_lowercase(s: &str) -> (r: String)
    ensures
        r@ == lowercase_of(s@),
        is_ascii_chars(s@) ==> r@ == ascii_lowercase(s@),
{
    s.to_lowercase()
}

/// std `str::to_ascii_lowercase`: a copy of `s` with `A`..`Z` mapped to `a`..`z` and every
/// other character unchanged, as its documentation states.
#[verifier::external_body]
pub(crate) fn to_ascii_lowercase(s: &str) -> (r: String)
    ensures
        r@ == ascii_lowercase(s@),
{
    s.to_ascii_lowercase()
}

/// Whether `c` has the Unicode `White_Space` property: tab, line feed, vertical tab, form
/// feed, carriage return, space, next line, no-break space, ogham space mark, the spaces
/// U+2000 to U+200A, line and paragraph separator, narrow no-break space, medium mathematical
/// space and ideographic space.
pub open spec fn is_white_space(c: char) -> bool {
    let u = c as u32;
    ||| 0x09 <= u <= 0x0D
    ||| u == 0x20
    ||| u == 0x85
    ||| u == 0xA0
    ||| u == 0x1680
    ||| 0x2000 <= u <= 0x200A
    ||| u == 0x2028
    ||| u == 0x2029
    ||| u == 0x202F
    ||| u == 0x205F
    ||| u == 0x3000
}

/// `s` without its leading white space.
pub open spec fn trimmed_start(s: Seq<char>) -> Seq<char>
    decreases s.len(),
{
    if s.len() > 0 && is_white_space(s[0]) {
        trimmed_start(s.drop_first())
    } else {
        s
    }
}

/// `s` without its trailing white space.
pub open spec fn trimmed_end(s: Seq<char>) -> Seq<char>
    decreases s.len(),
{
    if s.len() > 0 && is_white_space(s.last()) {
        trimmed_end(s.drop_last())
    } else {
        s
    }
}

/// `s` without its leading and trailing white space.
pub open spec fn trimmed_of(s: Seq<char>) -> Seq<char> {
    trimmed_end(trimmed_start(s))
}

/// std `str::trim`: `s` without its leading and trailing whitespace, whitespace being, as its
/// documentation states, the characters of the Unicode `White_Space` property.
#[verifier::external_body]
pub(crate) fn trim(s: &str) -> (r: &str)
    ensures
        r@ == trimmed_of(s@),
{
    s.trim()
}

/// In valid UTF-8 that begins with two ASCII bytes, the third byte starts a character.
pub proof fn lemma_boundary_after_two_ascii(b: Seq<u8>)
    requires
        valid_utf8(b),
        b.len() >= 2,
        is_leading_byte_width_1(b[0]),
        is_leading_byte_width_1(b[1]),
    ensures
        is_char_boundary(b, 2),
{
    let b1 = pop_first_scalar(b);
    assert(length_of_first_scalar(b) == 1);
    assert(b1 =~= b.subrange(1, b.len() as int));
    assert(valid_utf8(b1));
    assert(b1[0] == b[1]);
    assert(length_of_first_scalar(b1) == 1);
    let b2 = pop_first_scalar(b1);
    assert(valid_utf8(b2));
    reveal_with_fuel(is_char_boundary, 3);
}

/// Lowercasing ASCII letters twice is lowercasing them once.
pub proof fn lemma_ascii_lowercase_idempotent(s: Seq<char>)
    ensures
        ascii_lowercase(ascii_lowercase(s)) == ascii_lowercase(s),
{
    assert forall|i: int| 0 <= i < s.len() implies ascii_lower_char(ascii_lower_char(s[i]))
        == ascii_lower_char(s[i]) by {
        let c = s[i];
        if 'A' <= c <= 'Z' {
            assert('a' <= ascii_lower_char(c) <= 'z');
        }
    }
    assert(ascii_lowercase(ascii_lowercase(s)) =~= ascii_lowercase(s));
}

/// Whether `n` occurs in `h` at index `i`.
pub open spec fn occurs_at(h: Seq<u8>, n: Seq<u8>, i: int) -> bool {
    0 <= i && i + n.len() <= h.len() && h.subrange(i, i + n.len()) == n
}

/// Whether the bytes `n` occur somewhere in the bytes `h`.
pub open spec fn bytes_contain(h: Seq<u8>, n: Seq<u8>) -> bool {
    exists|i: int| occurs_at(h, n, i)
}

/// Whether the UTF-8 encoding of `needle` occurs in that of `hay` (std `str::contains` with a
/// string pattern).
pub open spec fn text_contains(hay: Seq<char>, needle: Seq<char>) -> bool {
    bytes_contain(encode_utf8(hay), encode_utf8(needle))
}

fn occurs_at_exec(h: &[u8], n: &[u8], i: usize) -> (r: bool)
    requires
        i + n@.len() <= h@.len(),
    ensures
        r == occurs_at(h@, n@, i as int),
{
    let mut k: usize = 0;
    while k < n.len()
        invariant
            k <= n@.len(),
            i + n@.len() <= h@.len(),
            i + n.len() <= h.len(),
            forall|j: int| 0 <= j < k ==> h@[i + j] == n@[j],
        decreases n@.len() - k,
    {
        if h[i + k] != n[k] {
            assert(h@.subrange(i as int, i + n@.len())[k as int] != n@[k as int]);
            return false;
        }
        k = k + 1;
    }
    assert(h@.subrange(i as int, i + n@.len()) =~= n@);
    true
}

/// Whether `needle` occurs in `hay`, comparing their UTF-8 bytes.
pub fn str_contains(hay: &str, needle: &str) -> (r: bool)
    ensures
        r == text_contains(hay@, needle@),
{
    let h = hay.as_bytes();
    let n = needle.as_bytes();
    assert(h@ == encode_utf8(hay@));
    assert(n@ == encode_utf8(needle@));
    if n.len() > h.len() {
        assert(!bytes_contain(h@, n@));
        return false;
    }
    if n.len() == 0 {
        assert(h@.subrange(0, 0) =~= n@);
        assert(occurs_at(h@, n@, 0));
        return true;
    }
    let last = h.len() - n.len();
    let mut i: usize = 0;
    while i <= last
        invariant
            last == h@.len() - n@.len(),
            0 < n@.len() <= h@.len(),
            last < h.len(),
            i <= last + 1,
            h@ == encode_utf8(hay@),
            n@ == encode_utf8(needle@),
            forall|j: int| 0 <= j < i ==> !occurs_at(h@, n@, j),
        decreases last + 1 - i,
    {
        if occurs_at_exec(h, n, i) {
            return true;
        }
        i = i + 1;
    }
    assert forall|j: int| !occurs_at(h@, n@, j) by {
        if 0 <= j && j + n@.len() <= h@.len() {
            assert(j < i);
        }
    }
    false
}

/// Whether `a` and `b` are the same text.
pub fn str_eq(a: &str, b: &str) -> (r: bool)
    ensures
        r == (a@ == b@),
{
    let x = a.as_bytes();
    let y = b.as_bytes();
    proof {
        vstd::utf8::encode_utf8_decode_utf8(a@);
        vstd::utf8::encode_utf8_decode_utf8(b@);
    }
    if x.len() != y.len() {
        return false;
    }
    let mut i: usize = 0;
    while i < x.len()
        invariant
            i <= x@.len(),
            x@.len() == y@.len(),
            x@ == encode_utf8(a@),
            y@ == encode_utf8(b@),
            forall|j: int| 0 <= j < i ==> x@[j] == y@[j],
        decreases x@.len() - i,
    {
        if x[i] != y[i] {
            assert(x@[i as int] != y@[i as int]);
            assert(x@ != y@);
            return false;
        }
        i = i + 1;
    }
    assert(x@ =~= y@);
    true
}

/// Whether the bytes `h` begin with the bytes `p`.
pub open spec fn has_prefix(h: Seq<u8>, p: Seq<u8>) -> bool {
    p.len() <= h.len() && h.subrange(0, p.len() as int) == p
}

/// Whether the bytes `h` end with the bytes `s`.
pub open spec fn has_suffix(h: Seq<u8>, s: Seq<u8>) -> bool {
    s.len() <= h.len() && h.subrange(h.len() - s.len(), h.len() as int) == s
}

/// Whether the UTF-8 bytes of `hay` begin with those of `prefix` (std `str::starts_with`).
pub fn str_starts_with(hay: &str, prefix: &str) -> (r: bool)
    ensures
        r == has_prefix(hay.spec_bytes(), prefix.spec_bytes()),
{
    let h = hay.as_bytes();
    let p = prefix.as_bytes();
    if p.len() > h.len() {
        return false;
    }
    occurs_at_exec(h, p, 0)
}

/// Whether the UTF-8 bytes of `hay` end with those of `suffix` (std `str::ends_with`).
pub fn str_ends_with(hay: &str, suffix: &str) -> (r: bool)
    ensures
        r == has_suffix(hay.spec_bytes(), suffix.spec_bytes()),
{
    let h = hay.as_bytes();
    let p = suffix.as_bytes();
    if p.len() > h.len() {
        return false;
    }
    occurs_at_exec(h, p, h.len() - p.len())
}

} // verus!
