//! Parsing of unsigned decimal and hex numbers as std's `from_str` and `from_str_radix` do.
use vstd::prelude::*;
use vstd::string::StringSliceAdditionalSpecFns;

verus! {

/// Whether `c` is an ASCII decimal digit.
pub open spec fn is_dec_digit(c: u8) -> bool {
    0x30 <= c <= 0x39
}

/// Whether `c` is an ASCII hex digit of either case.
pub open spec fn is_hex_char(c: u8) -> bool {
    (0x30 <= c <= 0x39) || (0x41 <= c <= 0x46) || (0x61 <= c <= 0x66)
}

/// Value of a digit in base `radix` (10 or 16).
pub open spec fn digit_value(c: u8) -> int {
    if 0x30 <= c <= 0x39 {
        c - 0x30
    } else if 0x41 <= c <= 0x46 {
        c - 0x41 + 10
    } else {
        c - 0x61 + 10
    }
}

/// Whether `c` is a digit of base `radix` (10 or 16).
pub open spec fn is_digit_of(c: u8, radix: int) -> bool {
    if radix == 16 {
        is_hex_char(c)
    } else {
        is_dec_digit(c)
    }
}

/// Value of the digits `s` in base `radix`.
pub open spec fn digits_value(s: Seq<u8>, radix: int) -> nat
    decreases s.len(),
{
    if s.len() == 0 {
        0
    } else {
        (digits_value(s.drop_last(), radix) * radix + digit_value(s.last())) as nat
    }
}

/// The digits of an unsigned number: `s` without an optional leading `+`.
pub open spec fn unsigned_digits(s: Seq<u8>) -> Seq<u8> {
    if s.len() > 0 && s[0] == 0x2B {
        s.subrange(1, s.len() as int)
    } else {
        s
    }
}

/// Value of the unsigned number `s` in base `radix` when it is one (an optional `+`, then at
/// least one digit) and is at most `max`.
pub open spec fn parse_unsigned(s: Seq<u8>, radix: int, max: int) -> Option<nat> {
    let d = unsigned_digits(s);
    if d.len() == 0 || !(forall|i: int| 0 <= i < d.len() ==> #[trigger] is_digit_of(d[i], radix))
        || digits_value(d, radix) > max {
        None
    } else {
        Some(digits_value(d, radix))
    }
}

proof fn lemma_digits_value_mono(s: Seq<u8>, radix: int, i: int)
    requires
        radix == 10 || radix == 16,
        0 <= i <= s.len(),
        forall|k: int| 0 <= k < s.len() ==> #[trigger] is_digit_of(s[k], radix),
    ensures
        digits_value(s.subrange(0, i), radix) <= digits_value(s, radix),
    decreases s.len() - i,
{
    if i == s.len() {
        assert(s.subrange(0, i) =~= s);
    }
    if i < s.len() {
        lemma_digits_value_mono(s, radix, i + 1);
        let t = s.subrange(0, i + 1);
        assert(t.drop_last() =~= s.subrange(0, i));
        assert(is_digit_of(s[i], radix));
        assert(t.last() == s[i]);
        assert(digit_value(t.last()) >= 0);
        let a = digits_value(s.subrange(0, i), radix);
        assert(a * radix >= a) by (nonlinear_arith)
            requires
                radix >= 1,
                a >= 0,
        ;
    }
}

/// Parses the unsigned number `s` in base `radix` (10 or 16) with an optional leading `+`,
/// as `u64::from_str_radix`; `None` when it is malformed or larger than `max`.
pub fn parse_unsigned_bytes(s: &[u8], radix: u64, max: u64) -> (r: Option<u64>)
    requires
        radix == 10 || radix == 16,
    ensures
        r == match parse_unsigned(s@, radix as int, max as int) {
            Some(v) => Some(v as u64),
            None => None::<u64>,
        },
{
    let n = s.len();
    let start: usize = if n > 0 && s[0] == 0x2B {
        1
    } else {
        0
    };
    let ghost d = unsigned_digits(s@);
    proof {
        assert(d =~= s@.subrange(start as int, n as int));
    }
    if start == n {
        return None;
    }
    let mut v: u64 = 0;
    let mut i: usize = start;
    while i < n
        invariant
            start <= i <= n,
            n == s@.len(),
            d == s@.subrange(start as int, n as int),
            d == unsigned_digits(s@),
            start < n,
            radix == 10 || radix == 16,
            v <= max,
            v == digits_value(d.subrange(0, i - start), radix as int),
            forall|k: int| 0 <= k < i - start ==> #[trigger] is_digit_of(d[k], radix as int),
        decreases n - i,
    {
        let c = s[i];
        let ok = if radix == 16 {
            (0x30 <= c && c <= 0x39) || (0x41 <= c && c <= 0x46) || (0x61 <= c && c <= 0x66)
        } else {
            0x30 <= c && c <= 0x39
        };
        if !ok {
            assert(!is_digit_of(d[i - start], radix as int));
            assert(!(forall|k: int| 0 <= k < d.len() ==> #[trigger] is_digit_of(d[k], radix as int)));
            assert(parse_unsigned(s@, radix as int, max as int) is None);
            return None;
        }
        let dv: u64 = if 0x30 <= c && c <= 0x39 {
            (c - 0x30) as u64
        } else if 0x41 <= c && c <= 0x46 {
            (c - 0x41 + 10) as u64
        } else {
            (c - 0x61 + 10) as u64
        };
        proof {
            let t = d.subrange(0, i - start + 1);
            assert(t.drop_last() =~= d.subrange(0, i - start));
            assert(t.last() == c);
        }
        proof {
            assert(v as int * radix as int <= 16 * 0xFFFF_FFFF_FFFF_FFFFint) by (nonlinear_arith)
                requires
                    v <= 0xFFFF_FFFF_FFFF_FFFFint,
                    radix <= 16,
            ;
        }
        let nv: u128 = v as u128 * radix as u128 + dv as u128;
        if nv > max as u128 {
            proof {
                if forall|k: int| 0 <= k < d.len() ==> #[trigger] is_digit_of(d[k], radix as int) {
                    lemma_digits_value_mono(d, radix as int, i - start + 1);
                    assert(digits_value(d.subrange(0, i - start + 1), radix as int) == nv);
                }
                assert(parse_unsigned(s@, radix as int, max as int) is None);
            }
            return None;
        }
        v = nv as u64;
        i = i + 1;
    }
    proof {
        assert(d.subrange(0, n - start) =~= d);
    }
    Some(v)
}

/// The display text of the error std's `u8::from_str_radix` returns for the string `s` in
/// base `radix`.
pub uninterp spec fn u8_parse_error_text(s: Seq<char>, radix: u32) -> Seq<char>;

/// std `u8::from_str_radix` in base 10 or 16. As its documentation states, a string of an
/// optional `+` followed by digits of the base parses when its value fits in a byte, and every
/// other string fails; the display text of the error depends on the string and the base alone
/// and is named `u8_parse_error_text`.
#[verifier::external_body]
pub(crate) fn u8_from_str_radix(s: &str, radix: u32) -> (r: Result<u8, String>)
    requires
        radix == 10 || radix == 16,
    ensures
        match parse_unsigned(s.spec_bytes(), radix as int, 255) {
            Some(v) => r == Ok::<u8, String>(v as u8),
            None => r matches Err(e) && e@ == u8_parse_error_text(s@, radix),
        },
{
    match u8::from_str_radix(s, radix) {
        Ok(v) => Ok(v),
        Err(e) => Err(e.to_string()),
    }
}

/// The display text of the error std's `u16::from_str` (`str::parse::<u16>`) returns for the
/// string `s`.
pub uninterp spec fn u16_parse_error_text(s: Seq<char>) -> Seq<char>;

/// The `Debug` text of the error std's `u16::from_str` returns for the string `s`.
pub uninterp spec fn u16_parse_error_debug(s: Seq<char>) -> Seq<char>;

/// The error of a failed parse, as its display and its `Debug` text.
pub struct IntParseError {
    pub display: String,
    pub debug: String,
}

/// std `str::parse::<u16>`. As its documentation states, a string of an optional `+`
/// followed by decimal digits parses when its value fits in 16 bits, and every other string
/// fails; the display and `Debug` texts of the error depend on the string alone and are named
/// `u16_parse_error_text` and `u16_parse_error_debug`.
#[verifier::external_body]
pub(crate) fn u16_from_str(s: &str) -> (r: Result<u16, IntParseError>)
    ensures
        match parse_unsigned(s.spec_bytes(), 10, 0xFFFF) {
            Some(v) => r matches Ok(x) && x == v as u16,
            None => r matches Err(e) && e.display@ == u16_parse_error_text(s@) && e.debug@
                == u16_parse_error_debug(s@),
        },
{
    match s.parse::<u16>() {
        Ok(v) => Ok(v),
        Err(e) => Err(IntParseError { display: e.to_string(), debug: format!("{e:?}") }),
    }
}

/// The `Debug` text of the error std's `u32::from_str` (`str::parse::<u32>`) returns for the
/// string `s`.
pub uninterp spec fn u32_parse_error_debug(s: Seq<char>) -> Seq<char>;

/// std `str::parse::<u32>`. As its documentation states, a string of an optional `+`
/// followed by decimal digits parses when its value fits in 32 bits, and every other string
/// fails; the `Debug` text of the error depends on the string alone and is named
/// `u32_parse_error_debug`.
#[verifier::external_body]
pub(crate) fn u32_from_str(s: &str) -> (r: Result<u32, String>)
    ensures
        match parse_unsigned(s.spec_bytes(), 10, 0xFFFF_FFFF) {
            Some(v) => r == Ok::<u32, String>(v as u32),
            None => r matches Err(e) && e@ == u32_parse_error_debug(s@),
        },
{
    match s.parse::<u32>() {
        Ok(v) => Ok(v),
        Err(e) => Err(format!("{e:?}")),
    }
}

} // verus!
