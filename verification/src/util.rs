//! Helpers on hex strings, identifiers and payload prefixes.
use vstd::prelude::*;
use vstd::string::StringSliceAdditionalSpecFns;
use crate::error::{decimal, push_char, push_decimal, text, DiagServiceError};
use crate::interfaces::service_ids;

verus! {

/// Whether `c` is an ASCII hex digit.
pub open spec fn is_hex_digit(c: u8) -> bool {
    (0x30 <= c <= 0x39) || (0x41 <= c <= 0x46) || (0x61 <= c <= 0x66)
}

/// Value of the ASCII hex digit `c`.
pub open spec fn hex_value(c: u8) -> int {
    if 0x30 <= c <= 0x39 {
        c - 0x30
    } else if 0x41 <= c <= 0x46 {
        c - 0x41 + 10
    } else {
        c - 0x61 + 10
    }
}

/// The bytes of pairs of hex digits, the first of each pair being the high nibble.
pub open spec fn hex_decoded(s: Seq<u8>) -> Seq<u8> {
    Seq::new(s.len() / 2, |i: int| (hex_value(s[2 * i]) * 16 + hex_value(s[2 * i + 1])) as u8)
}

/// Whether every byte of `s` is a hex digit.
pub open spec fn all_hex(s: Seq<u8>) -> bool {
    forall|i: int| 0 <= i < s.len() ==> #[trigger] is_hex_digit(s[i])
}

/// The `Debug` text of the error `hex::decode` returns for the bytes `data`.
pub uninterp spec fn hex_error_debug(data: Seq<u8>) -> Seq<char>;

/// `hex::decode`: decodes pairs of hex digits (of either case) into bytes; fails on an odd
/// length or a byte that is no hex digit, as its documentation states. The `Debug` text of
/// the error depends on the bytes alone and is named `hex_error_debug`.
#[verifier::external_body]
pub(crate) fn hex_decode(data: &[u8]) -> (res: Result<Vec<u8>, String>)
    ensures
        res.is_ok() == (data@.len() % 2 == 0 && all_hex(data@)),
        res matches Ok(v) ==> v@ == hex_decoded(data@),
        res matches Err(e) ==> e@ == hex_error_debug(data@),
{
    match hex::decode(data) {
        Ok(v) => Ok(v),
        Err(e) => Err(format!("{e:?}")),
    }
}

/// The hex digits of `s` with a `0` inserted before the last one when their count is odd.
pub open spec fn hex_padded(s: Seq<u8>) -> Seq<u8> {
    if s.len() % 2 == 0 {
        s
    } else {
        s.subrange(0, s.len() - 1).push(0x30u8).push(s.last())
    }
}

/// Hex digits decode in pairs, the first digit of each pair the high nibble, in order; an
/// odd count of digits gets a `0` directly before the last digit, so that the last byte is
/// the value of the last digit alone (`"12345"` gives `[0x12, 0x34, 0x05]`).
pub proof fn law_hex_digits_pair_in_order(s: Seq<u8>)
    requires
        all_hex(s),
    ensures
        hex_decoded(hex_padded(s)).len() == (s.len() + 1) / 2,
        forall|i: int|
            0 <= i < s.len() / 2 ==> #[trigger] hex_decoded(hex_padded(s))[i] == (16 * hex_value(
                s[2 * i],
            ) + hex_value(s[2 * i + 1])) as u8,
        s.len() % 2 == 1 ==> hex_decoded(hex_padded(s))[(s.len() / 2) as int] == hex_value(s.last()) as u8,
{
    let n = s.len() as int;
    let q = hex_padded(s);
    assert(q.len() == n + n % 2);
    assert forall|i: int| 0 <= i < n / 2 implies #[trigger] hex_decoded(q)[i] == (16 * hex_value(
        s[2 * i],
    ) + hex_value(s[2 * i + 1])) as u8 by {
        assert(q[2 * i] == s[2 * i]);
        assert(q[2 * i + 1] == s[2 * i + 1]);
    }
    if n % 2 == 1 {
        assert(q[2 * (n / 2)] == 0x30u8);
        assert(q[2 * (n / 2) + 1] == s.last());
        assert(hex_value(0x30u8) == 0);
    }
}

/// Decodes a hex string into bytes; an odd count of digits gets a `0` before the last digit
/// (`"A3F"` gives `[0xA3, 0x0F]`). Fails when a character is not a hex digit.
pub fn decode_hex(value: &str) -> (r: Result<Vec<u8>, DiagServiceError>)
    ensures
        r is Ok <==> all_hex(value.spec_bytes()),
        r matches Ok(v) ==> v@ == hex_decoded(hex_padded(value.spec_bytes())),
        r matches Err(e) ==> e matches DiagServiceError::ParameterConversionError(m) && m@
            == "Non-hex character found"@,
{
    let bytes = value.as_bytes();
    let n = bytes.len();
    let mut i: usize = 0;
    while i < n
        invariant
            n == bytes@.len(),
            bytes@ == value.spec_bytes(),
            i <= n,
            forall|j: int| 0 <= j < i ==> #[trigger] is_hex_digit(bytes@[j]),
        decreases n - i,
    {
        let c = bytes[i];
        if !((0x30 <= c && c <= 0x39) || (0x41 <= c && c <= 0x46) || (0x61 <= c && c <= 0x66)) {
            assert(!is_hex_digit(bytes@[i as int]));
            return Err(DiagServiceError::ParameterConversionError(text("Non-hex character found")));
        }
        i = i + 1;
    }
    let mut padded: Vec<u8> = Vec::new();
    let mut j: usize = 0;
    let body = if n % 2 == 0 {
        n
    } else {
        n - 1
    };
    while j < body
        invariant
            j <= body,
            body <= n,
            n == bytes@.len(),
            padded@ == bytes@.subrange(0, j as int),
        decreases body - j,
    {
        padded.push(bytes[j]);
        j = j + 1;
        assert(padded@ =~= bytes@.subrange(0, j as int));
    }
    if n % 2 != 0 {
        padded.push(0x30u8);
        padded.push(bytes[n - 1]);
    }
    proof {
        assert(padded@ =~= hex_padded(bytes@));
        assert(all_hex(padded@));
    }
    match hex_decode(padded.as_slice()) {
        Ok(v) => Ok(v),
        Err(_) => {
            proof {
                assert(padded@.len() % 2 == 0);
                assert(false);
            }
            Err(DiagServiceError::ParameterConversionError(text("Invalid hex value")))
        },
    }
}

/// `data` right-aligned in `n` bytes.
pub open spec fn padded_to(data: Seq<u8>, n: int) -> Seq<u8> {
    Seq::new((n - data.len()) as nat, |i: int| 0u8) + data
}

/// Pads up to 4 bytes with leading zeros for a `u32` conversion; fails for longer data.
pub fn u32_padded_bytes(data: &[u8]) -> (r: Result<[u8; 4], DiagServiceError>)
    ensures
        r is Ok <==> data@.len() <= 4,
        r matches Ok(a) ==> a@ == padded_to(data@, 4),
        r matches Err(e) ==> e matches DiagServiceError::ParameterConversionError(m) && m@
            == "Invalid data length for I32: "@ + decimal(data@.len()),
{
    if data.len() > 4 {
        let mut m = text("Invalid data length for I32: ");
        push_decimal(&mut m, data.len() as u64);
        return Err(DiagServiceError::ParameterConversionError(m));
    }
    let mut a = [0u8; 4];
    let pad = 4 - data.len();
    let mut i: usize = 0;
    while i < data.len()
        invariant
            pad + data@.len() == 4,
            i <= data@.len(),
            forall|k: int| 0 <= k < 4 ==> #[trigger] a@[k] == if pad <= k < pad + i {
                data@[k - pad]
            } else {
                0u8
            },
        decreases data@.len() - i,
    {
        a[pad + i] = data[i];
        i = i + 1;
    }
    assert(a@ =~= padded_to(data@, 4));
    Ok(a)
}

/// Pads up to 8 bytes with leading zeros for an `f64` conversion; fails for longer data.
pub fn f64_padded_bytes(data: &[u8]) -> (r: Result<[u8; 8], DiagServiceError>)
    ensures
        r is Ok <==> data@.len() <= 8,
        r matches Ok(a) ==> a@ == padded_to(data@, 8),
        r matches Err(e) ==> e matches DiagServiceError::ParameterConversionError(m) && m@
            == "Invalid data length for F64: "@ + decimal(data@.len()),
{
    if data.len() > 8 {
        let mut m = text("Invalid data length for F64: ");
        push_decimal(&mut m, data.len() as u64);
        return Err(DiagServiceError::ParameterConversionError(m));
    }
    let mut a = [0u8; 8];
    let pad = 8 - data.len();
    let mut i: usize = 0;
    while i < data.len()
        invariant
            pad + data@.len() == 8,
            i <= data@.len(),
            forall|k: int| 0 <= k < 8 ==> #[trigger] a@[k] == if pad <= k < pad + i {
                data@[k - pad]
            } else {
                0u8
            },
        decreases data@.len() - i,
    {
        a[pad + i] = data[i];
        i = i + 1;
    }
    assert(a@ =~= padded_to(data@, 8));
    Ok(a)
}

/// ASCII lowercase of a byte.
pub open spec fn ascii_lower(b: u8) -> u8 {
    if 0x41 <= b <= 0x5A {
        (b + 32) as u8
    } else {
        b
    }
}

fn ascii_lower_exec(b: u8) -> (r: u8)
    ensures
        r == ascii_lower(b),
{
    if 0x41 <= b && b <= 0x5A {
        b + 32
    } else {
        b
    }
}

/// Whether `a` and `b`, from `a_start` and `b_start`, agree on `n` bytes ignoring ASCII case.
pub open spec fn eq_ignore_case_at(a: Seq<u8>, a_start: int, b: Seq<u8>, b_start: int, n: int) -> bool {
    forall|i: int| 0 <= i < n ==> #[trigger] ascii_lower(a[a_start + i]) == ascii_lower(b[b_start + i])
}

fn eq_ignore_case_exec(a: &[u8], a_start: usize, b: &[u8], n: usize) -> (r: bool)
    requires
        a_start + n <= a@.len(),
        n <= b@.len(),
    ensures
        r == eq_ignore_case_at(a@, a_start as int, b@, 0, n as int),
{
    let mut i: usize = 0;
    while i < n
        invariant
            i <= n,
            a_start + n <= a@.len(),
            a_start + n <= a.len(),
            n <= b@.len(),
            eq_ignore_case_at(a@, a_start as int, b@, 0, i as int),
        decreases n - i,
    {
        if ascii_lower_exec(a[a_start + i]) != ascii_lower_exec(b[i]) {
            return false;
        }
        i = i + 1;
    }
    true
}

/// ASCII case-insensitive prefix check of `text`, on the UTF-8 bytes: true when `text` is at
/// least as long as `prefix` and its first bytes equal those of `prefix` up to ASCII case.
pub fn starts_with_ignore_ascii_case(text: &str, prefix: &str) -> (r: bool)
    ensures
        r == (text.spec_bytes().len() >= prefix.spec_bytes().len() && eq_ignore_case_at(
            text.spec_bytes(),
            0,
            prefix.spec_bytes(),
            0,
            prefix.spec_bytes().len() as int,
        )),
{
    let t = text.as_bytes();
    let p = prefix.as_bytes();
    if t.len() < p.len() {
        return false;
    }
    eq_ignore_case_exec(t, 0, p, p.len())
}

/// ASCII case-insensitive suffix check of `text`, on the UTF-8 bytes: true when `text` is at
/// least as long as `suffix` and its last bytes equal those of `suffix` up to ASCII case.
pub fn ends_with_ignore_ascii_case(text: &str, suffix: &str) -> (r: bool)
    ensures
        r == (text.spec_bytes().len() >= suffix.spec_bytes().len() && eq_ignore_case_at(
            text.spec_bytes(),
            text.spec_bytes().len() - suffix.spec_bytes().len(),
            suffix.spec_bytes(),
            0,
            suffix.spec_bytes().len() as int,
        )),
{
    let t = text.as_bytes();
    let s = suffix.as_bytes();
    if t.len() < s.len() {
        return false;
    }
    eq_ignore_case_exec(t, t.len() - s.len(), s, s.len())
}

/// The service id of a response: the second byte of a negative response, else the first.
/// Fails on an empty payload and on a negative response without service id.
pub fn try_extract_sid_from_payload(payload: &[u8]) -> (r: Result<u8, DiagServiceError>)
    ensures
        payload@.len() == 0 ==> (r matches Err(DiagServiceError::BadPayload(m)) && m@
            == "Missing service id"@),
        payload@.len() == 1 && payload@[0] == service_ids::NEGATIVE_RESPONSE ==> (r matches Err(
            DiagServiceError::BadPayload(m),
        ) && m@ == "NRC without accompanying SID_RQ received"@),
        payload@.len() >= 2 && payload@[0] == service_ids::NEGATIVE_RESPONSE ==> r == Ok::<
            u8,
            DiagServiceError,
        >(payload@[1]),
        payload@.len() >= 1 && payload@[0] != service_ids::NEGATIVE_RESPONSE ==> r == Ok::<
            u8,
            DiagServiceError,
        >(payload@[0]),
{
    if payload.len() == 0 {
        return Err(DiagServiceError::BadPayload(text("Missing service id")));
    }
    if payload[0] == service_ids::NEGATIVE_RESPONSE {
        if payload.len() >= 2 {
            Ok(payload[1])
        } else {
            Err(DiagServiceError::BadPayload(text("NRC without accompanying SID_RQ received")))
        }
    } else {
        Ok(payload[0])
    }
}

/// Upper case hex digit of `d` (0..=15).
pub open spec fn hex_char(d: int) -> char {
    if d < 10 {
        ((0x30 + d) as u8) as char
    } else {
        ((0x41 + d - 10) as u8) as char
    }
}

/// `0x` and two upper case hex digits of `b`.
pub open spec fn byte_hex(b: u8) -> Seq<char> {
    seq!['0', 'x', hex_char((b / 16) as int), hex_char((b % 16) as int)]
}

/// The bytes of `s` in hex, separated by commas.
pub open spec fn hex_listing(s: Seq<u8>) -> Seq<char>
    decreases s.len(),
{
    if s.len() == 0 {
        Seq::empty()
    } else if s.len() == 1 {
        byte_hex(s[0])
    } else {
        hex_listing(s.drop_last()) + seq![','] + byte_hex(s.last())
    }
}

fn hex_char_exec(d: u8) -> (c: char)
    requires
        d < 16,
    ensures
        c == hex_char(d as int),
{
    if d < 10 {
        (0x30u8 + d) as char
    } else {
        (0x41u8 + d - 10) as char
    }
}

/// The first `max_size` bytes of `data` in hex (`0x0A`), separated by commas.
pub fn print_hex(data: &[u8], max_size: usize) -> (r: String)
    ensures
        r@ == hex_listing(data@.subrange(
            0,
            if data@.len() < max_size {
                data@.len() as int
            } else {
                max_size as int
            },
        )),
{
    let end = if data.len() < max_size {
        data.len()
    } else {
        max_size
    };
    let mut out = String::new();
    let mut i: usize = 0;
    while i < end
        invariant
            i <= end,
            end <= data@.len(),
            out@ == hex_listing(data@.subrange(0, i as int)),
        decreases end - i,
    {
        let ghost before = out@;
        if i > 0 {
            push_char(&mut out, ',');
        }
        let b = data[i];
        push_char(&mut out, '0');
        push_char(&mut out, 'x');
        push_char(&mut out, hex_char_exec(b / 16));
        push_char(&mut out, hex_char_exec(b % 16));
        proof {
            let s = data@.subrange(0, i + 1);
            assert(s.drop_last() =~= data@.subrange(0, i as int));
            assert(s.last() == b);
            if i > 0 {
                assert(out@ =~= before + seq![','] + byte_hex(b));
            } else {
                assert(out@ =~= byte_hex(b));
            }
        }
        i = i + 1;
    }
    out
}

} // verus!
