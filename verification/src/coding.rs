//! Packing and unpacking of coded values into PDU bit fields (ISO 22901-1, 7.3.6).
use vstd::prelude::*;
use crate::bits::{
    bit_at, byte_bit, bytes_from_bits, set_bit_value, zero_bytes, lemma_bit_at_range, lemma_bit_at_set, lemma_bytes_from_bits_eq,
    set_bit_checked, bytes_for_bits, byte_count_for_bits, extract_bits, extracted_bits,
    bit_pos_range_error, bit_pos_range_message, extract_bits_error,
};
use crate::error::{text, DiagServiceError};
use vstd::slice::slice_to_vec;

verus! {

/// How the bytes of a value are ordered in the PDU.
#[derive(Copy, Clone, Debug, PartialEq, Eq)]
pub enum ByteOrder {
    /// Byte order is not changed
    Keep,
    /// Byte order is reversed but acting in pairs of bytes (needed for `Unicode2String`)
    ReorderPairs,
    /// Byte order is reversed
    Reverse,
}

/// How data shorter than the target buffer is aligned within the buffer.
#[derive(Copy, Clone, Debug, PartialEq, Eq)]
pub enum DataAlignment {
    /// Zero-pad the most significant (leading) bytes; for numeric types.
    Right,
    /// Zero-pad the least significant (trailing) bytes; for byte-sequential types.
    Left,
}

/// A bit mask of a coded value; `condensed` masks select and compact bits.
#[derive(Clone, Debug, PartialEq, Eq)]
pub struct Mask {
    pub data: Vec<u8>,
    pub condensed: bool,
}

/// `a + b` saturated at `usize::MAX`.
pub open spec fn sat_add(a: int, b: int) -> int {
    if a + b > usize::MAX { usize::MAX as int } else { a + b }
}

/// `a - b` saturated at 0.
pub open spec fn sat_sub(a: int, b: int) -> int {
    if a - b < 0 { 0 } else { a - b }
}

/// `a * b` saturated at `usize::MAX`.
pub open spec fn sat_mul(a: int, b: int) -> int {
    if a * b > usize::MAX { usize::MAX as int } else { a * b }
}

/// `8 * n` saturated at `usize::MAX`.
pub fn mul8_sat(n: usize) -> (r: usize)
    ensures
        r == sat_mul(n as int, 8),
{
    if n <= usize::MAX / 8 {
        n * 8
    } else {
        usize::MAX
    }
}

/// `s` with its byte order normalized according to `order`.
pub open spec fn normalized(s: Seq<u8>, order: ByteOrder) -> Seq<u8> {
    match order {
        ByteOrder::Keep => s,
        ByteOrder::Reverse => Seq::new(s.len(), |i: int| s[s.len() - 1 - i]),
        ByteOrder::ReorderPairs => Seq::new(
            s.len(),
            |i: int|
                if i % 2 == 0 {
                    if i + 1 < s.len() {
                        s[i + 1]
                    } else {
                        s[i]
                    }
                } else {
                    s[i - 1]
                },
        ),
    }
}

/// Normalizes the byte order of `data` according to `byte_order`.
pub fn normalize_byte_order(data: &mut [u8], byte_order: ByteOrder)
    ensures
        final(data)@ == normalized(old(data)@, byte_order),
{
    let ghost s = data@;
    let n = data.len();
    match byte_order {
        ByteOrder::Keep => {},
        ByteOrder::ReorderPairs => {
            let mut i: usize = 0;
            while i + 1 < n
                invariant
                    byte_order == ByteOrder::ReorderPairs,
                    n == s.len(),
                    data@.len() == n,
                    i % 2 == 0,
                    i <= n,
                    forall|k: int| 0 <= k < i ==> #[trigger] data@[k] == normalized(s, byte_order)[k],
                    forall|k: int| i <= k < n ==> #[trigger] data@[k] == s[k],
                decreases n - i,
            {
                let a = data[i];
                let b = data[i + 1];
                data[i] = b;
                data[i + 1] = a;
                proof {
                    let t = normalized(s, ByteOrder::ReorderPairs);
                    assert(t[i as int] == s[i + 1]);
                    assert((i + 1) % 2 == 1);
                    assert(t[i + 1] == s[i as int]);
                }
                i = i + 2;
            }
            assert forall|k: int| 0 <= k < n implies #[trigger] data@[k] == normalized(
                s,
                byte_order,
            )[k] by {
                if k >= i {
                    assert(k == n - 1 && k % 2 == 0);
                }
            }
            assert(data@ =~= normalized(s, byte_order));
        },
        ByteOrder::Reverse => {
            let mut i: usize = 0;
            while i < n / 2
                invariant
                    n == s.len(),
                    data@.len() == n,
                    i <= n / 2,
                    forall|k: int| 0 <= k < i ==> #[trigger] data@[k] == s[n - 1 - k],
                    forall|k: int| n - i <= k < n ==> #[trigger] data@[k] == s[n - 1 - k],
                    forall|k: int| i <= k < n - i ==> #[trigger] data@[k] == s[k],
                decreases n / 2 - i,
            {
                let a = data[i];
                let b = data[n - 1 - i];
                data[i] = b;
                data[n - 1 - i] = a;
                i = i + 1;
            }
            assert(data@ =~= normalized(s, byte_order));
        },
    }
}

/// Mask bit `i` as read by the masking loops: positions beyond the mask reuse its first byte.
pub open spec fn mask_bit_sat(mask: Seq<u8>, i: int) -> u8 {
    if mask.len() == 0 {
        0
    } else if i / 8 < mask.len() {
        bit_at(mask, i)
    } else {
        byte_bit(mask[0], (i % 8) as u8)
    }
}

/// `data` with the bits `bit_pos .. bit_pos + bit_len` and-ed with the mask bits `0 .. bit_len`.
pub open spec fn masked_bits(data: Seq<u8>, mask: Seq<u8>, bit_len: int, bit_pos: int) -> Seq<u8> {
    bytes_from_bits(
        data.len(),
        |k: int|
            if bit_pos <= k < bit_pos + bit_len && k < usize::MAX {
                bit_at(data, k) & mask_bit_sat(mask, k - bit_pos)
            } else {
                bit_at(data, k)
            },
    )
}

proof fn lemma_and_bits(a: u8, b: u8)
    requires
        a <= 1,
        b <= 1,
    ensures
        (a & b) <= 1,
        (a & b) & 1 == a & b,
        (a | b) <= 1,
        (a | b) & 1 == a | b,
        a & 1 == a,
        (0u8 | a) == a,
{
    assert((a & b) <= 1 && (a & b) & 1 == a & b && (a | b) <= 1 && (a | b) & 1 == a | b && a & 1
        == a && (0u8 | a) == a) by (bit_vector)
        requires
            a <= 1,
            b <= 1,
    ;
}

pub proof fn lemma_mask_bit_sat_range(mask: Seq<u8>, i: int)
    ensures
        mask_bit_sat(mask, i) <= 1,
{
    if mask.len() != 0 {
        if i / 8 < mask.len() {
            lemma_bit_at_range(mask, i);
        } else {
            let o = (i % 8) as u8;
            let b = mask[0];
            assert(((b >> o) & 1u8) <= 1) by (bit_vector);
        }
    }
}

/// Applies `mask` to `data`: bit `bit_pos + i` of `data` is and-ed with mask bit `i`, for
/// `i < bit_len` and as long as the data lasts.
pub fn apply_bit_mask(data: &mut [u8], mask: &[u8], bit_len: usize, bit_pos: usize) -> (r: Result<
    (),
    DiagServiceError,
>)
    ensures
        r is Ok,
        final(data)@ == masked_bits(old(data)@, mask@, bit_len as int, bit_pos as int),
{
    let ghost s = data@;
    let ghost f = |k: int|
        if bit_pos <= k < bit_pos + bit_len && k < usize::MAX {
            bit_at(s, k) & mask_bit_sat(mask@, k - bit_pos)
        } else {
            bit_at(s, k)
        };
    let mut i: usize = 0;
    while i < bit_len && bit_pos.saturating_add(i) < mul8_sat(data.len())
        invariant
            i <= bit_len,
            bit_pos + i <= usize::MAX,
            data@.len() == s.len(),
            forall|k: int|
                0 <= k < 8 * s.len() ==> #[trigger] bit_at(data@, k) == if bit_pos <= k
                    < bit_pos + i {
                    bit_at(s, k) & mask_bit_sat(mask@, k - bit_pos)
                } else {
                    bit_at(s, k)
                },
        decreases bit_len - i,
    {
        let mask_byte_idx = mask.len().saturating_sub(i / 8).saturating_sub(1);
        let mask_bit_pos = i % 8;
        let mask_bit: u8 = if mask_byte_idx < mask.len() {
            (mask[mask_byte_idx] >> (mask_bit_pos as u8)) & 1u8
        } else {
            0
        };
        let pos = bit_pos + i;
        let data_byte_idx = data.len() - pos / 8 - 1;
        let data_bit_pos = pos % 8;
        let data_bit = (data[data_byte_idx] >> (data_bit_pos as u8)) & 1u8;
        let ghost before = data@;
        let _ = set_bit_checked(data, data_byte_idx, data_bit_pos, data_bit & mask_bit, true);
        proof {
            assert(mask_bit == mask_bit_sat(mask@, i as int));
            assert(data_bit == bit_at(before, pos as int));
            assert forall|k: int| 0 <= k < 8 * s.len() implies #[trigger] bit_at(data@, k) == if bit_pos
                <= k < bit_pos + i + 1 {
                bit_at(s, k) & mask_bit_sat(mask@, k - bit_pos)
            } else {
                bit_at(s, k)
            } by {
                lemma_bit_at_set(
                    before,
                    data_byte_idx as int,
                    data_bit_pos as u8,
                    data_bit & mask_bit,
                    true,
                    k,
                );
                lemma_bit_at_range(s, k);
                lemma_mask_bit_sat_range(mask@, k - bit_pos);
                lemma_and_bits(bit_at(s, k), mask_bit_sat(mask@, k - bit_pos));
            }
        }
        i = i + 1;
    }
    proof {
        assert(i == bit_len || bit_pos + i >= 8 * s.len() || bit_pos + i >= usize::MAX);
        assert forall|k: int| 0 <= k < 8 * s.len() implies #[trigger] bit_at(data@, k) == f(k) & 1 by {
            lemma_bit_at_range(s, k);
            lemma_mask_bit_sat_range(mask@, k - bit_pos);
            lemma_and_bits(bit_at(s, k), mask_bit_sat(mask@, k - bit_pos));
        }
        lemma_bytes_from_bits_eq(data@, s.len(), f);
    }
    Ok(())
}


/// Number of source bits that `inject_bits` copies.
pub open spec fn injected_count(src_len: int, bit_len: int) -> int {
    if bit_len < sat_mul(src_len, 8) { bit_len } else { sat_mul(src_len, 8) }
}

/// Bit `k` of the injected field: source bit `p` lands at position `bit_pos + p` of a
/// window made of the first `ceil((bit_pos + bit_len) / 8)` bytes of `dst`, counted from the
/// least significant bit of the window's last byte.
pub open spec fn injected_bit(dst_len: int, src: Seq<u8>, bit_len: int, bit_pos: int, k: int) -> u8 {
    let byte_count = bytes_for_bits(bit_pos + bit_len);
    let p = k - 8 * (dst_len - byte_count) - bit_pos;
    if 0 <= p < injected_count(src.len() as int, bit_len) {
        bit_at(src, p)
    } else {
        0
    }
}

/// `dst` with the low `bit_len` source bits or-ed in at `bit_pos`; unchanged when the
/// destination is too short for the window.
pub open spec fn injected_bits(dst: Seq<u8>, src: Seq<u8>, bit_len: int, bit_pos: int) -> Seq<u8> {
    if bytes_for_bits(bit_pos + bit_len) > dst.len() {
        dst
    } else {
        bytes_from_bits(
            dst.len(),
            |k: int| bit_at(dst, k) | injected_bit(dst.len() as int, src, bit_len, bit_pos, k),
        )
    }
}

/// Injects the low `bit_len` bits of `source_data` into `dst_data` at bit position `bit_pos`
/// (0..=7, from the least significant bit), or-ing them into the destination.
/// Fails when the bit position is out of range or no bit is to be injected.
pub fn inject_bits(bit_len: usize, bit_pos: usize, dst_data: &mut [u8], source_data: &[u8]) -> (r:
    Result<(), DiagServiceError>)
    requires
        bit_pos <= 7 ==> bit_pos + bit_len <= usize::MAX,
    ensures
        r is Ok <==> (bit_pos <= 7 && bit_len != 0),
        r matches Err(e) ==> e is BadPayload && final(dst_data)@ == old(dst_data)@,
        bit_pos > 7 ==> (r matches Err(DiagServiceError::BadPayload(m)) && m@
            == bit_pos_range_message(bit_pos)),
        bit_pos <= 7 && bit_len == 0 ==> (r matches Err(DiagServiceError::BadPayload(m)) && m@
            == "Cannot inject 0 bits"@),
        r is Ok ==> final(dst_data)@ == injected_bits(
            old(dst_data)@,
            source_data@,
            bit_len as int,
            bit_pos as int,
        ),
{
    if bit_pos > 7 {
        return Err(bit_pos_range_error(bit_pos));
    }
    if bit_len == 0 {
        return Err(DiagServiceError::BadPayload(text("Cannot inject 0 bits")));
    }
    let ghost d = dst_data@;
    let ghost dl = d.len() as int;
    let byte_count = byte_count_for_bits(bit_pos + bit_len);
    if byte_count > dst_data.len() {
        return Ok(());
    }
    let src_bits = mul8_sat(source_data.len());
    let n = if bit_len < src_bits {
        bit_len
    } else {
        src_bits
    };
    let ghost f = |k: int| bit_at(d, k) | injected_bit(dl, source_data@, bit_len as int, bit_pos as int, k);
    proof {
        assert forall|k: int| 0 <= k < 8 * dl implies #[trigger] bit_at(dst_data@, k) == bit_at(d, k) | 0u8 by {
            lemma_bit_at_range(d, k);
            lemma_or_zero_bits(bit_at(d, k), 0);
        }
    }
    let mut i: usize = 0;
    while i < n
        invariant
            i <= n,
            n == injected_count(source_data@.len() as int, bit_len as int),
            n <= bit_len,
            n <= 8 * source_data@.len(),
            bit_pos <= 7,
            bit_pos + bit_len <= usize::MAX,
            byte_count == bytes_for_bits(bit_pos + bit_len),
            byte_count <= dl,
            dst_data@.len() == dl,
            dl == d.len(),
            forall|k: int|
                0 <= k < 8 * dl ==> #[trigger] bit_at(dst_data@, k) == bit_at(d, k) | (if 0 <= k - 8 * (
                dl - byte_count) - bit_pos < i {
                    bit_at(source_data@, k - 8 * (dl - byte_count) - bit_pos)
                } else {
                    0
                }),
        decreases n - i,
    {
        let src_byte_index = source_data.len() - i / 8 - 1;
        let src_bit_offset = i % 8;
        let bit_value = (source_data[src_byte_index] >> (src_bit_offset as u8)) & 1u8;
        let cur = bit_pos + i;
        let dst_byte_index = byte_count - 1 - cur / 8;
        let dst_bit_offset = cur % 8;
        let ghost before = dst_data@;
        let _ = set_bit_checked(dst_data, dst_byte_index, dst_bit_offset, bit_value, false);
        proof {
            assert(bit_value == bit_at(source_data@, i as int));
            lemma_bit_at_range(source_data@, i as int);
            assert forall|k: int| 0 <= k < 8 * dl implies #[trigger] bit_at(dst_data@, k) == bit_at(
                d,
                k,
            ) | (if 0 <= k - 8 * (dl - byte_count) - bit_pos < i + 1 {
                bit_at(source_data@, k - 8 * (dl - byte_count) - bit_pos)
            } else {
                0
            }) by {
                lemma_bit_at_set(
                    before,
                    dst_byte_index as int,
                    dst_bit_offset as u8,
                    bit_value,
                    false,
                    k,
                );
                lemma_bit_at_range(d, k);
                if k == 8 * (dl - byte_count) + bit_pos + i {
                    assert(8 * (dl - 1 - dst_byte_index) + dst_bit_offset == k);
                    lemma_or_zero_bits(bit_at(d, k), bit_value);
                }
            }
        }
        i = i + 1;
    }
    proof {
        assert forall|k: int| 0 <= k < 8 * dl implies #[trigger] bit_at(dst_data@, k) == f(k) & 1 by {
            lemma_bit_at_range(d, k);
            let p = k - 8 * (dl - byte_count) - bit_pos;
            if 0 <= p < n {
                lemma_bit_at_range(source_data@, p);
            }
            lemma_or_zero_bits(
                bit_at(d, k),
                injected_bit(dl, source_data@, bit_len as int, bit_pos as int, k),
            );
        }
        lemma_bytes_from_bits_eq(dst_data@, d.len(), f);
    }
    Ok(())
}

proof fn lemma_or_zero_bits(a: u8, b: u8)
    requires
        a <= 1,
        b <= 1,
    ensures
        (a | 0u8) == a,
        (a | b) & 1 == a | b,
        (a | (b & 1)) == (a | b),
{
    assert((a | 0u8) == a && (a | b) & 1 == a | b && (a | (b & 1)) == (a | b)) by (bit_vector)
        requires
            a <= 1,
            b <= 1,
    ;
}


/// Number of 1 bits of `mask` at the positions `0 .. m`.
pub open spec fn ones_below(mask: Seq<u8>, m: int) -> int
    decreases m,
{
    if m <= 0 {
        0
    } else {
        ones_below(mask, m - 1) + bit_at(mask, m - 1)
    }
}

proof fn lemma_ones_below_bounds(mask: Seq<u8>, m: int)
    ensures
        0 <= ones_below(mask, m),
        m >= 0 ==> ones_below(mask, m) <= m,
    decreases m,
{
    if m > 0 {
        lemma_ones_below_bounds(mask, m - 1);
        lemma_bit_at_range(mask, m - 1);
    }
}

/// Bit `m` of the condensed packing of `data` into `mask`: the `d`-th 1 bit of the mask
/// receives data bit `bit_pos + d` while data bits last.
pub open spec fn condensed_packed_bit(data: Seq<u8>, mask: Seq<u8>, bit_pos: int, m: int) -> u8 {
    if bit_at(mask, m) == 1 {
        let d = ones_below(mask, m);
        if d < sat_mul(data.len() as int, 8) {
            mask_bit_sat(data, sat_add(bit_pos, d))
        } else {
            1
        }
    } else {
        0
    }
}

/// The mask with each of its 1 bits replaced by the next data bit.
pub open spec fn condensed_packed(data: Seq<u8>, mask: Seq<u8>, bit_pos: int) -> Seq<u8> {
    bytes_from_bits(
        mask.len(),
        |m: int|
            if m < sat_mul(mask.len() as int, 8) {
                condensed_packed_bit(data, mask, bit_pos, m)
            } else {
                bit_at(mask, m)
            },
    )
}

/// Packs `data` into the 1 bits of `mask`: the result starts as the mask, and for each 1 bit
/// of the mask (from the least significant) the next data bit, starting at `bit_pos`, is
/// copied over. Returns the result and its bit count.
pub fn apply_condensed_mask_packing(data: &[u8], mask: &[u8], bit_pos: usize) -> (r: Result<
    (Vec<u8>, usize),
    DiagServiceError,
>)
    ensures
        r matches Ok((v, n)) && v@ == condensed_packed(data@, mask@, bit_pos as int) && n == sat_mul(
            mask@.len() as int,
            8,
        ),
{
    let mut result = slice_to_vec(mask);
    let mut data_bit_idx: usize = 0;
    let mut mask_bit_idx: usize = 0;
    let limit = mul8_sat(mask.len());
    let data_limit = mul8_sat(data.len());
    let ghost f = |m: int|
        if m < sat_mul(mask@.len() as int, 8) {
            condensed_packed_bit(data@, mask@, bit_pos as int, m)
        } else {
            bit_at(mask@, m)
        };
    while mask_bit_idx < limit
        invariant
            limit == sat_mul(mask@.len() as int, 8),
            data_limit == sat_mul(data@.len() as int, 8),
            mask_bit_idx <= limit,
            data_bit_idx == if ones_below(mask@, mask_bit_idx as int) < data_limit {
                ones_below(mask@, mask_bit_idx as int)
            } else {
                data_limit as int
            },
            data_bit_idx <= mask_bit_idx,
            result@.len() == mask@.len(),
            forall|k: int|
                0 <= k < 8 * mask@.len() ==> #[trigger] bit_at(result@, k) == if k < mask_bit_idx {
                    condensed_packed_bit(data@, mask@, bit_pos as int, k)
                } else {
                    bit_at(mask@, k)
                },
        decreases limit - mask_bit_idx,
    {
        let m = mask_bit_idx;
        let mask_byte_idx = mask.len() - m / 8 - 1;
        let mask_bit_pos = m % 8;
        let mask_bit = (mask[mask_byte_idx] >> (mask_bit_pos as u8)) & 1u8;
        proof {
            assert(mask_bit == bit_at(mask@, m as int));
            lemma_bit_at_range(mask@, m as int);
            lemma_ones_below_bounds(mask@, m as int);
        }
        mask_bit_idx = mask_bit_idx + 1;
        if mask_bit == 1 && data_bit_idx < data_limit {
            let q = bit_pos.saturating_add(data_bit_idx);
            let data_byte_idx = data.len().saturating_sub(q / 8).saturating_sub(1);
            let data_bit_pos = q % 8;
            let data_bit: u8 = if data_byte_idx < data.len() {
                (data[data_byte_idx] >> (data_bit_pos as u8)) & 1u8
            } else {
                0
            };
            let ghost before = result@;
            let _ = set_bit_checked(&mut result, mask_byte_idx, mask_bit_pos, data_bit, true);
            proof {
                assert(data_bit == mask_bit_sat(data@, q as int));
                lemma_mask_bit_sat_range(data@, q as int);
                assert forall|k: int| 0 <= k < 8 * mask@.len() implies #[trigger] bit_at(
                    result@,
                    k,
                ) == if k < mask_bit_idx {
                    condensed_packed_bit(data@, mask@, bit_pos as int, k)
                } else {
                    bit_at(mask@, k)
                } by {
                    lemma_bit_at_set(
                        before,
                        mask_byte_idx as int,
                        mask_bit_pos as u8,
                        data_bit,
                        true,
                        k,
                    );
                    lemma_and_bits(data_bit, 1);
                }
            }
            data_bit_idx = data_bit_idx + 1;
        }
    }
    proof {
        assert forall|k: int| 0 <= k < 8 * mask@.len() implies #[trigger] bit_at(result@, k) == f(k) & 1 by {
            lemma_bit_at_range(mask@, k);
            let d = ones_below(mask@, k);
            lemma_mask_bit_sat_range(data@, sat_add(bit_pos as int, d));
            lemma_and_bits(condensed_packed_bit(data@, mask@, bit_pos as int, k), 1);
            lemma_and_bits(bit_at(mask@, k), 1);
        }
        lemma_bytes_from_bits_eq(result@, mask@.len(), f);
    }
    Ok((result, mask_bit_idx))
}


/// Byte of `field` (and of the mask) that the condensed unpacking reads for bit `i`.
pub open spec fn unpack_source_index(field_len: int, i: int) -> int {
    if i / 8 < field_len {
        field_len - 1 - i / 8
    } else {
        0
    }
}

/// The condensed unpacking takes bit `i` of the field when the mask has a 1 there.
pub open spec fn unpack_hit(mask: Seq<u8>, field: Seq<u8>, i: int) -> bool {
    let s = unpack_source_index(field.len() as int, i);
    s < mask.len() && byte_bit(mask[s], (i % 8) as u8) == 1
}

/// The field bit read for bit `i`.
pub open spec fn unpack_value(field: Seq<u8>, i: int) -> u8 {
    let s = unpack_source_index(field.len() as int, i);
    if s < field.len() {
        byte_bit(field[s], (i % 8) as u8)
    } else {
        0
    }
}

/// The result bytes and the number of collected bits after the condensed unpacking has
/// looked at the field bits `0 .. n`, collecting into `rbc` bytes.
pub open spec fn unpack_collect(mask: Seq<u8>, field: Seq<u8>, rbc: int, n: int) -> (Seq<u8>, int)
    decreases n,
{
    if n <= 0 {
        (Seq::new(rbc as nat, |j: int| 0u8), 0)
    } else {
        let (r, c) = unpack_collect(mask, field, rbc, n - 1);
        if unpack_hit(mask, field, n - 1) {
            let t = if c / 8 < rbc {
                rbc - 1 - c / 8
            } else {
                0
            };
            (r.update(t, set_bit_value(r[t], (c % 8) as u8, unpack_value(field, n - 1), false)), c + 1)
        } else {
            (r, c)
        }
    }
}

proof fn lemma_unpack_collect(mask: Seq<u8>, field: Seq<u8>, rbc: int, n: int)
    requires
        rbc >= 1,
    ensures
        unpack_collect(mask, field, rbc, n).0.len() == rbc,
        0 <= unpack_collect(mask, field, rbc, n).1,
        n >= 0 ==> unpack_collect(mask, field, rbc, n).1 <= n,
    decreases n,
{
    if n > 0 {
        lemma_unpack_collect(mask, field, rbc, n - 1);
    }
}

/// Result of the condensed unpacking of the first `bit_len` bits of `field` through `mask`:
/// the collected bits and `min(ones(mask), bit_len)`.
pub open spec fn condensed_unpacked(mask: Seq<u8>, field: Seq<u8>, bit_len: int) -> (Seq<u8>, int) {
    let total = ones_below(mask, 8 * mask.len() as int);
    let max_bits = if total < bit_len {
        total
    } else {
        bit_len
    };
    if max_bits == 0 {
        (Seq::empty(), 0)
    } else {
        let rbc = bytes_for_bits(max_bits);
        let (r, c) = unpack_collect(mask, field, rbc, bit_len);
        let keep = bytes_for_bits(c);
        if keep < r.len() {
            (r.subrange(keep, r.len() as int), max_bits)
        } else {
            (r, max_bits)
        }
    }
}

/// Number of 1 bits of `mask`, saturated at `usize::MAX`.
fn count_mask_ones(mask: &[u8]) -> (r: usize)
    ensures
        r == if ones_below(mask@, 8 * mask@.len() as int) < usize::MAX {
            ones_below(mask@, 8 * mask@.len() as int)
        } else {
            usize::MAX as int
        },
{
    let n = mask.len();
    let mut total: usize = 0;
    let mut j: usize = 0;
    while j < n
        invariant
            n == mask@.len(),
            j <= n,
            total == if ones_below(mask@, 8 * j) < usize::MAX {
                ones_below(mask@, 8 * j)
            } else {
                usize::MAX as int
            },
        decreases n - j,
    {
        let b = mask[n - 1 - j];
        let mut c: usize = 0;
        let mut o: u8 = 0;
        while o < 8
            invariant
                o <= 8,
                b == mask@[n - 1 - j],
                j < n,
                n == mask@.len(),
                c == ones_below(mask@, 8 * j + o) - ones_below(mask@, 8 * j),
                c <= o,
            decreases 8 - o,
        {
            let bit = (b >> o) & 1u8;
            proof {
                assert(bit == bit_at(mask@, 8 * j + o));
                lemma_bit_at_range(mask@, 8 * j + o);
            }
            c = c + bit as usize;
            o = o + 1;
        }
        proof {
            lemma_ones_below_bounds(mask@, 8 * j);
        }
        total = total.saturating_add(c);
        j = j + 1;
    }
    total
}

/// Collects the bits of `bit_field` where `bit_mask` has a 1, for the first `bit_len` bits,
/// into the low bits of a new byte sequence. Returns the collected bytes and
/// `min(ones(bit_mask), bit_len)`.
pub fn apply_condensed_mask_unpacking(bit_mask: &[u8], bit_field: &[u8], bit_len: usize) -> (r:
    Result<(Vec<u8>, usize), DiagServiceError>)
    ensures
        r matches Ok((v, n)) && (v@, n as int) == condensed_unpacked(bit_mask@, bit_field@, bit_len as int),
{
    let total = count_mask_ones(bit_mask);
    let max_bits = if total < bit_len {
        total
    } else {
        bit_len
    };
    proof {
        lemma_ones_below_bounds(bit_mask@, 8 * bit_mask@.len() as int);
    }
    if max_bits == 0 {
        return Ok((Vec::new(), 0));
    }
    let result_byte_count = byte_count_for_bits(max_bits);
    let mut result_bytes = zero_bytes(result_byte_count);
    let mut extracted: usize = 0;
    let mut i: usize = 0;
    let ghost rbc = result_byte_count as int;
    proof {
        assert(result_bytes@ =~= unpack_collect(bit_mask@, bit_field@, rbc, 0).0);
    }
    while i < bit_len
        invariant
            i <= bit_len,
            rbc == result_byte_count,
            result_byte_count >= 1,
            extracted <= i,
            (result_bytes@, extracted as int) == unpack_collect(bit_mask@, bit_field@, rbc, i as int),
        decreases bit_len - i,
    {
        proof {
            lemma_unpack_collect(bit_mask@, bit_field@, rbc, i as int);
        }
        let src_byte_index = bit_field.len().saturating_sub(i / 8).saturating_sub(1);
        let src_bit_offset = i % 8;
        if src_byte_index < bit_mask.len() {
            let mask_bit = (bit_mask[src_byte_index] >> (src_bit_offset as u8)) & 1u8;
            if mask_bit == 1 {
                let bit_value: u8 = if src_byte_index < bit_field.len() {
                    (bit_field[src_byte_index] >> (src_bit_offset as u8)) & 1u8
                } else {
                    0
                };
                let target_byte_index = result_byte_count.saturating_sub(extracted / 8).saturating_sub(1);
                let target_bit_offset = extracted % 8;
                let _ = set_bit_checked(
                    &mut result_bytes,
                    target_byte_index,
                    target_bit_offset,
                    bit_value,
                    false,
                );
                extracted = extracted + 1;
            }
        }
        i = i + 1;
    }
    proof {
        lemma_unpack_collect(bit_mask@, bit_field@, rbc, bit_len as int);
    }
    let keep = byte_count_for_bits(extracted);
    if keep < result_bytes.len() {
        let tail = result_bytes.split_off(keep);
        result_bytes = tail;
    }
    Ok((result_bytes, max_bits))
}


/// The plain view of an optional mask: its bytes and whether it is condensed.
pub open spec fn mask_view(mask: Option<&Mask>) -> Option<(Seq<u8>, bool)> {
    match mask {
        Some(m) => Some((m.data@, m.condensed)),
        None => None,
    }
}

/// `data` copied into `rbl` zero bytes: right-aligned keeps its last bytes, left-aligned its
/// first bytes.
pub open spec fn aligned_copy(data: Seq<u8>, rbl: int, alignment: DataAlignment) -> Seq<u8> {
    let copy = if data.len() < rbl {
        data.len() as int
    } else {
        rbl
    };
    match alignment {
        DataAlignment::Right => Seq::new((rbl - copy) as nat, |j: int| 0u8) + data.subrange(
            data.len() - copy,
            data.len() as int,
        ),
        DataAlignment::Left => data.subrange(0, copy) + Seq::new((rbl - copy) as nat, |j: int| 0u8),
    }
}

/// `s` with the bits of byte `bit_len / 8` at and above `bit_len % 8` cleared.
pub open spec fn cleared_above(s: Seq<u8>, bit_len: int) -> Seq<u8> {
    let rem = bit_len % 8;
    let idx = bit_len / 8;
    if rem != 0 && idx < s.len() {
        s.update(idx, s[idx] & (((1u8 << (rem as u8)) - 1) as u8))
    } else {
        s
    }
}

/// Result of packing `data` into `bit_len` bits: the packed bytes and their bit count,
/// or `None` when there is nothing to pack.
pub open spec fn packed(
    bit_len: int,
    bit_pos: int,
    mask: Option<(Seq<u8>, bool)>,
    data: Seq<u8>,
    alignment: DataAlignment,
) -> Option<(Seq<u8>, int)> {
    if bit_len == 0 {
        None
    } else {
        match mask {
            Some((m, true)) => Some(
                (condensed_packed(data, m, bit_pos), sat_mul(m.len() as int, 8)),
            ),
            _ => {
                let base = cleared_above(
                    aligned_copy(data, bytes_for_bits(bit_len), alignment),
                    bit_len,
                );
                match mask {
                    Some((m, _)) => Some((masked_bits(base, m, bit_len, bit_pos), bit_len)),
                    None => Some((base, bit_len)),
                }
            },
        }
    }
}

/// Packs `data` into `bit_len` bits, aligned and truncated, then masked; a condensed mask
/// instead spreads the data bits over the 1 bits of the mask.
/// Fails when `bit_len` is 0.
pub fn pack_data(
    bit_len: usize,
    bit_pos: usize,
    mask: Option<&Mask>,
    data: &[u8],
    alignment: DataAlignment,
) -> (r: Result<(Vec<u8>, usize), DiagServiceError>)
    ensures
        r is Err <==> bit_len == 0,
        r matches Err(e) ==> e matches DiagServiceError::BadPayload(m) && m@ == "Cannot insert 0 bits"@,
        r matches Ok((v, n)) ==> packed(
            bit_len as int,
            bit_pos as int,
            mask_view(mask),
            data@,
            alignment,
        ) == Some((v@, n as int)),
{
    if bit_len == 0 {
        return Err(DiagServiceError::BadPayload(text("Cannot insert 0 bits")));
    }
    match mask {
        Some(m) => {
            if m.condensed {
                let (v, n) = match apply_condensed_mask_packing(data, m.data.as_slice(), bit_pos) {
                    Ok(x) => x,
                    Err(e) => {
                        return Err(e);
                    },
                };
                return Ok((v, n));
            }
        },
        None => {},
    }
    let result_byte_len = byte_count_for_bits(bit_len);
    let mut result = zero_bytes(result_byte_len);
    let copy_bytes = if data.len() < result_byte_len {
        data.len()
    } else {
        result_byte_len
    };
    let (start_idx, src_start) = match alignment {
        DataAlignment::Right => (result_byte_len - copy_bytes, data.len() - copy_bytes),
        DataAlignment::Left => (0, 0),
    };
    let mut j: usize = 0;
    while j < copy_bytes
        invariant
            j <= copy_bytes,
            copy_bytes <= data@.len(),
            copy_bytes <= result_byte_len,
            result@.len() == result_byte_len,
            start_idx + copy_bytes <= result_byte_len,
            src_start + copy_bytes <= data@.len(),
            src_start + copy_bytes <= data.len(),
            forall|k: int|
                0 <= k < result_byte_len ==> #[trigger] result@[k] == if start_idx <= k < start_idx
                    + j {
                    data@[src_start + k - start_idx]
                } else {
                    0u8
                },
        decreases copy_bytes - j,
    {
        result.set(start_idx + j, data[src_start + j]);
        j = j + 1;
    }
    proof {
        assert(result@ =~= aligned_copy(data@, result_byte_len as int, alignment));
    }
    let rem = bit_len % 8;
    if rem != 0 {
        let idx = bit_len / 8;
        if idx < result.len() {
            let r8 = rem as u8;
            proof {
                assert(1u8 <= (1u8 << r8)) by (bit_vector)
                    requires
                        1 <= r8 < 8,
                ;
            }
            let keep_mask: u8 = (1u8 << r8) - 1;
            let b = result[idx];
            result.set(idx, b & keep_mask);
        }
    }
    proof {
        assert(result@ =~= cleared_above(
            aligned_copy(data@, bytes_for_bits(bit_len as int), alignment),
            bit_len as int,
        ));
    }
    match mask {
        Some(m) => {
            let _ = apply_bit_mask(result.as_mut_slice(), m.data.as_slice(), bit_len, bit_pos);
        },
        None => {},
    }
    Ok((result, bit_len))
}

/// Whether `extract_bits(bit_len, bit_pos, _)` succeeds on `n` bytes.
pub open spec fn extract_ok(bit_len: int, bit_pos: int, n: int) -> bool {
    bit_pos <= 7 && bit_len != 0 && bit_pos + bit_len <= usize::MAX && 8 * n <= usize::MAX && bit_pos
        + bit_len <= 8 * n
}

/// Result of unpacking `bit_len` bits at `bit_pos` from `data` after byte order normalization,
/// with the mask applied: the data and its bit count, or `None` when the bits cannot be read.
pub open spec fn unpacked(
    bit_len: int,
    bit_pos: int,
    mask: Option<(Seq<u8>, bool)>,
    data: Seq<u8>,
    byte_order: ByteOrder,
) -> Option<(Seq<u8>, int)> {
    let nd = normalized(data, byte_order);
    if !extract_ok(bit_len, bit_pos, nd.len() as int) {
        None
    } else {
        let e = extracted_bits(nd, bit_pos, bit_len);
        match mask {
            None => Some((e, bit_len)),
            Some((m, true)) => Some(condensed_unpacked(m, e, bit_len)),
            Some((m, false)) => Some((masked_bits(e, m, bit_len, bit_pos), bit_len)),
        }
    }
}

/// Unpacks `bit_len` bits at `bit_pos` from `data`: normalizes the byte order, extracts the
/// bits and applies the mask (condensing the selected bits for a condensed mask).
pub fn unpack_data(
    bit_len: usize,
    bit_pos: usize,
    mask: Option<&Mask>,
    data: &[u8],
    byte_order: ByteOrder,
) -> (r: Result<(Vec<u8>, usize), DiagServiceError>)
    ensures
        r is Ok <==> unpacked(bit_len as int, bit_pos as int, mask_view(mask), data@, byte_order)
            is Some,
        r matches Ok((v, n)) ==> unpacked(
            bit_len as int,
            bit_pos as int,
            mask_view(mask),
            data@,
            byte_order,
        ) == Some((v@, n as int)),
        match extract_bits_error(bit_len, bit_pos, data@.len() as int) {
            Some(m) => r matches Err(DiagServiceError::BadPayload(e)) && e@ == m,
            None => r is Ok,
        },
{
    let mut d = slice_to_vec(data);
    normalize_byte_order(d.as_mut_slice(), byte_order);
    let mut bit_data = match extract_bits(bit_len, bit_pos, d.as_slice()) {
        Ok(v) => v,
        Err(e) => {
            return Err(e);
        },
    };
    match mask {
        Some(m) => {
            if m.condensed {
                return apply_condensed_mask_unpacking(m.data.as_slice(), bit_data.as_slice(), bit_len);
            }
            let _ = apply_bit_mask(bit_data.as_mut_slice(), m.data.as_slice(), bit_len, bit_pos);
        },
        None => {},
    }
    Ok((bit_data, bit_len))
}

} // verus!
