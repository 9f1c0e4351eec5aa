//! Bit level view of PDU payloads and the primitive bit operations on them.
//!
//! A byte sequence is read as one big-endian bit string: bit position `k`
//! (0 = least significant bit of the last byte) lives in byte `len - 1 - k / 8`
//! at bit offset `k % 8`.
use vstd::prelude::*;
use crate::error::{decimal, push_decimal, push_text, text, DiagServiceError};

verus! {

/// Bit `o` (0 = least significant) of byte `b`.
pub open spec fn byte_bit(b: u8, o: u8) -> u8 {
    (b >> o) & 1u8
}

/// The bit at big-endian bit position `k` of `s`, 0 outside of `s`.
pub open spec fn bit_at(s: Seq<u8>, k: int) -> u8 {
    if 0 <= k < 8 * s.len() {
        byte_bit(s[s.len() - 1 - k / 8], (k % 8) as u8)
    } else {
        0
    }
}

/// Byte index that holds bit position `k` in a buffer of `n` bytes.
pub open spec fn byte_index_of(n: int, k: int) -> int {
    n - 1 - k / 8
}

/// The byte `b` with bit `o` set to `v & 1` (after clearing it when `clear` holds),
/// or with `v & 1` or-ed into bit `o` otherwise.
pub open spec fn set_bit_value(b: u8, o: u8, v: u8, clear: bool) -> u8 {
    if clear {
        (b & !(1u8 << o)) | ((v & 1u8) << o)
    } else {
        b | ((v & 1u8) << o)
    }
}

/// The byte made of eight bits, `b0` being the least significant.
pub open spec fn compose_byte(b0: u8, b1: u8, b2: u8, b3: u8, b4: u8, b5: u8, b6: u8, b7: u8) -> u8 {
    (b0 & 1u8) | ((b1 & 1u8) << 1u8) | ((b2 & 1u8) << 2u8) | ((b3 & 1u8) << 3u8) | ((b4 & 1u8)
        << 4u8) | ((b5 & 1u8) << 5u8) | ((b6 & 1u8) << 6u8) | ((b7 & 1u8) << 7u8)
}

/// The `n` byte sequence whose bit at position `k` is `f(k) & 1`.
pub open spec fn bytes_from_bits(n: nat, f: spec_fn(int) -> u8) -> Seq<u8> {
    Seq::new(
        n,
        |j: int|
            {
                let base = 8 * (n - 1 - j);
                compose_byte(
                    f(base),
                    f(base + 1),
                    f(base + 2),
                    f(base + 3),
                    f(base + 4),
                    f(base + 5),
                    f(base + 6),
                    f(base + 7),
                )
            },
    )
}

/// Number of bytes needed for `n` bits.
pub open spec fn bytes_for_bits(n: int) -> int {
    if n % 8 == 0 { n / 8 } else { n / 8 + 1 }
}

proof fn lemma_set_bit_value_bits(b: u8, o: u8, v: u8, clear: bool, q: u8)
    requires
        o < 8,
        q < 8,
    ensures
        byte_bit(set_bit_value(b, o, v, clear), q) == if q == o {
            if clear {
                v & 1
            } else {
                byte_bit(b, q) | (v & 1)
            }
        } else {
            byte_bit(b, q)
        },
{
    if clear {
        assert(((((b & !(1u8 << o)) | ((v & 1u8) << o)) >> q) & 1u8) == if q == o {
            v & 1
        } else {
            (b >> q) & 1u8
        }) by (bit_vector)
            requires
                o < 8,
                q < 8,
        ;
    } else {
        assert((((b | ((v & 1u8) << o)) >> q) & 1u8) == if q == o {
            ((b >> q) & 1u8) | (v & 1)
        } else {
            (b >> q) & 1u8
        }) by (bit_vector)
            requires
                o < 8,
                q < 8,
        ;
    }
}

proof fn lemma_byte_bit_range(b: u8, q: u8)
    ensures
        byte_bit(b, q) <= 1,
{
    assert(((b >> q) & 1u8) <= 1) by (bit_vector);
}

proof fn lemma_compose_byte_bits(b0: u8, b1: u8, b2: u8, b3: u8, b4: u8, b5: u8, b6: u8, b7: u8)
    ensures
        byte_bit(compose_byte(b0, b1, b2, b3, b4, b5, b6, b7), 0) == b0 & 1,
        byte_bit(compose_byte(b0, b1, b2, b3, b4, b5, b6, b7), 1) == b1 & 1,
        byte_bit(compose_byte(b0, b1, b2, b3, b4, b5, b6, b7), 2) == b2 & 1,
        byte_bit(compose_byte(b0, b1, b2, b3, b4, b5, b6, b7), 3) == b3 & 1,
        byte_bit(compose_byte(b0, b1, b2, b3, b4, b5, b6, b7), 4) == b4 & 1,
        byte_bit(compose_byte(b0, b1, b2, b3, b4, b5, b6, b7), 5) == b5 & 1,
        byte_bit(compose_byte(b0, b1, b2, b3, b4, b5, b6, b7), 6) == b6 & 1,
        byte_bit(compose_byte(b0, b1, b2, b3, b4, b5, b6, b7), 7) == b7 & 1,
{
    let c = compose_byte(b0, b1, b2, b3, b4, b5, b6, b7);
    assert(c == (b0 & 1u8) | ((b1 & 1u8) << 1u8) | ((b2 & 1u8) << 2u8) | ((b3 & 1u8) << 3u8) | ((b4
        & 1u8) << 4u8) | ((b5 & 1u8) << 5u8) | ((b6 & 1u8) << 6u8) | ((b7 & 1u8) << 7u8));
    assert(((c >> 0u8) & 1u8) == b0 & 1 && ((c >> 1u8) & 1u8) == b1 & 1 && ((c >> 2u8) & 1u8) == b2
        & 1 && ((c >> 3u8) & 1u8) == b3 & 1 && ((c >> 4u8) & 1u8) == b4 & 1 && ((c >> 5u8) & 1u8)
        == b5 & 1 && ((c >> 6u8) & 1u8) == b6 & 1 && ((c >> 7u8) & 1u8) == b7 & 1) by (bit_vector)
        requires
            c == (b0 & 1u8) | ((b1 & 1u8) << 1u8) | ((b2 & 1u8) << 2u8) | ((b3 & 1u8) << 3u8) | ((b4
                & 1u8) << 4u8) | ((b5 & 1u8) << 5u8) | ((b6 & 1u8) << 6u8) | ((b7 & 1u8) << 7u8),
    ;
}

proof fn lemma_byte_ext(a: u8, b: u8)
    requires
        byte_bit(a, 0) == byte_bit(b, 0),
        byte_bit(a, 1) == byte_bit(b, 1),
        byte_bit(a, 2) == byte_bit(b, 2),
        byte_bit(a, 3) == byte_bit(b, 3),
        byte_bit(a, 4) == byte_bit(b, 4),
        byte_bit(a, 5) == byte_bit(b, 5),
        byte_bit(a, 6) == byte_bit(b, 6),
        byte_bit(a, 7) == byte_bit(b, 7),
    ensures
        a == b,
{
    assert(a == b) by (bit_vector)
        requires
            ((a >> 0u8) & 1u8) == ((b >> 0u8) & 1u8),
            ((a >> 1u8) & 1u8) == ((b >> 1u8) & 1u8),
            ((a >> 2u8) & 1u8) == ((b >> 2u8) & 1u8),
            ((a >> 3u8) & 1u8) == ((b >> 3u8) & 1u8),
            ((a >> 4u8) & 1u8) == ((b >> 4u8) & 1u8),
            ((a >> 5u8) & 1u8) == ((b >> 5u8) & 1u8),
            ((a >> 6u8) & 1u8) == ((b >> 6u8) & 1u8),
            ((a >> 7u8) & 1u8) == ((b >> 7u8) & 1u8),
    ;
}

/// Every bit of a byte sequence is 0 or 1.
pub proof fn lemma_bit_at_range(s: Seq<u8>, k: int)
    ensures
        bit_at(s, k) <= 1,
{
    if 0 <= k < 8 * s.len() {
        lemma_byte_bit_range(s[s.len() - 1 - k / 8], (k % 8) as u8);
    }
}

/// A byte sequence is determined by its length and its bits.
pub proof fn lemma_bytes_from_bits_eq(s: Seq<u8>, n: nat, f: spec_fn(int) -> u8)
    requires
        s.len() == n,
        forall|k: int| 0 <= k < 8 * n ==> #[trigger] bit_at(s, k) == f(k) & 1,
    ensures
        s == bytes_from_bits(n, f),
{
    let t = bytes_from_bits(n, f);
    assert forall|j: int| 0 <= j < n implies s[j] == t[j] by {
        let base = 8 * (n - 1 - j);
        lemma_compose_byte_bits(
            f(base),
            f(base + 1),
            f(base + 2),
            f(base + 3),
            f(base + 4),
            f(base + 5),
            f(base + 6),
            f(base + 7),
        );
        assert(bit_at(s, base) == f(base) & 1);
        assert(bit_at(s, base + 1) == f(base + 1) & 1);
        assert(bit_at(s, base + 2) == f(base + 2) & 1);
        assert(bit_at(s, base + 3) == f(base + 3) & 1);
        assert(bit_at(s, base + 4) == f(base + 4) & 1);
        assert(bit_at(s, base + 5) == f(base + 5) & 1);
        assert(bit_at(s, base + 6) == f(base + 6) & 1);
        assert(bit_at(s, base + 7) == f(base + 7) & 1);
        lemma_byte_ext(s[j], t[j]);
    }
    assert(s =~= t);
}

/// The bits of `bytes_from_bits`.
pub proof fn lemma_bit_at_bytes_from_bits(n: nat, f: spec_fn(int) -> u8, k: int)
    requires
        0 <= k < 8 * n,
    ensures
        bit_at(bytes_from_bits(n, f), k) == f(k) & 1,
{
    let j = n - 1 - k / 8;
    let base = 8 * (n - 1 - j);
    lemma_compose_byte_bits(
        f(base),
        f(base + 1),
        f(base + 2),
        f(base + 3),
        f(base + 4),
        f(base + 5),
        f(base + 6),
        f(base + 7),
    );
    assert(base + k % 8 == k);
}

/// Setting one bit of one byte changes exactly one bit position of the sequence.
pub proof fn lemma_bit_at_set(s: Seq<u8>, j: int, o: u8, v: u8, clear: bool, k: int)
    requires
        0 <= j < s.len(),
        o < 8,
    ensures
        bit_at(s.update(j, set_bit_value(s[j], o, v, clear)), k) == if k == 8 * (s.len() - 1 - j)
            + o {
            if clear {
                v & 1
            } else {
                bit_at(s, k) | (v & 1)
            }
        } else {
            bit_at(s, k)
        },
{
    let t = s.update(j, set_bit_value(s[j], o, v, clear));
    if 0 <= k < 8 * s.len() {
        let jj = s.len() - 1 - k / 8;
        if jj == j {
            lemma_set_bit_value_bits(s[j], o, v, clear, (k % 8) as u8);
        }
    }
}

/// Sets bit `dst_bit_offset` of byte `dst_byte_index` to `bit_value & 1`, clearing it first
/// when `clear_bit` holds and or-ing into it otherwise.
/// Fails when the byte index is outside of `result_bytes`, which then stays unchanged.
pub fn set_bit_checked(
    result_bytes: &mut [u8],
    dst_byte_index: usize,
    dst_bit_offset: usize,
    bit_value: u8,
    clear_bit: bool,
) -> (r: Result<(), DiagServiceError>)
    requires
        dst_bit_offset < 8,
    ensures
        dst_byte_index < old(result_bytes)@.len() ==> {
            &&& r is Ok
            &&& final(result_bytes)@ == old(result_bytes)@.update(
                dst_byte_index as int,
                set_bit_value(
                    old(result_bytes)@[dst_byte_index as int],
                    dst_bit_offset as u8,
                    bit_value,
                    clear_bit,
                ),
            )
        },
        dst_byte_index >= old(result_bytes)@.len() ==> {
            &&& r matches Err(DiagServiceError::BadPayload(m)) && m@
                == "Destination byte index out of bounds"@
            &&& final(result_bytes)@ == old(result_bytes)@
        },
{
    if dst_byte_index < result_bytes.len() {
        let o = dst_bit_offset as u8;
        let b = result_bytes[dst_byte_index];
        let nb = if clear_bit {
            (b & !(1u8 << o)) | ((bit_value & 1u8) << o)
        } else {
            b | ((bit_value & 1u8) << o)
        };
        result_bytes[dst_byte_index] = nb;
        Ok(())
    } else {
        Err(DiagServiceError::BadPayload(text("Destination byte index out of bounds")))
    }
}


/// A vector of `n` zero bytes.
pub fn zero_bytes(n: usize) -> (v: Vec<u8>)
    ensures
        v@ == Seq::new(n as nat, |i: int| 0u8),
{
    let mut v: Vec<u8> = Vec::with_capacity(n);
    let mut i: usize = 0;
    while i < n
        invariant
            i <= n,
            v@ == Seq::new(i as nat, |j: int| 0u8),
        decreases n - i,
    {
        v.push(0u8);
        i = i + 1;
        assert(v@ =~= Seq::new(i as nat, |j: int| 0u8));
    }
    v
}

/// `ceil(n / 8)` for `usize` values.
pub fn byte_count_for_bits(n: usize) -> (r: usize)
    ensures
        r == bytes_for_bits(n as int),
{
    if n % 8 == 0 {
        n / 8
    } else {
        n / 8 + 1
    }
}

/// All bits of a zero-filled sequence are 0.
pub proof fn lemma_bit_at_zeros(n: nat, k: int)
    ensures
        bit_at(Seq::new(n, |i: int| 0u8), k) == 0,
{
    if 0 <= k < 8 * n {
        let o = (k % 8) as u8;
        assert(((0u8 >> o) & 1u8) == 0) by (bit_vector);
    }
}

/// The bits `bit_pos .. bit_pos + bit_len` of `data`, right-aligned in `ceil(bit_len / 8)` bytes.
pub open spec fn extracted_bits(data: Seq<u8>, bit_pos: int, bit_len: int) -> Seq<u8> {
    bytes_from_bits(
        bytes_for_bits(bit_len) as nat,
        |k: int|
            if k < bit_len {
                bit_at(data, bit_pos + k)
            } else {
                0
            },
    )
}

/// The message of a bit position out of the range `0..=7`.
pub open spec fn bit_pos_range_message(bit_pos: usize) -> Seq<char> {
    "BitPosition range is 0..=7, got "@ + decimal(bit_pos as nat)
}

/// The message when `bit_len` bits from bit position `bit_pos` cannot be read from
/// `data_len` bytes, if they cannot.
pub open spec fn extract_bits_error(bit_len: usize, bit_pos: usize, data_len: int) -> Option<
    Seq<char>,
> {
    if bit_pos > 7 {
        Some(bit_pos_range_message(bit_pos))
    } else if bit_len == 0 {
        Some("Cannot extract 0 bits"@)
    } else if bit_pos + bit_len > usize::MAX || 8 * data_len > usize::MAX {
        Some("Bit operation overflow"@)
    } else if bit_pos + bit_len > 8 * data_len {
        Some(
            "Bit position "@ + decimal(bit_pos as nat) + " with length "@ + decimal(bit_len as nat)
                + " exceeds data length "@ + decimal((8 * data_len) as nat) + " bits"@,
        )
    } else {
        None
    }
}

/// The bad payload error for a bit position out of the range `0..=7`.
pub fn bit_pos_range_error(bit_pos: usize) -> (r: DiagServiceError)
    ensures
        r matches DiagServiceError::BadPayload(m) && m@ == bit_pos_range_message(bit_pos),
{
    let mut m = text("BitPosition range is 0..=7, got ");
    push_decimal(&mut m, bit_pos as u64);
    DiagServiceError::BadPayload(m)
}

/// Reads `bit_len` bits from `data`, starting at bit position `bit_pos` (0..=7, counted from
/// the least significant bit of the last byte), into `ceil(bit_len / 8)` bytes.
/// Fails when the bit position is out of range, no bit is asked for, or the bits exceed
/// the data.
pub fn extract_bits(bit_len: usize, bit_pos: usize, data: &[u8]) -> (r: Result<
    Vec<u8>,
    DiagServiceError,
>)
    ensures
        r is Ok <==> (bit_pos <= 7 && bit_len != 0 && bit_pos + bit_len <= usize::MAX && 8
            * data@.len() <= usize::MAX && bit_pos + bit_len <= 8 * data@.len()),
        r matches Ok(v) ==> v@ == extracted_bits(data@, bit_pos as int, bit_len as int),
        match extract_bits_error(bit_len, bit_pos, data@.len() as int) {
            None => r is Ok,
            Some(m) => r matches Err(DiagServiceError::BadPayload(e)) && e@ == m,
        },
{
    if bit_pos > 7 {
        return Err(bit_pos_range_error(bit_pos));
    }
    if bit_len == 0 {
        return Err(DiagServiceError::BadPayload(text("Cannot extract 0 bits")));
    }
    let end = match bit_pos.checked_add(bit_len) {
        Some(e) => e,
        None => {
            return Err(DiagServiceError::BadPayload(text("Bit operation overflow")));
        },
    };
    let avail = match data.len().checked_mul(8) {
        Some(a) => a,
        None => {
            return Err(DiagServiceError::BadPayload(text("Bit operation overflow")));
        },
    };
    if end > avail {
        let mut m = text("Bit position ");
        push_decimal(&mut m, bit_pos as u64);
        push_text(&mut m, " with length ");
        push_decimal(&mut m, bit_len as u64);
        push_text(&mut m, " exceeds data length ");
        push_decimal(&mut m, avail as u64);
        push_text(&mut m, " bits");
        return Err(DiagServiceError::BadPayload(m));
    }
    let result_byte_count = byte_count_for_bits(bit_len);
    let mut result_bytes = zero_bytes(result_byte_count);
    let ghost f = |k: int|
        if k < bit_len {
            bit_at(data@, bit_pos + k)
        } else {
            0
        };
    proof {
        assert forall|k: int| 0 <= k < 8 * result_byte_count implies #[trigger] bit_at(
            result_bytes@,
            k,
        ) == 0 by {
            lemma_bit_at_zeros(result_byte_count as nat, k);
        }
    }
    let mut i: usize = 0;
    while i < bit_len
        invariant
            i <= bit_len,
            bit_pos <= 7,
            bit_pos + bit_len <= usize::MAX,
            bit_pos + bit_len <= 8 * data@.len(),
            result_byte_count == bytes_for_bits(bit_len as int),
            result_bytes@.len() == result_byte_count,
            forall|k: int|
                0 <= k < 8 * result_byte_count ==> #[trigger] bit_at(result_bytes@, k) == if k
                    < i {
                    bit_at(data@, bit_pos + k)
                } else {
                    0
                },
        decreases bit_len - i,
    {
        let src_bit_index = bit_pos + i;
        let src_byte_index = data.len() - src_bit_index / 8 - 1;
        let src_bit_offset = src_bit_index % 8;
        let bit_value = (data[src_byte_index] >> (src_bit_offset as u8)) & 1u8;
        let dst_byte_index = result_byte_count - i / 8 - 1;
        let dst_bit_offset = i % 8;
        let ghost before = result_bytes@;
        let _ = set_bit_checked(
            &mut result_bytes,
            dst_byte_index,
            dst_bit_offset,
            bit_value,
            false,
        );
        proof {
            assert(bit_value == bit_at(data@, bit_pos + i));
            assert forall|k: int| 0 <= k < 8 * result_byte_count implies #[trigger] bit_at(
                result_bytes@,
                k,
            ) == if k < i + 1 {
                bit_at(data@, bit_pos + k)
            } else {
                0
            } by {
                lemma_bit_at_set(
                    before,
                    dst_byte_index as int,
                    dst_bit_offset as u8,
                    bit_value,
                    false,
                    k,
                );
                lemma_bit_at_range(data@, bit_pos + k);
                if k == i {
                    assert(bit_at(before, k) == 0);
                    assert((0u8 | (bit_value & 1u8)) == bit_value) by (bit_vector)
                        requires
                            bit_value <= 1,
                    ;
                }
            }
        }
        i = i + 1;
    }
    proof {
        assert forall|k: int| 0 <= k < 8 * result_byte_count implies #[trigger] bit_at(
            result_bytes@,
            k,
        ) == f(k) & 1 by {
            lemma_bit_at_range(data@, bit_pos + k);
            let x = f(k);
            assert(x <= 1 ==> x & 1 == x) by (bit_vector);
        }
        lemma_bytes_from_bits_eq(result_bytes@, result_byte_count as nat, f);
    }
    Ok(result_bytes)
}

} // verus!
