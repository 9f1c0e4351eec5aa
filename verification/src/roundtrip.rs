//! Laws that relate encoding and decoding of coded values: what a decode reads back of an
//! encode, and what byte order normalization undoes.
use vstd::prelude::*;
use crate::bits::{
    bit_at, bytes_for_bits, bytes_from_bits, extracted_bits, lemma_bit_at_range,
    lemma_bit_at_zeros, lemma_bytes_from_bits_eq, lemma_bit_at_bytes_from_bits,
};
use crate::coded_type::{
    be_bytes, be_value, lemma_be_bytes_len, min_max_layout, pow256, runtime_decoded, scan_end,
    terminator_at, termination_bytes, DataType, Termination,
    alignment_for, bit_len_valid, decoded, effective_mask, encode_plan, encoded,
    field_layout, written, inverted, DiagCodedType, DiagCodedTypeVariant, Layout,
};
use crate::coding::{
    lemma_mask_bit_sat_range, mask_bit_sat, masked_bits,
    aligned_copy, cleared_above, injected_bits, normalized, sat_add, sat_sub, unpacked, ByteOrder,
};
use crate::error::ErrorKind;

verus! {

/// Whether the bit offsets of the `n` bytes from `byte_pos` fit in a `usize`.
pub open spec fn bit_offsets_fit(byte_pos: int, n: int) -> bool {
    8 * (byte_pos + n) <= usize::MAX
}

/// `n` zero bytes.
pub open spec fn zeros(n: nat) -> Seq<u8> {
    Seq::new(n, |i: int| 0u8)
}

/// Normalizing the byte order twice gives the data back, for every byte order: reversing
/// and swapping pairs are their own inverses.
pub proof fn law_normalize_twice(s: Seq<u8>, order: ByteOrder)
    ensures
        normalized(normalized(s, order), order) == s,
{
    let t = normalized(normalized(s, order), order);
    match order {
        ByteOrder::Keep => {},
        ByteOrder::Reverse => {
            assert(t =~= s);
        },
        ByteOrder::ReorderPairs => {
            let m = normalized(s, order);
            assert forall|i: int| 0 <= i < s.len() implies t[i] == s[i] by {
                if i % 2 == 0 {
                    if i + 1 < s.len() {
                        assert((i + 1) % 2 == 1);
                        assert(m[i + 1] == s[i]);
                    }
                } else {
                    assert((i - 1) % 2 == 0);
                    assert(m[i - 1] == s[i]);
                }
            }
            assert(t =~= s);
        },
    }
}

/// Zero bytes stay zero bytes in every byte order.
proof fn lemma_normalize_zeros(n: nat, order: ByteOrder)
    ensures
        normalized(zeros(n), order) == zeros(n),
{
    assert(normalized(zeros(n), order) =~= zeros(n));
}

/// The `8 * n` bits from position 0 of an `n` byte sequence are the sequence.
proof fn lemma_extract_whole(s: Seq<u8>)
    ensures
        extracted_bits(s, 0, 8 * (s.len() as int)) == s,
{
    let n = s.len();
    let bl: int = 8 * (n as int);
    assert(bytes_for_bits(bl) == n);
    let f = |k: int|
        if k < bl {
            bit_at(s, 0 + k)
        } else {
            0u8
        };
    assert forall|k: int| 0 <= k < 8 * n implies #[trigger] bit_at(s, k) == f(k) & 1 by {
        lemma_bit_at_range(s, k);
        let b = bit_at(s, k);
        assert(b <= 1 ==> b & 1 == b) by (bit_vector);
    }
    lemma_bytes_from_bits_eq(s, n, f);
}

/// Injecting all bits of an `n` byte source at position 0 of `n` zero bytes gives the source.
proof fn lemma_inject_into_zeros(src: Seq<u8>)
    requires
        8 * src.len() <= usize::MAX,
    ensures
        injected_bits(zeros(src.len()), src, 8 * (src.len() as int), 0) == src,
{
    let n = src.len();
    let z = zeros(n);
    let bl: int = 8 * (n as int);
    assert(bytes_for_bits(0 + bl) == n);
    let f = |k: int| bit_at(z, k) | crate::coding::injected_bit(n as int, src, bl, 0, k);
    assert forall|k: int| 0 <= k < 8 * n implies #[trigger] bit_at(src, k) == f(k) & 1 by {
        lemma_bit_at_zeros(n, k);
        lemma_bit_at_range(src, k);
        let b = bit_at(src, k);
        assert(crate::coding::injected_bit(n as int, src, bl, 0, k) == b);
        assert(b <= 1 ==> (0u8 | b) & 1 == b) by (bit_vector);
    }
    lemma_bytes_from_bits_eq(src, n, f);
}

/// A standard length coded type of exactly `8 * n` bits, with no mask, for a value of `n`
/// bytes.
pub open spec fn plain_standard_for(t: &DiagCodedType, n: nat) -> bool {
    &&& t.variant() matches DiagCodedTypeVariant::StandardLength(slt)
    &&& slt.bit_length == 8 * n
    &&& slt.bit_mask is None
    &&& bit_len_valid(t.base(), 8 * (n as int))
}

/// The plan of a plain standard length encoding is the value itself.
proof fn lemma_plain_plan(t: &DiagCodedType, input: Seq<u8>)
    requires
        input.len() > 0,
        plain_standard_for(t, input.len()),
        8 * input.len() <= usize::MAX,
    ensures
        encode_plan(t, input) == Ok::<Option<(Seq<u8>, int, Option<Seq<u8>>)>, ErrorKind>(
            Some((input, 8 * (input.len() as int), None)),
        ),
{
    let n = input.len();
    let bl: int = 8 * (n as int);
    let slt = t.variant()->StandardLength_0;
    assert(bytes_for_bits(bl) == n);
    let copy = aligned_copy(input, n as int, alignment_for(t.base()));
    assert(copy =~= input);
    assert(cleared_above(input, bl) == input);
    assert(effective_mask(slt) is None);
}

/// The payload with the packed value `pk` of whole bytes written at `byte_pos` in byte order
/// `order`: padded with zeros up to the end of the value where it is shorter, the value's
/// bytes replaced by the value, every other byte kept.
pub open spec fn placed(payload: Seq<u8>, byte_pos: int, order: ByteOrder, pk: Seq<u8>) -> Seq<u8> {
    let end = byte_pos + pk.len();
    let padded = if payload.len() < end {
        payload + zeros((end - payload.len()) as nat)
    } else {
        payload
    };
    padded.subrange(0, byte_pos) + normalized(pk, order) + padded.subrange(end, padded.len() as int)
}

/// Whether the bytes of `payload` from `byte_pos` on, `n` of them as far as the payload
/// reaches, are all zero (so also when the payload ends at or before `byte_pos`).
pub open spec fn window_zero(payload: Seq<u8>, byte_pos: int, n: int) -> bool {
    forall|j: int| byte_pos <= j < byte_pos + n && j < payload.len() ==> #[trigger] payload[j] == 0
}

/// The placed value's bytes stand in the payload from `byte_pos` on, in the given order.
proof fn lemma_placed_window(payload: Seq<u8>, byte_pos: int, order: ByteOrder, pk: Seq<u8>)
    requires
        0 <= byte_pos,
    ensures
        placed(payload, byte_pos, order, pk).len() >= byte_pos + pk.len(),
        placed(payload, byte_pos, order, pk).subrange(byte_pos, byte_pos + pk.len())
            == normalized(pk, order),
{
    let p2 = placed(payload, byte_pos, order, pk);
    assert(p2.subrange(byte_pos, byte_pos + pk.len()) =~= normalized(pk, order));
}

/// Writing whole bytes where the payload's bytes are zero, or beyond its end, pads the
/// payload with zeros up to the end of the value and puts the bytes there in the given order.
proof fn lemma_written_placed(order: ByteOrder, payload: Seq<u8>, pk: Seq<u8>, byte_pos: int)
    requires
        pk.len() > 0,
        0 <= byte_pos,
        window_zero(payload, byte_pos, pk.len() as int),
        8 * pk.len() <= usize::MAX,
    ensures
        written(order, payload, pk, 8 * (pk.len() as int), None, byte_pos, 0) == (
            placed(payload, byte_pos, order, pk),
            Ok::<(), ErrorKind>(()),
        ),
{
    let n = pk.len();
    let bl: int = 8 * (n as int);
    assert(bytes_for_bits(0 + bl) == n);
    let end = byte_pos + n;
    let resized = if payload.len() < end {
        payload + zeros((end - payload.len()) as nat)
    } else {
        payload
    };
    assert forall|j: int| 0 <= j < n implies #[trigger] resized.subrange(byte_pos, end)[j] == 0u8 by {
        let k = byte_pos + j;
        if k < payload.len() {
            assert(payload[k] == 0);
            assert(resized[k] == payload[k]);
        }
    }
    assert(resized.subrange(byte_pos, end) =~= zeros(n));
    lemma_normalize_zeros(n, order);
    lemma_inject_into_zeros(pk);
}

/// Decoding with a plain standard length type where the payload holds the value's bytes in
/// the type's order reads the value back.
proof fn lemma_plain_decode(t: &DiagCodedType, p: Seq<u8>, byte_pos: int, input: Seq<u8>)
    requires
        input.len() > 0,
        plain_standard_for(t, input.len()),
        0 <= byte_pos,
        byte_pos + input.len() <= p.len(),
        8 * (byte_pos + input.len()) <= usize::MAX,
        p.subrange(byte_pos, byte_pos + input.len()) == normalized(input, t.spec_order()),
    ensures
        decoded(t, p, byte_pos, 0) == Ok::<(Seq<u8>, int), ErrorKind>(
            (input, 8 * (input.len() as int)),
        ),
{
    let n = input.len();
    let bl: int = 8 * (n as int);
    assert(bytes_for_bits(bl) == n);
    law_normalize_twice(input, t.spec_order());
    lemma_extract_whole(input);
    assert(field_layout(t, p, byte_pos, 0) == Ok::<Layout, ErrorKind>((bl, byte_pos, None)));
}

/// Encoding a value of `n` bytes with a standard length coded type of `8 * n` bits and no
/// mask, where the payload's bytes of the value are zero or beyond its end, succeeds: it pads
/// the payload with zeros up to the end of the value and puts the value there in the type's
/// byte order (see [`placed`]); and decoding at the same position reads back exactly the
/// value and its bit length.
#[verifier::spinoff_prover]
#[verifier::rlimit(30)]
pub proof fn law_standard_length_roundtrip(
    t: &DiagCodedType,
    input: Seq<u8>,
    payload: Seq<u8>,
    byte_pos: int,
)
    requires
        input.len() > 0,
        plain_standard_for(t, input.len()),
        0 <= byte_pos,
        window_zero(payload, byte_pos, input.len() as int),
        bit_offsets_fit(byte_pos, input.len() as int),
    ensures
        encoded(t, input, payload, byte_pos, 0) == (
            placed(payload, byte_pos, t.spec_order(), input),
            Ok::<(), ErrorKind>(()),
        ),
        decoded(t, placed(payload, byte_pos, t.spec_order(), input), byte_pos, 0) == Ok::<
            (Seq<u8>, int),
            ErrorKind,
        >((input, 8 * (input.len() as int))),
{
    lemma_plain_plan(t, input);
    lemma_written_placed(t.spec_order(), payload, input, byte_pos);
    let p2 = placed(payload, byte_pos, t.spec_order(), input);
    assert(p2.subrange(byte_pos, byte_pos + input.len()) =~= normalized(input, t.spec_order()));
    lemma_plain_decode(t, p2, byte_pos, input);
}

/// The big-endian value of the `n` low bytes of `v` is `v` when `v` fits in `n` bytes.
proof fn lemma_be_value_be_bytes(v: nat, n: nat)
    requires
        v < pow256(n),
    ensures
        be_value(be_bytes(v, n)) == v,
    decreases n,
{
    if n > 0 {
        let q = v / 256;
        assert(v == 256 * q + v % 256);
        assert(q < pow256((n - 1) as nat)) by (nonlinear_arith)
            requires
                v == 256 * q + v % 256,
                v < 256 * pow256((n - 1) as nat),
                0 <= v % 256,
        ;
        lemma_be_value_be_bytes(q, (n - 1) as nat);
        lemma_be_bytes_len(q, (n - 1) as nat);
        let s = be_bytes(q, (n - 1) as nat).push((v % 256) as u8);
        assert(s.drop_last() =~= be_bytes(q, (n - 1) as nat));
    }
}

/// A leading length coded type whose length field is whole bytes and whose value bytes are
/// kept in order.
pub open spec fn plain_leading_for(t: &DiagCodedType) -> bool {
    &&& t.variant() matches DiagCodedTypeVariant::LeadingLengthInfo(bits)
    &&& bits > 0
    &&& bits % 8 == 0
    &&& bytes_for_bits(bits as int) <= usize::BITS / 8
    &&& bit_len_valid(t.base(), bits as int)
    &&& t.spec_order() == ByteOrder::Keep
}

/// The number of length bytes of a leading length coded type.
pub open spec fn length_bytes_of(t: &DiagCodedType) -> int {
    bytes_for_bits((t.variant()->LeadingLengthInfo_0) as int)
}

/// The bytes a leading length encoding writes: the big-endian length, then the value.
pub open spec fn length_prefixed(t: &DiagCodedType, input: Seq<u8>) -> Seq<u8> {
    be_bytes(input.len(), length_bytes_of(t) as nat) + input
}

proof fn lemma_leading_encode(t: &DiagCodedType, input: Seq<u8>, payload: Seq<u8>, byte_pos: int)
    requires
        plain_leading_for(t),
        0 <= byte_pos,
        window_zero(payload, byte_pos, input.len() + length_bytes_of(t)),
        bit_offsets_fit(byte_pos, input.len() + length_bytes_of(t)),
    ensures
        encoded(t, input, payload, byte_pos, 0) == (
            placed(payload, byte_pos, ByteOrder::Keep, length_prefixed(t, input)),
            Ok::<(), ErrorKind>(()),
        ),
{
    let lbc = length_bytes_of(t);
    lemma_be_bytes_len(input.len(), lbc as nat);
    let d = length_prefixed(t, input);
    assert(encode_plan(t, input) == Ok::<Option<(Seq<u8>, int, Option<Seq<u8>>)>, ErrorKind>(
        Some((d, 8 * (d.len() as int), None)),
    ));
    lemma_written_placed(ByteOrder::Keep, payload, d, byte_pos);
}

proof fn lemma_leading_layout(t: &DiagCodedType, input: Seq<u8>, p: Seq<u8>, byte_pos: int)
    requires
        plain_leading_for(t),
        input.len() < pow256(length_bytes_of(t) as nat),
        0 <= byte_pos,
        byte_pos + length_bytes_of(t) + input.len() <= p.len(),
        8 * (byte_pos + length_bytes_of(t) + input.len()) <= usize::MAX,
        p.subrange(byte_pos, byte_pos + length_bytes_of(t) + input.len()) == length_prefixed(
            t,
            input,
        ),
    ensures
        field_layout(t, p, byte_pos, 0) == Ok::<Layout, ErrorKind>(
            (8 * (input.len() as int), byte_pos + length_bytes_of(t), None),
        ),
{
    let bits = t.variant()->LeadingLengthInfo_0;
    let lbc = length_bytes_of(t);
    assert(bits as int == 8 * lbc);
    let lb = be_bytes(input.len(), lbc as nat);
    lemma_be_bytes_len(input.len(), lbc as nat);
    let len_end = byte_pos + lbc;
    assert(p.subrange(byte_pos, len_end) =~= length_prefixed(t, input).subrange(0, lbc));
    assert(length_prefixed(t, input).subrange(0, lbc) =~= lb);
    lemma_extract_whole(lb);
    lemma_be_value_be_bytes(input.len(), lbc as nat);
    assert(unpacked(bits as int, 0, None, p.subrange(byte_pos, len_end), ByteOrder::Keep) == Some(
        (lb, bits as int),
    ));
}

/// Encoding a value with a leading length coded type of whole length bytes, in kept byte
/// order, where the payload's bytes of the field are zero or beyond its end, succeeds: it
/// pads the payload with zeros up to the end of the field and puts there the value's length
/// in big-endian bytes, then the value; and decoding at the same position reads back exactly
/// the value and its bit length, as long as the length fits in the length bytes.
#[verifier::spinoff_prover]
#[verifier::rlimit(30)]
pub proof fn law_leading_length_roundtrip(
    t: &DiagCodedType,
    input: Seq<u8>,
    payload: Seq<u8>,
    byte_pos: int,
)
    requires
        plain_leading_for(t),
        input.len() < pow256(length_bytes_of(t) as nat),
        0 <= byte_pos,
        window_zero(payload, byte_pos, input.len() + length_bytes_of(t)),
        bit_offsets_fit(byte_pos, input.len() + length_bytes_of(t)),
    ensures
        encoded(t, input, payload, byte_pos, 0) == (
            placed(payload, byte_pos, ByteOrder::Keep, length_prefixed(t, input)),
            Ok::<(), ErrorKind>(()),
        ),
        decoded(
            t,
            placed(payload, byte_pos, ByteOrder::Keep, length_prefixed(t, input)),
            byte_pos,
            0,
        ) == Ok::<(Seq<u8>, int), ErrorKind>((input, 8 * (input.len() as int))),
{
    let lbc = length_bytes_of(t);
    lemma_leading_encode(t, input, payload, byte_pos);
    lemma_be_bytes_len(input.len(), lbc as nat);
    let d = length_prefixed(t, input);
    let p2 = placed(payload, byte_pos, ByteOrder::Keep, d);
    lemma_placed_window(payload, byte_pos, ByteOrder::Keep, d);
    lemma_leading_decode(t, input, p2, byte_pos);
}

/// Decoding with a leading length coded type where the payload holds the length bytes and
/// then the value at `byte_pos` reads the value back.
#[verifier::spinoff_prover]
#[verifier::rlimit(30)]
proof fn lemma_leading_decode(t: &DiagCodedType, input: Seq<u8>, p2: Seq<u8>, byte_pos: int)
    requires
        plain_leading_for(t),
        input.len() < pow256(length_bytes_of(t) as nat),
        0 <= byte_pos,
        p2.len() >= byte_pos + length_bytes_of(t) + input.len(),
        bit_offsets_fit(byte_pos, input.len() + length_bytes_of(t)),
        p2.subrange(byte_pos, byte_pos + length_bytes_of(t) + input.len()) == length_prefixed(
            t,
            input,
        ),
    ensures
        decoded(t, p2, byte_pos, 0) == Ok::<(Seq<u8>, int), ErrorKind>(
            (input, 8 * (input.len() as int)),
        ),
{
    let lbc = length_bytes_of(t);
    lemma_be_bytes_len(input.len(), lbc as nat);
    let d = length_prefixed(t, input);
    assert(d.len() == lbc + input.len());
    lemma_leading_layout(t, input, p2, byte_pos);
    let start = byte_pos + lbc;
    let end = start + input.len();
    if input.len() > 0 {
        assert(bytes_for_bits(8 * (input.len() as int)) == input.len());
        assert(p2.subrange(start, end) =~= d.subrange(lbc, lbc + input.len()));
        assert(d.subrange(lbc, lbc + input.len()) =~= input);
        lemma_extract_whole(input);
    } else {
        assert(input =~= Seq::<u8>::empty());
    }
}

/// Encoding a non-empty value with a coded type whose length comes from a length key, in kept
/// byte order, where the payload's bytes of the value are zero or beyond its end, succeeds:
/// it pads the payload with zeros up to the end of the value and puts the value there; and
/// reading as many bytes as the value has at the same position gives back the value and its
/// bit length.
#[verifier::spinoff_prover]
#[verifier::rlimit(30)]
pub proof fn law_param_length_roundtrip(
    t: &DiagCodedType,
    input: Seq<u8>,
    payload: Seq<u8>,
    byte_pos: int,
)
    requires
        t.variant() is ParamLengthInfo,
        t.spec_order() == ByteOrder::Keep,
        input.len() > 0,
        0 <= byte_pos,
        window_zero(payload, byte_pos, input.len() as int),
        bit_offsets_fit(byte_pos, input.len() as int),
    ensures
        encoded(t, input, payload, byte_pos, 0) == (
            placed(payload, byte_pos, ByteOrder::Keep, input),
            Ok::<(), ErrorKind>(()),
        ),
        runtime_decoded(
            placed(payload, byte_pos, ByteOrder::Keep, input),
            byte_pos,
            input.len() as int,
        ) == Ok::<(Seq<u8>, int), ErrorKind>((input, 8 * (input.len() as int))),
{
    assert(encode_plan(t, input) == Ok::<Option<(Seq<u8>, int, Option<Seq<u8>>)>, ErrorKind>(
        Some((input, 8 * (input.len() as int), None)),
    ));
    lemma_written_placed(ByteOrder::Keep, payload, input, byte_pos);
    let p2 = placed(payload, byte_pos, ByteOrder::Keep, input);
    assert(p2.subrange(byte_pos, byte_pos + input.len()) =~= input);
}

/// The scan for a terminator from `pos` stops at `target` when no terminator stands before it
/// and one stands there.
proof fn lemma_scan_finds(
    p: Seq<u8>,
    start: int,
    pos: int,
    max_end: int,
    min_len: int,
    term: u8,
    target: int,
)
    requires
        start <= pos <= target < max_end,
        target < usize::MAX,
        forall|q: int| pos <= q < target ==> !terminator_at(p, start, q, min_len, term, false),
        terminator_at(p, start, target, min_len, term, false),
    ensures
        scan_end(p, start, pos, max_end, min_len, term, false) == target,
    decreases target - pos,
{
    if pos < target {
        lemma_scan_finds(p, start, pos + 1, max_end, min_len, term, target);
    }
}

/// The terminator byte of a termination, if it has one.
pub open spec fn terminator_byte(t: Termination) -> Option<u8> {
    match t {
        Termination::EndOfPdu => None,
        Termination::Zero => Some(0u8),
        Termination::HexFF => Some(0xFFu8),
    }
}

/// A min/max length coded type of a one-byte-character type in kept byte order, and a value
/// it reads back whole: at least the minimum length, within the maximum (short of it when a
/// terminator follows), with no terminator byte at or after the minimum length, and not empty
/// when nothing terminates it.
pub open spec fn min_max_value_ok(t: &DiagCodedType, input: Seq<u8>) -> bool {
    &&& t.variant() matches DiagCodedTypeVariant::MinMaxLength(m)
    &&& t.base() != DataType::Unicode2String
    &&& t.spec_order() == ByteOrder::Keep
    &&& input.len() >= m.min_length
    &&& match terminator_byte(m.termination) {
        Some(term) => {
            &&& (m.max_length matches Some(max) ==> input.len() < max)
            &&& forall|i: int| m.min_length <= i < input.len() ==> input[i] != term
        },
        None => {
            &&& input.len() > 0
            &&& (m.max_length matches Some(max) ==> input.len() <= max)
        },
    }
}

/// The bytes a min/max length encoding of one-byte characters writes: the value, then its
/// terminator.
pub open spec fn terminated(t: &DiagCodedType, input: Seq<u8>) -> Seq<u8> {
    input + termination_bytes(t.variant()->MinMaxLength_0.termination, false)
}

proof fn lemma_min_max_encode(t: &DiagCodedType, input: Seq<u8>, payload: Seq<u8>, byte_pos: int)
    requires
        min_max_value_ok(t, input),
        0 <= byte_pos,
        window_zero(payload, byte_pos, terminated(t, input).len() as int),
        bit_offsets_fit(byte_pos, input.len() as int + 2),
    ensures
        encoded(t, input, payload, byte_pos, 0) == (
            placed(payload, byte_pos, ByteOrder::Keep, terminated(t, input)),
            Ok::<(), ErrorKind>(()),
        ),
{
    let d = terminated(t, input);
    assert(encode_plan(t, input) == Ok::<Option<(Seq<u8>, int, Option<Seq<u8>>)>, ErrorKind>(
        Some((d, 8 * (d.len() as int), None)),
    ));
    lemma_written_placed(ByteOrder::Keep, payload, d, byte_pos);
}

proof fn lemma_min_max_scan(t: &DiagCodedType, input: Seq<u8>, p: Seq<u8>, byte_pos: int)
    requires
        min_max_value_ok(t, input),
        0 <= byte_pos,
        p.len() >= byte_pos + terminated(t, input).len(),
        terminator_byte(t.variant()->MinMaxLength_0.termination) is None ==> p.len() == byte_pos
            + input.len(),
        8 * (byte_pos + input.len() + 2) <= usize::MAX,
        p.subrange(byte_pos, byte_pos + terminated(t, input).len()) == terminated(t, input),
    ensures
        min_max_layout(t.base(), t.variant()->MinMaxLength_0, p, byte_pos) == Ok::<
            Layout,
            ErrorKind,
        >((8 * (input.len() as int), byte_pos, None)),
{
    let m = t.variant()->MinMaxLength_0;
    let d = terminated(t, input);
    let n = input.len();
    assert forall|i: int| 0 <= i < d.len() implies p[byte_pos + i] == d[i] by {
        assert(p.subrange(byte_pos, byte_pos + d.len())[i] == d[i]);
    }
    let max_end = match m.max_length {
        Some(l) => if sat_add(byte_pos, l as int) < p.len() {
            sat_add(byte_pos, l as int)
        } else {
            p.len() as int
        },
        None => p.len() as int,
    };
    match terminator_byte(m.termination) {
        Some(term) => {
            assert(d[n as int] == term);
            assert forall|q: int| byte_pos <= q < byte_pos + n implies !terminator_at(
                p,
                byte_pos,
                q,
                m.min_length as int,
                term,
                false,
            ) by {
                if sat_sub(q, byte_pos) >= m.min_length {
                    assert(p[q] == d[q - byte_pos]);
                }
            }
            assert(p[byte_pos + n] == d[n as int]);
            assert(terminator_at(p, byte_pos, byte_pos + n, m.min_length as int, term, false));
            lemma_scan_finds(p, byte_pos, byte_pos, max_end, m.min_length as int, term, byte_pos + n);
        },
        None => {
            assert(max_end == byte_pos + n);
        },
    }
    let wide = t.base() == DataType::Unicode2String;
    assert(!wide);
    let end = match m.termination {
        Termination::EndOfPdu => max_end,
        Termination::Zero => scan_end(p, byte_pos, byte_pos, max_end, m.min_length as int, 0, wide),
        Termination::HexFF => scan_end(p, byte_pos, byte_pos, max_end, m.min_length as int, 0xFF, wide),
    };
    assert(end == byte_pos + n);
    assert(crate::coding::sat_mul(sat_sub(end, byte_pos), 8) == 8 * (n as int));
}

/// Encoding a value with a min/max length coded type of one-byte characters in kept byte
/// order, where the payload's bytes of the field are zero or beyond its end, succeeds: it
/// pads the payload with zeros up to the end of the field and puts the value and its
/// terminator there; and decoding at the same position reads back exactly the value and its
/// bit length, provided the value is one the type reads back whole (see [`min_max_value_ok`])
/// and, where no terminator ends the field, the payload ends with the value.
#[verifier::spinoff_prover]
#[verifier::rlimit(30)]
pub proof fn law_min_max_length_roundtrip(
    t: &DiagCodedType,
    input: Seq<u8>,
    payload: Seq<u8>,
    byte_pos: int,
)
    requires
        min_max_value_ok(t, input),
        0 <= byte_pos,
        window_zero(payload, byte_pos, terminated(t, input).len() as int),
        terminator_byte(t.variant()->MinMaxLength_0.termination) is None ==> payload.len()
            <= byte_pos + input.len(),
        bit_offsets_fit(byte_pos, input.len() as int + 2),
    ensures
        encoded(t, input, payload, byte_pos, 0) == (
            placed(payload, byte_pos, ByteOrder::Keep, terminated(t, input)),
            Ok::<(), ErrorKind>(()),
        ),
        decoded(
            t,
            placed(payload, byte_pos, ByteOrder::Keep, terminated(t, input)),
            byte_pos,
            0,
        ) == Ok::<(Seq<u8>, int), ErrorKind>((input, 8 * (input.len() as int))),
{
    lemma_min_max_encode(t, input, payload, byte_pos);
    let d = terminated(t, input);
    let p2 = placed(payload, byte_pos, ByteOrder::Keep, d);
    let n = input.len();
    lemma_placed_window(payload, byte_pos, ByteOrder::Keep, d);
    if terminator_byte(t.variant()->MinMaxLength_0.termination) is None {
        assert(d =~= input);
        assert(p2.len() == byte_pos + n);
    }
    lemma_min_max_scan(t, input, p2, byte_pos);
    assert(field_layout(t, p2, byte_pos, 0) == Ok::<Layout, ErrorKind>(
        (8 * (n as int), byte_pos, None),
    ));
    if n > 0 {
        assert(bytes_for_bits(8 * (n as int)) == n);
        assert(p2.subrange(byte_pos, byte_pos + n) =~= d.subrange(0, n as int));
        assert(d.subrange(0, n as int) =~= input);
        lemma_extract_whole(input);
    } else {
        assert(input =~= Seq::<u8>::empty());
    }
}

/// Encoding never changes the bytes of the payload before the value's first byte, whether it
/// succeeds or not.
#[verifier::spinoff_prover]
#[verifier::rlimit(30)]
pub proof fn law_encode_keeps_prefix(
    t: &DiagCodedType,
    input: Seq<u8>,
    payload: Seq<u8>,
    byte_pos: int,
    bit_pos: int,
)
    requires
        0 <= byte_pos <= payload.len(),
    ensures
        encoded(t, input, payload, byte_pos, bit_pos).0.len() >= byte_pos,
        encoded(t, input, payload, byte_pos, bit_pos).0.subrange(0, byte_pos) == payload.subrange(
            0,
            byte_pos,
        ),
{
    let r = encoded(t, input, payload, byte_pos, bit_pos).0;
    match encode_plan(t, input) {
        Ok(Some((pk, bit_len, mask))) => {
            if !(crate::coded_type::is_byte_type(t.base()) && bit_pos != 0) {
                let byte_count = bytes_for_bits(bit_pos + bit_len);
                let end = byte_pos + byte_count;
                let resized = if payload.len() < end {
                    payload + zeros((end - payload.len()) as nat)
                } else {
                    payload
                };
                assert(resized.subrange(0, byte_pos) =~= payload.subrange(0, byte_pos));
                if bit_pos <= 7 {
                    assert(r.subrange(0, byte_pos) =~= resized.subrange(0, byte_pos));
                } else {
                    assert(r == resized);
                }
            }
        },
        _ => {},
    }
}

/// The packed bytes an encoding plan writes (none when it writes nothing).
pub open spec fn plan_bytes(t: &DiagCodedType, input: Seq<u8>) -> Seq<u8> {
    match encode_plan(t, input) {
        Ok(Some((pk, _, _))) => pk,
        _ => Seq::empty(),
    }
}

/// The mask of a standard length coded type with a non-empty, not condensed mask.
pub open spec fn plain_mask_of(t: &DiagCodedType) -> Option<Seq<u8>> {
    match t.variant() {
        DiagCodedTypeVariant::StandardLength(slt) => match slt.bit_mask {
            Some(m) => if m@.len() > 0 && !slt.condensed {
                Some(m@)
            } else {
                None
            },
            None => None,
        },
        _ => None,
    }
}

/// A mask bit of the complement of a non-empty mask is the complement of the mask bit.
proof fn lemma_inverted_mask_bit(m: Seq<u8>, i: int)
    requires
        m.len() > 0,
        0 <= i,
    ensures
        mask_bit_sat(inverted(m), i) == 1 - mask_bit_sat(m, i),
        mask_bit_sat(m, i) <= 1,
{
    let im = inverted(m);
    if i / 8 < m.len() {
        let j = m.len() - 1 - i / 8;
        let o = (i % 8) as u8;
        let b = m[j];
        assert(im[j] == !b);
        assert(((!b >> o) & 1u8) == 1 - ((b >> o) & 1u8)) by (bit_vector)
            requires
                o < 8,
        ;
        assert(((b >> o) & 1u8) <= 1) by (bit_vector);
    } else {
        let o = (i % 8) as u8;
        let b = m[0];
        assert(im[0] == !b);
        assert(((!b >> o) & 1u8) == 1 - ((b >> o) & 1u8)) by (bit_vector)
            requires
                o < 8,
        ;
        assert(((b >> o) & 1u8) <= 1) by (bit_vector);
    }
}

/// A bit of a masked sequence.
proof fn lemma_masked_bit(d: Seq<u8>, mk: Seq<u8>, bl: int, bp: int, k: int)
    requires
        0 <= k < 8 * d.len(),
        k < usize::MAX,
    ensures
        bit_at(masked_bits(d, mk, bl, bp), k) == if bp <= k < bp + bl {
            bit_at(d, k) & mask_bit_sat(mk, k - bp)
        } else {
            bit_at(d, k)
        },
{
    let f = |q: int|
        if bp <= q < bp + bl && q < usize::MAX {
            bit_at(d, q) & mask_bit_sat(mk, q - bp)
        } else {
            bit_at(d, q)
        };
    lemma_bit_at_bytes_from_bits(d.len(), f, k);
    lemma_bit_at_range(d, k);
    lemma_mask_bit_sat_range(mk, k - bp);
    let a = bit_at(d, k);
    let b = mask_bit_sat(mk, k - bp);
    assert(a <= 1 && b <= 1 ==> (a & b) & 1 == a & b && a & 1 == a) by (bit_vector);
}

/// The value bytes of a standard length plan before masking.
pub open spec fn plain_base(t: &DiagCodedType, input: Seq<u8>) -> Seq<u8> {
    let bl = t.variant()->StandardLength_0.bit_length as int;
    cleared_above(aligned_copy(input, bytes_for_bits(bl), alignment_for(t.base())), bl)
}

proof fn lemma_masked_plan(t: &DiagCodedType, input: Seq<u8>)
    requires
        plain_mask_of(t) is Some,
        encode_plan(t, input) is Ok,
    ensures
        ({
            let bl = t.variant()->StandardLength_0.bit_length as int;
            let m = plain_mask_of(t)->Some_0;
            &&& plain_base(t, input).len() == bytes_for_bits(bl)
            &&& encode_plan(t, input) == Ok::<
                Option<(Seq<u8>, int, Option<Seq<u8>>)>,
                ErrorKind,
            >(Some((masked_bits(plain_base(t, input), m, bl, 0), bl, Some(m))))
        }),
{
    let slt = t.variant()->StandardLength_0;
    let bl = slt.bit_length as int;
    assert(effective_mask(slt) == Some((plain_mask_of(t)->Some_0, false)));
    let rbl = bytes_for_bits(bl);
    assert(aligned_copy(input, rbl, alignment_for(t.base())).len() == rbl);
}

/// The value bytes after an encoding inside the payload, read in the type's byte order.
#[verifier::spinoff_prover]
#[verifier::rlimit(40)]
proof fn lemma_masked_window(
    t: &DiagCodedType,
    input: Seq<u8>,
    payload: Seq<u8>,
    byte_pos: int,
    bit_pos: int,
)
    requires
        plain_mask_of(t) is Some,
        encoded(t, input, payload, byte_pos, bit_pos).1 is Ok,
        0 <= byte_pos,
        0 <= bit_pos,
        byte_pos + bytes_for_bits(bit_pos + (t.variant()->StandardLength_0.bit_length as int))
            <= payload.len(),
    ensures
        ({
            let bl = t.variant()->StandardLength_0.bit_length as int;
            let end = byte_pos + bytes_for_bits(bit_pos + bl);
            let m = plain_mask_of(t)->Some_0;
            let before = normalized(payload.subrange(byte_pos, end), t.spec_order());
            &&& bit_pos <= 7
            &&& normalized(
                encoded(t, input, payload, byte_pos, bit_pos).0.subrange(byte_pos, end),
                t.spec_order(),
            ) == injected_bits(
                masked_bits(before, inverted(m), bl, bit_pos),
                masked_bits(plain_base(t, input), m, bl, 0),
                bl,
                bit_pos,
            )
        }),
{
    lemma_masked_plan(t, input);
    let bl = t.variant()->StandardLength_0.bit_length as int;
    let end = byte_pos + bytes_for_bits(bit_pos + bl);
    let m = plain_mask_of(t)->Some_0;
    let o = t.spec_order();
    let before = normalized(payload.subrange(byte_pos, end), o);
    let inj = injected_bits(
        masked_bits(before, inverted(m), bl, bit_pos),
        masked_bits(plain_base(t, input), m, bl, 0),
        bl,
        bit_pos,
    );
    let p2 = payload.subrange(0, byte_pos) + normalized(inj, o) + payload.subrange(
        end,
        payload.len() as int,
    );
    assert(encoded(t, input, payload, byte_pos, bit_pos).0 == p2);
    assert(p2.subrange(byte_pos, end) =~= normalized(inj, o));
    law_normalize_twice(inj, o);
}

/// Encoding with a standard length coded type whose mask is not empty and not condensed,
/// where the payload already holds the value's bytes, writes only the bits under the mask:
/// in the value's bytes (read in the type's byte order) each bit under a 1 of the mask
/// carries the packed value's bit, and every other bit keeps the payload's bit.
#[verifier::spinoff_prover]
#[verifier::rlimit(40)]
pub proof fn law_mask_protects_unmasked_bits(
    t: &DiagCodedType,
    input: Seq<u8>,
    payload: Seq<u8>,
    byte_pos: int,
    bit_pos: int,
    k: int,
)
    requires
        plain_mask_of(t) is Some,
        encoded(t, input, payload, byte_pos, bit_pos).1 is Ok,
        0 <= byte_pos,
        0 <= bit_pos,
        byte_pos + bytes_for_bits(bit_pos + (t.variant()->StandardLength_0.bit_length as int))
            <= payload.len(),
        8 * payload.len() <= usize::MAX,
        0 <= k < 8 * bytes_for_bits(bit_pos + (t.variant()->StandardLength_0.bit_length as int)),
    ensures
        ({
            let bl = t.variant()->StandardLength_0.bit_length as int;
            let end = byte_pos + bytes_for_bits(bit_pos + bl);
            let before = normalized(payload.subrange(byte_pos, end), t.spec_order());
            let after = normalized(
                encoded(t, input, payload, byte_pos, bit_pos).0.subrange(byte_pos, end),
                t.spec_order(),
            );
            bit_at(after, k) == if bit_pos <= k < bit_pos + bl && mask_bit_sat(
                plain_mask_of(t)->Some_0,
                k - bit_pos,
            ) == 1 {
                bit_at(plan_bytes(t, input), k - bit_pos)
            } else {
                bit_at(before, k)
            }
        }),
{
    lemma_masked_plan(t, input);
    lemma_masked_window(t, input, payload, byte_pos, bit_pos);
    let bl = t.variant()->StandardLength_0.bit_length as int;
    let bc = bytes_for_bits(bit_pos + bl);
    let end = byte_pos + bc;
    let m = plain_mask_of(t)->Some_0;
    let before = normalized(payload.subrange(byte_pos, end), t.spec_order());
    let base = plain_base(t, input);
    let pk = masked_bits(base, m, bl, 0);
    let guarded = masked_bits(before, inverted(m), bl, bit_pos);
    assert(plan_bytes(t, input) == pk);
    assert(before.len() == bc);
    assert(guarded.len() == bc);
    assert(pk.len() == bytes_for_bits(bl));
    assert(bytes_for_bits(bl) <= bc);
    assert(8 * bytes_for_bits(bl) >= bl);
    assert(crate::coding::injected_count(pk.len() as int, bl) == bl);
    let ib = crate::coding::injected_bit(bc, pk, bl, bit_pos, k);
    let f = |q: int| bit_at(guarded, q) | crate::coding::injected_bit(bc, pk, bl, bit_pos, q);
    lemma_bit_at_bytes_from_bits(bc as nat, f, k);
    lemma_masked_bit(before, inverted(m), bl, bit_pos, k);
    lemma_bit_at_range(before, k);
    let a = bit_at(before, k);
    if bit_pos <= k < bit_pos + bl {
        let i = k - bit_pos;
        lemma_inverted_mask_bit(m, i);
        lemma_masked_bit(base, m, bl, 0, i);
        lemma_bit_at_range(base, i);
        let c = bit_at(base, i);
        let mb = mask_bit_sat(m, i);
        assert(ib == bit_at(pk, i));
        assert(a <= 1 && c <= 1 && mb <= 1 ==> (((a & ((1 - mb) as u8)) | (c & mb)) & 1) == if mb
            == 1 {
            c & mb
        } else {
            a
        }) by (bit_vector);
    } else {
        assert(ib == 0);
        assert(a <= 1 ==> ((a | 0u8) & 1) == a) by (bit_vector);
    }
}

/// The scan for a two-byte terminator from `pos`, stepping by whole characters, stops at
/// `target` when no terminator stands at a character position before it and one stands there
/// (or `target` is where the scan ends anyway).
proof fn lemma_wide_scan_finds(
    p: Seq<u8>,
    start: int,
    pos: int,
    max_end: int,
    min_len: int,
    term: u8,
    target: int,
)
    requires
        start <= pos <= target <= max_end,
        (target - pos) % 2 == 0,
        target < usize::MAX,
        forall|q: int|
            pos <= q < target && (q - pos) % 2 == 0 ==> !#[trigger] terminator_at(
                p,
                start,
                q,
                min_len,
                term,
                true,
            ),
        target < max_end ==> terminator_at(p, start, target, min_len, term, true),
    ensures
        scan_end(p, start, pos, max_end, min_len, term, true) == target,
    decreases target - pos,
{
    if pos < target {
        assert(!terminator_at(p, start, pos, min_len, term, true));
        assert forall|q: int|
            pos + 2 <= q < target && (q - (pos + 2)) % 2 == 0 implies !#[trigger] terminator_at(
            p,
            start,
            q,
            min_len,
            term,
            true,
        ) by {
            assert((q - pos) % 2 == 0);
        }
        lemma_wide_scan_finds(p, start, pos + 2, max_end, min_len, term, target);
    }
}

/// Whether the two-byte character `k` of `s` is `0x0000`.
pub open spec fn nul_character(s: Seq<u8>, k: int) -> bool {
    s[2 * k] == 0 && s[2 * k + 1] == 0
}

/// Decoding a zero-terminated `Unicode2String` min/max length field reads whole two-byte
/// characters: where the payload holds, from `byte_pos`, the characters `s` (none of them
/// `0x0000`) and then the terminator `0x00 0x00`, decoding at `byte_pos` gives exactly `s`,
/// whatever zero bytes straddle two characters of `s`, provided `s` is at least the minimum
/// and at most the maximum length. So the decoded length is a whole number of characters.
#[verifier::spinoff_prover]
#[verifier::rlimit(40)]
pub proof fn law_unicode_terminator_at_whole_characters(
    t: &DiagCodedType,
    s: Seq<u8>,
    p: Seq<u8>,
    byte_pos: int,
)
    requires
        t.base() == DataType::Unicode2String,
        t.high_low(),
        t.variant() matches DiagCodedTypeVariant::MinMaxLength(m) && m.termination
            == Termination::Zero && s.len() >= m.min_length && (m.max_length matches Some(l)
            ==> s.len() <= l),
        s.len() % 2 == 0,
        forall|k: int| 0 <= k < s.len() / 2 ==> !#[trigger] nul_character(s, k),
        0 <= byte_pos,
        byte_pos + s.len() + 2 <= p.len(),
        8 * p.len() <= usize::MAX,
        forall|j: int| 0 <= j < s.len() ==> #[trigger] p[byte_pos + j] == s[j],
        p[byte_pos + s.len()] == 0,
        p[byte_pos + s.len() + 1] == 0,
    ensures
        decoded(t, p, byte_pos, 0) == Ok::<(Seq<u8>, int), ErrorKind>((s, 8 * (s.len() as int))),
{
    let m = t.variant()->MinMaxLength_0;
    let n = s.len() as int;
    let target = byte_pos + n;
    let max_end = match m.max_length {
        Some(l) => if sat_add(byte_pos, l as int) < p.len() {
            sat_add(byte_pos, l as int)
        } else {
            p.len() as int
        },
        None => p.len() as int,
    };
    assert(target <= max_end);
    assert forall|q: int|
        byte_pos <= q < target && (q - byte_pos) % 2 == 0 implies !#[trigger] terminator_at(
        p,
        byte_pos,
        q,
        m.min_length as int,
        0,
        true,
    ) by {
        let k = (q - byte_pos) / 2;
        assert(q - byte_pos == 2 * k);
        assert(!nul_character(s, k));
        assert(p[byte_pos + 2 * k] == s[2 * k]);
        assert(p[byte_pos + (2 * k + 1)] == s[2 * k + 1]);
    }
    assert(sat_sub(target, byte_pos) >= m.min_length);
    assert(terminator_at(p, byte_pos, target, m.min_length as int, 0, true));
    lemma_wide_scan_finds(p, byte_pos, byte_pos, max_end, m.min_length as int, 0, target);
    assert(crate::coding::sat_mul(sat_sub(target, byte_pos), 8) == 8 * n);
    assert(min_max_layout(t.base(), m, p, byte_pos) == Ok::<Layout, ErrorKind>(
        (8 * n, byte_pos, None),
    ));
    assert(field_layout(t, p, byte_pos, 0) == Ok::<Layout, ErrorKind>((8 * n, byte_pos, None)));
    if n > 0 {
        assert(bytes_for_bits(8 * n) == n);
        assert forall|j: int| 0 <= j < n implies p.subrange(byte_pos, byte_pos + n)[j] == s[j] by {
            assert(p[byte_pos + j] == s[j]);
        }
        assert(p.subrange(byte_pos, byte_pos + n) =~= s);
        lemma_extract_whole(s);
    } else {
        assert(s =~= Seq::<u8>::empty());
    }
}

/// A `Unicode2String` value in low-high byte order is written with the two bytes of each
/// character swapped: encoding `input` (whole characters) with a plain standard length field
/// where the payload's bytes are zero or beyond its end puts `input[2k + 1]`, `input[2k]` at
/// the position of character `k`; and decoding the written bytes gives `input` back.
#[verifier::spinoff_prover]
#[verifier::rlimit(40)]
pub proof fn law_unicode_low_high_swaps_character_bytes(
    t: &DiagCodedType,
    input: Seq<u8>,
    payload: Seq<u8>,
    byte_pos: int,
)
    requires
        t.base() == DataType::Unicode2String,
        !t.high_low(),
        input.len() > 0,
        plain_standard_for(t, input.len()),
        0 <= byte_pos,
        window_zero(payload, byte_pos, input.len() as int),
        bit_offsets_fit(byte_pos, input.len() as int),
    ensures
        encoded(t, input, payload, byte_pos, 0).1 is Ok,
        input.len() % 2 == 0,
        forall|k: int|
            0 <= k < input.len() / 2 ==> #[trigger] encoded(t, input, payload, byte_pos, 0).0[byte_pos
                + 2 * k] == input[2 * k + 1] && encoded(t, input, payload, byte_pos, 0).0[byte_pos
                + 2 * k + 1] == input[2 * k],
        decoded(t, encoded(t, input, payload, byte_pos, 0).0, byte_pos, 0) == Ok::<
            (Seq<u8>, int),
            ErrorKind,
        >((input, 8 * (input.len() as int))),
{
    law_standard_length_roundtrip(t, input, payload, byte_pos);
    let o = t.spec_order();
    assert(o == ByteOrder::ReorderPairs);
    lemma_placed_window(payload, byte_pos, o, input);
    let out = placed(payload, byte_pos, o, input);
    let n = input.len() as int;
    assert(bit_len_valid(DataType::Unicode2String, 8 * n));
    lemma_pairs_swapped(input, out, byte_pos);
}

/// Bytes that hold `input` swapped in pairs from `byte_pos` hold each character's bytes
/// swapped.
proof fn lemma_pairs_swapped(input: Seq<u8>, out: Seq<u8>, byte_pos: int)
    requires
        (8 * input.len()) % 16 == 0,
        0 <= byte_pos,
        out.len() >= byte_pos + input.len(),
        out.subrange(byte_pos, byte_pos + input.len()) == normalized(input, ByteOrder::ReorderPairs),
    ensures
        input.len() % 2 == 0,
        forall|k: int|
            0 <= k < input.len() / 2 ==> #[trigger] out[byte_pos + 2 * k] == input[2 * k + 1]
                && out[byte_pos + 2 * k + 1] == input[2 * k],
{
    let n = input.len() as int;
    assert(n % 2 == 0) by (nonlinear_arith)
        requires
            (8 * n) % 16 == 0,
    ;
    assert forall|k: int| 0 <= k < n / 2 implies #[trigger] out[byte_pos + 2 * k] == input[2 * k
        + 1] && out[byte_pos + 2 * k + 1] == input[2 * k] by {
        let w = out.subrange(byte_pos, byte_pos + n);
        assert(w[2 * k] == out[byte_pos + 2 * k]);
        assert(w[2 * k + 1] == out[byte_pos + 2 * k + 1]);
        assert((2 * k) % 2 == 0);
        assert((2 * k + 1) % 2 == 1);
    }
}

/// Byte fields and one-byte strings ignore the low-high byte order: encoding `input` with a
/// plain standard length field where the payload's bytes are zero or beyond its end puts the
/// bytes of `input` in their own order.
#[verifier::spinoff_prover]
#[verifier::rlimit(40)]
pub proof fn law_byte_strings_keep_byte_order(
    t: &DiagCodedType,
    input: Seq<u8>,
    payload: Seq<u8>,
    byte_pos: int,
)
    requires
        t.base() == DataType::ByteField || t.base() == DataType::AsciiString || t.base()
            == DataType::Utf8String,
        input.len() > 0,
        plain_standard_for(t, input.len()),
        0 <= byte_pos,
        window_zero(payload, byte_pos, input.len() as int),
        bit_offsets_fit(byte_pos, input.len() as int),
    ensures
        encoded(t, input, payload, byte_pos, 0).1 is Ok,
        forall|k: int|
            0 <= k < input.len() ==> #[trigger] encoded(t, input, payload, byte_pos, 0).0[byte_pos
                + k] == input[k],
{
    law_standard_length_roundtrip(t, input, payload, byte_pos);
    let o = t.spec_order();
    assert(o == ByteOrder::Keep);
    lemma_placed_window(payload, byte_pos, o, input);
    let out = placed(payload, byte_pos, o, input);
    assert forall|k: int| 0 <= k < input.len() implies #[trigger] out[byte_pos + k] == input[k] by {
        assert(out.subrange(byte_pos, byte_pos + input.len())[k] == out[byte_pos + k]);
    }
}

} // verus!
