//! Coded types of diagnostic parameters: how a value is laid out in a UDS PDU
//! (ISO 22901-1, 7.3.6) and how it is decoded from and encoded into the PDU.
use vstd::prelude::*;
use crate::bits::{bytes_for_bits, byte_count_for_bits};
use crate::coding::{
    mul8_sat, sat_add, sat_mul, sat_sub, ByteOrder, DataAlignment, Mask, normalized, unpacked,
    packed, masked_bits, injected_bits, mask_view, aligned_copy, unpack_data, pack_data, normalize_byte_order,
    apply_bit_mask, inject_bits,
};
use crate::bits::{bit_pos_range_error, extract_bits_error};
use crate::error::{decimal, is_kind, push_decimal, push_text, text, DiagServiceError, ErrorKind};
use vstd::slice::slice_to_vec;

verus! {

/// Bit length of a coded value.
pub type BitLength = u32;

/// Base data types of coded values.
#[derive(Clone, Copy, Debug, PartialEq, Eq, Structural)]
pub enum DataType {
    Int32,
    UInt32,
    Float32,
    AsciiString,
    Utf8String,
    Unicode2String,
    ByteField,
    Float64,
}

/// The name of a data type.
pub open spec fn data_type_name(dt: DataType) -> Seq<char> {
    match dt {
        DataType::Int32 => "Int32"@,
        DataType::UInt32 => "UInt32"@,
        DataType::Float32 => "Float32"@,
        DataType::AsciiString => "AsciiString"@,
        DataType::Utf8String => "Utf8String"@,
        DataType::Unicode2String => "Unicode2String"@,
        DataType::ByteField => "ByteField"@,
        DataType::Float64 => "Float64"@,
    }
}

impl DataType {
    /// The name of the data type.
    pub fn name(&self) -> (r: &'static str)
        ensures
            r@ == data_type_name(*self),
    {
        match self {
            DataType::Int32 => "Int32",
            DataType::UInt32 => "UInt32",
            DataType::Float32 => "Float32",
            DataType::AsciiString => "AsciiString",
            DataType::Utf8String => "Utf8String",
            DataType::Unicode2String => "Unicode2String",
            DataType::ByteField => "ByteField",
            DataType::Float64 => "Float64",
        }
    }
}

/// The byte-sequential types: byte fields and strings.
pub open spec fn is_byte_type(dt: DataType) -> bool {
    dt == DataType::ByteField || dt == DataType::AsciiString || dt == DataType::Utf8String || dt
        == DataType::Unicode2String
}

/// Whether `bit_len` bits can hold a value of type `dt`.
pub open spec fn bit_len_valid(dt: DataType, bit_len: int) -> bool {
    &&& bit_len != 0
    &&& !((dt == DataType::Int32 || dt == DataType::UInt32) && bit_len > 64)
    &&& !(dt == DataType::Float32 && bit_len != 32)
    &&& !(dt == DataType::Float64 && bit_len != 64)
    &&& !(dt == DataType::Unicode2String && bit_len % 16 != 0)
}

impl DataType {
    fn is_byte_sequential(self) -> (r: bool)
        ensures
            r == is_byte_type(self),
    {
        match self {
            DataType::ByteField | DataType::AsciiString | DataType::Utf8String
            | DataType::Unicode2String => true,
            _ => false,
        }
    }

    /// Checks that `bit_len` bits can hold a value of this type: never 0 bits, at most 64 for
    /// integers, exactly 32 or 64 for floats and a multiple of 16 for `Unicode2String`; the
    /// error names the rule, the type and the length.
    pub fn validate_bit_len(self, bit_len: BitLength) -> (r: Result<(), DiagServiceError>)
        ensures
            r is Ok <==> bit_len_valid(self, bit_len as int),
            match bit_len_error(self, bit_len) {
                None => r is Ok,
                Some(m) => r matches Err(DiagServiceError::BadPayload(e)) && e@ == m,
            },
    {
        let rule = if bit_len == 0 {
            return Err(DiagServiceError::BadPayload(text("Cannot extract data with length 0")));
        } else if (self == DataType::Int32 || self == DataType::UInt32) && bit_len > 64 {
            "Length must be at most 64 bit for "
        } else if self == DataType::Float32 && bit_len != 32 {
            "Length must be exactly 32 bit for "
        } else if self == DataType::Float64 && bit_len != 64 {
            "Length must be exactly 64 bit for "
        } else if self == DataType::Unicode2String && bit_len % 16 != 0 {
            "Length must be a multiple of 16 bit for "
        } else {
            return Ok(());
        };
        let mut m = text(rule);
        push_text(&mut m, self.name());
        push_text(&mut m, ", got ");
        push_decimal(&mut m, bit_len as u64);
        push_text(&mut m, " bit");
        Err(DiagServiceError::BadPayload(m))
    }
}

/// The message of a length rule broken by `bit_len` bits of type `dt`.
pub open spec fn length_rule_message(rule: Seq<char>, dt: DataType, bit_len: BitLength) -> Seq<char> {
    rule + data_type_name(dt) + ", got "@ + decimal(bit_len as nat) + " bit"@
}

/// The error message when `bit_len` bits cannot hold a value of type `dt`, if they cannot.
pub open spec fn bit_len_error(dt: DataType, bit_len: BitLength) -> Option<Seq<char>> {
    if bit_len == 0 {
        Some("Cannot extract data with length 0"@)
    } else if (dt == DataType::Int32 || dt == DataType::UInt32) && bit_len > 64 {
        Some(length_rule_message("Length must be at most 64 bit for "@, dt, bit_len))
    } else if dt == DataType::Float32 && bit_len != 32 {
        Some(length_rule_message("Length must be exactly 32 bit for "@, dt, bit_len))
    } else if dt == DataType::Float64 && bit_len != 64 {
        Some(length_rule_message("Length must be exactly 64 bit for "@, dt, bit_len))
    } else if dt == DataType::Unicode2String && bit_len % 16 != 0 {
        Some(length_rule_message("Length must be a multiple of 16 bit for "@, dt, bit_len))
    } else {
        None
    }
}

/// Termination of a field with a minimum and maximum length.
#[derive(Clone, Copy, Debug, PartialEq, Eq, Structural)]
pub enum Termination {
    EndOfPdu,
    Zero,
    HexFF,
}

/// A field of `min_length ..= max_length` bytes ended by a termination.
#[derive(Clone, Debug, PartialEq, Eq)]
pub struct MinMaxLengthType {
    pub min_length: u32,
    pub max_length: Option<u32>,
    pub termination: Termination,
}

/// The message of a maximum length below the minimum length.
pub open spec fn max_below_min_message(max_length: u32, min_length: u32) -> Seq<char> {
    "MinMaxLengthType max_length "@ + decimal(max_length as nat) + " cannot be less than min_length "@
        + decimal(min_length as nat)
}

/// The message for a maximum length that is 0 or below the minimum length, if it is.
pub open spec fn min_max_error(min_length: u32, max_length: Option<u32>) -> Option<Seq<char>> {
    match max_length {
        Some(0) => Some("MinMaxLengthType max_length cannot be 0"@),
        Some(m) => if m < min_length {
            Some(max_below_min_message(m, min_length))
        } else {
            None
        },
        None => None,
    }
}

impl MinMaxLengthType {
    /// Creates a new `MinMaxLengthType`; fails when `max_length` is `Some(0)` or below
    /// `min_length`.
    pub fn new(min_length: u32, max_length: Option<u32>, termination: Termination) -> (r: Result<
        Self,
        DiagServiceError,
    >)
        ensures
            r is Ok <==> (max_length matches Some(m) ==> m != 0 && m >= min_length),
            r matches Ok(t) ==> t == (MinMaxLengthType { min_length, max_length, termination }),
            match min_max_error(min_length, max_length) {
                Some(m) => r matches Err(DiagServiceError::BadPayload(msg)) && msg@ == m,
                None => r is Ok,
            },
    {
        if let Some(max) = max_length {
            if max == 0 {
                return Err(
                    DiagServiceError::BadPayload(text("MinMaxLengthType max_length cannot be 0")),
                );
            }
            if max < min_length {
                let mut msg = text("MinMaxLengthType max_length ");
                push_decimal(&mut msg, max as u64);
                push_text(&mut msg, " cannot be less than min_length ");
                push_decimal(&mut msg, min_length as u64);
                return Err(DiagServiceError::BadPayload(msg));
            }
        }
        Ok(MinMaxLengthType { min_length, max_length, termination })
    }

    pub fn min_length(&self) -> (r: u32)
        ensures
            r == self.min_length,
    {
        self.min_length
    }

    pub fn max_length(&self) -> (r: Option<u32>)
        ensures
            r == self.max_length,
    {
        self.max_length
    }

    pub fn termination(&self) -> (r: &Termination)
        ensures
            *r == self.termination,
    {
        &self.termination
    }
}

/// A field of a fixed bit length, optionally masked.
#[derive(Clone, Debug, PartialEq, Eq)]
pub struct StandardLengthType {
    pub bit_length: BitLength,
    pub bit_mask: Option<Vec<u8>>,
    pub condensed: bool,
}

/// The length rule of a coded type.
#[derive(Clone, Debug, PartialEq, Eq)]
pub enum DiagCodedTypeVariant {
    LeadingLengthInfo(BitLength),
    MinMaxLength(MinMaxLengthType),
    StandardLength(StandardLengthType),
    /// Variable-length field whose byte count comes at run time from a previously decoded
    /// `LENGTH-KEY` parameter, named by its `SHORT-NAME`.
    ParamLengthInfo(String),
}

/// Whether a coded type with base `dt` and length rule `v` is well formed.
pub open spec fn coded_type_valid(dt: DataType, v: DiagCodedTypeVariant) -> bool {
    match v {
        DiagCodedTypeVariant::LeadingLengthInfo(_) => is_byte_type(dt),
        DiagCodedTypeVariant::MinMaxLength(m) => is_byte_type(dt) && (dt == DataType::Unicode2String
            ==> m.min_length % 2 == 0 && (m.max_length matches Some(l) && l % 2 == 0)),
        _ => true,
    }
}

/// How a value is coded in a PDU: base type, length rule and byte order.
#[derive(Debug)]
pub struct DiagCodedType {
    base_datatype: DataType,
    type_: DiagCodedTypeVariant,
    /// High-low (big endian, the default) or low-high (little endian) byte order.
    is_high_low_byte_order: bool,
}

/// Byte order of the coded value in the PDU.
pub open spec fn order_for(dt: DataType, high_low: bool) -> ByteOrder {
    if high_low {
        ByteOrder::Keep
    } else if dt == DataType::Unicode2String {
        ByteOrder::ReorderPairs
    } else if is_byte_type(dt) {
        ByteOrder::Keep
    } else {
        ByteOrder::Reverse
    }
}

impl DiagCodedType {
    pub closed spec fn base(&self) -> DataType {
        self.base_datatype
    }

    pub closed spec fn variant(&self) -> DiagCodedTypeVariant {
        self.type_
    }

    pub closed spec fn high_low(&self) -> bool {
        self.is_high_low_byte_order
    }

    /// The well-formedness that `new` establishes.
    pub open spec fn wf(&self) -> bool {
        coded_type_valid(self.base(), self.variant())
    }

    /// Byte order of this coded type in the PDU.
    pub open spec fn spec_order(&self) -> ByteOrder {
        order_for(self.base(), self.high_low())
    }

    /// Creates a coded type with high-low byte order.
    pub fn new_high_low_byte_order(base_datatype: DataType, type_: DiagCodedTypeVariant) -> (r:
        Result<Self, DiagServiceError>)
        ensures
            r is Ok <==> coded_type_valid(base_datatype, type_),
            r matches Ok(t) ==> t.base() == base_datatype && t.variant() == type_ && t.high_low(),
            r matches Err(e) ==> {
                &&& !is_byte_type(base_datatype) ==> (e matches DiagServiceError::InvalidDatabase(m)
                    && m@ == "LeadingLengthInfo and MinMaxLength are only allowed for ByteField, AsciiString, Unicode2String, and Utf8String, got "@
                    + data_type_name(base_datatype))
                &&& is_byte_type(base_datatype) ==> (e matches DiagServiceError::BadPayload(m) && m@
                    == "DataType "@ + data_type_name(base_datatype)
                    + " needs an even amount of min/max bytes"@)
            },
    {
        Self::new(base_datatype, type_, true)
    }

    /// Creates a coded type; leading length and min/max length fields are only allowed for
    /// byte fields and strings, and a `Unicode2String` min/max field needs even lengths.
    pub fn new(
        base_datatype: DataType,
        type_: DiagCodedTypeVariant,
        is_high_low_byte_order: bool,
    ) -> (r: Result<Self, DiagServiceError>)
        ensures
            r is Ok <==> coded_type_valid(base_datatype, type_),
            r matches Ok(t) ==> t.base() == base_datatype && t.variant() == type_ && t.high_low()
                == is_high_low_byte_order,
            r matches Err(e) ==> {
                &&& !is_byte_type(base_datatype) ==> (e matches DiagServiceError::InvalidDatabase(m)
                    && m@ == "LeadingLengthInfo and MinMaxLength are only allowed for ByteField, AsciiString, Unicode2String, and Utf8String, got "@
                    + data_type_name(base_datatype))
                &&& is_byte_type(base_datatype) ==> (e matches DiagServiceError::BadPayload(m) && m@
                    == "DataType "@ + data_type_name(base_datatype)
                    + " needs an even amount of min/max bytes"@)
            },
    {
        match &type_ {
            DiagCodedTypeVariant::LeadingLengthInfo(_) | DiagCodedTypeVariant::MinMaxLength(_) => {
                if !base_datatype.is_byte_sequential() {
                    let mut m = text(
                        "LeadingLengthInfo and MinMaxLength are only allowed for ByteField, AsciiString, Unicode2String, and Utf8String, got ",
                    );
                    push_text(&mut m, base_datatype.name());
                    return Err(DiagServiceError::InvalidDatabase(m));
                }
                if let DiagCodedTypeVariant::MinMaxLength(mmlt) = &type_ {
                    if base_datatype == DataType::Unicode2String {
                        let max_even = match mmlt.max_length {
                            Some(l) => l % 2 == 0,
                            None => false,
                        };
                        if mmlt.min_length % 2 != 0 || !max_even {
                            let mut m = text("DataType ");
                            push_text(&mut m, base_datatype.name());
                            push_text(&mut m, " needs an even amount of min/max bytes");
                            return Err(DiagServiceError::BadPayload(m));
                        }
                    }
                }
            },
            _ => {},
        }
        Ok(DiagCodedType { base_datatype, type_, is_high_low_byte_order })
    }

    pub fn base_datatype(&self) -> (r: DataType)
        ensures
            r == self.base(),
    {
        self.base_datatype
    }

    pub fn type_(&self) -> (r: &DiagCodedTypeVariant)
        ensures
            *r == self.variant(),
    {
        &self.type_
    }

    /// Fixed bit length of the length rule: the length field of a leading length field or the
    /// length of a standard length field.
    pub fn bit_len(&self) -> (r: Option<BitLength>)
        ensures
            r == match self.variant() {
                DiagCodedTypeVariant::LeadingLengthInfo(b) => Some(b),
                DiagCodedTypeVariant::StandardLength(s) => Some(s.bit_length),
                _ => None::<u32>,
            },
    {
        match &self.type_ {
            DiagCodedTypeVariant::LeadingLengthInfo(bit_len) => Some(*bit_len),
            DiagCodedTypeVariant::MinMaxLength(_) => None,
            DiagCodedTypeVariant::StandardLength(standard_length) => Some(standard_length.bit_length),
            DiagCodedTypeVariant::ParamLengthInfo(_) => None,
        }
    }

    /// Name of the length key parameter of a `ParamLengthInfo` field.
    pub fn length_key_name(&self) -> (r: Option<&str>)
        ensures
            match self.variant() {
                DiagCodedTypeVariant::ParamLengthInfo(name) => r matches Some(n) && n@ == name@,
                _ => r is None,
            },
    {
        match &self.type_ {
            DiagCodedTypeVariant::ParamLengthInfo(name) => Some(name.as_str()),
            _ => None,
        }
    }

    /// Extracts `byte_count` bytes at `byte_pos` of `uds_payload` for a field whose length
    /// comes from a length key; returns them with their bit count.
    #[verifier::spinoff_prover]
    pub fn decode_with_runtime_byte_length(
        &self,
        uds_payload: &[u8],
        byte_pos: usize,
        byte_count: usize,
    ) -> (r: Result<(Vec<u8>, usize), DiagServiceError>)
        ensures
            match runtime_decoded(uds_payload@, byte_pos as int, byte_count as int) {
                Ok((v, n)) => r matches Ok((rv, rn)) && rv@ == v && rn == n,
                Err(k) => r matches Err(e) && is_kind(e, k),
            },
    {
        if byte_count == 0 {
            return Ok((Vec::new(), 0));
        }
        let end_pos = byte_pos.saturating_add(byte_count);
        if uds_payload.len() < end_pos {
            return Err(
                DiagServiceError::NotEnoughData { expected: end_pos, actual: uds_payload.len() },
            );
        }
        let data = slice_to_vec(&uds_payload[byte_pos..end_pos]);
        Ok((data, mul8_sat(byte_count)))
    }

    /// Checks the bit position: byte fields and strings must start at bit 0.
    pub fn validate_bit_pos(&self, bit_pos: usize) -> (r: Result<(), DiagServiceError>)
        ensures
            r is Ok <==> !(is_byte_type(self.base()) && bit_pos != 0),
            r matches Err(e) ==> e matches DiagServiceError::BadPayload(m) && m@ == bit_pos_message(
                self.base(),
                bit_pos as int,
            ),
    {
        if self.base_datatype.is_byte_sequential() && bit_pos != 0 {
            let mut m = text("Bit position must be 0 for ");
            push_text(&mut m, self.base_datatype.name());
            push_text(&mut m, ", got ");
            push_decimal(&mut m, bit_pos as u64);
            return Err(DiagServiceError::BadPayload(m));
        }
        Ok(())
    }

    /// Byte order of the coded value: kept for high-low order and for byte fields and
    /// strings, swapped in pairs for `Unicode2String`, reversed otherwise.
    pub fn byte_order(&self) -> (r: ByteOrder)
        ensures
            r == self.spec_order(),
    {
        if self.is_high_low_byte_order {
            ByteOrder::Keep
        } else {
            match self.base_datatype {
                DataType::Unicode2String => ByteOrder::ReorderPairs,
                DataType::ByteField | DataType::AsciiString | DataType::Utf8String => ByteOrder::Keep,
                _ => ByteOrder::Reverse,
            }
        }
    }
}

/// The message of a bit position other than 0 for a byte field or string of type `dt`.
pub open spec fn bit_pos_message(dt: DataType, bit_pos: int) -> Seq<char> {
    "Bit position must be 0 for "@ + data_type_name(dt) + ", got "@ + decimal(bit_pos as nat)
}

/// Result of reading `byte_count` bytes at `byte_pos` of `p` for a field whose length comes
/// from a length key: the bytes and their bit count (nothing for no bytes), or not enough
/// data when the payload ends before them.
pub open spec fn runtime_decoded(p: Seq<u8>, byte_pos: int, byte_count: int) -> Result<
    (Seq<u8>, int),
    ErrorKind,
> {
    let end = sat_add(byte_pos, byte_count);
    if byte_count == 0 {
        Ok((Seq::empty(), 0))
    } else if p.len() < end {
        Err(ErrorKind::NotEnoughData { expected: end as usize, actual: p.len() as usize })
    } else {
        Ok((p.subrange(byte_pos, end), sat_mul(byte_count, 8)))
    }
}

/// Big-endian value of a byte sequence.
pub open spec fn be_value(s: Seq<u8>) -> nat
    decreases s.len(),
{
    if s.len() == 0 {
        0
    } else {
        be_value(s.drop_last()) * 256 + s.last() as nat
    }
}

/// `256^n`.
pub open spec fn pow256(n: nat) -> nat
    decreases n,
{
    if n == 0 {
        1
    } else {
        256 * pow256((n - 1) as nat)
    }
}

proof fn lemma_be_value_bound(s: Seq<u8>)
    ensures
        be_value(s) < pow256(s.len()),
    decreases s.len(),
{
    if s.len() > 0 {
        lemma_be_value_bound(s.drop_last());
    }
}

/// A field layout: its bit length, its first byte and its mask.
pub type Layout = (int, int, Option<(Seq<u8>, bool)>);

/// The plain view of a computed layout.
pub open spec fn layout_view(l: (usize, usize, Option<Mask>)) -> Layout {
    (
        l.0 as int,
        l.1 as int,
        match l.2 {
            Some(m) => Some((m.data@, m.condensed)),
            None => None,
        },
    )
}

/// Layout of a standard length field at `byte_pos`.
pub open spec fn standard_layout(dt: DataType, slt: StandardLengthType, byte_pos: int) -> Result<
    Layout,
    ErrorKind,
> {
    if !bit_len_valid(dt, slt.bit_length as int) {
        Err(ErrorKind::BadPayload(bit_len_error(dt, slt.bit_length)->Some_0))
    } else {
        Ok(
            (
                slt.bit_length as int,
                byte_pos,
                match slt.bit_mask {
                    Some(m) => Some((m@, slt.condensed)),
                    None => None,
                },
            ),
        )
    }
}

/// Whether a terminator ends the field at `pos`: the field is long enough and the
/// terminator byte (twice for two-byte characters) is at `pos`.
pub open spec fn terminator_at(
    p: Seq<u8>,
    start: int,
    pos: int,
    min_len: int,
    term: u8,
    wide: bool,
) -> bool {
    &&& sat_sub(pos, start) >= min_len
    &&& if wide {
        pos + 1 < p.len() && p[pos] == term && p[pos + 1] == term
    } else {
        pos < p.len() && p[pos] == term
    }
}

/// End of a terminated field: the first character position from `pos` on, before `max_end`,
/// that holds a terminator, else the first position at or after `max_end`.
pub open spec fn scan_end(
    p: Seq<u8>,
    start: int,
    pos: int,
    max_end: int,
    min_len: int,
    term: u8,
    wide: bool,
) -> int
    decreases (if pos < max_end && pos < usize::MAX {
        max_end - pos
    } else {
        0
    }),
{
    if pos >= max_end || pos >= usize::MAX || terminator_at(p, start, pos, min_len, term, wide) {
        pos
    } else {
        let step: int = if wide {
            2
        } else {
            1
        };
        scan_end(p, start, sat_add(pos, step), max_end, min_len, term, wide)
    }
}

/// Layout of a min/max length field at `byte_pos` of `p`.
pub open spec fn min_max_layout(dt: DataType, m: MinMaxLengthType, p: Seq<u8>, byte_pos: int) -> Result<
    Layout,
    ErrorKind,
> {
    let max_end = match m.max_length {
        Some(l) => if sat_add(byte_pos, l as int) < p.len() {
            sat_add(byte_pos, l as int)
        } else {
            p.len() as int
        },
        None => p.len() as int,
    };
    let wide = dt == DataType::Unicode2String;
    let end = match m.termination {
        Termination::EndOfPdu => max_end,
        Termination::Zero => scan_end(p, byte_pos, byte_pos, max_end, m.min_length as int, 0, wide),
        Termination::HexFF => scan_end(p, byte_pos, byte_pos, max_end, m.min_length as int, 0xFF, wide),
    };
    if m.termination == Termination::Zero && end > p.len() {
        Err(
            ErrorKind::BadPayload(
                "Not enough data in payload, needed "@ + decimal(end as nat) + " bytes, got "@
                    + decimal(p.len()) + " bytes"@,
            ),
        )
    } else if sat_sub(end, byte_pos) < m.min_length {
        Err(
            ErrorKind::BadPayload(
                "Not enough data in payload, needed at least "@ + decimal(m.min_length as nat)
                    + " bytes, got "@ + decimal(sat_sub(end, byte_pos) as nat) + " bytes"@,
            ),
        )
    } else {
        Ok((sat_mul(sat_sub(end, byte_pos), 8), byte_pos, None))
    }
}

/// Layout of a field with a leading length of `bits` bits at `byte_pos`, `bit_pos` of `p`:
/// the data follows the length bytes.
pub open spec fn leading_layout(
    dt: DataType,
    bits: u32,
    p: Seq<u8>,
    byte_pos: int,
    bit_pos: int,
    order: ByteOrder,
) -> Result<Layout, ErrorKind> {
    if !bit_len_valid(dt, bits as int) {
        Err(ErrorKind::BadPayload(bit_len_error(dt, bits)->Some_0))
    } else {
        let len_end = sat_add(byte_pos, bytes_for_bits(bits as int));
        if len_end > p.len() {
            Err(ErrorKind::BadPayload("Payload slice for leading length out of bounds"@))
        } else {
            match unpacked(bits as int, bit_pos, None, p.subrange(byte_pos, len_end), order) {
                None => Err(
                    ErrorKind::BadPayload(
                        extract_bits_error(bits as usize, bit_pos as usize, len_end - byte_pos)->Some_0,
                    ),
                ),
                Some((lb, _)) => if !(1 <= lb.len() <= 8) {
                    Err(ErrorKind::BadPayload("unsupported leading length size"@))
                } else if be_value(lb) > usize::MAX {
                    Err(ErrorKind::BadPayload("Leading length info exceeds usize capacity"@))
                } else {
                    let start = sat_add(byte_pos, lb.len() as int);
                    let end = sat_add(start, be_value(lb) as int);
                    if end > p.len() {
                        Err(
                            ErrorKind::NotEnoughData {
                                expected: end as usize,
                                actual: p.len() as usize,
                            },
                        )
                    } else {
                        Ok((sat_mul(end - start, 8), start, None))
                    }
                },
            }
        }
    }
}

/// Result of decoding a value of coded type `t` at `byte_pos`, `bit_pos` of `p`: the data
/// and its bit length.
pub open spec fn decoded(t: &DiagCodedType, p: Seq<u8>, byte_pos: int, bit_pos: int) -> Result<
    (Seq<u8>, int),
    ErrorKind,
> {
    if is_byte_type(t.base()) && bit_pos != 0 {
        Err(ErrorKind::BadPayload(bit_pos_message(t.base(), bit_pos)))
    } else {
        match field_layout(t, p, byte_pos, bit_pos) {
            Err(k) => Err(k),
            Ok((bit_len, start, mask)) => if bit_len == 0 {
                Ok((Seq::empty(), 0))
            } else {
                let end = sat_add(start, bytes_for_bits(bit_len));
                if p.len() < end {
                    Err(ErrorKind::NotEnoughData { expected: end as usize, actual: p.len() as usize })
                } else {
                    match unpacked(bit_len, bit_pos, mask, p.subrange(start, end), t.spec_order()) {
                        None => Err(
                            ErrorKind::BadPayload(
                                extract_bits_error(bit_len as usize, bit_pos as usize, end - start)->Some_0,
                            ),
                        ),
                        Some(x) => Ok(x),
                    }
                }
            },
        }
    }
}

/// Layout of the field of coded type `t` at `byte_pos`, `bit_pos` of `p`.
pub open spec fn field_layout(t: &DiagCodedType, p: Seq<u8>, byte_pos: int, bit_pos: int) -> Result<
    Layout,
    ErrorKind,
> {
    match t.variant() {
            DiagCodedTypeVariant::LeadingLengthInfo(bits) => leading_layout(
                t.base(),
                bits,
                p,
                byte_pos,
                bit_pos,
                t.spec_order(),
            ),
            DiagCodedTypeVariant::MinMaxLength(m) => min_max_layout(t.base(), m, p, byte_pos),
            DiagCodedTypeVariant::StandardLength(slt) => standard_layout(t.base(), slt, byte_pos),
            DiagCodedTypeVariant::ParamLengthInfo(key) => Err(
                ErrorKind::InvalidDatabase(
                    "ParamLengthInfo '"@ + key@
                        + "' requires a runtime-resolved byte length; call decode_with_runtime_byte_length instead"@,
                ),
            ),
    }
}

/// Copies a mask from its bytes.
fn make_mask(data: &Vec<u8>, condensed: bool) -> (m: Mask)
    ensures
        m.data@ == data@,
        m.condensed == condensed,
{
    Mask { data: slice_to_vec(data.as_slice()), condensed }
}

impl DiagCodedType {
    /// Big-endian value of 1 to 8 length bytes; fails for other sizes and for values that do
    /// not fit a `usize`.
    pub fn usize_from_bytes(length_info_bytes: &[u8]) -> (r: Result<usize, DiagServiceError>)
        ensures
            r is Ok <==> 1 <= length_info_bytes@.len() <= 8 && be_value(length_info_bytes@)
                <= usize::MAX,
            r matches Ok(v) ==> v == be_value(length_info_bytes@),
            !(1 <= length_info_bytes@.len() <= 8) ==> (r matches Err(DiagServiceError::BadPayload(m))
                && m@ == "unsupported leading length size"@),
            1 <= length_info_bytes@.len() <= 8 && be_value(length_info_bytes@) > usize::MAX ==> (
            r matches Err(DiagServiceError::BadPayload(m)) && m@
                == "Leading length info exceeds usize capacity"@),
    {
        let n = length_info_bytes.len();
        if n == 0 || n > 8 {
            return Err(DiagServiceError::BadPayload(text("unsupported leading length size")));
        }
        let mut v: u64 = 0;
        let mut i: usize = 0;
        while i < n
            invariant
                n == length_info_bytes@.len(),
                1 <= n <= 8,
                i <= n,
                v == be_value(length_info_bytes@.subrange(0, i as int)),
                v < pow256(i as nat),
            decreases n - i,
        {
            proof {
                let t = length_info_bytes@.subrange(0, i + 1);
                assert(t.drop_last() =~= length_info_bytes@.subrange(0, i as int));
                assert(pow256(i as nat) <= pow256(7)) by {
                    lemma_pow256_mono(i as nat, 7);
                }
                assert(pow256(7) == 72057594037927936) by {
                    reveal_with_fuel(pow256, 8);
                }
            }
            v = v * 256 + length_info_bytes[i] as u64;
            i = i + 1;
        }
        proof {
            assert(length_info_bytes@.subrange(0, n as int) =~= length_info_bytes@);
        }
        if v > usize::MAX as u64 {
            return Err(
                DiagServiceError::BadPayload(text("Leading length info exceeds usize capacity")),
            );
        }
        Ok(v as usize)
    }

    fn pos_info_standard_len(&self, byte_pos: usize, slt: &StandardLengthType) -> (r: Result<
        (usize, usize, Option<Mask>),
        DiagServiceError,
    >)
        ensures
            match standard_layout(self.base(), *slt, byte_pos as int) {
                Ok(l) => r matches Ok(x) && layout_view(x) == l,
                Err(k) => r matches Err(e) && is_kind(e, k),
            },
    {
        match self.base_datatype.validate_bit_len(slt.bit_length) {
            Ok(()) => {},
            Err(e) => {
                return Err(e);
            },
        }
        let mask = match &slt.bit_mask {
            Some(m) => Some(make_mask(m, slt.condensed)),
            None => None,
        };
        Ok((slt.bit_length as usize, byte_pos, mask))
    }
}

proof fn lemma_pow256_mono(a: nat, b: nat)
    requires
        a <= b,
    ensures
        pow256(a) <= pow256(b),
    decreases b,
{
    if a < b {
        lemma_pow256_mono(a, (b - 1) as nat);
    }
}

impl DiagCodedType {
    fn scan_terminated(
        payload: &[u8],
        byte_pos: usize,
        max_end: usize,
        min_length: u32,
        term: u8,
        wide: bool,
    ) -> (r: usize)
        requires
            max_end <= payload@.len(),
        ensures
            r == scan_end(
                payload@,
                byte_pos as int,
                byte_pos as int,
                max_end as int,
                min_length as int,
                term,
                wide,
            ),
    {
        let mut end_pos = byte_pos;
        let len = payload.len();
        while end_pos < max_end
            invariant
                max_end <= len,
                len == payload@.len(),
                scan_end(
                    payload@,
                    byte_pos as int,
                    end_pos as int,
                    max_end as int,
                    min_length as int,
                    term,
                    wide,
                ) == scan_end(
                    payload@,
                    byte_pos as int,
                    byte_pos as int,
                    max_end as int,
                    min_length as int,
                    term,
                    wide,
                ),
            decreases (if end_pos < max_end {
                max_end - end_pos
            } else {
                0
            }),
        {
            let long_enough = end_pos.saturating_sub(byte_pos) >= min_length as usize;
            let found = if wide {
                long_enough && end_pos + 1 < len && payload[end_pos] == term && payload[end_pos + 1]
                    == term
            } else {
                long_enough && end_pos < len && payload[end_pos] == term
            };
            if found {
                return end_pos;
            }
            end_pos = if wide {
                end_pos.saturating_add(2)
            } else {
                end_pos.saturating_add(1)
            };
        }
        end_pos
    }

    #[verifier::spinoff_prover]
    fn pos_info_min_max_len(
        &self,
        uds_payload: &[u8],
        byte_pos: usize,
        mmlt: &MinMaxLengthType,
    ) -> (r: Result<(usize, usize, Option<Mask>), DiagServiceError>)
        ensures
            match min_max_layout(self.base(), *mmlt, uds_payload@, byte_pos as int) {
                Ok(l) => r matches Ok(x) && layout_view(x) == l,
                Err(k) => r matches Err(e) && is_kind(e, k),
            },
    {
        let len = uds_payload.len();
        let max_end = match mmlt.max_length {
            Some(max_length) => {
                let e = byte_pos.saturating_add(max_length as usize);
                if e < len {
                    e
                } else {
                    len
                }
            },
            None => len,
        };
        let wide = self.base_datatype == DataType::Unicode2String;
        let end_pos = match mmlt.termination {
            Termination::EndOfPdu => max_end,
            Termination::Zero => {
                let e = Self::scan_terminated(uds_payload, byte_pos, max_end, mmlt.min_length, 0, wide);
                if e > len {
                    let mut m = text("Not enough data in payload, needed ");
                    push_decimal(&mut m, e as u64);
                    push_text(&mut m, " bytes, got ");
                    push_decimal(&mut m, len as u64);
                    push_text(&mut m, " bytes");
                    return Err(DiagServiceError::BadPayload(m));
                }
                e
            },
            Termination::HexFF => Self::scan_terminated(
                uds_payload,
                byte_pos,
                max_end,
                mmlt.min_length,
                0xFF,
                wide,
            ),
        };
        let field_len = end_pos.saturating_sub(byte_pos);
        if field_len < mmlt.min_length as usize {
            let mut m = text("Not enough data in payload, needed at least ");
            push_decimal(&mut m, mmlt.min_length as u64);
            push_text(&mut m, " bytes, got ");
            push_decimal(&mut m, field_len as u64);
            push_text(&mut m, " bytes");
            return Err(DiagServiceError::BadPayload(m));
        }
        Ok((mul8_sat(field_len), byte_pos, None))
    }

    #[verifier::spinoff_prover]
    fn pos_info_leading_len(
        &self,
        uds_payload: &[u8],
        byte_pos: usize,
        bit_pos: usize,
        byte_order: ByteOrder,
        bits: BitLength,
    ) -> (r: Result<(usize, usize, Option<Mask>), DiagServiceError>)
        ensures
            match leading_layout(
                self.base(),
                bits,
                uds_payload@,
                byte_pos as int,
                bit_pos as int,
                byte_order,
            ) {
                Ok(l) => r matches Ok(x) && layout_view(x) == l,
                Err(k) => r matches Err(e) && is_kind(e, k),
            },
    {
        match self.base_datatype.validate_bit_len(bits) {
            Ok(()) => {},
            Err(e) => {
                return Err(e);
            },
        }
        let len_end = byte_pos.saturating_add(byte_count_for_bits(bits as usize));
        if len_end > uds_payload.len() {
            return Err(
                DiagServiceError::BadPayload(text("Payload slice for leading length out of bounds")),
            );
        }
        let (length_info_bytes, _len) = match unpack_data(
            bits as usize,
            bit_pos,
            None,
            &uds_payload[byte_pos..len_end],
            byte_order,
        ) {
            Ok(x) => x,
            Err(e) => {
                return Err(e);
            },
        };
        let len = match Self::usize_from_bytes(length_info_bytes.as_slice()) {
            Ok(l) => l,
            Err(e) => {
                return Err(e);
            },
        };
        let start_pos = byte_pos.saturating_add(length_info_bytes.len());
        let end_pos = start_pos.saturating_add(len);
        if end_pos > uds_payload.len() {
            return Err(
                DiagServiceError::NotEnoughData { expected: end_pos, actual: uds_payload.len() },
            );
        }
        Ok((mul8_sat(end_pos - start_pos), start_pos, None))
    }

    #[verifier::spinoff_prover]
    fn field_layout(&self, uds_payload: &[u8], byte_pos: usize, bit_pos: usize) -> (r: Result<
        (usize, usize, Option<Mask>),
        DiagServiceError,
    >)
        ensures
            match field_layout(self, uds_payload@, byte_pos as int, bit_pos as int) {
                Ok(l) => r matches Ok(x) && layout_view(x) == l,
                Err(k) => r matches Err(e) && is_kind(e, k),
            },
    {
        let byte_order = self.byte_order();
        match &self.type_ {
            DiagCodedTypeVariant::LeadingLengthInfo(bits) => self.pos_info_leading_len(
                uds_payload,
                byte_pos,
                bit_pos,
                byte_order,
                *bits,
            ),
            DiagCodedTypeVariant::MinMaxLength(mmlt) => self.pos_info_min_max_len(
                uds_payload,
                byte_pos,
                mmlt,
            ),
            DiagCodedTypeVariant::StandardLength(slt) => self.pos_info_standard_len(byte_pos, slt),
            DiagCodedTypeVariant::ParamLengthInfo(key_name) => {
                let mut m = text("ParamLengthInfo '");
                push_text(&mut m, key_name.as_str());
                push_text(
                    &mut m,
                    "' requires a runtime-resolved byte length; call decode_with_runtime_byte_length instead",
                );
                Err(DiagServiceError::InvalidDatabase(m))
            },
        }
    }

    /// Decodes a value from `uds_payload` at `byte_pos` (0 = most significant byte) and
    /// `bit_pos` (0 = least significant bit) according to this coded type (ISO 22901-1,
    /// 7.3.6.2). Returns the data and its bit length.
    #[verifier::spinoff_prover]
    pub fn decode(&self, uds_payload: &[u8], byte_pos: usize, bit_pos: usize) -> (r: Result<
        (Vec<u8>, usize),
        DiagServiceError,
    >)
        ensures
            match decoded(self, uds_payload@, byte_pos as int, bit_pos as int) {
                Ok((v, n)) => r matches Ok((rv, rn)) && rv@ == v && rn == n,
                Err(k) => r matches Err(e) && is_kind(e, k),
            },
    {
        match self.validate_bit_pos(bit_pos) {
            Ok(()) => {},
            Err(e) => {
                return Err(e);
            },
        }
        let byte_order = self.byte_order();
        let layout = self.field_layout(uds_payload, byte_pos, bit_pos);
        let (bit_len, start_pos, mask) = match layout {
            Ok(x) => x,
            Err(e) => {
                return Err(e);
            },
        };
        if bit_len == 0 {
            return Ok((Vec::new(), 0));
        }
        let end_pos = start_pos.saturating_add(byte_count_for_bits(bit_len));
        if uds_payload.len() < end_pos {
            return Err(
                DiagServiceError::NotEnoughData { expected: end_pos, actual: uds_payload.len() },
            );
        }
        let m = match &mask {
            Some(m) => Some(m),
            None => None,
        };
        unpack_data(bit_len, bit_pos, m, &uds_payload[start_pos..end_pos], byte_order)
    }
}

/// The `n` low bytes of `v`, most significant first.
pub open spec fn be_bytes(v: nat, n: nat) -> Seq<u8>
    decreases n,
{
    if n == 0 {
        Seq::empty()
    } else {
        be_bytes(v / 256, (n - 1) as nat).push((v % 256) as u8)
    }
}

/// The terminator bytes that a min/max length field is encoded with.
pub open spec fn termination_bytes(t: Termination, wide: bool) -> Seq<u8> {
    match t {
        Termination::EndOfPdu => Seq::empty(),
        Termination::Zero => if wide {
            seq![0u8, 0u8]
        } else {
            seq![0u8]
        },
        Termination::HexFF => if wide {
            seq![0xFFu8, 0xFFu8]
        } else {
            seq![0xFFu8]
        },
    }
}

/// The non-empty mask of a standard length field, with its condensed flag.
pub open spec fn effective_mask(slt: StandardLengthType) -> Option<(Seq<u8>, bool)> {
    match slt.bit_mask {
        Some(m) => if m@.len() == 0 {
            None
        } else {
            Some((m@, slt.condensed))
        },
        None => None,
    }
}

/// Alignment of a value of type `dt` in a longer field.
pub open spec fn alignment_for(dt: DataType) -> DataAlignment {
    if is_byte_type(dt) {
        DataAlignment::Left
    } else {
        DataAlignment::Right
    }
}

/// Plan of a leading length field of `bl` length bits: the length bytes, then the data.
pub open spec fn leading_plan(bl: u32, input: Seq<u8>) -> Result<
    Option<(Seq<u8>, int, Option<Seq<u8>>)>,
    ErrorKind,
> {
    let lbc = bytes_for_bits(bl as int);
    if lbc == 0 {
        Err(ErrorKind::BadPayload("Failed to create length info for leading length"@))
    } else if lbc > usize::BITS / 8 {
        Err(ErrorKind::BadPayload("Length byte count out of bounds"@))
    } else {
        let d = be_bytes(input.len(), lbc as nat) + input;
        Ok(Some((d, 8 * d.len() as int, None)))
    }
}

/// Plan of a min/max length field: the data, then its terminator.
pub open spec fn min_max_plan(m: MinMaxLengthType, wide: bool, input: Seq<u8>) -> Result<
    Option<(Seq<u8>, int, Option<Seq<u8>>)>,
    ErrorKind,
> {
    let d = input + termination_bytes(m.termination, wide);
    if d.len() == 0 {
        Err(ErrorKind::BadPayload("Cannot insert 0 bits"@))
    } else {
        Ok(Some((d, 8 * d.len() as int, None)))
    }
}

/// Plan of a standard length field: the data packed into the field, masked.
pub open spec fn standard_plan(dt: DataType, slt: StandardLengthType, input: Seq<u8>) -> Result<
    Option<(Seq<u8>, int, Option<Seq<u8>>)>,
    ErrorKind,
> {
    if !bit_len_valid(dt, slt.bit_length as int) {
        Err(ErrorKind::BadPayload(bit_len_error(dt, slt.bit_length)->Some_0))
    } else {
        let mask = effective_mask(slt);
        match packed(slt.bit_length as int, 0, mask, input, alignment_for(dt)) {
            None => Err(ErrorKind::BadPayload("Cannot insert 0 bits"@)),
            Some((pk, n)) => if n > slt.bit_length {
                Err(
                    ErrorKind::BadPayload(
                        "StandardLengthType input data length "@ + decimal(n as nat)
                            + " bits exceeds allowed length "@ + decimal(slt.bit_length as nat)
                            + " bits"@,
                    ),
                )
            } else {
                Ok(
                    Some(
                        (
                            pk,
                            n,
                            match mask {
                                Some((m, _)) => Some(m),
                                None => None,
                            },
                        ),
                    ),
                )
            },
        }
    }
}

/// Plan of a field whose length comes from a length key: the data as is.
pub open spec fn param_plan(input: Seq<u8>) -> Result<
    Option<(Seq<u8>, int, Option<Seq<u8>>)>,
    ErrorKind,
> {
    if input.len() == 0 {
        Ok(None)
    } else {
        Ok(Some((input, 8 * input.len() as int, None)))
    }
}

/// What encoding `input` with coded type `t` writes: the packed bytes, their bit length and
/// the mask protecting the PDU bits outside the value; `None` when nothing is written.
pub open spec fn encode_plan(t: &DiagCodedType, input: Seq<u8>) -> Result<
    Option<(Seq<u8>, int, Option<Seq<u8>>)>,
    ErrorKind,
> {
    match t.variant() {
        DiagCodedTypeVariant::LeadingLengthInfo(bl) => leading_plan(bl, input),
        DiagCodedTypeVariant::MinMaxLength(m) => min_max_plan(
            m,
            t.base() == DataType::Unicode2String,
            input,
        ),
        DiagCodedTypeVariant::StandardLength(slt) => standard_plan(t.base(), slt, input),
        DiagCodedTypeVariant::ParamLengthInfo(_) => param_plan(input),
    }
}

/// Whether an exec plan is the spec plan `p`.
pub open spec fn plan_matches(
    r: Result<Option<(Vec<u8>, usize, Option<Vec<u8>>)>, DiagServiceError>,
    p: Result<Option<(Seq<u8>, int, Option<Seq<u8>>)>, ErrorKind>,
) -> bool {
    match p {
        Ok(None) => r matches Ok(None),
        Ok(Some((pk, n, m))) => r matches Ok(Some((rpk, rn, rm))) && rpk@ == pk && rn == n
            && match m {
            Some(mm) => rm matches Some(x) && x@ == mm,
            None => rm is None,
        },
        Err(k) => r matches Err(e) && is_kind(e, k),
    }
}

/// The payload after writing the packed value `pk` of `bit_len` bits with protecting mask
/// `mask` at `byte_pos`, `bit_pos` in byte order `order`, and whether writing succeeded.
pub open spec fn written(
    order: ByteOrder,
    payload: Seq<u8>,
    pk: Seq<u8>,
    bit_len: int,
    mask: Option<Seq<u8>>,
    byte_pos: int,
    bit_pos: int,
) -> (Seq<u8>, Result<(), ErrorKind>) {
    let byte_count = bytes_for_bits(bit_pos + bit_len);
    let end = byte_pos + byte_count;
    let resized = if payload.len() < end {
        payload + Seq::new((end - payload.len()) as nat, |i: int| 0u8)
    } else {
        payload
    };
    if bit_pos > 7 {
        (resized, Err(ErrorKind::BadPayload("BitPosition range is 0..=7, got "@ + decimal(bit_pos as nat))))
    } else {
        let cut = normalized(resized.subrange(byte_pos, end), order);
        let guarded = match mask {
            Some(m) => masked_bits(cut, inverted(m), bit_len, bit_pos),
            None => cut,
        };
        let filled = normalized(injected_bits(guarded, pk, bit_len, bit_pos), order);
        (
            resized.subrange(0, byte_pos) + filled + resized.subrange(end, resized.len() as int),
            Ok(()),
        )
    }
}

/// Bitwise complement of a mask.
pub open spec fn inverted(m: Seq<u8>) -> Seq<u8> {
    Seq::new(m.len(), |i: int| !m[i])
}

/// The payload after encoding `input` with coded type `t` at `byte_pos`, `bit_pos` of
/// `payload`, and whether the encoding succeeded. The PDU window of the value is extended
/// with zeros when needed, its protected bits kept and the value bits written.
pub open spec fn encoded(
    t: &DiagCodedType,
    input: Seq<u8>,
    payload: Seq<u8>,
    byte_pos: int,
    bit_pos: int,
) -> (Seq<u8>, Result<(), ErrorKind>) {
    if is_byte_type(t.base()) && bit_pos != 0 {
        (payload, Err(ErrorKind::BadPayload(bit_pos_message(t.base(), bit_pos))))
    } else {
        match encode_plan(t, input) {
            Err(k) => (payload, Err(k)),
            Ok(None) => (payload, Ok(())),
            Ok(Some((pk, bit_len, mask))) => written(
                t.spec_order(),
                payload,
                pk,
                bit_len,
                mask,
                byte_pos,
                bit_pos,
            ),
        }
    }
}

/// The most bytes that the field of coded type `t` takes for a value of `input_len` bytes:
/// the length bytes and the value, the value and its terminator, the fixed field, or the value.
pub open spec fn field_bytes(t: &DiagCodedType, input_len: int) -> int {
    match t.variant() {
        DiagCodedTypeVariant::LeadingLengthInfo(_) => input_len + 8,
        DiagCodedTypeVariant::MinMaxLength(_) => input_len + 2,
        DiagCodedTypeVariant::StandardLength(slt) => bytes_for_bits(slt.bit_length as int),
        DiagCodedTypeVariant::ParamLengthInfo(_) => input_len,
    }
}

/// Whether the field that encoding a value of `input_len` bytes with `t` writes at
/// `byte_pos`, `bit_pos` can be addressed: its length in bits, with the bit offset, and the
/// end of its PDU window in bytes both fit in a `usize`.
pub open spec fn encode_fits(t: &DiagCodedType, input_len: int, byte_pos: int, bit_pos: int) -> bool {
    &&& bit_pos + 8 * field_bytes(t, input_len) + 8 <= usize::MAX
    &&& byte_pos + bit_pos / 8 + field_bytes(t, input_len) + 2 <= usize::MAX
}

fn be_bytes_exec(v: usize, n: usize) -> (r: Vec<u8>)
    ensures
        r@ == be_bytes(v as nat, n as nat),
    decreases n,
{
    if n == 0 {
        Vec::new()
    } else {
        let mut r = be_bytes_exec(v / 256, n - 1);
        r.push((v % 256) as u8);
        r
    }
}

pub proof fn lemma_be_bytes_len(v: nat, n: nat)
    ensures
        be_bytes(v, n).len() == n,
    decreases n,
{
    if n > 0 {
        lemma_be_bytes_len(v / 256, (n - 1) as nat);
    }
}

/// Packing a whole number of bytes without mask returns the bytes.
proof fn lemma_packed_whole_bytes(d: Seq<u8>)
    requires
        d.len() > 0,
    ensures
        packed(8 * d.len() as int, 0, None, d, DataAlignment::Left) == Some((d, 8 * d.len() as int)),
{
    let bl = 8 * d.len() as int;
    assert(bytes_for_bits(bl) == d.len());
    assert(aligned_copy(d, d.len() as int, DataAlignment::Left) =~= d);
}

/// Bitwise complement of a mask.
fn invert_mask(m: &Vec<u8>) -> (r: Vec<u8>)
    ensures
        r@ == inverted(m@),
{
    let mut r: Vec<u8> = Vec::new();
    let mut i: usize = 0;
    while i < m.len()
        invariant
            i <= m@.len(),
            r@ == Seq::new(i as nat, |j: int| !m@[j]),
        decreases m@.len() - i,
    {
        r.push(!m[i]);
        i = i + 1;
        assert(r@ =~= Seq::new(i as nat, |j: int| !m@[j]));
    }
    r
}

/// Packs whole bytes without a mask.
fn pack_whole_bytes(data: Vec<u8>) -> (r: Result<
    Option<(Vec<u8>, usize, Option<Vec<u8>>)>,
    DiagServiceError,
>)
    requires
        data@.len() > 0,
        8 * data@.len() <= usize::MAX,
    ensures
        r matches Ok(Some((pk, n, m))) && pk@ == data@ && n == 8 * data@.len() && m is None,
{
    proof {
        lemma_packed_whole_bytes(data@);
    }
    let (packed_bytes, len) = match pack_data(
        data.len() * 8,
        0,
        None,
        data.as_slice(),
        DataAlignment::Left,
    ) {
        Ok(x) => x,
        Err(e) => {
            return Err(e);
        },
    };
    Ok(Some((packed_bytes, len, None)))
}

#[verifier::spinoff_prover]
fn leading_plan_exec(bl: u32, input_data: Vec<u8>) -> (r: Result<
    Option<(Vec<u8>, usize, Option<Vec<u8>>)>,
    DiagServiceError,
>)
    requires
        8 * (input_data@.len() + 8) <= usize::MAX,
    ensures
        plan_matches(r, leading_plan(bl, input_data@)),
{
    let mut input_data = input_data;
    let len_byte_count = byte_count_for_bits(bl as usize);
    if len_byte_count == 0 {
        return Err(
            DiagServiceError::BadPayload(text("Failed to create length info for leading length")),
        );
    }
    if len_byte_count > (usize::BITS / 8) as usize {
        return Err(DiagServiceError::BadPayload(text("Length byte count out of bounds")));
    }
    let mut data = be_bytes_exec(input_data.len(), len_byte_count);
    proof {
        lemma_be_bytes_len(input_data@.len(), len_byte_count as nat);
    }
    data.append(&mut input_data);
    pack_whole_bytes(data)
}

#[verifier::spinoff_prover]
fn min_max_plan_exec(mmlt: &MinMaxLengthType, is_unicode: bool, input_data: Vec<u8>) -> (r: Result<
    Option<(Vec<u8>, usize, Option<Vec<u8>>)>,
    DiagServiceError,
>)
    requires
        8 * (input_data@.len() + 2) <= usize::MAX,
    ensures
        plan_matches(r, min_max_plan(*mmlt, is_unicode, input_data@)),
{
    let mut input_data = input_data;
    let ghost inp = input_data@;
    match mmlt.termination {
        Termination::EndOfPdu => {},
        Termination::Zero => {
            input_data.push(0u8);
            if is_unicode {
                input_data.push(0u8);
            }
        },
        Termination::HexFF => {
            input_data.push(0xFFu8);
            if is_unicode {
                input_data.push(0xFFu8);
            }
        },
    }
    proof {
        assert(input_data@ =~= inp + termination_bytes(mmlt.termination, is_unicode));
    }
    if input_data.len() == 0 {
        return Err(DiagServiceError::BadPayload(text("Cannot insert 0 bits")));
    }
    pack_whole_bytes(input_data)
}

#[verifier::spinoff_prover]
fn standard_plan_exec(dt: DataType, slt: &StandardLengthType, input_data: Vec<u8>) -> (r: Result<
    Option<(Vec<u8>, usize, Option<Vec<u8>>)>,
    DiagServiceError,
>)
    ensures
        plan_matches(r, standard_plan(dt, *slt, input_data@)),
{
    match dt.validate_bit_len(slt.bit_length) {
        Ok(()) => {},
        Err(e) => {
            return Err(e);
        },
    }
    let mask = match &slt.bit_mask {
        Some(m) => if m.len() == 0 {
            None
        } else {
            Some(make_mask(m, slt.condensed))
        },
        None => None,
    };
    let alignment = if dt.is_byte_sequential() {
        DataAlignment::Left
    } else {
        DataAlignment::Right
    };
    let m_ref = match &mask {
        Some(m) => Some(m),
        None => None,
    };
    let (packed_bytes, len) = match pack_data(
        slt.bit_length as usize,
        0,
        m_ref,
        input_data.as_slice(),
        alignment,
    ) {
        Ok(x) => x,
        Err(e) => {
            return Err(e);
        },
    };
    if len > slt.bit_length as usize {
        let mut m = text("StandardLengthType input data length ");
        push_decimal(&mut m, len as u64);
        push_text(&mut m, " bits exceeds allowed length ");
        push_decimal(&mut m, slt.bit_length as u64);
        push_text(&mut m, " bits");
        return Err(DiagServiceError::BadPayload(m));
    }
    let protect = match mask {
        Some(m) => Some(m.data),
        None => None,
    };
    Ok(Some((packed_bytes, len, protect)))
}

#[verifier::spinoff_prover]
#[verifier::rlimit(30)]
proof fn lemma_plan_bit_len(t: &DiagCodedType, input: Seq<u8>)
    ensures
        encode_plan(t, input) matches Ok(Some((pk, n, m))) ==> 0 < n <= 8 * field_bytes(
            t,
            input.len() as int,
        ),
{
    match t.variant() {
        DiagCodedTypeVariant::LeadingLengthInfo(bl) => {
            let lbc = bytes_for_bits(bl as int);
            lemma_be_bytes_len(input.len(), lbc as nat);
            assert(usize::BITS == 32 || usize::BITS == 64);
            if 0 < lbc <= usize::BITS / 8 {
                let d = be_bytes(input.len(), lbc as nat) + input;
                assert(d.len() == lbc + input.len());
                assert(leading_plan(bl, input) == Ok::<Option<(Seq<u8>, int, Option<Seq<u8>>)>, ErrorKind>(Some((d, 8 * d.len() as int, None))));
            }
        },
        DiagCodedTypeVariant::MinMaxLength(m) => {
            let d = input + termination_bytes(m.termination, t.base() == DataType::Unicode2String);
            assert(d.len() <= input.len() + 2);
        },
        DiagCodedTypeVariant::StandardLength(slt) => {
            if bit_len_valid(t.base(), slt.bit_length as int) {
                let mask = effective_mask(slt);
                match mask {
                    Some((m, true)) => {
                        assert(m.len() > 0);
                        assert(sat_mul(m.len() as int, 8) >= 8);
                    },
                    _ => {},
                }
            }
        },
        _ => {},
    }
}

impl DiagCodedType {
    /// The bytes, bit length and protecting mask that encoding `input_data` writes.
    #[verifier::spinoff_prover]
    fn encode_plan(&self, input_data: Vec<u8>) -> (r: Result<
        Option<(Vec<u8>, usize, Option<Vec<u8>>)>,
        DiagServiceError,
    >)
        requires
            8 * field_bytes(self, input_data@.len() as int) <= usize::MAX,
        ensures
            plan_matches(r, encode_plan(self, input_data@)),
    {
        match &self.type_ {
            DiagCodedTypeVariant::LeadingLengthInfo(bl) => leading_plan_exec(*bl, input_data),
            DiagCodedTypeVariant::MinMaxLength(mmlt) => min_max_plan_exec(
                mmlt,
                self.base_datatype == DataType::Unicode2String,
                input_data,
            ),
            DiagCodedTypeVariant::StandardLength(slt) => standard_plan_exec(
                self.base_datatype,
                slt,
                input_data,
            ),
            DiagCodedTypeVariant::ParamLengthInfo(_) => {
                if input_data.len() == 0 {
                    return Ok(None);
                }
                pack_whole_bytes(input_data)
            },
        }
    }
}

/// The PDU window after writing: normalized, protected bits kept, value bits injected,
/// normalized back.
pub open spec fn filled_window(
    order: ByteOrder,
    window: Seq<u8>,
    pk: Seq<u8>,
    bit_len: int,
    mask: Option<Seq<u8>>,
    bit_pos: int,
) -> Seq<u8> {
    let cut = normalized(window, order);
    let guarded = match mask {
        Some(m) => masked_bits(cut, inverted(m), bit_len, bit_pos),
        None => cut,
    };
    normalized(injected_bits(guarded, pk, bit_len, bit_pos), order)
}

fn fill_window(
    byte_order: ByteOrder,
    window: Vec<u8>,
    packed_bytes: &Vec<u8>,
    bit_len: usize,
    mask: &Option<Vec<u8>>,
    bit_pos: usize,
) -> (r: Vec<u8>)
    requires
        bit_pos <= 7,
        bit_len > 0,
        bit_pos + bit_len <= usize::MAX,
    ensures
        r@ == filled_window(
            byte_order,
            window@,
            packed_bytes@,
            bit_len as int,
            match mask {
                Some(m) => Some(m@),
                None => None,
            },
            bit_pos as int,
        ),
{
    let mut cut = window;
    normalize_byte_order(cut.as_mut_slice(), byte_order);
    match mask {
        Some(m) => {
            let inv = invert_mask(m);
            let _ = apply_bit_mask(cut.as_mut_slice(), inv.as_slice(), bit_len, bit_pos);
        },
        None => {},
    }
    let _ = inject_bits(bit_len, bit_pos, cut.as_mut_slice(), packed_bytes.as_slice());
    normalize_byte_order(cut.as_mut_slice(), byte_order);
    cut
}

/// Copies `src` over `dst` starting at `at`.
fn copy_into(dst: &mut Vec<u8>, at: usize, src: &Vec<u8>)
    requires
        at + src@.len() <= old(dst)@.len(),
    ensures
        final(dst)@ == old(dst)@.subrange(0, at as int) + src@ + old(dst)@.subrange(
            at + src@.len(),
            old(dst)@.len() as int,
        ),
{
    let ghost d = dst@;
    assert(d.len() == dst.len());
    let mut j: usize = 0;
    while j < src.len()
        invariant
            j <= src@.len(),
            at + src@.len() <= d.len(),
            d.len() <= usize::MAX,
            dst@.len() == d.len(),
            forall|k: int|
                0 <= k < d.len() ==> #[trigger] dst@[k] == if at <= k < at + j {
                    src@[k - at]
                } else {
                    d[k]
                },
        decreases src@.len() - j,
    {
        dst.set(at + j, src[j]);
        j = j + 1;
    }
    assert(dst@ =~= d.subrange(0, at as int) + src@ + d.subrange(at + src@.len(), d.len() as int));
}

/// Writes the packed value into the PDU window of `uds_payload`.
#[verifier::spinoff_prover]
fn write_window(
    byte_order: ByteOrder,
    uds_payload: &mut Vec<u8>,
    packed_bytes: &Vec<u8>,
    bit_len: usize,
    mask: &Option<Vec<u8>>,
    byte_pos: usize,
    bit_pos: usize,
) -> (r: Result<(), DiagServiceError>)
    requires
        bit_pos + bit_len + 8 <= usize::MAX,
        byte_pos + bit_pos / 8 + bit_len / 8 + 2 <= usize::MAX,
        bit_len > 0,
    ensures
        final(uds_payload)@ == written(
            byte_order,
            old(uds_payload)@,
            packed_bytes@,
            bit_len as int,
            match mask {
                Some(m) => Some(m@),
                None => None,
            },
            byte_pos as int,
            bit_pos as int,
        ).0,
        match written(
            byte_order,
            old(uds_payload)@,
            packed_bytes@,
            bit_len as int,
            match mask {
                Some(m) => Some(m@),
                None => None,
            },
            byte_pos as int,
            bit_pos as int,
        ).1 {
            Ok(()) => r is Ok,
            Err(k) => r matches Err(e) && is_kind(e, k),
        },
{
    let ghost old_payload = uds_payload@;
    let byte_count = byte_count_for_bits(bit_pos + bit_len);
    let end = byte_pos + byte_count;
    if uds_payload.len() < end {
        uds_payload.resize(end, 0u8);
    }
    let ghost resized = uds_payload@;
    proof {
        if old_payload.len() < end {
            assert(resized =~= old_payload + Seq::new(
                (end - old_payload.len()) as nat,
                |i: int| 0u8,
            ));
        }
    }
    if bit_pos > 7 {
        return Err(bit_pos_range_error(bit_pos));
    }
    let window = slice_to_vec(&uds_payload[byte_pos..end]);
    let cut = fill_window(byte_order, window, packed_bytes, bit_len, mask, bit_pos);
    proof {
        assert(cut@.len() == byte_count) by {
            let m = match mask {
                Some(m) => Some(m@),
                None => None::<Seq<u8>>,
            };
            assert(cut@ == filled_window(byte_order, resized.subrange(byte_pos as int, end as int), packed_bytes@, bit_len as int, m, bit_pos as int));
        }
    }
    copy_into(uds_payload, byte_pos, &cut);
    Ok(())
}

impl DiagCodedType {
    /// Encodes `input_data` into `uds_payload` at `byte_pos` (0 = most significant byte) and
    /// `bit_pos` (0..=7, 0 = least significant bit) according to this coded type (ISO 22901-1,
    /// 7.3.6.4); no conversion from physical values is done. The payload is extended with
    /// zeros where the value reaches beyond it; bits outside the value's mask are kept.
    #[verifier::spinoff_prover]
    pub fn encode(
        &self,
        input_data: Vec<u8>,
        uds_payload: &mut Vec<u8>,
        byte_pos: usize,
        bit_pos: usize,
    ) -> (r: Result<(), DiagServiceError>)
        requires
            encode_fits(self, input_data@.len() as int, byte_pos as int, bit_pos as int),
        ensures
            final(uds_payload)@ == encoded(
                self,
                input_data@,
                old(uds_payload)@,
                byte_pos as int,
                bit_pos as int,
            ).0,
            match encoded(self, input_data@, old(uds_payload)@, byte_pos as int, bit_pos as int).1 {
                Ok(()) => r is Ok,
                Err(k) => r matches Err(e) && is_kind(e, k),
            },
    {
        match self.validate_bit_pos(bit_pos) {
            Ok(()) => {},
            Err(e) => {
                return Err(e);
            },
        }
        proof {
            lemma_plan_bit_len(self, input_data@);
        }
        let plan = self.encode_plan(input_data);
        let (packed_bytes, bit_len, mask) = match plan {
            Ok(Some(x)) => x,
            Ok(None) => {
                return Ok(());
            },
            Err(e) => {
                return Err(e);
            },
        };
        let byte_order = self.byte_order();
        write_window(byte_order, uds_payload, &packed_bytes, bit_len, &mask, byte_pos, bit_pos)
    }
}

/// The min/max length data of a coded type as the database stores it.
#[derive(Clone, Debug)]
pub struct RawMinMaxLength {
    pub min_length: u32,
    pub max_length: Option<u32>,
    /// `None` for a termination this library does not know.
    pub termination: Option<Termination>,
}

/// The length-key data of a coded type as the database stores it: the length key parameter,
/// if referenced, with its short name, if it has one.
#[derive(Clone, Debug)]
pub struct RawParamLengthInfo {
    pub length_key: Option<Option<String>>,
}

/// The length rule of a coded type as the database tags it, with its data when the database
/// holds it.
#[derive(Clone, Debug)]
pub enum RawSpecificData {
    StandardLengthType(Option<StandardLengthType>),
    LeadingLengthInfoType(Option<BitLength>),
    MinMaxLengthType(Option<RawMinMaxLength>),
    ParamLengthInfoType(Option<RawParamLengthInfo>),
    /// No length rule: the database's tag `NONE`.
    NoType,
    /// A length rule this library does not know, by the number of its tag.
    Unknown(u8),
}

/// A coded type as the database stores it.
#[derive(Clone, Debug)]
pub struct RawDiagCodedType {
    /// `None` for a base data type this library does not know.
    pub base_data_type: Option<DataType>,
    pub is_high_low_byte_order: bool,
    pub specific_data: RawSpecificData,
}

/// The length rule that stored coded type data stands for, or the message of what is wrong
/// with it (all invalid database errors but for a min/max length rule that
/// [`MinMaxLengthType::new`] refuses).
pub open spec fn variant_of_raw(d: RawSpecificData) -> Result<DiagCodedTypeVariant, Seq<char>> {
    match d {
        RawSpecificData::StandardLengthType(None) => Err(
            "DiagCodedType SpecificData StandardLengthType not found"@,
        ),
        RawSpecificData::StandardLengthType(Some(s)) => Ok(DiagCodedTypeVariant::StandardLength(s)),
        RawSpecificData::LeadingLengthInfoType(None) => Err(
            "DiagCodedType SpecificData LeadingLengthInfoType not found"@,
        ),
        RawSpecificData::LeadingLengthInfoType(Some(b)) => Ok(
            DiagCodedTypeVariant::LeadingLengthInfo(b),
        ),
        RawSpecificData::MinMaxLengthType(None) => Err(
            "DiagCodedType SpecificData MinMaxLengthType not found"@,
        ),
        RawSpecificData::MinMaxLengthType(Some(m)) => match m.termination {
            None => Err("Termination not found"@),
            Some(t) => Ok(
                DiagCodedTypeVariant::MinMaxLength(
                    MinMaxLengthType { min_length: m.min_length, max_length: m.max_length, termination: t },
                ),
            ),
        },
        RawSpecificData::ParamLengthInfoType(None) => Err(
            "DiagCodedType SpecificData ParamLengthInfoType not found"@,
        ),
        RawSpecificData::ParamLengthInfoType(Some(p)) => match p.length_key {
            None => Err("ParamLengthInfoType has no length_key param reference"@),
            Some(None) => Err("ParamLengthInfoType length_key param has no short_name"@),
            Some(Some(n)) => Ok(DiagCodedTypeVariant::ParamLengthInfo(n)),
        },
        RawSpecificData::NoType => Err("DiagCodedType SpecificData type NONE not supported"@),
        RawSpecificData::Unknown(tag) => Err(
            "DiagCodedType SpecificData type <UNKNOWN "@ + decimal(tag as nat) + "> not supported"@,
        ),
    }
}

/// Whether two length rules agree, comparing masks by their bytes.
pub open spec fn same_variant(a: DiagCodedTypeVariant, b: DiagCodedTypeVariant) -> bool {
    match (a, b) {
        (DiagCodedTypeVariant::StandardLength(x), DiagCodedTypeVariant::StandardLength(y)) => {
            &&& x.bit_length == y.bit_length
            &&& x.condensed == y.condensed
            &&& match (x.bit_mask, y.bit_mask) {
                (Some(m), Some(n)) => m@ == n@,
                (None, None) => true,
                _ => false,
            }
        },
        _ => a == b,
    }
}

fn copy_standard_length(s: &StandardLengthType) -> (r: StandardLengthType)
    ensures
        same_variant(
            DiagCodedTypeVariant::StandardLength(r),
            DiagCodedTypeVariant::StandardLength(*s),
        ),
{
    let bit_mask = match &s.bit_mask {
        Some(m) => Some(vstd::slice::slice_to_vec(m.as_slice())),
        None => None,
    };
    StandardLengthType { bit_length: s.bit_length, bit_mask, condensed: s.condensed }
}

impl DiagCodedTypeVariant {
    /// The length rule of stored coded type data. Fails with an invalid database error when
    /// the data of the tagged rule, a min/max termination or a length key name is missing or
    /// the rule is unknown, and with the error of [`MinMaxLengthType::new`] for a min/max
    /// rule it refuses.
    pub fn try_from_raw(value: &RawSpecificData) -> (r: Result<DiagCodedTypeVariant, DiagServiceError>)
        ensures
            match variant_of_raw(*value) {
                Err(msg) => r matches Err(DiagServiceError::InvalidDatabase(m)) && m@ == msg,
                Ok(v) => match v {
                    DiagCodedTypeVariant::MinMaxLength(m) => match min_max_error(
                        m.min_length,
                        m.max_length,
                    ) {
                        None => r == Ok::<DiagCodedTypeVariant, DiagServiceError>(v),
                        Some(e) => r matches Err(DiagServiceError::BadPayload(msg)) && msg@ == e,
                    },
                    _ => r matches Ok(x) && same_variant(x, v),
                },
            },
    {
        match value {
            RawSpecificData::StandardLengthType(s) => match s {
                Some(s) => Ok(DiagCodedTypeVariant::StandardLength(copy_standard_length(s))),
                None => Err(
                    DiagServiceError::InvalidDatabase(
                        text("DiagCodedType SpecificData StandardLengthType not found"),
                    ),
                ),
            },
            RawSpecificData::LeadingLengthInfoType(b) => match b {
                Some(b) => Ok(DiagCodedTypeVariant::LeadingLengthInfo(*b)),
                None => Err(
                    DiagServiceError::InvalidDatabase(
                        text("DiagCodedType SpecificData LeadingLengthInfoType not found"),
                    ),
                ),
            },
            RawSpecificData::MinMaxLengthType(m) => match m {
                None => Err(
                    DiagServiceError::InvalidDatabase(
                        text("DiagCodedType SpecificData MinMaxLengthType not found"),
                    ),
                ),
                Some(m) => match m.termination {
                    None => Err(DiagServiceError::InvalidDatabase(text("Termination not found"))),
                    Some(t) => match MinMaxLengthType::new(m.min_length, m.max_length, t) {
                        Ok(x) => Ok(DiagCodedTypeVariant::MinMaxLength(x)),
                        Err(e) => Err(e),
                    },
                },
            },
            RawSpecificData::ParamLengthInfoType(p) => match p {
                None => Err(
                    DiagServiceError::InvalidDatabase(
                        text("DiagCodedType SpecificData ParamLengthInfoType not found"),
                    ),
                ),
                Some(p) => match &p.length_key {
                    None => Err(
                        DiagServiceError::InvalidDatabase(
                            text("ParamLengthInfoType has no length_key param reference"),
                        ),
                    ),
                    Some(None) => Err(
                        DiagServiceError::InvalidDatabase(
                            text("ParamLengthInfoType length_key param has no short_name"),
                        ),
                    ),
                    Some(Some(n)) => Ok(DiagCodedTypeVariant::ParamLengthInfo(n.clone())),
                },
            },
            RawSpecificData::NoType => Err(
                DiagServiceError::InvalidDatabase(
                    text("DiagCodedType SpecificData type NONE not supported"),
                ),
            ),
            RawSpecificData::Unknown(tag) => {
                let mut m = text("DiagCodedType SpecificData type <UNKNOWN ");
                push_decimal(&mut m, *tag as u64);
                push_text(&mut m, "> not supported");
                Err(DiagServiceError::InvalidDatabase(m))
            },
        }
    }
}

impl DiagCodedType {
    /// The coded type of stored coded type data, as stored (the combination of base type and
    /// length rule is not checked). Fails with an invalid database error for an unknown base
    /// data type, else with the error of [`DiagCodedTypeVariant::try_from_raw`].
    pub fn try_from_raw(value: &RawDiagCodedType) -> (r: Result<DiagCodedType, DiagServiceError>)
        ensures
            value.base_data_type is None ==> (r matches Err(DiagServiceError::InvalidDatabase(m))
                && m@ == "Unsupported DataType"@),
            value.base_data_type matches Some(dt) ==> match variant_of_raw(value.specific_data) {
                Err(msg) => r matches Err(DiagServiceError::InvalidDatabase(m)) && m@ == msg,
                Ok(v) => if v matches DiagCodedTypeVariant::MinMaxLength(m) && min_max_error(
                    m.min_length,
                    m.max_length,
                ) is Some {
                    r matches Err(DiagServiceError::BadPayload(msg)) && Some(msg@) == min_max_error(
                        v->MinMaxLength_0.min_length,
                        v->MinMaxLength_0.max_length,
                    )
                } else {
                    r matches Ok(t) && t.base() == dt && same_variant(t.variant(), v) && t.high_low()
                        == value.is_high_low_byte_order
                },
            },
    {
        let base_datatype = match value.base_data_type {
            Some(dt) => dt,
            None => {
                return Err(DiagServiceError::InvalidDatabase(text("Unsupported DataType")));
            },
        };
        let type_ = match DiagCodedTypeVariant::try_from_raw(&value.specific_data) {
            Ok(v) => v,
            Err(e) => {
                return Err(e);
            },
        };
        Ok(DiagCodedType { base_datatype, type_, is_high_low_byte_order: value.is_high_low_byte_order })
    }
}

} // verus!
