//! The parts of a diagnostic database (ODX data) that service matching reads, held as plain
//! values: services, their request parameters and coded constants, data operations.
use vstd::prelude::*;
use crate::coded_type::{DataType, StandardLengthType};
use crate::error::{
    debug_str, debug_text, decimal, is_kind, push_text, text, DiagServiceError, ErrorKind,
};
use crate::interfaces::{type_of_service, DiagComm, DiagCommType};
use crate::comparam::{
    find_complex_entry, lemma_view_of_complex, lookup, lookup_defined, lookup_outcome, opt_text,
    refs_of, view_entry, view_of, ComParamRef, ComParamValue, ComParamView, LookupFailure,
};
use crate::number::{parse_unsigned, parse_unsigned_bytes, u16_from_str, u16_parse_error_text};
use crate::bits::{bytes_for_bits, byte_count_for_bits};
use vstd::string::StringSliceAdditionalSpecFns;

verus! {

/// Category of a computation method.
#[derive(Copy, Clone, Debug, PartialEq, Eq, Structural)]
pub enum CompuCategory {
    Identical,
    Linear,
    ScaleLinear,
    TextTable,
    CompuCode,
    TabIntp,
    RatFunc,
    ScaleRatFunc,
}

/// Kind of a limit interval bound.
#[derive(Copy, Clone, Debug, PartialEq, Eq, Structural)]
pub enum IntervalType {
    Open,
    Closed,
    Infinite,
}

/// A limit of a computation scale: a number, a string or a byte field, as text.
#[derive(Clone, Debug)]
pub struct Limit {
    pub value: String,
    pub interval_type: IntervalType,
}

/// Display radix of a physical value.
#[derive(Copy, Clone, Debug, PartialEq, Eq, Structural)]
pub enum Radix {
    Hex,
    Decimal,
    Binary,
    Octal,
}

/// Physical type of a data operation.
#[derive(Copy, Clone, Debug)]
pub struct PhysicalType {
    pub precision: Option<u32>,
    pub base_type: DataType,
    pub display_radix: Option<Radix>,
}

/// Long name of a database element with its text id.
#[derive(Debug, Clone)]
pub struct LongName {
    pub value: Option<String>,
    pub ti: Option<String>,
}

/// Type of a service response.
#[derive(Clone, Copy, Debug, PartialEq, Eq, Structural)]
pub enum ResponseType {
    Positive,
    Negative,
    GlobalNegative,
}

/// Type of a service parameter.
#[derive(Clone, Copy, Debug, PartialEq, Eq, Structural)]
pub enum ParamType {
    CodedConst,
    Dynamic,
    LengthKey,
    MatchingRequestParam,
    NrcConst,
    PhysConst,
    Reserved,
    System,
    TableEntry,
    TableKey,
    TableStruct,
    Value,
}

/// Kind of the parent of a diagnostic layer.
#[allow(non_camel_case_types)]
#[derive(PartialEq, Eq, Debug, Clone, Copy, Structural)]
pub enum ParentRefType {
    NONE,
    Variant,
    Protocol,
    FunctionalGroup,
    TableDop,
    EcuSharedData,
}

/// How a logical address is looked up in the communication parameters.
#[derive(Clone, Debug)]
pub enum LogicalAddressType {
    /// The ECU address: the name of the response id table and the name of the address.
    Ecu(String, String),
    /// The gateway address com param.
    Gateway(String),
    /// The functional address com param.
    Functional(String),
}

/// The name of the com param a logical address lookup reads first, and the name of the entry
/// of a complex value it reads (the ECU address, only for the ECU lookup).
pub open spec fn address_param_names(t: LogicalAddressType) -> (Seq<char>, Option<Seq<char>>) {
    match t {
        LogicalAddressType::Ecu(table, address) => (table@, Some(address@)),
        LogicalAddressType::Gateway(p) => (p@, None),
        LogicalAddressType::Functional(p) => (p@, None),
    }
}

/// A logical address from the text `text` of a simple value, or the conversion error.
pub open spec fn address_from_text(text: Seq<char>) -> Result<u16, Seq<char>> {
    match parse_unsigned(vstd::utf8::encode_utf8(text), 10, 0xFFFF) {
        Some(v) => Ok(v as u16),
        None => Err("Invalid address: "@ + u16_parse_error_text(text)),
    }
}

/// The error kinds of a logical address lookup, with their messages.
pub enum AddressLookupFailure {
    Conversion(Seq<char>),
    Database(Seq<char>),
}

/// The logical address a lookup of type `t` finds in the com param value `v`: a simple value
/// is the address; of a complex value the entry named by the lookup is, which must be a
/// simple value.
pub open spec fn address_from_view(t: LogicalAddressType, v: ComParamView) -> Result<
    u16,
    AddressLookupFailure,
> {
    let (param_name, entry_name) = address_param_names(t);
    match v {
        ComParamView::Simple(text) => match address_from_text(text) {
            Ok(a) => Ok(a),
            Err(m) => Err(AddressLookupFailure::Conversion(m)),
        },
        ComParamView::Complex(entries) => match entry_name {
            None => Err(
                AddressLookupFailure::Database(
                    debug_str(param_name) + " not found in complex value"@,
                ),
            ),
            Some(n) => match view_entry(entries, n) {
                None => Err(AddressLookupFailure::Database(param_name + " not found in complex value"@)),
                Some(ComParamView::Simple(text)) => match address_from_text(text) {
                    Ok(a) => Ok(a),
                    Err(m) => Err(AddressLookupFailure::Conversion(m)),
                },
                Some(ComParamView::Complex(_)) => Err(
                    AddressLookupFailure::Database(param_name + " is not a simple value"@),
                ),
            },
        },
    }
}

/// Whether `r` is the result `f` describes.
pub open spec fn address_result_matches(
    r: Result<u16, DiagServiceError>,
    f: Result<u16, AddressLookupFailure>,
) -> bool {
    match f {
        Ok(a) => r == Ok::<u16, DiagServiceError>(a),
        Err(AddressLookupFailure::Conversion(m)) => r matches Err(
            DiagServiceError::ParameterConversionError(e),
        ) && e@ == m,
        Err(AddressLookupFailure::Database(m)) => r matches Err(DiagServiceError::InvalidDatabase(e))
            && e@ == m,
    }
}

/// A logical address from the text of a simple value; fails with a parameter conversion
/// error when it is no decimal number of 16 bits.
fn address_from_simple(value: &str) -> (r: Result<u16, DiagServiceError>)
    ensures
        match address_from_text(value@) {
            Ok(a) => r == Ok::<u16, DiagServiceError>(a),
            Err(m) => r matches Err(DiagServiceError::ParameterConversionError(e)) && e@ == m,
        },
{
    proof {
        assert(value.spec_bytes() == vstd::utf8::encode_utf8(value@));
    }
    match u16_from_str(value) {
        Ok(a) => Ok(a),
        Err(e) => {
            let mut m = String::new();
            push_text(&mut m, "Invalid address: ");
            push_text(&mut m, e.display.as_str());
            Err(DiagServiceError::ParameterConversionError(m))
        },
    }
}

/// The logical address of type `type_` in the com param value `value` the lookup of its
/// first name gave: a simple value is the address; of a complex value the entry named by the
/// ECU lookup is, which must be a simple value. A text that is no decimal number of 16 bits
/// is a parameter conversion error, a missing or complex entry an invalid database.
pub fn logical_address_from_value(type_: &LogicalAddressType, value: &ComParamValue) -> (r: Result<
    u16,
    DiagServiceError,
>)
    ensures
        address_result_matches(r, address_from_view(*type_, view_of(*value))),
{
    let (param_name, entry_name): (&String, Option<&String>) = match type_ {
        LogicalAddressType::Ecu(table, address) => (table, Some(address)),
        LogicalAddressType::Gateway(p) => (p, None),
        LogicalAddressType::Functional(p) => (p, None),
    };
    match value {
        ComParamValue::Simple(s) => address_from_simple(s.value.as_str()),
        ComParamValue::Complex(entries) => {
            proof {
                lemma_view_of_complex(*entries);
            }
            match entry_name {
                None => {
                    let mut m = debug_text(param_name);
                    push_text(&mut m, " not found in complex value");
                    Err(DiagServiceError::InvalidDatabase(m))
                },
                Some(n) => match find_complex_entry(entries, n.as_str()) {
                    None => {
                        let mut m = text(param_name.as_str());
                        push_text(&mut m, " not found in complex value");
                        Err(DiagServiceError::InvalidDatabase(m))
                    },
                    Some(ComParamValue::Simple(s)) => address_from_simple(s.value.as_str()),
                    Some(ComParamValue::Complex(_)) => {
                        let mut m = text(param_name.as_str());
                        push_text(&mut m, " is not a simple value");
                        Err(DiagServiceError::InvalidDatabase(m))
                    },
                },
            }
        },
    }
}

/// Looks up the logical address of type `type_` for the protocol named `protocol_name` among
/// the com param references `refs` of the base variant: the value of its first com param, as
/// `lookup` finds it, read as `logical_address_from_value` reads it.
pub fn find_logical_address(
    type_: &LogicalAddressType,
    protocol_name: Option<&str>,
    refs: Option<&Vec<ComParamRef>>,
) -> (r: Result<u16, DiagServiceError>)
    requires
        lookup_defined(opt_text(protocol_name), refs_of(refs), address_param_names(*type_).0),
    ensures
        match lookup_outcome(opt_text(protocol_name), refs_of(refs), address_param_names(*type_).0) {
            Ok(v) => address_result_matches(r, address_from_view(*type_, v)),
            Err(LookupFailure::InvalidDatabase(m)) => r matches Err(
                DiagServiceError::InvalidDatabase(e),
            ) && e@ == m,
            Err(LookupFailure::NotFound(m)) => r matches Err(DiagServiceError::NotFound(e)) && e@ == m,
        },
{
    let param_name = match type_ {
        LogicalAddressType::Ecu(table, _) => table,
        LogicalAddressType::Gateway(p) => p,
        LogicalAddressType::Functional(p) => p,
    };
    match lookup(protocol_name, refs, param_name.as_str()) {
        Err(e) => Err(e),
        Ok(v) => logical_address_from_value(type_, &v),
    }
}

/// Which data a loader of a diagnostic description file reads.
#[derive(Clone, Copy, Debug)]
pub struct ProtoLoadConfig {
    pub load_data: bool,
    pub type_: ChunkKind,
    pub name: Option<u32>,
}

/// Kind of a chunk of a diagnostic description file.
#[derive(Clone, Copy, Debug, PartialEq, Eq, Structural)]
pub enum ChunkKind {
    DiagnosticDescription,
    JarFile,
    JarFilePartial,
    EmbeddedFile,
    VendorSpecific,
}

/// A coded constant request parameter, positional information and value only, used to
/// match services against a UDS payload prefix.
#[derive(Debug, Clone, Copy, PartialEq, Eq, Structural)]
pub struct RawCodedConstParam {
    pub byte_position: u32,
    pub value: u32,
    pub bit_length: u32,
}

impl RawCodedConstParam {
    /// Number of bytes the parameter occupies.
    pub fn byte_count(&self) -> (r: usize)
        ensures
            r == bytes_for_bits(self.bit_length as int),
    {
        byte_count_for_bits(self.bit_length as usize)
    }
}

/// The coded type of a request parameter: its base data type (`None` for a type this
/// library does not know) and its standard length data when it has one.
#[derive(Debug, Clone)]
pub struct ParamCodedType {
    pub base_data_type: Option<DataType>,
    pub standard_length: Option<StandardLengthType>,
}

/// A coded constant: its coded value as text and its coded type.
#[derive(Debug, Clone)]
pub struct CodedConst {
    pub coded_value: Option<String>,
    pub diag_coded_type: Option<ParamCodedType>,
}

/// A service parameter as stored in the database.
#[derive(Debug, Clone)]
pub struct Parameter {
    pub short_name: Option<String>,
    pub byte_position: Option<u32>,
    pub bit_position: Option<u32>,
    /// `None` stands for a parameter type the database gives but this library does not know.
    pub param_type: Option<ParamType>,
    pub coded_const: Option<CodedConst>,
}

impl Parameter {
    /// Byte position, 0 when the database gives none.
    pub fn byte_position(&self) -> (r: u32)
        ensures
            r == match self.byte_position {
                Some(p) => p,
                None => 0,
            },
    {
        match self.byte_position {
            Some(p) => p,
            None => 0,
        }
    }

    /// Whether the database gives a byte position (a parameter after a field whose length
    /// comes at run time may have none).
    pub fn has_byte_position(&self) -> (r: bool)
        ensures
            r == self.byte_position is Some,
    {
        self.byte_position.is_some()
    }

    /// Bit position, 0 when the database gives none.
    pub fn bit_position(&self) -> (r: u32)
        ensures
            r == match self.bit_position {
                Some(p) => p,
                None => 0,
            },
    {
        match self.bit_position {
            Some(p) => p,
            None => 0,
        }
    }

    /// The parameter type; fails for a type this library does not know.
    pub fn param_type(&self) -> (r: Result<ParamType, DiagServiceError>)
        ensures
            match self.param_type {
                Some(t) => r == Ok::<ParamType, DiagServiceError>(t),
                None => r matches Err(DiagServiceError::InvalidDatabase(m)) && m@
                    == "Unknown ParamType"@,
            },
    {
        match self.param_type {
            Some(t) => Ok(t),
            None => Err(DiagServiceError::InvalidDatabase(text("Unknown ParamType"))),
        }
    }
}

/// The request of a service.
#[derive(Debug, Clone)]
pub struct Request {
    pub params: Option<Vec<Parameter>>,
}

/// The communication primitive of a service.
#[derive(Debug, Clone)]
pub struct DiagCommInfo {
    pub short_name: Option<String>,
}

/// A diagnostic service of the database.
#[derive(Debug, Clone)]
pub struct DiagService {
    pub diag_comm: Option<DiagCommInfo>,
    pub request: Option<Request>,
}

/// The value and bit length of parameter `p` when it is a plain coded constant (an
/// unmasked, not condensed `A_UINT32` standard length field with a decimal value) at byte
/// `byte_pos`, bit `bit_pos`.
pub open spec fn coded_const_at(p: Parameter, byte_pos: u32, bit_pos: u32) -> Option<(u32, u32)> {
    let bp = match p.byte_position {
        Some(x) => x,
        None => 0u32,
    };
    let bitp = match p.bit_position {
        Some(x) => x,
        None => 0u32,
    };
    if bp != byte_pos || bitp != bit_pos {
        None
    } else {
        match p.coded_const {
            None => None,
            Some(cc) => match cc.diag_coded_type {
                None => None,
                Some(dct) => if dct.base_data_type != Some(DataType::UInt32) {
                    None
                } else {
                    match dct.standard_length {
                        None => None,
                        Some(slt) => if slt.condensed || (slt.bit_mask matches Some(m) && m@.len()
                            > 0) {
                            None
                        } else {
                            match cc.coded_value {
                                None => None,
                                Some(v) => match parse_unsigned(vstd::utf8::encode_utf8(v@), 10, u32::MAX as int) {
                                    None => None,
                                    Some(n) => Some((n as u32, slt.bit_length)),
                                },
                            }
                        },
                    }
                },
            },
        }
    }
}

/// The first plain coded constant of `params` at or after index `i` with the given position.
pub open spec fn first_coded_const(params: Seq<Parameter>, i: int, byte_pos: u32, bit_pos: u32) -> Option<
    (u32, u32),
>
    decreases params.len() - i,
{
    if i >= params.len() || i < 0 {
        None
    } else {
        match coded_const_at(params[i], byte_pos, bit_pos) {
            Some(x) => Some(x),
            None => first_coded_const(params, i + 1, byte_pos, bit_pos),
        }
    }
}

/// The plain coded constant of the request of `s` at the given position, if any.
pub open spec fn request_coded_const(s: DiagService, byte_pos: u32, bit_pos: u32) -> Option<(u32, u32)> {
    match s.request {
        None => None,
        Some(r) => match r.params {
            None => None,
            Some(ps) => first_coded_const(ps@, 0, byte_pos, bit_pos),
        },
    }
}

/// Whether every plain coded constant at bit 0 of the request of `s` covers at least one
/// byte and ends before byte position `u32::MAX`.
pub open spec fn coded_consts_bounded(s: DiagService) -> bool {
    forall|pos: u32|
        #[trigger] request_coded_const(s, pos, 0) matches Some((v, bl)) ==> bl > 0 && pos
            + bytes_for_bits(bl as int) <= u32::MAX
}

/// The coded constants of the request of `s` that follow each other from byte `pos` on.
pub open spec fn sequential_coded_consts(s: DiagService, pos: u32) -> Seq<RawCodedConstParam>
    decreases u32::MAX - pos,
{
    match request_coded_const(s, pos, 0) {
        None => Seq::empty(),
        Some((value, bit_length)) => {
            let step = bytes_for_bits(bit_length as int);
            let here = seq![RawCodedConstParam { byte_position: pos, value, bit_length }];
            if step > 0 && pos + step <= u32::MAX {
                here + sequential_coded_consts(s, (pos + step) as u32)
            } else {
                here
            }
        },
    }
}

/// Parses a coded value as a decimal `u32`.
fn parse_coded_value(v: &String) -> (r: Option<u32>)
    ensures
        r == match parse_unsigned(vstd::utf8::encode_utf8(v@), 10, u32::MAX as int) {
            Some(n) => Some(n as u32),
            None => None::<u32>,
        },
{
    match parse_unsigned_bytes(v.as_str().as_bytes(), 10, u32::MAX as u64) {
        Some(n) => Some(n as u32),
        None => None,
    }
}

fn param_coded_const(p: &Parameter, byte_pos: u32, bit_pos: u32) -> (r: Option<(u32, u32)>)
    ensures
        r == coded_const_at(*p, byte_pos, bit_pos),
{
    if p.byte_position() != byte_pos || p.bit_position() != bit_pos {
        return None;
    }
    let cc = match &p.coded_const {
        Some(c) => c,
        None => {
            return None;
        },
    };
    let dct = match &cc.diag_coded_type {
        Some(d) => d,
        None => {
            return None;
        },
    };
    match dct.base_data_type {
        Some(DataType::UInt32) => {},
        _ => {
            return None;
        },
    }
    let slt = match &dct.standard_length {
        Some(s) => s,
        None => {
            return None;
        },
    };
    let masked = match &slt.bit_mask {
        Some(m) => m.len() > 0,
        None => false,
    };
    if slt.condensed || masked {
        return None;
    }
    let v = match &cc.coded_value {
        Some(v) => v,
        None => {
            return None;
        },
    };
    match parse_coded_value(v) {
        Some(n) => Some((n, slt.bit_length)),
        None => None,
    }
}

impl DiagService {
    /// The value and bit length of the request's plain coded constant at byte `byte_pos`,
    /// bit `bit_pos`: the first parameter there that is an unmasked `A_UINT32` standard
    /// length field with a decimal value.
    pub fn find_request_sid_or_sub_func_param(&self, byte_pos: u32, bit_pos: u32) -> (r: Option<
        (u32, u32),
    >)
        ensures
            r == request_coded_const(*self, byte_pos, bit_pos),
    {
        let request = match &self.request {
            Some(r) => r,
            None => {
                return None;
            },
        };
        let params = match &request.params {
            Some(p) => p,
            None => {
                return None;
            },
        };
        let mut i: usize = 0;
        while i < params.len()
            invariant
                i <= params@.len(),
                request_coded_const(*self, byte_pos, bit_pos) == first_coded_const(
                    params@,
                    0,
                    byte_pos,
                    bit_pos,
                ),
                first_coded_const(params@, 0, byte_pos, bit_pos) == first_coded_const(
                    params@,
                    i as int,
                    byte_pos,
                    bit_pos,
                ),
            decreases params@.len() - i,
        {
            match param_coded_const(&params[i], byte_pos, bit_pos) {
                Some(x) => {
                    assert(first_coded_const(params@, i as int, byte_pos, bit_pos) == Some(x));
                    return Some(x);
                },
                None => {},
            }
            i = i + 1;
        }
        None
    }

    /// The service id: the request's coded constant at byte 0, bit 0, truncated to a byte.
    pub fn request_id(&self) -> (r: Option<u8>)
        ensures
            r == match request_coded_const(*self, 0, 0) {
                Some((sid, _)) => Some(sid as u8),
                None => None::<u8>,
            },
    {
        match self.find_request_sid_or_sub_func_param(0, 0) {
            Some((sid, _)) => Some(sid as u8),
            None => None,
        }
    }

    /// The sub-function id (value and bit length): the request's coded constant at byte 1.
    pub fn request_sub_function_id(&self) -> (r: Option<(u32, u32)>)
        ensures
            r == request_coded_const(*self, 1, 0),
    {
        self.find_request_sid_or_sub_func_param(1, 0)
    }

    /// The communication the service stands for: its short name (also the lookup name) and
    /// the type of its service id. Fails with an invalid database error when the service has
    /// no communication primitive, no name or no service id, and with the error of
    /// [`DiagCommType::from_service_id`] for a service id of no communication type.
    pub fn to_diag_comm(&self) -> (r: Result<DiagComm, DiagServiceError>)
        ensures
            match self.diag_comm {
                None => r matches Err(DiagServiceError::InvalidDatabase(m)) && m@
                    == "DiagService missing diag_comm"@,
                Some(dc) => match dc.short_name {
                    None => r matches Err(DiagServiceError::InvalidDatabase(m)) && m@
                        == "DiagService missing name"@,
                    Some(name) => match request_coded_const(*self, 0, 0) {
                        None => r matches Err(DiagServiceError::InvalidDatabase(m)) && m@
                            == "DiagService missing request_id"@,
                        Some((sid, _)) => match type_of_service(sid as u8) {
                            None => r matches Err(DiagServiceError::InvalidRequest(m)) && m@
                                == "Invalid DiagCommType value: "@ + decimal((sid as u8) as nat),
                            Some(t) => r matches Ok(c) && (c.name@ == name@ && c.type_ == t
                                && (c.lookup_name matches Some(l) && l@ == name@)),
                        },
                    },
                },
            },
    {
        let dc = match &self.diag_comm {
            Some(dc) => dc,
            None => {
                return Err(DiagServiceError::InvalidDatabase(text("DiagService missing diag_comm")));
            },
        };
        let name = match &dc.short_name {
            Some(n) => n.clone(),
            None => {
                return Err(DiagServiceError::InvalidDatabase(text("DiagService missing name")));
            },
        };
        let service_id = match self.request_id() {
            Some(id) => id,
            None => {
                return Err(DiagServiceError::InvalidDatabase(text("DiagService missing request_id")));
            },
        };
        let type_ = match DiagCommType::from_service_id(service_id) {
            Ok(t) => t,
            Err(e) => {
                return Err(e);
            },
        };
        let lookup_name = name.clone();
        Ok(DiagComm { name, type_, lookup_name: Some(lookup_name) })
    }

    /// The request's coded constants that follow each other from byte 0 on, each starting
    /// where the previous one ends; used to match services against a payload prefix.
    pub fn extract_sequential_coded_consts(&self) -> (r: Vec<RawCodedConstParam>)
        requires
            coded_consts_bounded(*self),
        ensures
            r@ == sequential_coded_consts(*self, 0),
    {
        let mut result: Vec<RawCodedConstParam> = Vec::new();
        let mut current_byte_pos: u32 = 0;
        loop
            invariant
                coded_consts_bounded(*self),
                result@ + sequential_coded_consts(*self, current_byte_pos) == sequential_coded_consts(
                    *self,
                    0,
                ),
            decreases u32::MAX - current_byte_pos,
        {
            match self.find_request_sid_or_sub_func_param(current_byte_pos, 0) {
                Some((value, bit_length)) => {
                    let ghost before = result@;
                    result.push(RawCodedConstParam { byte_position: current_byte_pos, value, bit_length });
                    let step = byte_count_for_bits(bit_length as usize) as u32;
                    assert(request_coded_const(*self, current_byte_pos, 0) matches Some((v, bl)) && bl
                        > 0 && current_byte_pos + bytes_for_bits(bl as int) <= u32::MAX);
                    proof {
                        let here = seq![RawCodedConstParam { byte_position: current_byte_pos, value, bit_length }];
                        assert(sequential_coded_consts(*self, current_byte_pos) == here
                            + sequential_coded_consts(*self, (current_byte_pos + step) as u32));
                        assert(result@ == before + here);
                        assert((before + here) + sequential_coded_consts(*self, (current_byte_pos + step) as u32) =~= before + (here + sequential_coded_consts(*self, (current_byte_pos + step) as u32)));
                    }
                    current_byte_pos = current_byte_pos + step;
                },
                None => {
                    assert(result@ + sequential_coded_consts(*self, current_byte_pos) =~= result@);
                    return result;
                },
            }
        }
    }
}

/// The number a NACK code key of the `doip.nack_number_of_retries` map stands for: after a
/// leading `0x` a hex number, else a decimal one, either at most 255 (as `u8::from_str_radix`).
pub open spec fn nack_code_of(name: Seq<u8>) -> Option<nat> {
    if name.len() >= 2 && name[0] == 0x30 && name[1] == 0x78 {
        parse_unsigned(name.subrange(2, name.len() as int), 16, 255)
    } else {
        parse_unsigned(name, 10, 255)
    }
}

/// Maps an entry `(code, retries)` of the `doip.nack_number_of_retries` map to the NACK code
/// as a byte and the number of retries; fails with a parameter conversion error naming the
/// key when it is no number of a byte.
pub fn map_nack_number_of_retries(entry: (&str, &u32)) -> (r: Result<(u8, u32), DiagServiceError>)
    ensures
        match nack_code_of(entry.0.spec_bytes()) {
            Some(code) => r == Ok::<(u8, u32), DiagServiceError>((code as u8, *entry.1)),
            None => r matches Err(DiagServiceError::ParameterConversionError(m)) && m@
                == "Invalid string for doip.nack_number_of_retries: "@ + entry.0@,
        },
{
    let name = entry.0;
    let bytes = name.as_bytes();
    let parsed = if bytes.len() >= 2 && bytes[0] == 0x30 && bytes[1] == 0x78 {
        let digits = vstd::slice::slice_subrange(bytes, 2, bytes.len());
        parse_unsigned_bytes(digits, 16, 255)
    } else {
        parse_unsigned_bytes(bytes, 10, 255)
    };
    match parsed {
        Some(code) => Ok((code as u8, *entry.1)),
        None => {
            let mut m = String::new();
            crate::error::push_text(&mut m, "Invalid string for doip.nack_number_of_retries: ");
            crate::error::push_text(&mut m, name);
            Err(DiagServiceError::ParameterConversionError(m))
        },
    }
}

} // verus!
