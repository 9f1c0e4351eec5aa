//! Data operations (DOPs) of a diagnostic database: what kind of data a parameter holds and
//! how it is laid out, with the kind-specific data that a database may also leave out.
use vstd::prelude::*;
use crate::coded_type::DiagCodedType;
use crate::database::{CompuCategory, Limit, Parameter, PhysicalType};
use crate::error::{text, DiagServiceError};

verus! {

/// A DOP of a plain value: its coded type, physical type and computation category.
#[derive(Debug)]
pub struct NormalDop {
    pub diag_coded_type: Option<DiagCodedType>,
    pub physical_type: Option<PhysicalType>,
    pub compu_category: Option<CompuCategory>,
}

/// A DOP of a repeated structure that runs to the end of the PDU.
#[derive(Debug)]
pub struct EndOfPdu {
    pub min_number_of_items: Option<u32>,
    pub max_number_of_items: Option<u32>,
    pub basic_structure: Option<Box<DataOperation>>,
}

/// A DOP of a structure: its parameters and byte size.
#[derive(Debug)]
pub struct StructureDop {
    pub params: Vec<Parameter>,
    pub byte_size: Option<u32>,
    pub is_visible: bool,
}

/// A DOP describing environment data; this library reads nothing of it.
#[derive(Debug)]
pub struct EnvDataDescDop {}

/// A DOP of environment data; this library reads nothing of it.
#[derive(Debug)]
pub struct EnvDataDop {}

/// A DOP of a diagnostic trouble code with its coded type.
#[derive(Debug)]
pub struct DtcDop {
    pub diag_coded_type: Option<DiagCodedType>,
    pub is_visible: bool,
}

/// A DOP of a field with a fixed number of items; this library reads nothing of it.
#[derive(Debug)]
pub struct StaticFieldDop {}

/// A case of a multiplexer: its name, limits and structure.
#[derive(Debug)]
pub struct Case {
    pub short_name: Option<String>,
    pub lower_limit: Option<Limit>,
    pub upper_limit: Option<Limit>,
    pub structure: Option<Box<DataOperation>>,
}

/// The case a multiplexer takes when no other case matches.
#[derive(Debug)]
pub struct DefaultCase {
    pub short_name: Option<String>,
    pub structure: Option<Box<DataOperation>>,
}

/// A multiplexer DOP: its byte position, cases and default case.
#[derive(Debug)]
pub struct MuxDop {
    pub byte_position: u32,
    pub cases: Vec<Case>,
    pub default_case: Option<DefaultCase>,
    pub is_visible: bool,
}

/// A DOP of a field whose number of items is read from the payload.
#[derive(Debug)]
pub struct DynamicLengthDop {
    pub offset: u32,
    pub number_of_items_byte_position: u32,
    pub number_of_items_bit_position: u32,
    pub basic_structure: Option<Box<DataOperation>>,
}

/// The kind of a DOP as the database tags it, with the kind-specific data when the database
/// holds it (`None` where the tag names a kind whose data is missing).
#[derive(Debug)]
pub enum SpecificDopData {
    /// The database names no kind.
    NONE,
    NormalDOP(Option<NormalDop>),
    EndOfPduField(Option<EndOfPdu>),
    Structure(Option<StructureDop>),
    EnvDataDesc(Option<EnvDataDescDop>),
    EnvData(Option<EnvDataDop>),
    DTCDOP(Option<DtcDop>),
    StaticField(Option<StaticFieldDop>),
    MUXDOP(Option<MuxDop>),
    DynamicLengthField(Option<DynamicLengthDop>),
    /// A kind this library does not know.
    Unknown,
}

/// A data operation of the database.
#[derive(Debug)]
pub struct DataOperation {
    pub short_name: Option<String>,
    pub specific_data: SpecificDopData,
}

/// The kind-specific data of a DOP, borrowed from it.
#[derive(Debug)]
pub enum DataOperationVariant<'a> {
    Normal(&'a NormalDop),
    EndOfPdu(&'a EndOfPdu),
    Structure(&'a StructureDop),
    EnvDataDesc(&'a EnvDataDescDop),
    EnvData(&'a EnvDataDop),
    Dtc(&'a DtcDop),
    StaticField(&'a StaticFieldDop),
    Mux(&'a MuxDop),
    DynamicLengthField(&'a DynamicLengthDop),
}

/// The name of a known DOP kind whose data is missing, as the error message gives it.
pub open spec fn missing_kind_name(d: SpecificDopData) -> Option<Seq<char>> {
    match d {
        SpecificDopData::NormalDOP(None) => Some("NormalDOP"@),
        SpecificDopData::EndOfPduField(None) => Some("EndOfPduField"@),
        SpecificDopData::Structure(None) => Some("Structure"@),
        SpecificDopData::EnvDataDesc(None) => Some("EnvDataDesc"@),
        SpecificDopData::EnvData(None) => Some("EnvData"@),
        SpecificDopData::DTCDOP(None) => Some("DTCDOP"@),
        SpecificDopData::StaticField(None) => Some("StaticField"@),
        SpecificDopData::MUXDOP(None) => Some("MUXDOP"@),
        SpecificDopData::DynamicLengthField(None) => Some("DynamicLengthField"@),
        _ => None,
    }
}

/// Whether `v` borrows exactly the kind-specific data held by `d`.
pub open spec fn variant_holds(d: SpecificDopData, v: DataOperationVariant) -> bool {
    match d {
        SpecificDopData::NormalDOP(Some(x)) => v matches DataOperationVariant::Normal(y) && *y == x,
        SpecificDopData::EndOfPduField(Some(x)) => v matches DataOperationVariant::EndOfPdu(y)
            && *y == x,
        SpecificDopData::Structure(Some(x)) => v matches DataOperationVariant::Structure(y) && *y
            == x,
        SpecificDopData::EnvDataDesc(Some(x)) => v matches DataOperationVariant::EnvDataDesc(y)
            && *y == x,
        SpecificDopData::EnvData(Some(x)) => v matches DataOperationVariant::EnvData(y) && *y == x,
        SpecificDopData::DTCDOP(Some(x)) => v matches DataOperationVariant::Dtc(y) && *y == x,
        SpecificDopData::StaticField(Some(x)) => v matches DataOperationVariant::StaticField(y)
            && *y == x,
        SpecificDopData::MUXDOP(Some(x)) => v matches DataOperationVariant::Mux(y) && *y == x,
        SpecificDopData::DynamicLengthField(Some(x)) => v matches DataOperationVariant::DynamicLengthField(
            y,
        ) && *y == x,
        _ => false,
    }
}

fn missing(kind: &str) -> (r: DiagServiceError)
    ensures
        r matches DiagServiceError::InvalidDatabase(m) && m@ == "Failed to get "@ + kind@
            + " specific data"@,
{
    let mut m = String::new();
    crate::error::push_text(&mut m, "Failed to get ");
    crate::error::push_text(&mut m, kind);
    crate::error::push_text(&mut m, " specific data");
    DiagServiceError::InvalidDatabase(m)
}

impl DataOperation {
    /// The kind-specific data of the DOP. Fails with a parameter conversion error when the
    /// database names no kind or one this library does not know, and with an invalid
    /// database error when the data of the named kind is missing.
    pub fn variant(&self) -> (r: Result<DataOperationVariant<'_>, DiagServiceError>)
        ensures
            self.specific_data is NONE ==> (r matches Err(
                DiagServiceError::ParameterConversionError(m),
            ) && m@ == "DataOperation has no specific data type"@),
            self.specific_data is Unknown ==> (r matches Err(
                DiagServiceError::ParameterConversionError(m),
            ) && m@ == "Unknown DataOperation specific data type"@),
            missing_kind_name(self.specific_data) matches Some(k) ==> (r matches Err(
                DiagServiceError::InvalidDatabase(m),
            ) && m@ == "Failed to get "@ + k + " specific data"@),
            !(self.specific_data is NONE) && !(self.specific_data is Unknown) && missing_kind_name(
                self.specific_data,
            ) is None ==> (r matches Ok(v) && variant_holds(self.specific_data, v)),
    {
        match &self.specific_data {
            SpecificDopData::NONE => Err(
                DiagServiceError::ParameterConversionError(
                    text("DataOperation has no specific data type"),
                ),
            ),
            SpecificDopData::NormalDOP(d) => match d {
                Some(x) => Ok(DataOperationVariant::Normal(x)),
                None => Err(missing("NormalDOP")),
            },
            SpecificDopData::EndOfPduField(d) => match d {
                Some(x) => Ok(DataOperationVariant::EndOfPdu(x)),
                None => Err(missing("EndOfPduField")),
            },
            SpecificDopData::Structure(d) => match d {
                Some(x) => Ok(DataOperationVariant::Structure(x)),
                None => Err(missing("Structure")),
            },
            SpecificDopData::EnvDataDesc(d) => match d {
                Some(x) => Ok(DataOperationVariant::EnvDataDesc(x)),
                None => Err(missing("EnvDataDesc")),
            },
            SpecificDopData::EnvData(d) => match d {
                Some(x) => Ok(DataOperationVariant::EnvData(x)),
                None => Err(missing("EnvData")),
            },
            SpecificDopData::DTCDOP(d) => match d {
                Some(x) => Ok(DataOperationVariant::Dtc(x)),
                None => Err(missing("DTCDOP")),
            },
            SpecificDopData::StaticField(d) => match d {
                Some(x) => Ok(DataOperationVariant::StaticField(x)),
                None => Err(missing("StaticField")),
            },
            SpecificDopData::MUXDOP(d) => match d {
                Some(x) => Ok(DataOperationVariant::Mux(x)),
                None => Err(missing("MUXDOP")),
            },
            SpecificDopData::DynamicLengthField(d) => match d {
                Some(x) => Ok(DataOperationVariant::DynamicLengthField(x)),
                None => Err(missing("DynamicLengthField")),
            },
            SpecificDopData::Unknown => Err(
                DiagServiceError::ParameterConversionError(
                    text("Unknown DataOperation specific data type"),
                ),
            ),
        }
    }
}

impl DefaultCase {
    /// The structure of the default case, when it has one that is a structure DOP with its
    /// data.
    pub fn case_struct_dop(&self) -> (r: Option<&StructureDop>)
        ensures
            match self.structure {
                Some(d) => match d.specific_data {
                    SpecificDopData::Structure(Some(s)) => r matches Some(x) && *x == s,
                    _ => r is None,
                },
                None => r is None,
            },
    {
        match &self.structure {
            Some(d) => match &d.specific_data {
                SpecificDopData::Structure(Some(s)) => Some(s),
                _ => None,
            },
            None => None,
        }
    }
}

} // verus!
