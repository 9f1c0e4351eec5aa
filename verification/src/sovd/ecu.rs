//! SOVD data of an ECU component: its state and variant, data, special data, jobs, faults
//! and data transfers.
use vstd::prelude::*;

verus! {

/// State of an ECU as SOVD reports it.
#[derive(Debug, Clone, Copy, PartialEq, Eq, Structural)]
pub enum State {
    Online,
    Offline,
    NotTested,
    Duplicate,
    Disconnected,
    NoVariantDetected,
}

/// The variant of an ECU.
#[derive(Debug, Clone)]
pub struct Variant {
    pub name: String,
    pub is_base_variant: bool,
    pub state: State,
    pub logical_address: String,
}

/// A data item of a component.
#[derive(Debug, Clone)]
pub struct ComponentDataInfo {
    pub category: String,
    pub id: String,
    pub name: String,
}

/// Special data: a single datum or a group of them.
#[derive(Debug)]
pub enum SdSdg {
    Sd { value: Option<String>, si: Option<String>, ti: Option<String> },
    Sdg { caption: Option<String>, si: Option<String>, sdgs: Vec<SdSdg> },
}

/// The special data groups of a service.
#[derive(Debug)]
pub struct ServiceSdgs {
    pub sdgs: Vec<SdSdg>,
}

/// A configuration item of a component.
#[derive(Debug, Clone)]
pub struct ComponentItem {
    pub id: String,
    pub name: String,
    pub configurations_type: String,
    pub service_abstract: Vec<String>,
}

/// Error of a data transfer.
#[derive(Debug, Clone)]
pub struct DataTransferError {
    pub text: String,
}

/// Status of a data transfer.
#[derive(Debug, Clone, Copy, PartialEq, Eq, Structural)]
pub enum DataTransferStatus {
    Running,
    Aborted,
    Finished,
    Queued,
}

/// Long name of a job parameter with its text id.
#[derive(Debug, Clone)]
pub struct LongName {
    pub value: Option<String>,
    pub ti: Option<String>,
}

/// A parameter of a single ECU job.
#[derive(Debug, Clone)]
pub struct Param {
    pub short_name: String,
    pub physical_default_value: Option<String>,
    pub semantic: Option<String>,
    pub long_name: Option<LongName>,
}

/// A code file of a single ECU job.
#[derive(Debug, Clone)]
pub struct ProgCode {
    pub code_file: String,
    pub encryption: Option<String>,
    pub syntax: Option<String>,
    pub revision: String,
    pub entrypoint: String,
}

/// Whether a long name is left out of a job parameter: when it is missing or has neither a
/// value nor a text id.
pub fn skip_long_name_if_none_or_empty(long_name: &Option<LongName>) -> (r: bool)
    ensures
        r == match long_name {
            Some(ln) => ln.value is None && ln.ti is None,
            None => true,
        },
{
    match long_name {
        Some(ln) => ln.value.is_none() && ln.ti.is_none(),
        None => true,
    }
}

/// A fault as SOVD reports it.
#[derive(Debug, Clone)]
pub struct Fault {
    pub code: String,
    pub scope: Option<String>,
    pub display_code: Option<String>,
    pub fault_name: String,
    pub severity: Option<u32>,
    pub status: Option<FaultStatus>,
}

/// The status flags of a fault, each optional, and its mask as text.
#[derive(Debug, Clone)]
pub struct FaultStatus {
    pub test_failed: Option<bool>,
    pub test_failed_this_operation_cycle: Option<bool>,
    pub pending_dtc: Option<bool>,
    pub confirmed_dtc: Option<bool>,
    pub test_not_completed_since_last_clear: Option<bool>,
    pub test_failed_since_last_clear: Option<bool>,
    pub test_not_completed_this_operation_cycle: Option<bool>,
    pub warning_indicator_requested: Option<bool>,
    pub mask: Option<String>,
}

/// Query of a single fault: whether to include extended and snapshot data and the schema,
/// and the memory selection of a user defined memory.
#[derive(Debug, Clone, Copy)]
pub struct DtcIdQuery {
    pub include_extended_data: bool,
    pub include_snapshot_data: bool,
    pub include_schema: bool,
    pub memory_selection: Option<u8>,
}

} // verus!
