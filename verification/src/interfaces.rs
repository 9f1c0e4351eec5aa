//! Diagnostic communication types and UDS service identifiers.
use vstd::prelude::*;
use vstd::string::StringSliceAdditionalSpecFns;
use crate::error::{decimal, push_decimal, push_text, text, texts_of, DiagServiceError};
use crate::payload::ServicePayload;
use core::time::Duration;

pub mod service_ids;

verus! {

/// Bit added to a request service id to form its positive response service id.
pub const UDS_ID_RESPONSE_BITMASK: u8 = 0x40;

/// Mask of the sub-function bits without the suppress-positive-response bit.
pub const DEFAULT_SUBFUNCTION_MASK: u8 = 0x7F;

/// Services whose parameters carry metadata: read and write data by identifier, routine
/// control.
pub const SERVICE_IDS_PARAMETER_META_DATA: [u8; 3] = [
    service_ids::READ_DATA_BY_IDENTIFIER,
    service_ids::WRITE_DATA_BY_IDENTIFIER,
    service_ids::ROUTINE_CONTROL,
];

/// The action a diagnostic communication performs.
#[derive(Debug, Clone, Copy, PartialEq, Eq, Structural)]
pub enum DiagCommAction {
    Read,
    Write,
    Start,
}

/// Name of an action.
pub open spec fn action_name(a: DiagCommAction) -> Seq<char> {
    match a {
        DiagCommAction::Read => "Read"@,
        DiagCommAction::Write => "Write"@,
        DiagCommAction::Start => "Start"@,
    }
}

impl DiagCommAction {
    /// Name of the action.
    pub fn to_string(&self) -> (r: String)
        ensures
            r@ == action_name(*self),
    {
        match self {
            DiagCommAction::Read => text("Read"),
            DiagCommAction::Write => text("Write"),
            DiagCommAction::Start => text("Start"),
        }
    }
}

/// Diagnostic communication types of ASAM SOVD, each mapped to UDS service prefixes.
#[derive(Debug, Clone, Copy, PartialEq, Eq, Structural)]
pub enum DiagCommType {
    /// Service prefix `0x2E`
    Configurations,
    /// Service prefix `0x22`
    Data,
    /// Service prefixes `0x14`, `0x19`
    Faults,
    /// Service prefixes `0x10`, `0x11`, `0x28`, `0x85`, `0x27`, `0x29`
    Modes,
    /// Service prefixes `0x2F`, `0x31`, `0x34`, `0x36`, `0x37`
    Operations,
}

/// The action of a communication type: configurations write, data read, the others start.
pub open spec fn action_of(t: DiagCommType) -> DiagCommAction {
    match t {
        DiagCommType::Configurations => DiagCommAction::Write,
        DiagCommType::Data => DiagCommAction::Read,
        _ => DiagCommAction::Start,
    }
}

/// The UDS service prefixes of a communication type.
pub open spec fn prefixes_of(t: DiagCommType) -> Seq<u8> {
    match t {
        DiagCommType::Configurations => seq![service_ids::WRITE_DATA_BY_IDENTIFIER],
        DiagCommType::Data => seq![service_ids::READ_DATA_BY_IDENTIFIER],
        DiagCommType::Faults => seq![
            service_ids::CLEAR_DIAGNOSTIC_INFORMATION,
            service_ids::READ_DTC_INFORMATION,
        ],
        DiagCommType::Modes => seq![
            service_ids::SESSION_CONTROL,
            service_ids::ECU_RESET,
            service_ids::SECURITY_ACCESS,
            service_ids::COMMUNICATION_CONTROL,
            service_ids::AUTHENTICATION,
            service_ids::CONTROL_DTC_SETTING,
        ],
        DiagCommType::Operations => seq![
            service_ids::INPUT_OUTPUT_CONTROL_BY_IDENTIFIER,
            service_ids::ROUTINE_CONTROL,
            service_ids::REQUEST_DOWNLOAD,
            service_ids::TRANSFER_DATA,
            service_ids::REQUEST_TRANSFER_EXIT,
        ],
    }
}

/// The communication type of a UDS service id, if it has one.
pub open spec fn type_of_service(sid: u8) -> Option<DiagCommType> {
    if sid == service_ids::WRITE_DATA_BY_IDENTIFIER {
        Some(DiagCommType::Configurations)
    } else if sid == service_ids::READ_DATA_BY_IDENTIFIER {
        Some(DiagCommType::Data)
    } else if sid == service_ids::CLEAR_DIAGNOSTIC_INFORMATION || sid
        == service_ids::READ_DTC_INFORMATION {
        Some(DiagCommType::Faults)
    } else if sid == service_ids::SESSION_CONTROL || sid == service_ids::ECU_RESET || sid
        == service_ids::SECURITY_ACCESS || sid == service_ids::COMMUNICATION_CONTROL || sid
        == service_ids::AUTHENTICATION || sid == service_ids::CONTROL_DTC_SETTING {
        Some(DiagCommType::Modes)
    } else if sid == service_ids::INPUT_OUTPUT_CONTROL_BY_IDENTIFIER || sid
        == service_ids::ROUTINE_CONTROL || sid == service_ids::REQUEST_DOWNLOAD || sid
        == service_ids::TRANSFER_DATA || sid == service_ids::REQUEST_TRANSFER_EXIT {
        Some(DiagCommType::Operations)
    } else {
        None
    }
}

/// The service prefixes of a communication type and the type of a service id agree: every
/// prefix of a type has that type, and every service id of a type is one of its prefixes.
pub proof fn law_prefixes_match_service_types(t: DiagCommType, sid: u8)
    ensures
        prefixes_of(t).contains(sid) <==> type_of_service(sid) == Some(t),
{
    if prefixes_of(t).contains(sid) {
        let i = choose|i: int| 0 <= i < prefixes_of(t).len() && prefixes_of(t)[i] == sid;
        assert(type_of_service(prefixes_of(t)[i]) == Some(t));
    }
    if type_of_service(sid) == Some(t) {
        match t {
            DiagCommType::Configurations => assert(prefixes_of(t)[0] == sid),
            DiagCommType::Data => assert(prefixes_of(t)[0] == sid),
            DiagCommType::Faults => {
                if sid == service_ids::CLEAR_DIAGNOSTIC_INFORMATION {
                    assert(prefixes_of(t)[0] == sid);
                } else {
                    assert(prefixes_of(t)[1] == sid);
                }
            },
            DiagCommType::Modes => {
                if sid == service_ids::SESSION_CONTROL {
                    assert(prefixes_of(t)[0] == sid);
                } else if sid == service_ids::ECU_RESET {
                    assert(prefixes_of(t)[1] == sid);
                } else if sid == service_ids::SECURITY_ACCESS {
                    assert(prefixes_of(t)[2] == sid);
                } else if sid == service_ids::COMMUNICATION_CONTROL {
                    assert(prefixes_of(t)[3] == sid);
                } else if sid == service_ids::AUTHENTICATION {
                    assert(prefixes_of(t)[4] == sid);
                } else {
                    assert(prefixes_of(t)[5] == sid);
                }
            },
            DiagCommType::Operations => {
                if sid == service_ids::INPUT_OUTPUT_CONTROL_BY_IDENTIFIER {
                    assert(prefixes_of(t)[0] == sid);
                } else if sid == service_ids::ROUTINE_CONTROL {
                    assert(prefixes_of(t)[1] == sid);
                } else if sid == service_ids::REQUEST_DOWNLOAD {
                    assert(prefixes_of(t)[2] == sid);
                } else if sid == service_ids::TRANSFER_DATA {
                    assert(prefixes_of(t)[3] == sid);
                } else {
                    assert(prefixes_of(t)[4] == sid);
                }
            },
        }
    }
}

impl DiagCommType {
    /// The UDS service prefixes of this type (ASAM SOVD): `0x2E` configurations, `0x22` data,
    /// `0x14`/`0x19` faults, session/reset/security/communication/authentication/DTC setting
    /// modes, and the routine, I/O control and transfer operations.
    pub fn service_prefixes(&self) -> (r: Vec<u8>)
        ensures
            r@ == prefixes_of(*self),
    {
        let r = match self {
            DiagCommType::Configurations => vec![service_ids::WRITE_DATA_BY_IDENTIFIER],
            DiagCommType::Data => vec![service_ids::READ_DATA_BY_IDENTIFIER],
            DiagCommType::Faults => vec![
                service_ids::CLEAR_DIAGNOSTIC_INFORMATION,
                service_ids::READ_DTC_INFORMATION,
            ],
            DiagCommType::Modes => vec![
                service_ids::SESSION_CONTROL,
                service_ids::ECU_RESET,
                service_ids::SECURITY_ACCESS,
                service_ids::COMMUNICATION_CONTROL,
                service_ids::AUTHENTICATION,
                service_ids::CONTROL_DTC_SETTING,
            ],
            DiagCommType::Operations => vec![
                service_ids::INPUT_OUTPUT_CONTROL_BY_IDENTIFIER,
                service_ids::ROUTINE_CONTROL,
                service_ids::REQUEST_DOWNLOAD,
                service_ids::TRANSFER_DATA,
                service_ids::REQUEST_TRANSFER_EXIT,
            ],
        };
        assert(r@ =~= prefixes_of(*self));
        r
    }

    /// The communication type of a UDS service id; fails for a service without one.
    pub fn from_service_id(value: u8) -> (r: Result<DiagCommType, DiagServiceError>)
        ensures
            match type_of_service(value) {
                Some(t) => r == Ok::<DiagCommType, DiagServiceError>(t),
                None => r matches Err(DiagServiceError::InvalidRequest(m)) && m@
                    == "Invalid DiagCommType value: "@ + decimal(value as nat),
            },
    {
        if value == service_ids::WRITE_DATA_BY_IDENTIFIER {
            Ok(DiagCommType::Configurations)
        } else if value == service_ids::READ_DATA_BY_IDENTIFIER {
            Ok(DiagCommType::Data)
        } else if value == service_ids::CLEAR_DIAGNOSTIC_INFORMATION || value
            == service_ids::READ_DTC_INFORMATION {
            Ok(DiagCommType::Faults)
        } else if value == service_ids::SESSION_CONTROL || value == service_ids::ECU_RESET || value
            == service_ids::SECURITY_ACCESS || value == service_ids::COMMUNICATION_CONTROL || value
            == service_ids::AUTHENTICATION || value == service_ids::CONTROL_DTC_SETTING {
            Ok(DiagCommType::Modes)
        } else if value == service_ids::INPUT_OUTPUT_CONTROL_BY_IDENTIFIER || value
            == service_ids::ROUTINE_CONTROL || value == service_ids::REQUEST_DOWNLOAD || value
            == service_ids::TRANSFER_DATA || value == service_ids::REQUEST_TRANSFER_EXIT {
            Ok(DiagCommType::Operations)
        } else {
            let mut m = String::new();
            push_text(&mut m, "Invalid DiagCommType value: ");
            push_decimal(&mut m, value as u64);
            Err(DiagServiceError::InvalidRequest(m))
        }
    }
}

/// A diagnostic communication: its name, type and the name to look it up by.
#[derive(Debug, Clone)]
pub struct DiagComm {
    pub name: String,
    pub type_: DiagCommType,
    pub lookup_name: Option<String>,
}

impl DiagComm {
    /// A communication named `name` and looked up by the same name.
    pub fn new(name: String, type_: DiagCommType) -> (r: Self)
        ensures
            r.name@ == name@,
            r.type_ == type_,
            r.lookup_name matches Some(l) && l@ == name@,
    {
        let lookup = name.clone();
        DiagComm { lookup_name: Some(lookup), name, type_ }
    }

    /// The action the communication performs.
    pub fn action(&self) -> (r: DiagCommAction)
        ensures
            r == action_of(self.type_),
    {
        match self.type_ {
            DiagCommType::Configurations => DiagCommAction::Write,
            DiagCommType::Data => DiagCommAction::Read,
            _ => DiagCommAction::Start,
        }
    }

    /// Description of the communication: its name and action.
    pub fn to_string(&self) -> (r: String)
        ensures
            r@ == "DiagService ( name: "@ + self.name@ + ", operation: "@ + action_name(
                action_of(self.type_),
            ) + " )"@,
    {
        let mut s = String::new();
        push_text(&mut s, "DiagService ( name: ");
        push_text(&mut s, self.name.as_str());
        push_text(&mut s, ", operation: ");
        let a = self.action().to_string();
        push_text(&mut s, a.as_str());
        push_text(&mut s, " )");
        s
    }
}

/// The two steps of a security access.
#[derive(Clone)]
pub enum SecurityAccess {
    RequestSeed(DiagComm),
    SendKey(DiagComm),
}

/// Whether tester present messages are started or stopped.
#[derive(Clone, Debug, Copy, PartialEq, Eq, Structural)]
pub enum TesterPresentMode {
    Start,
    Stop,
}

/// Whether tester present messages go to a functional group or to one ECU.
#[derive(Clone, Debug, PartialEq, Eq)]
pub enum TesterPresentType {
    Functional(String),
    Ecu(String),
}

impl TesterPresentType {
    /// Whether tester present messages go to a functional group.
    pub fn is_functional(&self) -> (r: bool)
        ensures
            r == self is Functional,
    {
        match self {
            TesterPresentType::Functional(_) => true,
            TesterPresentType::Ecu(_) => false,
        }
    }
}

/// A request to start or stop tester present messages.
#[derive(Debug)]
pub struct TesterPresentControlMessage {
    pub mode: TesterPresentMode,
    pub type_: TesterPresentType,
    pub ecu: String,
    /// `None` uses the ECU specific interval.
    pub interval: Option<Duration>,
}

/// State of an ECU.
#[derive(Clone, Copy, Debug, PartialEq, Eq, Structural)]
pub enum EcuState {
    Online,
    Offline,
    NotTested,
    Duplicate,
    Disconnected,
    NoVariantDetected,
}

/// Name of an ECU state.
pub open spec fn ecu_state_name(s: EcuState) -> Seq<char> {
    match s {
        EcuState::Online => "Online"@,
        EcuState::Offline => "Offline"@,
        EcuState::NotTested => "NotTested"@,
        EcuState::Duplicate => "Duplicate"@,
        EcuState::Disconnected => "Disconnected"@,
        EcuState::NoVariantDetected => "NoVariantDetected"@,
    }
}

impl EcuState {
    /// Name of the state.
    pub fn to_string(&self) -> (r: String)
        ensures
            r@ == ecu_state_name(*self),
    {
        match self {
            EcuState::Online => text("Online"),
            EcuState::Offline => text("Offline"),
            EcuState::NotTested => text("NotTested"),
            EcuState::Duplicate => text("Duplicate"),
            EcuState::Disconnected => text("Disconnected"),
            EcuState::NoVariantDetected => text("NoVariantDetected"),
        }
    }
}

/// The variant an ECU was detected as.
#[derive(Clone)]
pub struct EcuVariant {
    pub name: Option<String>,
    pub is_base_variant: bool,
    /// Whether the variant was chosen as a fallback when no specific variant matched.
    pub is_fallback: bool,
    pub state: EcuState,
    pub logical_address: u16,
}

/// Communication protocols.
#[derive(Debug, Clone, Copy, PartialEq, Eq, Structural)]
pub enum Protocol {
    DoIp,
    DoIpDobt,
}

impl Protocol {
    /// Protocol name as used by the database.
    pub fn value(&self) -> (r: &'static str)
        ensures
            r@ == match self {
                Protocol::DoIp => "UDS_Ethernet_DoIP"@,
                Protocol::DoIpDobt => "UDS_Ethernet_DoIP_DOBT"@,
            },
    {
        match self {
            Protocol::DoIp => "UDS_Ethernet_DoIP",
            Protocol::DoIpDobt => "UDS_Ethernet_DoIP_DOBT",
        }
    }
}

/// Kind of an ECU manager.
#[derive(PartialEq, Eq, Debug, Clone, Copy, Structural)]
pub enum EcuManagerType {
    Ecu,
    FunctionalDescription,
}

/// A message of an ECU gateway.
#[derive(Debug, Clone)]
pub enum UdsResponse {
    Message(ServicePayload),
    ResponsePending(u16),
    TesterPresentNRC(u8),
    BusyRepeatRequest(u16),
    TemporarilyNotAvailable(u16),
}

/// Parameters of a transmission through a gateway.
#[derive(Debug)]
pub struct TransmissionParameters {
    pub gateway_address: u16,
    pub timeout_ack: Duration,
    pub ecu_name: String,
    pub repeat_request_count_transmission: u32,
}

/// Information about one scale of a DOP computation method.
#[derive(Debug, Clone)]
pub struct CompuScaleInfo {
    pub short_label: Option<String>,
    pub lower_limit: Option<u64>,
    pub upper_limit: Option<u64>,
    pub compu_const_vt: Option<String>,
}

/// Parameter type with constant value metadata.
#[derive(Debug, Clone)]
pub enum ParameterTypeMetadata {
    /// CODED-CONST parameter with its fixed value
    CodedConst { coded_value: String },
    /// PHYS-CONST parameter with its constant value and its coded value from a text table
    PhysConst { phys_constant_value: String, coded_value: Option<u64> },
    /// MATCHING-REQUEST-PARAM copying `byte_length` bytes from the request
    MatchingRequestParam { byte_length: u32 },
    /// VALUE or other dynamic parameter
    Value {
        physical_default_value: Option<String>,
        coded_default_value: Option<u64>,
        compu_scales: Vec<CompuScaleInfo>,
    },
}

impl ParameterTypeMetadata {
    /// A value parameter without default and scales.
    pub fn default() -> (r: Self)
        ensures
            r matches ParameterTypeMetadata::Value {
                physical_default_value: None,
                coded_default_value: None,
                compu_scales: s,
            } && s@.len() == 0,
    {
        ParameterTypeMetadata::Value {
            physical_default_value: None,
            coded_default_value: None,
            compu_scales: Vec::new(),
        }
    }
}

/// Metadata of a service parameter.
#[derive(Debug, Clone)]
pub struct ServiceParameterMetadata {
    pub name: String,
    pub semantic: Option<String>,
    pub param_type: ParameterTypeMetadata,
}

/// Metadata of a positive response parameter with its byte layout.
#[derive(Debug, Clone)]
pub struct ResponseParameterInfo {
    pub name: String,
    pub semantic: Option<String>,
    pub param_type: ParameterTypeMetadata,
    pub byte_position: u32,
    pub bit_position: u32,
    /// Byte size of a standard length parameter, `None` for a variable length one.
    pub byte_size: Option<u32>,
}

/// A case of a multiplexer.
#[derive(Debug, Clone)]
pub struct MuxCaseInfo {
    pub short_name: String,
    pub long_name: Option<String>,
    pub lower_limit: Option<String>,
    pub upper_limit: Option<String>,
}

/// Errors while setting up the DoIP gateway.
#[derive(Debug)]
pub enum DoipGatewaySetupError {
    InvalidAddress(String),
    SocketCreationFailed(String),
    PortBindFailed(String),
    InvalidConfiguration(String),
    ResourceError(String),
    ServerError(String),
}

/// Message of a gateway setup error.
pub open spec fn setup_error_message(e: DoipGatewaySetupError) -> Seq<char> {
    match e {
        DoipGatewaySetupError::InvalidAddress(m) => "Invalid address: `"@ + m@ + "`"@,
        DoipGatewaySetupError::SocketCreationFailed(m) => "Socket error: `"@ + m@ + "`"@,
        DoipGatewaySetupError::PortBindFailed(m) => "Port error: `"@ + m@ + "`"@,
        DoipGatewaySetupError::InvalidConfiguration(m) => "Configuration error: `"@ + m@ + "`"@,
        DoipGatewaySetupError::ResourceError(m) => "Resource error: `"@ + m@ + "`"@,
        DoipGatewaySetupError::ServerError(m) => "Server error: `"@ + m@ + "`"@,
    }
}

impl DoipGatewaySetupError {
    /// The message of the error.
    pub fn to_string(&self) -> (r: String)
        ensures
            r@ == setup_error_message(*self),
    {
        let mut s = String::new();
        let m = match self {
            DoipGatewaySetupError::InvalidAddress(m) => {
                push_text(&mut s, "Invalid address: `");
                m
            },
            DoipGatewaySetupError::SocketCreationFailed(m) => {
                push_text(&mut s, "Socket error: `");
                m
            },
            DoipGatewaySetupError::PortBindFailed(m) => {
                push_text(&mut s, "Port error: `");
                m
            },
            DoipGatewaySetupError::InvalidConfiguration(m) => {
                push_text(&mut s, "Configuration error: `");
                m
            },
            DoipGatewaySetupError::ResourceError(m) => {
                push_text(&mut s, "Resource error: `");
                m
            },
            DoipGatewaySetupError::ServerError(m) => {
                push_text(&mut s, "Server error: `");
                m
            },
        };
        push_text(&mut s, m.as_str());
        push_text(&mut s, "`");
        s
    }
}

/// Position of an affix in a service name.
#[derive(PartialEq, Eq, Clone, Copy, Debug, Structural)]
pub enum DiagnosticServiceAffixPosition {
    Prefix,
    Suffix,
}

/// Status of an execution.
#[derive(Debug, Clone, Copy, PartialEq, Eq, Structural)]
pub enum ExecutionStatus {
    Running,
    Completed,
    Failed,
}

/// Capabilities of an execution.
#[derive(Debug, Clone, Copy, PartialEq, Eq, Structural)]
pub enum Capability {
    Execute,
    Stop,
    Freeze,
    Reset,
    Status,
}

/// Status of a data transfer.
#[derive(Debug, Clone, Copy, PartialEq, Eq, Structural)]
pub enum DataTransferStatus {
    Running,
    Aborted,
    Finished,
    Queued,
}

/// Error of a data transfer.
#[derive(Debug, Clone)]
pub struct DataTransferError {
    pub text: String,
}

/// Special data: a single datum or a group of them.
#[derive(Debug)]
pub enum SdSdg {
    /// A single special data: value, semantic information and text information.
    Sd { value: Option<String>, si: Option<String>, ti: Option<String> },
    /// A group with its caption, semantic information and members.
    Sdg { caption: Option<String>, si: Option<String>, sdgs: Vec<SdSdg> },
}

/// Communication addresses of an ECU, provided by its implementation.
pub trait EcuAddressProvider {
    fn tester_address(&self) -> u16;

    fn logical_address(&self) -> u16;

    fn logical_gateway_address(&self) -> u16;

    fn logical_functional_address(&self) -> u16;

    fn ecu_name(&self) -> String;
}

/// The addresses an ECU is reached at: its name, its logical address and the logical address
/// of the gateway in front of it.
#[derive(Debug, Clone)]
pub struct EcuAddresses {
    pub name: String,
    pub logical_address: u16,
    pub gateway_address: u16,
}

/// Whether two ECUs are reached at the same logical address behind the same gateway.
pub open spec fn same_address(a: EcuAddresses, b: EcuAddresses) -> bool {
    a.logical_address == b.logical_address && a.gateway_address == b.gateway_address
}

/// The names, in order, of the ECUs among the first `n` of `ecus` that share the address of
/// ECU `i` under another name.
pub open spec fn address_sharers(ecus: Seq<EcuAddresses>, i: int, n: int) -> Seq<Seq<char>>
    decreases n,
{
    if n <= 0 {
        Seq::empty()
    } else {
        let prev = address_sharers(ecus, i, n - 1);
        let e = ecus[n - 1];
        if same_address(e, ecus[i]) && e.name@ != ecus[i].name@ {
            prev.push(e.name@)
        } else {
            prev
        }
    }
}

/// An ECU among the first `n` that shares the address of ECU `i` under another name is among
/// its sharers.
proof fn lemma_sharer_listed(ecus: Seq<EcuAddresses>, i: int, k: int, n: int)
    requires
        0 <= k < n <= ecus.len(),
        same_address(ecus[k], ecus[i]),
        ecus[k].name@ != ecus[i].name@,
    ensures
        address_sharers(ecus, i, n).contains(ecus[k].name@),
    decreases n,
{
    let prev = address_sharers(ecus, i, n - 1);
    if k == n - 1 {
        assert(address_sharers(ecus, i, n) == prev.push(ecus[k].name@));
        assert(address_sharers(ecus, i, n)[prev.len() as int] == ecus[k].name@);
    } else {
        lemma_sharer_listed(ecus, i, k, n - 1);
        let j = choose|j: int| 0 <= j < prev.len() && prev[j] == ecus[k].name@;
        let e = ecus[n - 1];
        if same_address(e, ecus[i]) && e.name@ != ecus[i].name@ {
            assert(address_sharers(ecus, i, n)[j] == ecus[k].name@);
        }
    }
}

/// ECUs reached at the same address behind the same gateway under different names duplicate
/// each other: each is among the sharers of the other.
pub proof fn law_duplicates_are_mutual(ecus: Seq<EcuAddresses>, i: int, j: int)
    requires
        0 <= i < ecus.len(),
        0 <= j < ecus.len(),
        same_address(ecus[i], ecus[j]),
        ecus[i].name@ != ecus[j].name@,
    ensures
        address_sharers(ecus, i, ecus.len() as int).contains(ecus[j].name@),
        address_sharers(ecus, j, ecus.len() as int).contains(ecus[i].name@),
{
    lemma_sharer_listed(ecus, i, j, ecus.len() as int);
    lemma_sharer_listed(ecus, j, i, ecus.len() as int);
}

/// For each ECU, the names of the other ECUs reached at the same logical address behind the
/// same gateway, when there are any: ECUs that duplicate each other.
pub fn duplicate_ecus_by_address(ecus: &Vec<EcuAddresses>) -> (r: Vec<Option<Vec<String>>>)
    ensures
        r@.len() == ecus@.len(),
        forall|i: int|
            0 <= i < ecus@.len() ==> match #[trigger] r@[i] {
                None => address_sharers(ecus@, i, ecus@.len() as int).len() == 0,
                Some(v) => texts_of(v@) == address_sharers(ecus@, i, ecus@.len() as int)
                    && v@.len() > 0,
            },
{
    let n = ecus.len();
    let mut r: Vec<Option<Vec<String>>> = Vec::new();
    let mut i: usize = 0;
    while i < n
        invariant
            n == ecus@.len(),
            i <= n,
            r@.len() == i,
            forall|k: int|
                0 <= k < i ==> match #[trigger] r@[k] {
                    None => address_sharers(ecus@, k, n as int).len() == 0,
                    Some(v) => texts_of(v@) == address_sharers(ecus@, k, n as int) && v@.len()
                        > 0,
                },
        decreases n - i,
    {
        let mut others: Vec<String> = Vec::new();
        let mut j: usize = 0;
        while j < n
            invariant
                n == ecus@.len(),
                i < n,
                j <= n,
                texts_of(others@) == address_sharers(ecus@, i as int, j as int),
            decreases n - j,
        {
            let e = &ecus[j];
            let me = &ecus[i];
            if e.logical_address == me.logical_address && e.gateway_address == me.gateway_address
                && !crate::text::str_eq(e.name.as_str(), me.name.as_str()) {
                let ghost before = others@;
                others.push(e.name.clone());
                proof {
                    assert(texts_of(others@) =~= texts_of(before).push(e.name@));
                }
            }
            j = j + 1;
        }
        let entry = if others.len() > 0 {
            Some(others)
        } else {
            None
        };
        r.push(entry);
        i = i + 1;
    }
    r
}

/// Whether the bytes `a` come before the bytes `b` in lexicographic order, a proper prefix
/// before the longer sequence: the order of std's strings by their bytes.
pub open spec fn bytes_lex_less(a: Seq<u8>, b: Seq<u8>) -> bool
    decreases a.len(),
{
    if a.len() == 0 {
        b.len() > 0
    } else if b.len() == 0 {
        false
    } else if a[0] != b[0] {
        a[0] < b[0]
    } else {
        bytes_lex_less(a.drop_first(), b.drop_first())
    }
}

/// Whether the bytes `a` come before the bytes `b` in lexicographic order.
fn bytes_less(a: &[u8], b: &[u8]) -> (r: bool)
    ensures
        r == bytes_lex_less(a@, b@),
{
    let mut i: usize = 0;
    assert(a@.subrange(0, a@.len() as int) =~= a@);
    assert(b@.subrange(0, b@.len() as int) =~= b@);
    while i < a.len() && i < b.len()
        invariant
            i <= a@.len(),
            i <= b@.len(),
            bytes_lex_less(a@, b@) == bytes_lex_less(
                a@.subrange(i as int, a@.len() as int),
                b@.subrange(i as int, b@.len() as int),
            ),
        decreases a@.len() - i,
    {
        let ghost sa = a@.subrange(i as int, a@.len() as int);
        let ghost sb = b@.subrange(i as int, b@.len() as int);
        assert(sa[0] == a@[i as int]);
        assert(sb[0] == b@[i as int]);
        if a[i] != b[i] {
            return a[i] < b[i];
        }
        assert(sa.drop_first() =~= a@.subrange(i + 1, a@.len() as int));
        assert(sb.drop_first() =~= b@.subrange(i + 1, b@.len() as int));
        i = i + 1;
    }
    i == a.len() && i < b.len()
}

/// What becomes of an ECU database loaded under a name that may be taken already.
#[derive(Debug, Clone, Copy, PartialEq, Eq, Structural)]
pub enum DuplicateEcuAction {
    /// No ECU of that name is loaded: the new one is added.
    Insert,
    /// The loaded ECU of that name has the same addresses and an older revision: the new one
    /// replaces it.
    Replace,
    /// The loaded ECU of that name has the same addresses and the same or a newer revision:
    /// it stays, and the new one is dropped.
    KeepExisting,
    /// The loaded ECU of that name has other addresses: it is marked invalid, and the new one
    /// is dropped.
    MarkExistingInvalid,
}

/// The action for a newly loaded ECU of revision `new_revision`, given for a loaded ECU of
/// the same name whether its logical addresses equal the new one's and its revision: none
/// loaded, insert; other addresses, mark the loaded one invalid; else replace it when its
/// revision comes before the new one in the order of strings, and keep it otherwise.
pub fn duplicate_ecu_action(existing: Option<(bool, &str)>, new_revision: &str) -> (r:
    DuplicateEcuAction)
    ensures
        match existing {
            None => r == DuplicateEcuAction::Insert,
            Some((same_address, revision)) => if !same_address {
                r == DuplicateEcuAction::MarkExistingInvalid
            } else if bytes_lex_less(revision.spec_bytes(), new_revision.spec_bytes()) {
                r == DuplicateEcuAction::Replace
            } else {
                r == DuplicateEcuAction::KeepExisting
            },
        },
{
    match existing {
        None => DuplicateEcuAction::Insert,
        Some((same_address, revision)) => {
            if !same_address {
                DuplicateEcuAction::MarkExistingInvalid
            } else if bytes_less(revision.as_bytes(), new_revision.as_bytes()) {
                DuplicateEcuAction::Replace
            } else {
                DuplicateEcuAction::KeepExisting
            }
        },
    }
}

} // verus!
