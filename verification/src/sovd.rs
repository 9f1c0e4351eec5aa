//! The data of the SOVD web interface: error codes, resources, files, locks and queries.
use vstd::prelude::*;

pub mod ecu;
pub mod modes;
pub mod operations;

verus! {

/// The error codes of SOVD.
#[derive(Debug, Clone, Copy, PartialEq, Eq, Structural)]
pub enum ErrorCode {
    /// Details are given in the vendor code.
    VendorSpecific,
    /// The component (e.g. an ECU) was queried but did not respond.
    NotResponding,
    /// The component answered with an error.
    ErrorResponse,
    /// The signature of the data in the payload is invalid.
    InvalidSignature,
    /// The request lacks information the method needs.
    IncompleteRequest,
    /// The response of the component could not be processed.
    InvalidResponseContent,
    /// The SOVD server is not configured correctly.
    SovdServerMisconfigured,
    /// An internal error occurred in the SOVD server.
    SovdServerFailure,
    /// The client may not access the resource.
    InsufficientAccessRights,
    /// The preconditions of the method are not fulfilled.
    PreconditionsNotFulfilled,
    /// An update is in progress.
    UpdateProcessInProgress,
    /// Automatic installation of updates is not supported.
    UpdateAutomatedNotSupported,
    /// An update is being prepared.
    UpdatePreparationInProgress,
    /// Another update is being executed.
    UpdateExecutionInProgress,
}

/// A resource: its link, id and name.
#[derive(Debug, Clone)]
pub struct Resource {
    pub href: String,
    pub id: Option<String>,
    pub name: String,
}

/// Whether a response should include its JSON schema.
#[derive(Debug, Clone, Copy)]
pub struct IncludeSchemaQuery {
    pub include_schema: bool,
}

/// Hash algorithms of files.
#[derive(Debug, Clone, Copy, PartialEq, Eq, Structural)]
pub enum HashAlgorithm {
    /// No hash algorithm (serialised as `None`).
    NoHash,
}

/// A file offered for download or flashing.
#[derive(Debug, Clone)]
pub struct File {
    pub hash: Option<String>,
    pub hash_algorithm: Option<HashAlgorithm>,
    pub id: String,
    pub mimetype: String,
    pub size: u64,
    pub origin_path: String,
}

/// An item of a mode collection.
#[derive(Debug, Clone)]
pub struct ModeCollectionItem {
    pub id: String,
    pub name: Option<String>,
    pub translation_id: Option<String>,
}

/// A lock of an entity; `owned` tells whether the requesting client holds it.
#[derive(Debug, Clone)]
pub struct Lock {
    pub id: String,
    pub owned: Option<bool>,
}

/// Query of the component list: whether to include special data groups and the schema.
#[derive(Debug, Clone, Copy)]
pub struct ComponentQuery {
    pub include_sdgs: bool,
    pub include_schema: bool,
}

} // verus!
