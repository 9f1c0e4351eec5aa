//! The adapter's own configuration checks and its application errors.
use vstd::prelude::*;
use crate::com_params::{doip_defaults, uds_defaults, ComParams};
use crate::error::{message_text, push_text, text, DiagServiceError};
use crate::faults::{fault_defaults, FaultConfig};
use crate::interfaces::{setup_error_message, DoipGatewaySetupError};
use crate::naming::{naming_defaults, naming_flaw, DatabaseNamingConvention};

verus! {

/// Address and port the web server listens on.
#[derive(Debug, Clone)]
pub struct ServerConfig {
    pub address: String,
    pub port: u16,
}

/// Where the diagnostic databases are and how they are read.
#[derive(Debug, Clone)]
pub struct DatabaseConfig {
    /// Directory of the database files.
    pub path: String,
    pub naming_convention: DatabaseNamingConvention,
    /// Whether the adapter exits when no database could be loaded.
    pub exit_no_database_loaded: bool,
    /// Whether an ECU whose variant detection finds no matching variant falls back to its
    /// base variant instead of reporting an error.
    pub fallback_to_base_variant: bool,
}

/// The adapter's configuration: web server, databases, tester kind, flash files, com
/// parameters and fault handling.
#[derive(Debug, Clone)]
pub struct Configuration {
    pub server: ServerConfig,
    pub database: DatabaseConfig,
    /// Whether the adapter runs as the onboard tester.
    pub onboard_tester: bool,
    /// Directory of the flash files.
    pub flash_files_path: String,
    pub com_params: ComParams,
    pub faults: FaultConfig,
}

impl Default for Configuration {
    /// Listening on `0.0.0.0:20002`; databases in the working directory with the default
    /// naming convention, the adapter staying up when none loads and ECUs falling back to
    /// their base variant; onboard tester; flash files in the working directory; default com
    /// parameters and fault handling.
    fn default() -> (r: Configuration)
        ensures
            r.server.address@ == "0.0.0.0"@,
            r.server.port == 20002,
            r.database.path@ == "."@,
            naming_defaults(r.database.naming_convention),
            !r.database.exit_no_database_loaded,
            r.database.fallback_to_base_variant,
            r.onboard_tester,
            r.flash_files_path@ == "."@,
            uds_defaults(r.com_params.uds),
            doip_defaults(r.com_params.doip),
            fault_defaults(r.faults),
    {
        Configuration {
            server: ServerConfig { address: text("0.0.0.0"), port: 20002 },
            database: DatabaseConfig {
                path: text("."),
                naming_convention: DatabaseNamingConvention::default(),
                exit_no_database_loaded: false,
                fallback_to_base_variant: true,
            },
            onboard_tester: true,
            flash_files_path: text("."),
            com_params: ComParams::default(),
            faults: FaultConfig::default(),
        }
    }
}

/// Errors of the application.
#[derive(Debug, Clone, PartialEq, Eq)]
pub enum AppError {
    InitializationFailed(String),
    ResourceError(String),
    ConnectionError(String),
    ConfigurationError(String),
    DataError(String),
    RuntimeError(String),
    NotFound(String),
    ServerError(String),
}

/// The text an application error carries.
pub open spec fn app_error_text(e: AppError) -> Seq<char> {
    match e {
        AppError::InitializationFailed(m) => m@,
        AppError::ResourceError(m) => m@,
        AppError::ConnectionError(m) => m@,
        AppError::ConfigurationError(m) => m@,
        AppError::DataError(m) => m@,
        AppError::RuntimeError(m) => m@,
        AppError::NotFound(m) => m@,
        AppError::ServerError(m) => m@,
    }
}

/// The message of an application error.
pub open spec fn app_error_message(e: AppError) -> Seq<char> {
    match e {
        AppError::InitializationFailed(m) => "Initialization failed `"@ + m@ + "`"@,
        AppError::ResourceError(m) => "Resource error: `"@ + m@ + "`"@,
        AppError::ConnectionError(m) => "Connection error `"@ + m@ + "`"@,
        AppError::ConfigurationError(m) => "Configuration error `"@ + m@ + "`"@,
        AppError::DataError(m) => "Data error `"@ + m@ + "`"@,
        AppError::RuntimeError(m) => "Error during execution `"@ + m@ + "`"@,
        AppError::NotFound(m) => "Not found: `"@ + m@ + "`"@,
        AppError::ServerError(m) => "Server error: `"@ + m@ + "`"@,
    }
}

/// The application error a service error becomes: communication problems are connection
/// errors, failed operations runtime errors, configuration problems configuration errors,
/// and data and database problems data errors.
pub open spec fn app_error_kind_matches(value: DiagServiceError, r: AppError) -> bool {
    match value {
        DiagServiceError::RequestNotSupported(_)
        | DiagServiceError::BadPayload(_)
        | DiagServiceError::ConnectionClosed(_)
        | DiagServiceError::UnexpectedResponse(_)
        | DiagServiceError::EcuOffline(_)
        | DiagServiceError::NoResponse(_)
        | DiagServiceError::SendFailed(_)
        | DiagServiceError::InvalidAddress(_)
        | DiagServiceError::InvalidRequest(_)
        | DiagServiceError::Timeout => r is ConnectionError,
        DiagServiceError::ParameterConversionError(_)
        | DiagServiceError::UnknownOperation
        | DiagServiceError::UdsLookupError(_)
        | DiagServiceError::VariantDetectionError(_)
        | DiagServiceError::AccessDenied(_)
        | DiagServiceError::InvalidState(_)
        | DiagServiceError::Nack(_) => r is RuntimeError,
        DiagServiceError::InvalidConfiguration(_)
        | DiagServiceError::InvalidSecurityPlugin => r is ConfigurationError,
        DiagServiceError::ResourceError(_) => r is ResourceError,
        DiagServiceError::NotFound(_) => r is NotFound,
        DiagServiceError::DataError(_)
        | DiagServiceError::InvalidDatabase(_)
        | DiagServiceError::AmbiguousParameters { .. }
        | DiagServiceError::InvalidParameter { .. }
        | DiagServiceError::NotEnoughData { .. } => r is DataError,
    }
}

impl AppError {
    /// The message of the error.
    pub fn to_string(&self) -> (r: String)
        ensures
            r@ == app_error_message(*self),
    {
        let mut s = String::new();
        let m = match self {
            AppError::InitializationFailed(m) => {
                push_text(&mut s, "Initialization failed `");
                m
            },
            AppError::ResourceError(m) => {
                push_text(&mut s, "Resource error: `");
                m
            },
            AppError::ConnectionError(m) => {
                push_text(&mut s, "Connection error `");
                m
            },
            AppError::ConfigurationError(m) => {
                push_text(&mut s, "Configuration error `");
                m
            },
            AppError::DataError(m) => {
                push_text(&mut s, "Data error `");
                m
            },
            AppError::RuntimeError(m) => {
                push_text(&mut s, "Error during execution `");
                m
            },
            AppError::NotFound(m) => {
                push_text(&mut s, "Not found: `");
                m
            },
            AppError::ServerError(m) => {
                push_text(&mut s, "Server error: `");
                m
            },
        };
        push_text(&mut s, m.as_str());
        push_text(&mut s, "`");
        s
    }

    /// The application error of a service error, carrying the service error's message.
    pub fn from_diag_service_error(value: DiagServiceError) -> (r: AppError)
        ensures
            app_error_kind_matches(value, r),
            app_error_text(r) == message_text(value),
    {
        let m = value.to_string();
        match value {
            DiagServiceError::RequestNotSupported(_)
            | DiagServiceError::BadPayload(_)
            | DiagServiceError::ConnectionClosed(_)
            | DiagServiceError::UnexpectedResponse(_)
            | DiagServiceError::EcuOffline(_)
            | DiagServiceError::NoResponse(_)
            | DiagServiceError::SendFailed(_)
            | DiagServiceError::InvalidAddress(_)
            | DiagServiceError::InvalidRequest(_)
            | DiagServiceError::Timeout => AppError::ConnectionError(m),
            DiagServiceError::ParameterConversionError(_)
            | DiagServiceError::UnknownOperation
            | DiagServiceError::UdsLookupError(_)
            | DiagServiceError::VariantDetectionError(_)
            | DiagServiceError::AccessDenied(_)
            | DiagServiceError::InvalidState(_)
            | DiagServiceError::Nack(_) => AppError::RuntimeError(m),
            DiagServiceError::InvalidConfiguration(_)
            | DiagServiceError::InvalidSecurityPlugin => AppError::ConfigurationError(m),
            DiagServiceError::ResourceError(_) => AppError::ResourceError(m),
            DiagServiceError::NotFound(_) => AppError::NotFound(m),
            DiagServiceError::DataError(_)
            | DiagServiceError::InvalidDatabase(_)
            | DiagServiceError::AmbiguousParameters { .. }
            | DiagServiceError::InvalidParameter { .. }
            | DiagServiceError::NotEnoughData { .. } => AppError::DataError(m),
        }
    }

    /// The application error of a gateway setup error, carrying its message: an invalid
    /// address is a connection error, socket and port failures initialisation failures.
    pub fn from_doip_gateway_setup_error(value: DoipGatewaySetupError) -> (r: AppError)
        ensures
            app_error_text(r) == setup_error_message(value),
            match value {
                DoipGatewaySetupError::InvalidAddress(_) => r is ConnectionError,
                DoipGatewaySetupError::SocketCreationFailed(_)
                | DoipGatewaySetupError::PortBindFailed(_) => r is InitializationFailed,
                DoipGatewaySetupError::InvalidConfiguration(_) => r is ConfigurationError,
                DoipGatewaySetupError::ResourceError(_) => r is ResourceError,
                DoipGatewaySetupError::ServerError(_) => r is ServerError,
            },
    {
        let m = value.to_string();
        match value {
            DoipGatewaySetupError::InvalidAddress(_) => AppError::ConnectionError(m),
            DoipGatewaySetupError::SocketCreationFailed(_)
            | DoipGatewaySetupError::PortBindFailed(_) => AppError::InitializationFailed(m),
            DoipGatewaySetupError::InvalidConfiguration(_) => AppError::ConfigurationError(m),
            DoipGatewaySetupError::ResourceError(_) => AppError::ResourceError(m),
            DoipGatewaySetupError::ServerError(_) => AppError::ServerError(m),
        }
    }
}

/// A part of the configuration that can check itself for common mistakes.
pub trait ConfigSanity {
    /// Checks the configuration; fails with a configuration error describing the first
    /// mistake found.
    fn validate_sanity(&self) -> Result<(), AppError>;
}

impl ConfigSanity for Configuration {
    /// Checks the naming convention of the databases, the one part of the configuration that
    /// has rules of its own.
    fn validate_sanity(&self) -> (r: Result<(), AppError>)
        ensures
            match naming_flaw(self.database.naming_convention) {
                Some(msg) => r matches Err(AppError::ConfigurationError(m)) && m@ == msg,
                None => r is Ok,
            },
    {
        self.database.naming_convention.validate_sanity()
    }
}

} // verus!
