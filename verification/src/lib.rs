//! Data coding and protocol helpers of a classic diagnostic adapter (UDS over DoIP).
pub mod bits;
pub mod coded_type;
pub mod coding;
pub mod comparam;
pub mod com_params;
pub mod config;
pub mod configuration;
pub mod database;
pub mod dop;
pub mod error;
pub mod faults;
pub mod health;
pub mod interfaces;
pub mod jobs;
pub mod loading;
pub mod mdd;
pub mod naming;
pub mod number;
pub mod payload;
pub mod roundtrip;
pub mod sdg;
pub mod security;
pub mod sovd;
pub mod text;
pub mod util;
