//! Verified core of the Carbide control plane: identity-policy validation,
//! SQL column sets, forwarded-host parsing for the BMC proxy, DPU watcher
//! event dispatch and a few admin command helpers.
pub mod text;
pub mod url_parts;
pub mod identity_url;
pub mod tenant_identity_policy;
pub mod trust_domain_allowlist;
pub mod column_set;
pub mod query_builder;
pub mod bmc_proxy;
pub mod dpu_watcher;
pub mod admin_cli;
pub mod bundle_args;
pub mod report_args;
pub mod rms_args;
