//! Mutual resolution health check for a mesh of authoritative DNS servers.
//!
//! Every server in a registry is asked for the address of every server in the
//! same registry; each answer is compared with the address that the registry
//! expects, and the run as a whole fails when any pair does not match.
//!
//! The network exchange itself happens outside this library: the caller sends
//! the query and hands the decoded answer records to [`MeshRun::record`].
pub mod address;
pub mod outcome;
pub mod registry;
pub mod response;
pub mod run;

pub use address::ipv4;
pub use outcome::{check, classify, verify, CheckOutcome};
pub use registry::{NameServerEntry, Registry, RegistryError};
pub use response::{first_address, AnswerRecord, QueryError, DNS_PORT, QUERY_TIMEOUT_SECS};
pub use run::{CheckReport, MeshRun};

