//! Output: metadata shared by the formats, SARIF reports, Dart source
//! files and the protobuf stub.

use vstd::prelude::*;
use crate::binary::version::DartVersion;

pub mod sarif;
pub mod codegen;

verus! {

#[verifier::external_type_specification]
#[verifier::external_body]
pub struct ExAnyhowError(anyhow::Error);

/// Common output metadata.
#[derive(Debug, Clone)]
pub struct OutputMeta {
    pub tool: String,
    pub version: String,
    pub timestamp: String,
    pub input_file: String,
    pub input_sha256: String,
    pub dart_version: DartVersion,
    pub architecture: String,
    pub analysis_time_ms: u64,
}

/// Output format.
#[derive(Debug, Clone, Copy, PartialEq, Eq, Structural)]
pub enum OutputFormat {
    Json,
    Sqlite,
    Dart,
    Sarif,
    Protobuf,
    Dot,
    Csv,
    Jsonl,
}

/// A recovered string and the number of references to it.
#[derive(Debug, Clone)]
pub struct StringEntry {
    pub value: String,
    pub refs_count: usize,
}

/// Protobuf output stub (for gRPC integration): writes nothing, leaves the
/// writer as it is, and succeeds.
pub fn write_protobuf_stub<W: std::io::Write>(_writer: &mut W) -> (r: Result<(), anyhow::Error>)
    ensures
        r is Ok,
        *final(_writer) == *old(_writer),
{
    Ok(())
}

} // verus!
