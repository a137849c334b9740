//! Workers: the pairing of one instance with its lifecycle handling, and
//! the manifests that describe what to run. The worker's background task
//! and its join handle live outside the library.

use vstd::prelude::*;

use vstd::string::StringExecFns;

use crate::text::ascii_view;
use crate::text::clone_string_vec;
use crate::text::dec_bytes;
use crate::text::u64_string;

verus! {

/// What one instance is started with: its arguments and the port handed
/// to it through the environment.
#[derive(Debug, Clone)]
pub struct InstanceManifest {
    pub args: Vec<String>,
    pub port: u16,
}

/// What one worker supervises: the manifest of its instance.
#[derive(Debug, Clone)]
pub struct WorkerManifest {
    pub instance_manifest: InstanceManifest,
}

/// The invocation an instance manifest calls for: the guest runtime, the
/// manifest's arguments, and the port as the `PORT` environment variable.
pub fn build_instance_invocation(man: &InstanceManifest) -> (r: (
    String,
    Vec<String>,
    (String, String),
))
    ensures
        r.0@ == "wasmedge"@,
        r.1@ == man.args@,
        r.2.0@ == "PORT"@,
        r.2.1@ == ascii_view(dec_bytes(man.port as nat)),
{
    (
        String::from_str("wasmedge"),
        clone_string_vec(&man.args),
        (String::from_str("PORT"), u64_string(man.port as u64)),
    )
}

} // verus!
