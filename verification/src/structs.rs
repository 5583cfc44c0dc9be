use vstd::prelude::*;

verus! {

/// Resolved configuration values for one profiling session.
pub struct Args {
    /// JSON endpoint of the debugger.
    pub debugger_url: String,
    /// Entry point file to profile, if the target is launched by us.
    pub entry_point: Option<String>,
    /// Frequency to sample the heap, in milliseconds.
    pub frequency: u64,
    /// Initial delay before sampling, in milliseconds.
    pub delay: u64,
    /// Temporary directory in which snapshot files are stored.
    pub temp_dir: String,
}

/// One debuggable process advertised by the discovery endpoint.
#[allow(non_snake_case)]
pub struct DebuggerInstance {
    pub title: String,
    pub url: String,
    pub webSocketDebuggerUrl: String,
}

/// A single source-code location in the sampled call tree.
#[allow(non_snake_case)]
pub struct CallFrame {
    /// Function name; empty for anonymous or native frames.
    pub functionName: String,
    /// Source URL; may be empty.
    pub url: String,
}

/// One node of the sampled allocation call tree.
#[allow(non_snake_case)]
pub struct ProfileHead {
    pub callFrame: CallFrame,
    /// Bytes attributed directly to this node, excluding descendants.
    pub selfSize: u64,
    /// Child nodes, owned exclusively by this node, in delivery order.
    pub children: Vec<ProfileHead>,
}

/// The profile body of one sampling response.
pub struct ProfileObject {
    pub head: ProfileHead,
}

/// The payload of one decoded debugger message, discriminated by shape.
pub enum WebsocketResponseResult {
    /// The message carried a nested profile/head structure.
    Profile { profile: ProfileObject },
    /// Any other well-formed response: a plain acknowledgement.
    Normal {},
}

/// One decoded debugger message envelope.
pub struct WebsocketResponse {
    pub id: u64,
    pub result: WebsocketResponseResult,
}

} // verus!
