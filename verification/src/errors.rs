//! Error taxonomy of the runtime.
//!
//! Configuration, fetch, integrity and build failures are fatal at startup;
//! call and dispatch failures are converted into error replies per request;
//! reload failures are absorbed and the previous manifest is retained.

use vstd::prelude::*;

verus! {

/// Malformed or missing configuration.
#[derive(Debug)]
pub enum ConfigError {
    /// The document could not be decoded at all.
    Malformed(String),
    /// A required field is absent; carries the field name.
    MissingField(String),
    /// A field holds a value of the wrong shape; carries the field name.
    WrongType(String),
    /// An edge references a stage index that is not in the stage list.
    UnknownStage(usize),
    /// The workflow graph admits no topological order.
    Cycle,
}

/// Blob store unreachable or object missing.
#[derive(Debug)]
pub enum FetchError {
    /// The store did not return the object; carries the object name.
    ObjectUnavailable(String),
    /// The number of fetched modules does not match the stage list.
    WrongModuleCount,
}

/// A fetched module's digest does not match the digest the stage declares.
#[derive(Debug)]
pub struct IntegrityError {
    /// Name of the module whose digest mismatched.
    pub object_name: String,
    /// Digest the stage declared.
    pub expected: String,
    /// Digest the store reported.
    pub actual: String,
}

/// Manifest or interpreter instantiation failure.
#[derive(Debug)]
pub enum BuildError {
    /// The embedder could not instantiate an interpreter from the manifest.
    Instantiation(String),
}

/// Failure of one sandboxed function call.
#[derive(Debug)]
pub enum CallError {
    /// The subject names no function exported by the manifest.
    FunctionMissing(String),
    /// The sandboxed code trapped; carries the trap message.
    Trap(String),
    /// A host-call argument or result could not be decoded.
    Decode(String),
    /// A declared column type is not one the bridge supports.
    UnsupportedSchemaType(String),
    /// A host capability failed as a whole; carries its message.
    HostCall(String),
}

/// Failure at the dispatch layer.
#[derive(Debug)]
pub enum DispatchError {
    /// Pool checkout exceeded its bound.
    Timeout,
    /// Bus publish or subscribe failure; carries the transport message.
    Transport(String),
}

/// Rebuild or swap failure during hot reload.
#[derive(Debug)]
pub enum ReloadError {
    /// Re-fetching the graph's modules failed.
    Refetch(FetchError),
    /// A re-fetched module failed its integrity check.
    Integrity(IntegrityError),
    /// The rebuilt manifest could not be instantiated.
    Rebuild(BuildError),
}

impl CallError {
    /// The character content of this error's human-readable reply payload.
    pub open spec fn message_view(self) -> Seq<char> {
        match self {
            CallError::FunctionMissing(f) => "failed to resolve plugin function: "@ + f@,
            CallError::Trap(m) => "plugin call trapped: "@ + m@,
            CallError::Decode(m) => "failed to decode value: "@ + m@,
            CallError::UnsupportedSchemaType(t) => "unsupported schema type: "@ + t@,
            CallError::HostCall(m) => "host call failed: "@ + m@,
        }
    }

    /// Human-readable message, published as the error reply payload.
    pub fn message(&self) -> (m: String)
        ensures
            m@ == self.message_view(),
    {
        match self {
            CallError::FunctionMissing(f) => {
                let mut m = String::from_str("failed to resolve plugin function: ");
                m.append(f.as_str());
                m
            },
            CallError::Trap(t) => {
                let mut m = String::from_str("plugin call trapped: ");
                m.append(t.as_str());
                m
            },
            CallError::Decode(d) => {
                let mut m = String::from_str("failed to decode value: ");
                m.append(d.as_str());
                m
            },
            CallError::UnsupportedSchemaType(t) => {
                let mut m = String::from_str("unsupported schema type: ");
                m.append(t.as_str());
                m
            },
            CallError::HostCall(h) => {
                let mut m = String::from_str("host call failed: ");
                m.append(h.as_str());
                m
            },
        }
    }
}

impl DispatchError {
    /// The character content of this error's human-readable reply payload.
    pub open spec fn message_view(self) -> Seq<char> {
        match self {
            DispatchError::Timeout => "failed to resolve plugin; timed out"@,
            DispatchError::Transport(m) => "transport failure: "@ + m@,
        }
    }

    /// Human-readable message, published as the error reply payload.
    pub fn message(&self) -> (m: String)
        ensures
            m@ == self.message_view(),
    {
        match self {
            DispatchError::Timeout => String::from_str("failed to resolve plugin; timed out"),
            DispatchError::Transport(t) => {
                let mut m = String::from_str("transport failure: ");
                m.append(t.as_str());
                m
            },
        }
    }
}

} // verus!
