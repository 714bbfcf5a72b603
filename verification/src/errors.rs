//! The error taxonomy of the patch engine. Every error is tagged with what
//! was being looked for or which shape was violated; none aborts work on
//! sibling targets.

use vstd::prelude::*;
use crate::strutil::concat_str;

verus! {

/// Why one target could not be patched.
#[derive(Debug)]
pub enum IntegratorError {
    /// A patch payload had the wrong JSON shape. Localized to one handler
    /// invocation; other targets continue.
    MalformedPatch { handler: String, detail: String },
    /// An expected anchor (export, property, biome, layer) was absent from
    /// the target graph.
    TargetNotFound { name: String },
    /// An index that should resolve does not, or a well-known record is
    /// missing: the base asset does not match what this engine expects.
    CorruptBaseAsset { detail: String },
}

/// Mathematical shape of an [`IntegratorError`].
pub enum IntegratorErrorV {
    MalformedPatch { handler: Seq<char>, detail: Seq<char> },
    TargetNotFound { name: Seq<char> },
    CorruptBaseAsset { detail: Seq<char> },
}

impl DeepView for IntegratorError {
    type V = IntegratorErrorV;

    open spec fn deep_view(&self) -> IntegratorErrorV {
        match self {
            IntegratorError::MalformedPatch { handler, detail } => {
                IntegratorErrorV::MalformedPatch { handler: handler@, detail: detail@ }
            },
            IntegratorError::TargetNotFound { name } => {
                IntegratorErrorV::TargetNotFound { name: name@ }
            },
            IntegratorError::CorruptBaseAsset { detail } => {
                IntegratorErrorV::CorruptBaseAsset { detail: detail@ }
            },
        }
    }
}

impl IntegratorError {
    /// A readable description of the error.
    pub fn message(&self) -> (r: String)
        ensures
            r@ == match self.deep_view() {
                IntegratorErrorV::MalformedPatch { handler, detail } => "malformed patch for "@
                    + handler + ": "@ + detail,
                IntegratorErrorV::TargetNotFound { name } => "target not found: "@ + name,
                IntegratorErrorV::CorruptBaseAsset { detail } => "corrupted base asset: "@
                    + detail,
            },
    {
        match self {
            IntegratorError::MalformedPatch { handler, detail } => {
                let head = concat_str("malformed patch for ", handler.as_str());
                let mid = concat_str(head.as_str(), ": ");
                concat_str(mid.as_str(), detail.as_str())
            },
            IntegratorError::TargetNotFound { name } => {
                concat_str("target not found: ", name.as_str())
            },
            IntegratorError::CorruptBaseAsset { detail } => {
                concat_str("corrupted base asset: ", detail.as_str())
            },
        }
    }
}

} // verus!
