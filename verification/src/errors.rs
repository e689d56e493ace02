//! Error taxonomy for the command pipeline.
use vstd::prelude::*;

verus! {

/// Which string parameter an `InvalidArgument` error refers to.
#[derive(Clone, Copy, PartialEq, Eq, Structural, Debug)]
pub enum ArgField {
    Timestamp,
    Ttl,
    ChainName,
    InitiatorAddr,
    GasPrice,
    StateRootHash,
    PurseUref,
}

/// Failure of a pipeline stage, distinguishable by kind.
///
/// `InvalidArgument` covers malformed, missing or contradictory string
/// parameters; `KeyLoad` a signing key that could not be read or parsed;
/// `Network` a transport failure, malformed response or node-side rejection;
/// `Serialization` a defensive output-encoding failure.
#[derive(Clone, Copy, PartialEq, Eq, Structural, Debug)]
pub enum CmdError {
    InvalidArgument(ArgField),
    KeyLoad,
    Network,
    Serialization,
}

} // verus!
