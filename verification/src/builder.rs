//! Building an artifact from string parameters.
//!
//! Each parameter is resolved by a pure step — parse or default — and the
//! steps are composed left to right; the first failing step names the
//! offending field. Key loading and signing are a collaborator's work: the
//! builder receives the public key already derived from the secret key file,
//! and marks the artifact signed when one was supplied.
use vstd::prelude::*;
use vstd::string::*;

use crate::addr::InitiatorAddr;
use crate::addr::InitiatorAddrV;
use crate::addr::parse_initiator_addr;
use crate::addr::spec_parse_initiator;
use crate::errors::ArgField;
use crate::errors::CmdError;
use crate::params::TransactionStrParams;
use crate::time::Timestamp;
use crate::time::TimeDiff;
use crate::time::all_digits;
use crate::time::digits_val;
use crate::time::is_digit;
use crate::time::parse_timestamp;
use crate::time::parse_ttl;
use crate::time::ts_millis;
use crate::time::ts_millis_limit;
use crate::time::ts_valid;
use crate::time::ttl_accept;
use crate::time::ttl_parse_from;

verus! {

/// A signing key pair loaded by the key-loading collaborator: the public
/// key derived from the secret key file, as its algorithm tag byte followed
/// by the key bytes.
#[derive(Clone, PartialEq, Eq, Debug)]
pub struct LoadedKey {
    pub public_key: Vec<u8>,
}

impl LoadedKey {
    /// Tag 1 keys carry 32 key bytes, tag 2 keys 33.
    pub open spec fn wf(self) -> bool {
        ||| (self.public_key@.len() == 33 && self.public_key@[0] == 1)
        ||| (self.public_key@.len() == 34 && self.public_key@[0] == 2)
    }
}

/// The canonical construction result: a transaction ready to be written or
/// submitted.
#[derive(Clone, PartialEq, Eq, Debug)]
pub struct Artifact {
    /// The resolved initiator identity.
    pub initiator: InitiatorAddr,
    /// Start of the validity window.
    pub timestamp: Timestamp,
    /// Length of the validity window.
    pub ttl: TimeDiff,
    /// The chain the transaction is bound to.
    pub chain_name: String,
    /// Session sub-parameters, carried verbatim; their own validity is the
    /// producing collaborator's business.
    pub session: String,
    /// Payment sub-parameters, carried verbatim.
    pub payment: String,
    /// Gas price tolerance.
    pub gas_price_tolerance: u64,
    /// Whether the artifact carries a signature; an unsigned artifact needs
    /// a later signing step before it is network-valid.
    pub signed: bool,
}

pub ghost struct ArtifactV {
    pub initiator: InitiatorAddrV,
    pub timestamp_millis: u64,
    pub ttl_millis: u64,
    pub chain_name: Seq<char>,
    pub session: Seq<char>,
    pub payment: Seq<char>,
    pub gas_price_tolerance: u64,
    pub signed: bool,
}

impl View for Artifact {
    type V = ArtifactV;

    open spec fn view(&self) -> ArtifactV {
        ArtifactV {
            initiator: self.initiator@,
            timestamp_millis: self.timestamp.millis,
            ttl_millis: self.ttl.millis,
            chain_name: self.chain_name@,
            session: self.session@,
            payment: self.payment@,
            gas_price_tolerance: self.gas_price_tolerance,
            signed: self.signed,
        }
    }
}

impl Artifact {
    /// The validity window is well-ordered and the chain binding non-empty.
    pub open spec fn wf(self) -> bool {
        &&& self.ttl.millis > 0
        &&& self.chain_name@.len() > 0
        &&& self.timestamp.millis < ts_millis_limit()
    }

    /// End of the validity window; a window that would pass the far end of
    /// the representable range is clamped there.
    pub open spec fn spec_validity_end(self) -> int {
        if self.timestamp.millis + self.ttl.millis <= u64::MAX {
            self.timestamp.millis + self.ttl.millis
        } else {
            u64::MAX as int
        }
    }

    pub fn validity_end(&self) -> (r: u64)
        ensures
            r == self.spec_validity_end(),
    {
        self.timestamp.millis.saturating_add(self.ttl.millis)
    }
}

/// The validity window of a well-formed artifact ends strictly after it
/// starts: an accepted time-to-live always yields `end > start`.
pub proof fn lemma_validity_window(a: Artifact)
    requires
        a.wf(),
    ensures
        a.spec_validity_end() > a.timestamp.millis,
{
}

// ---------------------------------------------------------------------------
// Resolution steps
// ---------------------------------------------------------------------------

pub open spec fn spec_resolve_timestamp(ts: Seq<u8>, now: Timestamp) -> Result<u64, CmdError> {
    if ts.len() == 0 {
        Ok(now.millis)
    } else if ts_valid(ts) {
        Ok(ts_millis(ts) as u64)
    } else {
        Err(CmdError::InvalidArgument(ArgField::Timestamp))
    }
}

pub open spec fn spec_resolve_ttl(s: Seq<u8>) -> Result<u64, CmdError> {
    if ttl_accept(s) {
        Ok(ttl_parse_from(s, 0)->Some_0 as u64)
    } else {
        Err(CmdError::InvalidArgument(ArgField::Ttl))
    }
}

pub open spec fn spec_resolve_initiator(addr: Seq<u8>, key: Option<Seq<u8>>) -> Result<
    InitiatorAddrV,
    CmdError,
> {
    if addr.len() > 0 {
        spec_parse_initiator(addr)
    } else {
        match key {
            Some(k) => Ok(InitiatorAddrV::PublicKey(k)),
            None => Err(CmdError::InvalidArgument(ArgField::InitiatorAddr)),
        }
    }
}

pub open spec fn spec_resolve_chain(name: Seq<char>) -> Result<Seq<char>, CmdError> {
    if name.len() > 0 {
        Ok(name)
    } else {
        Err(CmdError::InvalidArgument(ArgField::ChainName))
    }
}

pub open spec fn gas_valid(g: Seq<u8>) -> bool {
    g.len() > 0 && all_digits(g) && digits_val(g) <= u64::MAX
}

pub open spec fn spec_resolve_gas(g: Seq<u8>) -> Result<u64, CmdError> {
    if gas_valid(g) {
        Ok(digits_val(g) as u64)
    } else {
        Err(CmdError::InvalidArgument(ArgField::GasPrice))
    }
}

/// The public key handed over by the key-loading collaborator, as bytes.
pub open spec fn spec_key(key: Option<&LoadedKey>) -> Option<Seq<u8>> {
    match key {
        Some(k) => Some(k.public_key@),
        None => None,
    }
}

/// What building an artifact from the given inputs yields: the resolution
/// steps composed in order — initiator, timestamp, time-to-live, chain name,
/// gas price — with the first failure naming its field.
pub open spec fn spec_build(
    p: TransactionStrParams,
    key: Option<Seq<u8>>,
    now: Timestamp,
    session: Seq<char>,
    payment: Seq<char>,
    gas: Seq<u8>,
) -> Result<ArtifactV, CmdError> {
    match spec_resolve_initiator(p.initiator_addr.spec_bytes(), key) {
        Err(e) => Err(e),
        Ok(init) => match spec_resolve_timestamp(p.timestamp.spec_bytes(), now) {
            Err(e) => Err(e),
            Ok(ts) => match spec_resolve_ttl(p.ttl.spec_bytes()) {
                Err(e) => Err(e),
                Ok(ttl) => match spec_resolve_chain(p.chain_name@) {
                    Err(e) => Err(e),
                    Ok(chain) => match spec_resolve_gas(gas) {
                        Err(e) => Err(e),
                        Ok(g) => Ok(
                            ArtifactV {
                                initiator: init,
                                timestamp_millis: ts,
                                ttl_millis: ttl,
                                chain_name: chain,
                                session: session,
                                payment: payment,
                                gas_price_tolerance: g,
                                signed: key is Some,
                            },
                        ),
                    },
                },
            },
        },
    }
}

/// For all parameter sets whose `secret_key` and `initiator_addr` are both
/// empty — so no key was loaded and no address given — building fails with
/// an invalid-argument error naming the initiator address.
pub proof fn lemma_missing_identity_rejected(
    p: TransactionStrParams,
    now: Timestamp,
    session: Seq<char>,
    payment: Seq<char>,
    gas: Seq<u8>,
)
    requires
        p.initiator_addr.spec_bytes().len() == 0,
    ensures
        spec_build(p, None, now, session, payment, gas) == Err::<ArtifactV, CmdError>(
            CmdError::InvalidArgument(ArgField::InitiatorAddr),
        ),
{
}

/// For all parameter sets with a non-empty `timestamp`, the build result
/// does not depend on the current-time collaborator: two runs yield
/// identical artifacts.
pub proof fn lemma_build_deterministic(
    p: TransactionStrParams,
    key: Option<Seq<u8>>,
    now1: Timestamp,
    now2: Timestamp,
    session: Seq<char>,
    payment: Seq<char>,
    gas: Seq<u8>,
)
    requires
        p.timestamp.spec_bytes().len() > 0,
    ensures
        spec_build(p, key, now1, session, payment, gas) == spec_build(
            p,
            key,
            now2,
            session,
            payment,
            gas,
        ),
{
}

// ---------------------------------------------------------------------------
// Exec
// ---------------------------------------------------------------------------

fn parse_gas(g: &str) -> (r: Result<u64, CmdError>)
    ensures
        r is Ok <==> gas_valid(g.spec_bytes()),
        r is Ok ==> r->Ok_0 == digits_val(g.spec_bytes()),
        r is Err ==> r->Err_0 == CmdError::InvalidArgument(ArgField::GasPrice),
{
    let b = g.as_bytes();
    if b.len() == 0 {
        return Err(CmdError::InvalidArgument(ArgField::GasPrice));
    }
    let (e, v) = crate::time::scan_number(b, 0);
    if e < b.len() {
        proof {
            crate::time::lemma_digits_end(b@, 0);
            assert(!is_digit(b@[e as int]));
        }
        return Err(CmdError::InvalidArgument(ArgField::GasPrice));
    }
    proof {
        assert(b@.subrange(0, b@.len() as int) =~= b@);
        crate::time::lemma_digits_end(b@, 0);
    }
    match v {
        Some(val) => Ok(val),
        None => Err(CmdError::InvalidArgument(ArgField::GasPrice)),
    }
}

/// Builds an artifact from the parameter set, exactly as `spec_build` says.
///
/// `key` is what the key-loading collaborator derived from the secret key
/// file (present exactly when `secret_key` names one), `now` is the
/// current-time collaborator's reading, and `session`, `payment` and
/// `gas_price` are the remaining sub-parameters.
pub fn build_artifact(
    p: &TransactionStrParams,
    key: Option<&LoadedKey>,
    now: Timestamp,
    session: &str,
    payment: &str,
    gas_price: &str,
) -> (r: Result<Artifact, CmdError>)
    requires
        (key is Some) == (p.secret_key.spec_bytes().len() > 0),
        now.millis < ts_millis_limit(),
    ensures
        r is Ok ==> Ok::<ArtifactV, CmdError>(r->Ok_0@) == spec_build(
            *p,
            spec_key(key),
            now,
            session@,
            payment@,
            gas_price.spec_bytes(),
        ),
        r is Err ==> Err::<ArtifactV, CmdError>(r->Err_0) == spec_build(
            *p,
            spec_key(key),
            now,
            session@,
            payment@,
            gas_price.spec_bytes(),
        ),
        r is Ok ==> r->Ok_0.wf(),
        r is Ok ==> r->Ok_0.signed == (key is Some),
{
    let initiator: InitiatorAddr = if p.initiator_addr.as_bytes().len() > 0 {
        match parse_initiator_addr(p.initiator_addr) {
            Ok(i) => i,
            Err(e) => {
                return Err(e);
            },
        }
    } else {
        match key {
            Some(k) => InitiatorAddr::PublicKey(vstd::slice::slice_to_vec(
                k.public_key.as_slice(),
            )),
            None => {
                return Err(CmdError::InvalidArgument(ArgField::InitiatorAddr));
            },
        }
    };
    let timestamp: Timestamp = if p.timestamp.as_bytes().len() == 0 {
        now
    } else {
        match parse_timestamp(p.timestamp) {
            Ok(t) => t,
            Err(e) => {
                return Err(e);
            },
        }
    };
    let ttl: TimeDiff = match parse_ttl(p.ttl) {
        Ok(t) => t,
        Err(e) => {
            return Err(e);
        },
    };
    if p.chain_name.is_empty() {
        return Err(CmdError::InvalidArgument(ArgField::ChainName));
    }
    let gas_price_tolerance: u64 = match parse_gas(gas_price) {
        Ok(v) => v,
        Err(e) => {
            return Err(e);
        },
    };
    Ok(
        Artifact {
            initiator,
            timestamp,
            ttl,
            chain_name: p.chain_name.to_owned(),
            session: session.to_owned(),
            payment: payment.to_owned(),
            gas_price_tolerance,
            signed: key.is_some(),
        },
    )
}

} // verus!
