//! Container for transaction construction options.
use vstd::prelude::*;

verus! {

/// Container for transaction construction options.
#[derive(Default, Debug)]
pub struct TransactionStrParams<'a> {
    /// Path to the secret key file.
    ///
    /// If `secret_key` is empty, the new transaction is not signed and must
    /// be signed at least once later to become valid.
    pub secret_key: &'a str,
    /// RFC 3339-like formatted timestamp, e.g. `2018-02-16T00:31:37Z`.
    ///
    /// If `timestamp` is empty, the current UTC time is used.
    pub timestamp: &'a str,
    /// Time that the transaction will remain valid for.
    ///
    /// A transaction can only be included in a block between `timestamp`
    /// and `timestamp + ttl`. Input examples: `1hr 12min`, `30min 50sec`,
    /// `1day`.
    pub ttl: &'a str,
    /// Name of the chain, to avoid the transaction from being accidentally
    /// or maliciously included in a different chain.
    pub chain_name: &'a str,
    /// The hex-encoded public key, account hash, or entity address of the
    /// account under which the session code will be executed.
    ///
    /// If `initiator_addr` is empty, the initiator address is derived from
    /// the provided `secret_key`. It is an error for both fields to be
    /// empty.
    pub initiator_addr: &'a str,
}

} // verus!
