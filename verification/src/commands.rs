//! The command layer: the compute part of each subcommand.
//!
//! Argument wiring, key loading, file writes and the network round-trip
//! live in the surrounding program; each command's decisions and checks are
//! here, as pure functions with contracts.
use vstd::prelude::*;
use vstd::string::*;

use crate::addr::all_hex;
use crate::block::GetBlockResult;
use crate::builder::Artifact;
use crate::builder::ArtifactV;
use crate::builder::LoadedKey;
use crate::builder::build_artifact;
use crate::builder::spec_build;
use crate::builder::spec_key;
use crate::dispatch::DispatchAction;
use crate::dispatch::Endpoint;
use crate::dispatch::local_write_message;
use crate::dispatch::plan_local_write;
use crate::dispatch::select_endpoint;
use crate::dispatch::spec_local_write_message;
use crate::errors::ArgField;
use crate::errors::CmdError;
use crate::list::ListTransactionsResult;
use crate::list::spec_normalize;
use crate::params::TransactionStrParams;
use crate::time::Timestamp;
use crate::time::all_digits;
use crate::time::ts_millis_limit;

verus! {

/// Create a deploy and output it to a file or stdout, to be signed and sent
/// later; superseded by the transaction-making command.
pub struct MakeDeploy;

impl MakeDeploy {
    /// The notice printed before this superseded command runs; it then
    /// behaves exactly like its replacement.
    pub fn deprecation_warning() -> &'static str {
        "make-deploy is deprecated in favor of make-transaction and will be removed in a future release"
    }

    /// The compute part of the command: build the artifact, plan the local
    /// write, and word the confirmation.
    pub fn prepare(
        p: &TransactionStrParams,
        key: Option<&LoadedKey>,
        now: Timestamp,
        session: &str,
        payment: &str,
        gas_price: &str,
        output_path: &str,
    ) -> (r: Result<(Artifact, DispatchAction, String), CmdError>)
        requires
            (key is Some) == (p.secret_key.spec_bytes().len() > 0),
            now.millis < ts_millis_limit(),
        ensures
            r is Ok ==> Ok::<ArtifactV, CmdError>(r->Ok_0.0@) == spec_build(
                *p,
                spec_key(key),
                now,
                session@,
                payment@,
                gas_price.spec_bytes(),
            ),
            r is Err ==> Err::<ArtifactV, CmdError>(r->Err_0) == spec_build(
                *p,
                spec_key(key),
                now,
                session@,
                payment@,
                gas_price.spec_bytes(),
            ),
            r is Ok ==> r->Ok_0.0.wf(),
            r is Ok ==> r->Ok_0.2@ == spec_local_write_message(output_path@),
            r is Ok ==> (output_path@.len() == 0 ==> r->Ok_0.1 is WriteStdout),
            r is Ok ==> (output_path@.len() > 0 ==> (r->Ok_0.1 matches DispatchAction::WriteFile {
                path,
            } && path@ == output_path@)),
    {
        let artifact = match build_artifact(p, key, now, session, payment, gas_price) {
            Ok(a) => a,
            Err(e) => {
                return Err(e);
            },
        };
        let action = plan_local_write(output_path);
        let message = local_write_message(output_path);
        Ok((artifact, action, message))
    }
}

/// Read a previously saved deploy from a file and send it to the network
/// for execution; superseded by the transaction-sending command.
pub struct SendDeploy;

impl SendDeploy {
    /// The notice printed before this superseded command runs; it then
    /// behaves exactly like its replacement.
    pub fn deprecation_warning() -> &'static str {
        "send-deploy is deprecated in favor of send-transaction and will be removed in a future release"
    }

    /// Chooses the endpoint of the single submission: the speculative
    /// switch selects the non-committing execution path, never both.
    pub fn select_endpoint(speculative: bool) -> (r: Endpoint)
        ensures
            speculative ==> r == Endpoint::Speculative,
            !speculative ==> r == Endpoint::Standard,
    {
        select_endpoint(speculative)
    }
}

/// A purse URef string: `uref-`, 64 hex digits, `-`, and a three-digit
/// access-rights field.
pub open spec fn uref_valid(s: Seq<u8>) -> bool {
    &&& s.len() == 73
    &&& s[0] == 117  // u
    &&& s[1] == 114  // r
    &&& s[2] == 101  // e
    &&& s[3] == 102  // f
    &&& s[4] == 45  // -
    &&& all_hex(s.subrange(5, 69))
    &&& s[69] == 45  // -
    &&& all_digits(s.subrange(70, 73))
}

/// A state root hash string: 64 hex digits.
pub open spec fn state_root_valid(s: Seq<u8>) -> bool {
    s.len() == 64 && all_hex(s)
}

/// A balance query whose string parameters passed their format checks.
#[derive(Clone, PartialEq, Eq, Debug)]
pub struct BalanceQuery {
    pub state_root_hash: String,
    pub purse_uref: String,
}

/// Retrieve a purse's balance from the network.
pub struct GetBalance;

impl GetBalance {
    /// The pre-flight part of the command: checks both string parameters'
    /// formats before any network contact; the state root hash is checked
    /// first.
    pub fn prepare(state_root_hash: &str, purse_uref: &str) -> (r: Result<BalanceQuery, CmdError>)
        ensures
            r is Ok <==> state_root_valid(state_root_hash.spec_bytes()) && uref_valid(
                purse_uref.spec_bytes(),
            ),
            r is Ok ==> r->Ok_0.state_root_hash@ == state_root_hash@,
            r is Ok ==> r->Ok_0.purse_uref@ == purse_uref@,
            r is Err ==> (r->Err_0 == CmdError::InvalidArgument(ArgField::StateRootHash)
                <==> !state_root_valid(state_root_hash.spec_bytes())),
            r is Err ==> (r->Err_0 == CmdError::InvalidArgument(ArgField::PurseUref) <==> (
            state_root_valid(state_root_hash.spec_bytes()) && !uref_valid(
                purse_uref.spec_bytes(),
            ))),
    {
        if !check_state_root(state_root_hash) {
            return Err(CmdError::InvalidArgument(ArgField::StateRootHash));
        }
        if !check_uref(purse_uref) {
            return Err(CmdError::InvalidArgument(ArgField::PurseUref));
        }
        Ok(
            BalanceQuery {
                state_root_hash: state_root_hash.to_owned(),
                purse_uref: purse_uref.to_owned(),
            },
        )
    }
}

fn check_hex_run(b: &[u8], lo: usize, hi: usize) -> (r: bool)
    requires
        lo <= hi <= b@.len(),
    ensures
        r == all_hex(b@.subrange(lo as int, hi as int)),
{
    let mut i: usize = lo;
    while i < hi
        invariant
            lo <= i <= hi <= b@.len(),
            all_hex(b@.subrange(lo as int, i as int)),
        decreases hi - i,
    {
        let c = b[i];
        let ok = (48 <= c && c <= 57) || (97 <= c && c <= 102) || (65 <= c && c <= 70);
        if !ok {
            proof {
                assert(b@.subrange(lo as int, hi as int)[i - lo] == b@[i as int]);
            }
            return false;
        }
        proof {
            let j = i + 1;
            assert forall|k: int| 0 <= k < j - lo implies crate::addr::is_hex_digit(
                #[trigger] b@.subrange(lo as int, j as int)[k],
            ) by {
                if k < i - lo {
                    assert(b@.subrange(lo as int, j as int)[k] == b@.subrange(
                        lo as int,
                        i as int,
                    )[k]);
                } else {
                    assert(b@.subrange(lo as int, j as int)[k] == b@[i as int]);
                }
            }
        }
        i = i + 1;
    }
    proof {
        assert(b@.subrange(lo as int, hi as int) =~= b@.subrange(lo as int, i as int));
    }
    true
}

fn check_state_root(s: &str) -> (r: bool)
    ensures
        r == state_root_valid(s.spec_bytes()),
{
    let b = s.as_bytes();
    if b.len() != 64 {
        return false;
    }
    proof {
        assert(b@.subrange(0, 64) =~= b@);
    }
    check_hex_run(b, 0, 64)
}

fn check_uref(s: &str) -> (r: bool)
    ensures
        r == uref_valid(s.spec_bytes()),
{
    let b = s.as_bytes();
    if b.len() != 73 {
        return false;
    }
    if !(b[0] == 117 && b[1] == 114 && b[2] == 101 && b[3] == 102 && b[4] == 45) {
        return false;
    }
    if !check_hex_run(b, 5, 69) {
        return false;
    }
    if b[69] != 45 {
        return false;
    }
    let d0 = b[70];
    let d1 = b[71];
    let d2 = b[72];
    let digits_ok = 48 <= d0 && d0 <= 57 && 48 <= d1 && d1 <= 57 && 48 <= d2 && d2 <= 57;
    proof {
        let sub = b@.subrange(70, 73);
        assert(sub[0] == b@[70] && sub[1] == b@[71] && sub[2] == b@[72]);
        if digits_ok {
            assert forall|k: int| 0 <= k < 3 implies crate::time::is_digit(#[trigger] sub[k]) by {
                if k == 0 {
                } else if k == 1 {
                } else {
                }
            }
        }
    }
    digits_ok
}

/// Retrieve the list of all transaction hashes in a given block.
pub struct ListTransactions;

impl ListTransactions {
    /// Maps the raw get-block response into the stable result shape.
    pub fn normalize(response: GetBlockResult) -> (r: ListTransactionsResult)
        ensures
            r@ == spec_normalize(response),
    {
        ListTransactionsResult::from(response)
    }
}

} // verus!
