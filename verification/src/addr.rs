//! Initiator identities.
//!
//! An initiator address string is accepted in one of three formats, tried in
//! this order: a hex-encoded public key (`01` plus 64 hex digits, or `02`
//! plus 66), an account hash (`account-hash-` plus 64 hex digits), or an
//! entity address (`entity-system-`, `entity-account-` or `entity-contract-`
//! plus 64 hex digits).
use vstd::prelude::*;
use vstd::string::*;

use crate::errors::ArgField;
use crate::errors::CmdError;
use crate::time::all_digits;
use crate::time::is_digit;

verus! {

// ---------------------------------------------------------------------------
// Hex digit runs
// ---------------------------------------------------------------------------

pub open spec fn is_hex_digit(b: u8) -> bool {
    is_digit(b) || (97 <= b && b <= 102) || (65 <= b && b <= 70)
}

pub open spec fn hex_val(b: u8) -> int {
    if is_digit(b) {
        b - 48
    } else if 97 <= b && b <= 102 {
        b - 87
    } else {
        b - 55
    }
}

pub open spec fn all_hex(s: Seq<u8>) -> bool {
    forall|i: int| 0 <= i < s.len() ==> is_hex_digit(#[trigger] s[i])
}

/// Bytes denoted by a run of hex digit pairs (the run's length is even).
pub open spec fn hex_decoded(s: Seq<u8>) -> Seq<u8> {
    Seq::new((s.len() / 2) as nat, |i: int| (hex_val(s[2 * i]) * 16 + hex_val(s[2 * i + 1])) as u8)
}

fn hex_val_exec(b: u8) -> (r: u8)
    requires
        is_hex_digit(b),
    ensures
        r == hex_val(b),
{
    if 48 <= b && b <= 57 {
        b - 48
    } else if 97 <= b && b <= 102 {
        b - 87
    } else {
        b - 55
    }
}

/// Decodes the hex digit pairs of `b[lo..hi]`; `None` when a byte in that
/// range is not a hex digit.
fn decode_hex_range(b: &[u8], lo: usize, hi: usize) -> (r: Option<Vec<u8>>)
    requires
        lo <= hi <= b@.len(),
        (hi - lo) % 2 == 0,
    ensures
        r is Some <==> all_hex(b@.subrange(lo as int, hi as int)),
        r is Some ==> r->Some_0@ == hex_decoded(b@.subrange(lo as int, hi as int)),
{
    let ghost sub = b@.subrange(lo as int, hi as int);
    let mut v: Vec<u8> = Vec::new();
    let mut i: usize = lo;
    while i < hi
        invariant
            lo <= i <= hi <= b@.len(),
            (hi - lo) % 2 == 0,
            (i - lo) % 2 == 0,
            sub == b@.subrange(lo as int, hi as int),
            all_hex(b@.subrange(lo as int, i as int)),
            v@.len() == (i - lo) / 2,
            forall|k: int|
                0 <= k < v@.len() ==> v@[k] == (hex_val(b@[lo + 2 * k]) * 16 + hex_val(
                    b@[lo + 2 * k + 1],
                )) as u8,
        decreases hi - i,
    {
        let c0 = b[i];
        let c1 = b[i + 1];
        let d0 = if 48 <= c0 && c0 <= 57 {
            c0 - 48
        } else if 97 <= c0 && c0 <= 102 {
            c0 - 87
        } else if 65 <= c0 && c0 <= 70 {
            c0 - 55
        } else {
            proof {
                assert(b@.subrange(lo as int, hi as int)[i - lo] == b@[i as int]);
            }
            return None;
        };
        let d1 = if 48 <= c1 && c1 <= 57 {
            c1 - 48
        } else if 97 <= c1 && c1 <= 102 {
            c1 - 87
        } else if 65 <= c1 && c1 <= 70 {
            c1 - 55
        } else {
            proof {
                assert(b@.subrange(lo as int, hi as int)[i + 1 - lo] == b@[i + 1]);
            }
            return None;
        };
        v.push(d0 * 16 + d1);
        proof {
            let j = i + 2;
            assert forall|k: int| 0 <= k < j - lo implies is_hex_digit(
                #[trigger] b@.subrange(lo as int, j as int)[k],
            ) by {
                if k < i - lo {
                    assert(b@.subrange(lo as int, j as int)[k] == b@.subrange(
                        lo as int,
                        i as int,
                    )[k]);
                } else {
                    assert(b@.subrange(lo as int, j as int)[k] == b@[lo + k]);
                }
            }
        }
        i = i + 2;
    }
    proof {
        assert(v@ =~= hex_decoded(sub)) by {
            assert(v@.len() == sub.len() / 2);
            assert forall|k: int| 0 <= k < v@.len() implies v@[k] == hex_decoded(sub)[k] by {
                assert(sub[2 * k] == b@[lo + 2 * k]);
                assert(sub[2 * k + 1] == b@[lo + 2 * k + 1]);
            }
        }
    }
    Some(v)
}

// ---------------------------------------------------------------------------
// Initiator address formats
// ---------------------------------------------------------------------------

/// The kind of entity an entity address names.
#[derive(Clone, Copy, PartialEq, Eq, Structural, Debug)]
pub enum EntityKind {
    System,
    Account,
    SmartContract,
}

/// A resolved initiator identity: decoded key or digest bytes.
///
/// A public key holds its algorithm tag byte followed by the key itself
/// (tag 1 with 32 key bytes, or tag 2 with 33).
#[derive(Clone, PartialEq, Eq, Debug)]
pub enum InitiatorAddr {
    PublicKey(Vec<u8>),
    AccountHash(Vec<u8>),
    Entity(EntityKind, Vec<u8>),
}

pub ghost enum InitiatorAddrV {
    PublicKey(Seq<u8>),
    AccountHash(Seq<u8>),
    Entity(EntityKind, Seq<u8>),
}

impl View for InitiatorAddr {
    type V = InitiatorAddrV;

    open spec fn view(&self) -> InitiatorAddrV {
        match self {
            InitiatorAddr::PublicKey(v) => InitiatorAddrV::PublicKey(v@),
            InitiatorAddr::AccountHash(v) => InitiatorAddrV::AccountHash(v@),
            InitiatorAddr::Entity(k, v) => InitiatorAddrV::Entity(*k, v@),
        }
    }
}

/// A hex-encoded public key: an algorithm tag of `01` with 64 hex digits of
/// key, or `02` with 66.
pub open spec fn pk_valid(s: Seq<u8>) -> bool {
    ||| (s.len() == 66 && s[0] == 48 && s[1] == 49 && all_hex(s))
    ||| (s.len() == 68 && s[0] == 48 && s[1] == 50 && all_hex(s))
}

/// The thirteen bytes of `account-hash-`.
pub open spec fn account_hash_prefix_ok(s: Seq<u8>) -> bool {
    &&& s.len() >= 13
    &&& s[0] == 97  // a
    &&& s[1] == 99  // c
    &&& s[2] == 99  // c
    &&& s[3] == 111  // o
    &&& s[4] == 117  // u
    &&& s[5] == 110  // n
    &&& s[6] == 116  // t
    &&& s[7] == 45  // -
    &&& s[8] == 104  // h
    &&& s[9] == 97  // a
    &&& s[10] == 115  // s
    &&& s[11] == 104  // h
    &&& s[12] == 45  // -
}

pub open spec fn account_hash_valid(s: Seq<u8>) -> bool {
    account_hash_prefix_ok(s) && s.len() == 77 && all_hex(s.subrange(13, 77))
}

/// The seven bytes of `entity-`.
pub open spec fn entity_prefix_ok(s: Seq<u8>) -> bool {
    &&& s.len() >= 7
    &&& s[0] == 101  // e
    &&& s[1] == 110  // n
    &&& s[2] == 116  // t
    &&& s[3] == 105  // i
    &&& s[4] == 116  // t
    &&& s[5] == 121  // y
    &&& s[6] == 45  // -
}

/// The seven bytes of `system-` at offset 7.
pub open spec fn entity_system_ok(s: Seq<u8>) -> bool {
    &&& s.len() >= 14
    &&& s[7] == 115  // s
    &&& s[8] == 121  // y
    &&& s[9] == 115  // s
    &&& s[10] == 116  // t
    &&& s[11] == 101  // e
    &&& s[12] == 109  // m
    &&& s[13] == 45  // -
}

/// The eight bytes of `account-` at offset 7.
pub open spec fn entity_account_ok(s: Seq<u8>) -> bool {
    &&& s.len() >= 15
    &&& s[7] == 97  // a
    &&& s[8] == 99  // c
    &&& s[9] == 99  // c
    &&& s[10] == 111  // o
    &&& s[11] == 117  // u
    &&& s[12] == 110  // n
    &&& s[13] == 116  // t
    &&& s[14] == 45  // -
}

/// The nine bytes of `contract-` at offset 7.
pub open spec fn entity_contract_ok(s: Seq<u8>) -> bool {
    &&& s.len() >= 16
    &&& s[7] == 99  // c
    &&& s[8] == 111  // o
    &&& s[9] == 110  // n
    &&& s[10] == 116  // t
    &&& s[11] == 114  // r
    &&& s[12] == 97  // a
    &&& s[13] == 99  // c
    &&& s[14] == 116  // t
    &&& s[15] == 45  // -
}

pub open spec fn entity_valid(s: Seq<u8>) -> bool {
    entity_prefix_ok(s) && {
        ||| (entity_system_ok(s) && s.len() == 78 && all_hex(s.subrange(14, 78)))
        ||| (entity_account_ok(s) && s.len() == 79 && all_hex(s.subrange(15, 79)))
        ||| (entity_contract_ok(s) && s.len() == 80 && all_hex(s.subrange(16, 80)))
    }
}

/// The accepted formats, first match winning; `account-hash-` and `entity-`
/// strings never collide with hex public keys, so the order only shows in
/// the prose.
pub open spec fn spec_parse_initiator(s: Seq<u8>) -> Result<InitiatorAddrV, CmdError> {
    if pk_valid(s) {
        Ok(InitiatorAddrV::PublicKey(hex_decoded(s)))
    } else if account_hash_valid(s) {
        Ok(InitiatorAddrV::AccountHash(hex_decoded(s.subrange(13, 77))))
    } else if entity_valid(s) {
        if entity_system_ok(s) {
            Ok(InitiatorAddrV::Entity(EntityKind::System, hex_decoded(s.subrange(14, 78))))
        } else if entity_account_ok(s) {
            Ok(InitiatorAddrV::Entity(EntityKind::Account, hex_decoded(s.subrange(15, 79))))
        } else {
            Ok(InitiatorAddrV::Entity(EntityKind::SmartContract, hex_decoded(s.subrange(16, 80))))
        }
    } else {
        Err(CmdError::InvalidArgument(ArgField::InitiatorAddr))
    }
}

fn has_account_hash_prefix(b: &[u8]) -> (r: bool)
    requires
        b@.len() >= 13,
    ensures
        r == account_hash_prefix_ok(b@),
{
    b[0] == 97 && b[1] == 99 && b[2] == 99 && b[3] == 111 && b[4] == 117 && b[5] == 110 && b[6]
        == 116 && b[7] == 45 && b[8] == 104 && b[9] == 97 && b[10] == 115 && b[11] == 104 && b[12]
        == 45
}

fn has_entity_prefix(b: &[u8]) -> (r: bool)
    requires
        b@.len() >= 7,
    ensures
        r == entity_prefix_ok(b@),
{
    b[0] == 101 && b[1] == 110 && b[2] == 116 && b[3] == 105 && b[4] == 116 && b[5] == 121 && b[6]
        == 45
}

fn has_entity_system(b: &[u8]) -> (r: bool)
    requires
        b@.len() >= 14,
    ensures
        r == entity_system_ok(b@),
{
    b[7] == 115 && b[8] == 121 && b[9] == 115 && b[10] == 116 && b[11] == 101 && b[12] == 109
        && b[13] == 45
}

fn has_entity_account(b: &[u8]) -> (r: bool)
    requires
        b@.len() >= 15,
    ensures
        r == entity_account_ok(b@),
{
    b[7] == 97 && b[8] == 99 && b[9] == 99 && b[10] == 111 && b[11] == 117 && b[12] == 110 && b[13]
        == 116 && b[14] == 45
}

fn has_entity_contract(b: &[u8]) -> (r: bool)
    requires
        b@.len() >= 16,
    ensures
        r == entity_contract_ok(b@),
{
    b[7] == 99 && b[8] == 111 && b[9] == 110 && b[10] == 116 && b[11] == 114 && b[12] == 97 && b[13]
        == 99 && b[14] == 116 && b[15] == 45
}

/// Parses an initiator address string into its decoded identity.
pub fn parse_initiator_addr(s: &str) -> (r: Result<InitiatorAddr, CmdError>)
    ensures
        r is Ok <==> spec_parse_initiator(s.spec_bytes()) is Ok,
        r is Ok ==> Ok::<InitiatorAddrV, CmdError>(r->Ok_0@) == spec_parse_initiator(
            s.spec_bytes(),
        ),
        r is Err ==> r->Err_0 == CmdError::InvalidArgument(ArgField::InitiatorAddr),
{
    let b = s.as_bytes();
    let n = b.len();
    let invalid = CmdError::InvalidArgument(ArgField::InitiatorAddr);
    if (n == 66 && b[0] == 48 && b[1] == 49) || (n == 68 && b[0] == 48 && b[1] == 50) {
        // A hex public key; its first byte rules the other formats out.
        proof {
            assert(b@.subrange(0, n as int) =~= b@);
        }
        match decode_hex_range(b, 0, n) {
            Some(v) => {
                return Ok(InitiatorAddr::PublicKey(v));
            },
            None => {
                return Err(invalid);
            },
        }
    }
    if n == 77 && has_account_hash_prefix(b) {
        match decode_hex_range(b, 13, 77) {
            Some(v) => {
                return Ok(InitiatorAddr::AccountHash(v));
            },
            None => {
                return Err(invalid);
            },
        }
    }
    if n >= 14 && has_entity_prefix(b) {
        if n == 78 && has_entity_system(b) {
            match decode_hex_range(b, 14, 78) {
                Some(v) => {
                    return Ok(InitiatorAddr::Entity(EntityKind::System, v));
                },
                None => {
                    return Err(invalid);
                },
            }
        }
        if n == 79 && has_entity_account(b) {
            match decode_hex_range(b, 15, 79) {
                Some(v) => {
                    return Ok(InitiatorAddr::Entity(EntityKind::Account, v));
                },
                None => {
                    return Err(invalid);
                },
            }
        }
        if n == 80 && has_entity_contract(b) {
            match decode_hex_range(b, 16, 80) {
                Some(v) => {
                    return Ok(InitiatorAddr::Entity(EntityKind::SmartContract, v));
                },
                None => {
                    return Err(invalid);
                },
            }
        }
    }
    Err(invalid)
}

} // verus!
