use casper_cmd::ArgField;
use casper_cmd::Artifact;
use casper_cmd::Block;
use casper_cmd::BlockTransaction;
use casper_cmd::BlockV1;
use casper_cmd::BlockV2;
use casper_cmd::BlockWithSignatures;
use casper_cmd::CmdError;
use casper_cmd::Endpoint;
use casper_cmd::GetBalance;
use casper_cmd::GetBlockResult;
use casper_cmd::InitiatorAddr;
use casper_cmd::EntityKind;
use casper_cmd::ListTransactionsResult;
use casper_cmd::LoadedKey;
use casper_cmd::MakeDeploy;
use casper_cmd::ProtocolVersion;
use casper_cmd::SendDeploy;
use casper_cmd::Timestamp;
use casper_cmd::TransactionHash;
use casper_cmd::TransactionLane;
use casper_cmd::TransactionStrParams;
use casper_cmd::build_artifact;
use casper_cmd::local_write_message;
use casper_cmd::parse_initiator_addr;
use casper_cmd::parse_timestamp;
use casper_cmd::parse_ttl;
use casper_cmd::present;

fn now() -> Timestamp {
    Timestamp { millis: 1_700_000_000_000 }
}

fn pk_hex() -> String {
    let mut s = String::from("01");
    for _ in 0..32 {
        s.push_str("ab");
    }
    s
}

fn valid_params(initiator: &str) -> TransactionStrParams<'_> {
    TransactionStrParams {
        secret_key: "",
        timestamp: "2018-02-16T00:31:37Z",
        ttl: "1day",
        chain_name: "casper-test",
        initiator_addr: initiator,
    }
}

// ---------------------------------------------------------------------------
// Builder
// ---------------------------------------------------------------------------

#[test]
fn builder_rejects_missing_identity() {
    let p = TransactionStrParams {
        secret_key: "",
        timestamp: "2018-02-16T00:31:37Z",
        ttl: "1day",
        chain_name: "casper-test",
        initiator_addr: "",
    };
    let r = build_artifact(&p, None, now(), "", "", "1");
    assert_eq!(r.unwrap_err(), CmdError::InvalidArgument(ArgField::InitiatorAddr));
}

#[test]
fn builder_resolves_validity_window() {
    let pk = pk_hex();
    let p = valid_params(&pk);
    let a: Artifact = build_artifact(&p, None, now(), "", "", "1").unwrap();
    assert_eq!(a.timestamp.millis, 1_518_741_097_000);
    assert_eq!(a.ttl.millis, 86_400_000);
    // 2018-02-17T00:31:37Z
    assert_eq!(a.validity_end(), 1_518_827_497_000);
    assert_eq!(a.chain_name, "casper-test");
    assert!(!a.signed);
    let mut expected = vec![0x01u8];
    expected.extend(std::iter::repeat(0xab).take(32));
    assert_eq!(a.initiator, InitiatorAddr::PublicKey(expected));
}

#[test]
fn builder_is_deterministic_with_explicit_timestamp() {
    let pk = pk_hex();
    let p = valid_params(&pk);
    let a1 = build_artifact(&p, None, Timestamp { millis: 1 }, "s", "p", "2").unwrap();
    let a2 = build_artifact(&p, None, Timestamp { millis: 999_999 }, "s", "p", "2").unwrap();
    assert_eq!(a1, a2);
}

#[test]
fn builder_defaults_timestamp_to_now() {
    let pk = pk_hex();
    let mut p = valid_params(&pk);
    p.timestamp = "";
    let a = build_artifact(&p, None, now(), "", "", "1").unwrap();
    assert_eq!(a.timestamp.millis, now().millis);
}

#[test]
fn builder_derives_initiator_from_loaded_key() {
    let p = TransactionStrParams {
        secret_key: "path/to/secret_key.pem",
        timestamp: "2018-02-16T00:31:37Z",
        ttl: "30min",
        chain_name: "casper-test",
        initiator_addr: "",
    };
    let key_bytes: Vec<u8> = {
        let mut v = vec![1u8];
        v.extend(std::iter::repeat(7u8).take(32));
        v
    };
    let key = LoadedKey { public_key: key_bytes.clone() };
    let a = build_artifact(&p, Some(&key), now(), "", "", "1").unwrap();
    assert_eq!(a.initiator, InitiatorAddr::PublicKey(key_bytes));
    assert!(a.signed);
}

#[test]
fn builder_rejects_bad_timestamp() {
    let pk = pk_hex();
    let mut p = valid_params(&pk);
    p.timestamp = "2018-13-01T00:00:00Z";
    let r = build_artifact(&p, None, now(), "", "", "1");
    assert_eq!(r.unwrap_err(), CmdError::InvalidArgument(ArgField::Timestamp));
}

#[test]
fn builder_rejects_bad_ttl() {
    let pk = pk_hex();
    let mut p = valid_params(&pk);
    p.ttl = "soon";
    let r = build_artifact(&p, None, now(), "", "", "1");
    assert_eq!(r.unwrap_err(), CmdError::InvalidArgument(ArgField::Ttl));
}

#[test]
fn builder_rejects_zero_ttl() {
    let pk = pk_hex();
    let mut p = valid_params(&pk);
    p.ttl = "0sec";
    let r = build_artifact(&p, None, now(), "", "", "1");
    assert_eq!(r.unwrap_err(), CmdError::InvalidArgument(ArgField::Ttl));
}

#[test]
fn builder_rejects_empty_chain_name() {
    let pk = pk_hex();
    let mut p = valid_params(&pk);
    p.chain_name = "";
    let r = build_artifact(&p, None, now(), "", "", "1");
    assert_eq!(r.unwrap_err(), CmdError::InvalidArgument(ArgField::ChainName));
}

#[test]
fn builder_rejects_bad_gas_price() {
    let pk = pk_hex();
    let p = valid_params(&pk);
    let r = build_artifact(&p, None, now(), "", "", "cheap");
    assert_eq!(r.unwrap_err(), CmdError::InvalidArgument(ArgField::GasPrice));
}

// ---------------------------------------------------------------------------
// Timestamp parsing
// ---------------------------------------------------------------------------

#[test]
fn timestamp_epoch_start() {
    let t = parse_timestamp("1970-01-01T00:00:00Z").unwrap();
    assert_eq!(t.millis, 0);
}

#[test]
fn timestamp_space_separator_and_no_zone() {
    let t = parse_timestamp("2018-02-16 00:31:37").unwrap();
    assert_eq!(t.millis, 1_518_741_097_000);
}

#[test]
fn timestamp_fractional_seconds() {
    let t = parse_timestamp("2018-02-16T00:31:37.123Z").unwrap();
    assert_eq!(t.millis, 1_518_741_097_123);
    let t = parse_timestamp("2018-02-16T00:31:37.5Z").unwrap();
    assert_eq!(t.millis, 1_518_741_097_500);
    let t = parse_timestamp("2018-02-16T00:31:37.123456789").unwrap();
    assert_eq!(t.millis, 1_518_741_097_123);
}

#[test]
fn timestamp_leap_day() {
    // 2020-02-29 is a valid leap day; 2019-02-29 is not.
    assert!(parse_timestamp("2020-02-29T00:00:00Z").is_ok());
    assert!(parse_timestamp("2019-02-29T00:00:00Z").is_err());
}

#[test]
fn timestamp_rejects_malformed() {
    for bad in [
        "",
        "yesterday",
        "2018-02-16",
        "2018-13-01T00:00:00Z",
        "2018-02-30T00:00:00Z",
        "2018-02-16T24:00:00Z",
        "2018-02-16T00:61:00Z",
        "2018-02-16T00:31:37.Z",
        "2018-02-16T00:31:37.1234567890Z",
        "1969-12-31T23:59:59Z",
    ] {
        let r = parse_timestamp(bad);
        assert_eq!(r.unwrap_err(), CmdError::InvalidArgument(ArgField::Timestamp), "{bad}");
    }
}

// ---------------------------------------------------------------------------
// TTL parsing
// ---------------------------------------------------------------------------

#[test]
fn ttl_example_durations() {
    assert_eq!(parse_ttl("1hr 12min").unwrap().millis, 4_320_000);
    assert_eq!(parse_ttl("30min 50sec").unwrap().millis, 1_850_000);
    assert_eq!(parse_ttl("1day").unwrap().millis, 86_400_000);
}

#[test]
fn ttl_unspaced_and_unit_spellings() {
    assert_eq!(parse_ttl("1h30m").unwrap().millis, 5_400_000);
    assert_eq!(parse_ttl("2hours").unwrap().millis, 7_200_000);
    assert_eq!(parse_ttl("90s").unwrap().millis, 90_000);
    assert_eq!(parse_ttl("250ms").unwrap().millis, 250);
    assert_eq!(parse_ttl("1week").unwrap().millis, 604_800_000);
}

#[test]
fn ttl_month_and_year_units_are_case_sensitive() {
    // A lowercase m is a minute; an uppercase M is a month.
    assert_eq!(parse_ttl("1m").unwrap().millis, 60_000);
    assert_eq!(parse_ttl("1M").unwrap().millis, 2_630_016_000);
    assert_eq!(parse_ttl("1y").unwrap().millis, 31_557_600_000);
}

#[test]
fn ttl_rejects_malformed_or_zero() {
    for bad in ["", "5", "soon", "5 xyz", "0sec", "min30"] {
        let r = parse_ttl(bad);
        assert_eq!(r.unwrap_err(), CmdError::InvalidArgument(ArgField::Ttl), "{bad}");
    }
}

// ---------------------------------------------------------------------------
// Initiator address parsing
// ---------------------------------------------------------------------------

#[test]
fn initiator_public_key_formats() {
    let pk = pk_hex();
    let mut expected = vec![0x01u8];
    expected.extend(std::iter::repeat(0xab).take(32));
    assert_eq!(parse_initiator_addr(&pk).unwrap(), InitiatorAddr::PublicKey(expected));

    let mut sec = String::from("02");
    for _ in 0..33 {
        sec.push_str("0f");
    }
    let mut expected = vec![0x02u8];
    expected.extend(std::iter::repeat(0x0f).take(33));
    assert_eq!(parse_initiator_addr(&sec).unwrap(), InitiatorAddr::PublicKey(expected));
}

#[test]
fn initiator_accepts_uppercase_hex() {
    let mut s = String::from("01");
    for _ in 0..32 {
        s.push_str("AB");
    }
    let mut expected = vec![0x01u8];
    expected.extend(std::iter::repeat(0xab).take(32));
    assert_eq!(parse_initiator_addr(&s).unwrap(), InitiatorAddr::PublicKey(expected));
}

#[test]
fn initiator_account_hash_format() {
    let s = format!("account-hash-{}", "aa".repeat(32));
    assert_eq!(parse_initiator_addr(&s).unwrap(), InitiatorAddr::AccountHash(vec![0xaa; 32]));
}

#[test]
fn initiator_entity_formats() {
    let s = format!("entity-system-{}", "00".repeat(32));
    assert_eq!(
        parse_initiator_addr(&s).unwrap(),
        InitiatorAddr::Entity(EntityKind::System, vec![0x00; 32])
    );
    let s = format!("entity-account-{}", "ff".repeat(32));
    assert_eq!(
        parse_initiator_addr(&s).unwrap(),
        InitiatorAddr::Entity(EntityKind::Account, vec![0xff; 32])
    );
    let s = format!("entity-contract-{}", "10".repeat(32));
    assert_eq!(
        parse_initiator_addr(&s).unwrap(),
        InitiatorAddr::Entity(EntityKind::SmartContract, vec![0x10; 32])
    );
}

#[test]
fn initiator_rejects_malformed() {
    for bad in [
        "",
        "01abc",
        "03aaaaaaaaaaaaaaaaaaaaaaaaaaaaaaaaaaaaaaaaaaaaaaaaaaaaaaaaaaaaaaaa",
        "account-hash-zz",
        "entity-contract-short",
        "just-words",
    ] {
        let r = parse_initiator_addr(bad);
        assert_eq!(r.unwrap_err(), CmdError::InvalidArgument(ArgField::InitiatorAddr), "{bad}");
    }
}

// ---------------------------------------------------------------------------
// Dispatch
// ---------------------------------------------------------------------------

#[test]
fn speculative_switch_selects_speculative_endpoint_only() {
    assert_eq!(SendDeploy::select_endpoint(true), Endpoint::Speculative);
    assert_ne!(SendDeploy::select_endpoint(true), Endpoint::Standard);
    assert_eq!(SendDeploy::select_endpoint(false), Endpoint::Standard);
}

#[test]
fn local_write_messages() {
    assert_eq!(local_write_message(""), "");
    assert_eq!(local_write_message("deploy.json"), "Wrote the deploy to deploy.json");
}

#[test]
fn make_deploy_prepare_plans_the_write() {
    let pk = pk_hex();
    let p = valid_params(&pk);
    let (a, _action, msg) =
        MakeDeploy::prepare(&p, None, now(), "", "", "1", "out.json").unwrap();
    assert_eq!(a.timestamp.millis, 1_518_741_097_000);
    assert_eq!(msg, "Wrote the deploy to out.json");
    let (_, _, msg) = MakeDeploy::prepare(&p, None, now(), "", "", "1", "").unwrap();
    assert_eq!(msg, "");
}

#[test]
fn deprecation_notices_name_the_replacements() {
    assert!(MakeDeploy::deprecation_warning().contains("deprecated"));
    assert!(MakeDeploy::deprecation_warning().contains("make-transaction"));
    assert!(SendDeploy::deprecation_warning().contains("deprecated"));
    assert!(SendDeploy::deprecation_warning().contains("send-transaction"));
}

// ---------------------------------------------------------------------------
// Balance query pre-flight
// ---------------------------------------------------------------------------

#[test]
fn balance_query_formats() {
    let root = "ab".repeat(32);
    let uref = format!("uref-{}-007", "12".repeat(32));
    let q = GetBalance::prepare(&root, &uref).unwrap();
    assert_eq!(q.state_root_hash, root);
    assert_eq!(q.purse_uref, uref);

    let r = GetBalance::prepare("short", &uref);
    assert_eq!(r.unwrap_err(), CmdError::InvalidArgument(ArgField::StateRootHash));
    let r = GetBalance::prepare(&root, "uref-nope");
    assert_eq!(r.unwrap_err(), CmdError::InvalidArgument(ArgField::PurseUref));
    let bad_rights = format!("uref-{}-0x7", "12".repeat(32));
    let r = GetBalance::prepare(&root, &bad_rights);
    assert_eq!(r.unwrap_err(), CmdError::InvalidArgument(ArgField::PurseUref));
}

// ---------------------------------------------------------------------------
// Normalizer
// ---------------------------------------------------------------------------

fn version(major: u32, minor: u32, patch: u32) -> ProtocolVersion {
    ProtocolVersion { major, minor, patch }
}

#[test]
fn normalizer_block_not_found() {
    let r = ListTransactionsResult::from(GetBlockResult {
        api_version: version(2, 0, 0),
        block_with_signatures: None,
    });
    assert_eq!(r.api_version, version(2, 0, 0));
    assert_eq!(r.transaction_hashes, None);
    assert_eq!(r.transfer_hashes, None);
}

#[test]
fn normalizer_legacy_block_yields_empty_sequences() {
    let r = ListTransactionsResult::from(GetBlockResult {
        api_version: version(1, 5, 6),
        block_with_signatures: Some(BlockWithSignatures {
            block: Block::V1(BlockV1 {
                deploy_hashes: vec![TransactionHash::Deploy(vec![9; 32])],
                transfer_hashes: vec![TransactionHash::Deploy(vec![8; 32])],
            }),
        }),
    });
    assert_eq!(r.api_version, version(1, 5, 6));
    assert_eq!(r.transaction_hashes, Some(vec![]));
    assert_eq!(r.transfer_hashes, Some(vec![]));
}

#[test]
fn normalizer_current_block_three_transactions_one_transfer() {
    let h1 = TransactionHash::Deploy(vec![1; 32]);
    let h2 = TransactionHash::Version1(vec![2; 32]);
    let h3 = TransactionHash::Version1(vec![3; 32]);
    let r = ListTransactionsResult::from(GetBlockResult {
        api_version: version(2, 0, 0),
        block_with_signatures: Some(BlockWithSignatures {
            block: Block::V2(BlockV2 {
                transactions: vec![
                    BlockTransaction { hash: h1.clone(), lane: TransactionLane::Mint },
                    BlockTransaction { hash: h2.clone(), lane: TransactionLane::Large },
                    BlockTransaction { hash: h3.clone(), lane: TransactionLane::Auction },
                ],
            }),
        }),
    });
    let all = r.transaction_hashes.unwrap();
    let transfers = r.transfer_hashes.unwrap();
    assert_eq!(all.len(), 3);
    assert_eq!(all, vec![h1.clone(), h2, h3]);
    assert_eq!(transfers.len(), 1);
    assert_eq!(transfers, vec![h1]);
    assert!(transfers.iter().all(|t| all.contains(t)));
}

// ---------------------------------------------------------------------------
// Presenter
// ---------------------------------------------------------------------------

fn hash_value(variant: &str, digest: &[u8]) -> serde_json::Value {
    let mut hex = String::new();
    for b in digest {
        hex.push_str(&format!("{b:02x}"));
    }
    let mut m = serde_json::Map::new();
    m.insert(variant.to_string(), serde_json::Value::String(hex));
    serde_json::Value::Object(m)
}

#[test]
fn presenter_matches_reference_pretty_encoding() {
    let r = ListTransactionsResult {
        api_version: version(2, 0, 0),
        transaction_hashes: Some(vec![
            TransactionHash::Deploy(vec![0xab; 32]),
            TransactionHash::Version1(vec![0x07; 32]),
        ]),
        transfer_hashes: None,
    };
    let mut m = serde_json::Map::new();
    m.insert(
        "api_version".to_string(),
        serde_json::Value::String("2.0.0".to_string()),
    );
    m.insert(
        "transaction_hashes".to_string(),
        serde_json::Value::Array(vec![
            hash_value("Deploy", &[0xab; 32]),
            hash_value("Version1", &[0x07; 32]),
        ]),
    );
    m.insert("transfer_hashes".to_string(), serde_json::Value::Null);
    let expected = serde_json::to_string_pretty(&serde_json::Value::Object(m)).unwrap();
    assert_eq!(present(&r), expected);
}

#[test]
fn presenter_renders_empty_and_absent_sequences() {
    let r = ListTransactionsResult {
        api_version: version(1, 5, 6),
        transaction_hashes: Some(vec![]),
        transfer_hashes: Some(vec![]),
    };
    let text = present(&r);
    assert_eq!(
        text,
        "{\n  \"api_version\": \"1.5.6\",\n  \"transaction_hashes\": [],\n  \"transfer_hashes\": []\n}"
    );
    let r = ListTransactionsResult {
        api_version: version(1, 5, 6),
        transaction_hashes: None,
        transfer_hashes: None,
    };
    let text = present(&r);
    assert_eq!(
        text,
        "{\n  \"api_version\": \"1.5.6\",\n  \"transaction_hashes\": null,\n  \"transfer_hashes\": null\n}"
    );
}
