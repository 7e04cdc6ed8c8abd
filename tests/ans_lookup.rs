use ans_lookup::events::{
    decode_optional_string, decode_register_name, decode_set_name_address, DecodeCause,
    OptionalString,
};
use ans_lookup::json::{find_member, string_eq, JsonValue};
use ans_lookup::lookup::{
    parse_timestamp_secs, AnsError, CurrentAnsLookup, Event, MoveStructTag, MoveType,
    Transaction, UserTransaction, UtcTimestamp, MAX_UTC_SECS,
};

const CONTRACT: &str = "0x867ed1f6bf916171b1de3ee92849b8978b7d1b9e0a8cc982a3d19d535dfd9c0c";
const SET: &str = "SetNameAddressEventV1";
const REGISTER: &str = "RegisterNameEventV1";
const NOW: UtcTimestamp = UtcTimestamp { secs: 1_690_000_000 };

fn s(text: &str) -> JsonValue {
    JsonValue::Str(text.to_string())
}

fn optional(items: &[&str]) -> JsonValue {
    JsonValue::Object(vec![(
        "vec".to_string(),
        JsonValue::Array(items.iter().map(|i| s(i)).collect()),
    )])
}

fn object(fields: Vec<(&str, JsonValue)>) -> JsonValue {
    JsonValue::Object(fields.into_iter().map(|(k, v)| (k.to_string(), v)).collect())
}

fn set_payload(domain: &str, sub: &[&str], addr: &[&str], secs: &str) -> JsonValue {
    object(vec![
        ("subdomain_name", optional(sub)),
        ("domain_name", s(domain)),
        ("new_address", optional(addr)),
        ("expiration_time_secs", s(secs)),
    ])
}

fn register_payload(domain: &str, sub: &[&str], secs: &str) -> JsonValue {
    object(vec![
        ("subdomain_name", optional(sub)),
        ("domain_name", s(domain)),
        ("expiration_time_secs", s(secs)),
    ])
}

fn event(address: &str, module: &str, name: &str, data: JsonValue) -> Event {
    Event {
        typ: MoveType::Struct(MoveStructTag {
            address: address.to_string(),
            module: module.to_string(),
            name: name.to_string(),
        }),
        data,
    }
}

fn user_txn(version: i64, events: Vec<Event>) -> Transaction {
    Transaction::UserTransaction(UserTransaction { version, events })
}

fn run(txn: Transaction) -> Result<Vec<CurrentAnsLookup>, AnsError> {
    CurrentAnsLookup::from_transaction(txn, Some(CONTRACT.to_string()), NOW)
}

fn find<'a>(records: &'a [CurrentAnsLookup], domain: &str, sub: &str) -> &'a CurrentAnsLookup {
    records
        .iter()
        .find(|r| r.domain == domain && r.subdomain == sub)
        .expect("record for key")
}

#[test]
fn concrete_scenario() {
    let txn = user_txn(
        42,
        vec![event(CONTRACT, "domains", SET, set_payload("alice", &[], &["0xabc"], "1700000000"))],
    );
    let records = run(txn).unwrap();
    assert_eq!(records.len(), 1);
    let r = find(&records, "alice", "");
    assert_eq!(r.registered_address, Some("0xabc".to_string()));
    assert_eq!(r.last_transaction_version, 42);
    assert_eq!(r.expiration_timestamp, UtcTimestamp { secs: 1_700_000_000 });
    assert_eq!(r.inserted_at, NOW);
}

#[test]
fn only_events_of_the_contract_address() {
    let txn = user_txn(
        7,
        vec![
            event("0x1", "domains", SET, set_payload("bob", &[], &["0x1"], "100")),
            event(CONTRACT, "domains", SET, set_payload("carol", &[], &["0x2"], "100")),
            event("0xdead", "domains", REGISTER, register_payload("dave", &[], "100")),
        ],
    );
    let records = run(txn).unwrap();
    assert_eq!(records.len(), 1);
    assert_eq!(records[0].domain, "carol");
}

#[test]
fn no_contract_address_gives_nothing() {
    let txn = user_txn(
        7,
        vec![event(CONTRACT, "domains", SET, set_payload("carol", &[], &["0x2"], "100"))],
    );
    let records = CurrentAnsLookup::from_transaction(txn, None, NOW).unwrap();
    assert!(records.is_empty());
}

#[test]
fn other_transaction_kinds_give_nothing() {
    for txn in [
        Transaction::PendingTransaction,
        Transaction::GenesisTransaction,
        Transaction::BlockMetadataTransaction,
        Transaction::StateCheckpointTransaction,
    ] {
        assert!(run(txn).unwrap().is_empty());
    }
}

#[test]
fn non_struct_event_type_is_skipped() {
    let txn = user_txn(
        3,
        vec![Event { typ: MoveType::Other, data: set_payload("x", &[], &[], "1") }],
    );
    assert!(run(txn).unwrap().is_empty());
}

#[test]
fn registration_never_sets_an_address() {
    let txn = user_txn(
        5,
        vec![event(CONTRACT, "domains", REGISTER, set_payload("erin", &[], &["0xfeed"], "100"))],
    );
    let records = run(txn).unwrap();
    assert_eq!(records.len(), 1);
    assert_eq!(records[0].registered_address, None);
    assert_eq!(records[0].domain, "erin");
}

#[test]
fn unrelated_event_type_is_skipped() {
    let txn = user_txn(
        5,
        vec![event(CONTRACT, "other", "Unrelated", object(vec![("junk", JsonValue::Null)]))],
    );
    assert!(run(txn).unwrap().is_empty());
}

#[test]
fn later_event_overwrites_earlier_one() {
    let txn = user_txn(
        9,
        vec![
            event(CONTRACT, "domains", REGISTER, register_payload("frank", &[], "100")),
            event(CONTRACT, "domains", SET, set_payload("frank", &[], &["0x99"], "200")),
        ],
    );
    let records = run(txn).unwrap();
    assert_eq!(records.len(), 1);
    let r = find(&records, "frank", "");
    assert_eq!(r.registered_address, Some("0x99".to_string()));
    assert_eq!(r.expiration_timestamp, UtcTimestamp { secs: 200 });
}

#[test]
fn distinct_keys_give_distinct_records() {
    let txn = user_txn(
        9,
        vec![
            event(CONTRACT, "domains", SET, set_payload("gina", &[], &["0x1"], "1")),
            event(CONTRACT, "domains", SET, set_payload("gina", &["www"], &["0x2"], "2")),
            event(CONTRACT, "domains", SET, set_payload("gina", &[], &[], "3")),
        ],
    );
    let records = run(txn).unwrap();
    assert_eq!(records.len(), 2);
    assert_eq!(find(&records, "gina", "").registered_address, None);
    assert_eq!(find(&records, "gina", "").expiration_timestamp, UtcTimestamp { secs: 3 });
    assert_eq!(find(&records, "gina", "www").registered_address, Some("0x2".to_string()));
}

#[test]
fn subdomain_from_container() {
    let txn = user_txn(
        1,
        vec![
            event(CONTRACT, "domains", REGISTER, register_payload("hal", &[], "10")),
            event(CONTRACT, "domains", REGISTER, register_payload("hal", &["mail"], "10")),
        ],
    );
    let records = run(txn).unwrap();
    assert_eq!(records.len(), 2);
    assert_eq!(find(&records, "hal", "").subdomain, "");
    assert_eq!(find(&records, "hal", "mail").subdomain, "mail");
}

#[test]
fn expiration_is_the_same_for_both_kinds() {
    let txn = user_txn(
        2,
        vec![
            event(CONTRACT, "domains", REGISTER, register_payload("ivy", &[], "1700000000")),
            event(CONTRACT, "domains", SET, set_payload("jay", &[], &["0x1"], "1700000000")),
        ],
    );
    let records = run(txn).unwrap();
    let a = find(&records, "ivy", "").expiration_timestamp;
    let b = find(&records, "jay", "").expiration_timestamp;
    assert_eq!(a, b);
    assert_eq!(a, UtcTimestamp { secs: 1_700_000_000 });
}

#[test]
fn decimal_expiration_text_is_parsed() {
    let txn = user_txn(
        2,
        vec![event(CONTRACT, "domains", SET, set_payload("kim", &[], &[], "1.5e3"))],
    );
    let records = run(txn).unwrap();
    assert_eq!(records[0].expiration_timestamp, UtcTimestamp { secs: 1500 });
}

#[test]
fn missing_domain_name_is_fatal() {
    let payload = object(vec![
        ("subdomain_name", optional(&[])),
        ("expiration_time_secs", s("100")),
    ]);
    let txn = user_txn(
        77,
        vec![
            event(CONTRACT, "domains", SET, set_payload("lee", &[], &[], "1")),
            event(CONTRACT, "domains", REGISTER, payload),
        ],
    );
    let expected_payload = object(vec![
        ("subdomain_name", optional(&[])),
        ("expiration_time_secs", s("100")),
    ]);
    match run(txn) {
        Err(AnsError::Decode { version, event_type, payload, cause }) => {
            assert_eq!(version, 77);
            assert_eq!(event_type, "domains::RegisterNameEventV1");
            assert_eq!(payload, expected_payload);
            assert!(matches!(cause, DecodeCause::BadField(f) if f == "domain_name"));
        }
        other => panic!("expected a decode failure, got {:?}", other),
    }
}

#[test]
fn non_decimal_expiration_is_a_decode_failure() {
    let txn = user_txn(
        8,
        vec![event(CONTRACT, "domains", SET, set_payload("mo", &[], &[], "soon"))],
    );
    match run(txn) {
        Err(AnsError::Decode { version: 8, cause: DecodeCause::BadField(f), .. }) => {
            assert_eq!(f, "expiration_time_secs")
        }
        other => panic!("expected a decode failure, got {:?}", other),
    }
}

#[test]
fn wrong_shape_is_a_decode_failure() {
    let txn = user_txn(8, vec![event(CONTRACT, "domains", SET, JsonValue::Null)]);
    assert!(matches!(run(txn), Err(AnsError::Decode { cause: DecodeCause::NotAnObject, .. })));
    let bad_sub = object(vec![
        ("subdomain_name", object(vec![("vec", JsonValue::Array(vec![JsonValue::Bool(true)]))])),
        ("domain_name", s("ned")),
        ("expiration_time_secs", s("5")),
    ]);
    let txn = user_txn(8, vec![event(CONTRACT, "domains", REGISTER, bad_sub)]);
    assert!(matches!(run(txn), Err(AnsError::Decode { .. })));
}

#[test]
fn negative_expiration_is_an_invalid_timestamp() {
    let txn = user_txn(
        11,
        vec![event(CONTRACT, "domains", REGISTER, register_payload("oz", &[], "-5"))],
    );
    match run(txn) {
        Err(AnsError::InvalidTimestamp { version, value }) => {
            assert_eq!(version, 11);
            assert_eq!(value, "-5");
        }
        other => panic!("expected an invalid timestamp, got {:?}", other),
    }
}

#[test]
fn out_of_range_expiration_is_an_invalid_timestamp() {
    for secs in ["99999999999999999999", "9223372036854775808", "8210266876800"] {
        let txn = user_txn(
            12,
            vec![event(CONTRACT, "domains", REGISTER, register_payload("pat", &[], secs))],
        );
        assert!(matches!(run(txn), Err(AnsError::InvalidTimestamp { version: 12, .. })));
    }
}

#[test]
fn latest_calendar_second_is_accepted() {
    let txn = user_txn(
        12,
        vec![event(CONTRACT, "domains", REGISTER, register_payload("quinn", &[], "8210266876799"))],
    );
    let records = run(txn).unwrap();
    assert_eq!(records[0].expiration_timestamp, UtcTimestamp { secs: MAX_UTC_SECS });
}

#[test]
fn timestamp_conversion_bounds() {
    assert_eq!(parse_timestamp_secs(0), Some(UtcTimestamp { secs: 0 }));
    assert_eq!(parse_timestamp_secs(1_700_000_000), Some(UtcTimestamp { secs: 1_700_000_000 }));
    assert_eq!(parse_timestamp_secs(MAX_UTC_SECS as u64), Some(UtcTimestamp { secs: MAX_UTC_SECS }));
    assert_eq!(parse_timestamp_secs(MAX_UTC_SECS as u64 + 1), None);
    assert_eq!(parse_timestamp_secs(u64::MAX), None);
}

#[test]
fn optional_string_first_element() {
    let empty = OptionalString { vec: vec![] };
    assert_eq!(empty.get_string(), None);
    let two = OptionalString { vec: vec!["a".to_string(), "b".to_string()] };
    assert_eq!(two.get_string(), Some("a".to_string()));
}

#[test]
fn optional_string_decoding() {
    assert_eq!(decode_optional_string(&optional(&[])).unwrap().vec, Vec::<String>::new());
    assert_eq!(decode_optional_string(&optional(&["x"])).unwrap().vec, vec!["x".to_string()]);
    assert!(decode_optional_string(&s("x")).is_none());
    assert!(decode_optional_string(&object(vec![("other", optional(&[]))])).is_none());
}

#[test]
fn payload_decoders() {
    let set = decode_set_name_address(&set_payload("r", &["s"], &["0x5"], "9")).unwrap();
    assert_eq!(set.domain_name, "r");
    assert_eq!(set.new_address.get_string(), Some("0x5".to_string()));
    assert_eq!(set.expiration_time_secs, "9");
    assert!(matches!(
        decode_set_name_address(&register_payload("r", &[], "9")),
        Err(DecodeCause::BadField(f)) if f == "new_address"
    ));
    assert_eq!(set.expiration_secs, Some(9));
    let reg = decode_register_name(&register_payload("t", &[], "9")).unwrap();
    assert_eq!(reg.subdomain_name.get_string(), None);
    assert_eq!(reg.domain_name, "t");
}

#[test]
fn member_lookup_takes_the_first() {
    let fields = vec![
        ("a".to_string(), s("1")),
        ("b".to_string(), s("2")),
        ("a".to_string(), s("3")),
    ];
    assert_eq!(find_member(&fields, "a"), Some(&s("1")));
    assert_eq!(find_member(&fields, "b"), Some(&s("2")));
    assert_eq!(find_member(&fields, "c"), None);
    assert!(string_eq("abc", "abc"));
    assert!(!string_eq("abc", "abd"));
    assert!(!string_eq("ab", "abc"));
}

#[test]
fn long_exponent_is_an_invalid_timestamp() {
    for secs in ["1e-9223372036854775808", "1e-9223372036854775807", "1e99999"] {
        let txn = user_txn(
            13,
            vec![event(CONTRACT, "domains", SET, set_payload("rae", &[], &[], secs))],
        );
        match run(txn) {
            Err(AnsError::InvalidTimestamp { version, value }) => {
                assert_eq!(version, 13);
                assert_eq!(value, secs);
            }
            other => panic!("expected an invalid timestamp, got {:?}", other),
        }
    }
    let txn = user_txn(
        13,
        vec![event(CONTRACT, "domains", SET, set_payload("rae", &[], &[], "17e8"))],
    );
    assert_eq!(run(txn).unwrap()[0].expiration_timestamp, UtcTimestamp { secs: 1_700_000_000 });
}

#[test]
fn expiration_is_the_calendar_time_of_the_seconds() {
    let txn = user_txn(
        4,
        vec![
            event(CONTRACT, "domains", REGISTER, register_payload("sam", &[], "1700000000")),
            event(CONTRACT, "domains", SET, set_payload("tia", &[], &["0x1"], "1700000000")),
        ],
    );
    let records = run(txn).unwrap();
    let expected = chrono::NaiveDate::from_ymd_opt(2023, 11, 14)
        .unwrap()
        .and_hms_opt(22, 13, 20)
        .unwrap();
    for r in &records {
        let t = chrono::DateTime::from_timestamp(r.expiration_timestamp.secs, 0).unwrap();
        assert_eq!(t.naive_utc(), expected);
    }
    assert_eq!(records.len(), 2);
}

#[test]
fn foreign_and_unrelated_events_change_no_failure() {
    let bad = object(vec![("subdomain_name", optional(&[]))]);
    let with_noise = user_txn(
        21,
        vec![
            event("0x1", "domains", REGISTER, JsonValue::Null),
            event(CONTRACT, "other", "Unrelated", JsonValue::Null),
            event(CONTRACT, "domains", REGISTER, bad),
        ],
    );
    let bare = user_txn(
        21,
        vec![event(CONTRACT, "domains", REGISTER, object(vec![("subdomain_name", optional(&[]))]))],
    );
    let a = format!("{:?}", run(with_noise));
    let b = format!("{:?}", run(bare));
    assert_eq!(a, b);
    assert!(a.contains("domain_name"));
}

#[test]
fn one_record_after_registration_and_change() {
    let txn = user_txn(
        30,
        vec![
            event("0x2", "domains", SET, set_payload("uma", &[], &["0xother"], "5")),
            event(CONTRACT, "domains", REGISTER, register_payload("uma", &["pay"], "100")),
            event(CONTRACT, "other", "Unrelated", JsonValue::Null),
            event(CONTRACT, "domains", SET, set_payload("uma", &["pay"], &["0x77"], "200")),
        ],
    );
    let records = run(txn).unwrap();
    assert_eq!(records.len(), 1);
    let r = &records[0];
    assert_eq!((r.domain.as_str(), r.subdomain.as_str()), ("uma", "pay"));
    assert_eq!(r.registered_address, Some("0x77".to_string()));
    assert_eq!(r.expiration_timestamp, UtcTimestamp { secs: 200 });
    assert_eq!(r.last_transaction_version, 30);
    assert_eq!(r.inserted_at, NOW);
}
