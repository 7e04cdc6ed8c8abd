//! Current records of the registry's names, derived from one transaction.
use vstd::prelude::*;

use crate::events::{
    decode_register_name, decode_set_name_address, decoded_event, first_of, ANSEvent,
    AnsEventView, DecodeCause, DecodeCauseView,
};
use crate::json::{string_eq, JsonValue};

verus! {

/// The earliest second, counted from the epoch, that a UTC calendar timestamp can hold
/// (-262143-01-01T00:00:00).
pub const MIN_UTC_SECS: i64 = -8334601315200;

/// The latest second, counted from the epoch, that a UTC calendar timestamp can hold
/// (262142-12-31T23:59:59).
pub const MAX_UTC_SECS: i64 = 8210266876799;

/// A UTC calendar timestamp of second precision, as seconds since the epoch.
#[derive(Clone, Copy, Debug, PartialEq, Eq, Structural)]
pub struct UtcTimestamp {
    pub secs: i64,
}

impl UtcTimestamp {
    /// Whether the timestamp lies in the calendar's range.
    pub open spec fn wf(self) -> bool {
        MIN_UTC_SECS <= self.secs <= MAX_UTC_SECS
    }
}

/// Relies on chrono's `DateTime::from_timestamp(secs, 0)`, which is `Some` exactly when
/// the day that `secs` falls on lies in the years -262143 to 262142; from the epoch on,
/// that is up to 262142-12-31T23:59:59.
#[verifier::external_body]
fn is_calendar_secs(secs: i64) -> (r: bool)
    requires
        secs >= 0,
    ensures
        r == (secs <= MAX_UTC_SECS),
{
    chrono::DateTime::from_timestamp(secs, 0).is_some()
}

/// The timestamp of an unsigned count of seconds since the epoch, if the calendar holds it.
pub open spec fn timestamp_of(secs: u64) -> Option<UtcTimestamp> {
    if secs <= MAX_UTC_SECS {
        Some(UtcTimestamp { secs: secs as i64 })
    } else {
        None
    }
}

/// Converts seconds since the epoch to a calendar timestamp.
pub fn parse_timestamp_secs(secs: u64) -> (r: Option<UtcTimestamp>)
    ensures
        r == timestamp_of(secs),
        r matches Some(t) ==> t.wf(),
{
    if secs > i64::MAX as u64 {
        return None;
    }
    let s: i64 = secs as i64;
    if is_calendar_secs(s) {
        Some(UtcTimestamp { secs: s })
    } else {
        None
    }
}

/// The latest known state of one name.
#[derive(Debug)]
pub struct CurrentAnsLookup {
    pub domain: String,
    /// Empty for a bare domain.
    pub subdomain: String,
    /// The address that the name resolves to; `None` when unset.
    pub registered_address: Option<String>,
    pub last_transaction_version: i64,
    pub expiration_timestamp: UtcTimestamp,
    pub inserted_at: UtcTimestamp,
}

pub struct LookupView {
    pub domain: Seq<char>,
    pub subdomain: Seq<char>,
    pub registered_address: Option<Seq<char>>,
    pub last_transaction_version: i64,
    pub expiration_timestamp: UtcTimestamp,
    pub inserted_at: UtcTimestamp,
}

pub open spec fn opt_view(o: Option<String>) -> Option<Seq<char>> {
    match o {
        Some(s) => Some(s@),
        None => None,
    }
}

impl View for CurrentAnsLookup {
    type V = LookupView;

    open spec fn view(&self) -> LookupView {
        LookupView {
            domain: self.domain@,
            subdomain: self.subdomain@,
            registered_address: opt_view(self.registered_address),
            last_transaction_version: self.last_transaction_version,
            expiration_timestamp: self.expiration_timestamp,
            inserted_at: self.inserted_at,
        }
    }
}

/// The primary key of a record: its domain and subdomain.
pub open spec fn key_of(r: LookupView) -> (Seq<char>, Seq<char>) {
    (r.domain, r.subdomain)
}

/// The record that a decoded event gives. The subdomain is empty when absent, and a
/// registration never sets an address.
pub open spec fn record_of(
    ev: AnsEventView,
    version: i64,
    expiration: UtcTimestamp,
    inserted_at: UtcTimestamp,
) -> LookupView {
    LookupView {
        domain: ev.domain_name,
        subdomain: match first_of(ev.subdomain_name) {
            Some(s) => s,
            None => Seq::empty(),
        },
        registered_address: if ev.registration {
            None
        } else {
            first_of(ev.new_address)
        },
        last_transaction_version: version,
        expiration_timestamp: expiration,
        inserted_at,
    }
}

/// Why a transaction's records cannot be derived.
#[derive(Debug)]
pub enum AnsError {
    /// A payload of a known event type does not have that type's layout.
    Decode { version: i64, event_type: String, payload: JsonValue, cause: DecodeCause },
    /// An expiration that no calendar timestamp holds, given as its decimal text.
    InvalidTimestamp { version: i64, value: String },
}

pub enum AnsErrorView {
    Decode { version: i64, event_type: Seq<char>, payload: JsonValue, cause: DecodeCauseView },
    InvalidTimestamp { version: i64, value: Seq<char> },
}

impl View for AnsError {
    type V = AnsErrorView;

    open spec fn view(&self) -> AnsErrorView {
        match self {
            AnsError::Decode { version, event_type, payload, cause } => AnsErrorView::Decode {
                version: *version,
                event_type: event_type@,
                payload: *payload,
                cause: cause@,
            },
            AnsError::InvalidTimestamp { version, value } => AnsErrorView::InvalidTimestamp {
                version: *version,
                value: value@,
            },
        }
    }
}

/// The timestamp of an event's expiration, if the event's integer is one.
pub open spec fn expiration_of(ev: AnsEventView) -> Option<UtcTimestamp> {
    match ev.expiration_secs {
        Some(n) => timestamp_of(n),
        None => None,
    }
}

/// Builds the record of a decoded event, or fails when its expiration is no calendar
/// timestamp.
pub fn lookup_from_event(event: ANSEvent, version: i64, inserted_at: UtcTimestamp) -> (r: Result<
    CurrentAnsLookup,
    AnsError,
>)
    ensures
        match expiration_of(event@) {
            Some(t) => r matches Ok(rec) && rec@ == record_of(event@, version, t, inserted_at),
            None => r matches Err(e) && e@ == (AnsErrorView::InvalidTimestamp {
                version,
                value: event@.expiration_time_secs,
            }),
        },
{
    match event {
        ANSEvent::SetNameAddressEventV1(inner) => {
            let expiration = match inner.expiration_secs {
                Some(n) => parse_timestamp_secs(n),
                None => None,
            };
            let expiration_timestamp = match expiration {
                Some(t) => t,
                None => {
                    return Err(
                        AnsError::InvalidTimestamp {
                            version,
                            value: inner.expiration_time_secs,
                        },
                    );
                },
            };
            let subdomain = match inner.subdomain_name.get_string() {
                Some(s) => s,
                None => String::new(),
            };
            Ok(
                CurrentAnsLookup {
                    domain: inner.domain_name,
                    subdomain,
                    registered_address: inner.new_address.get_string(),
                    last_transaction_version: version,
                    expiration_timestamp,
                    inserted_at,
                },
            )
        },
        ANSEvent::RegisterNameEventV1(inner) => {
            let expiration = match inner.expiration_secs {
                Some(n) => parse_timestamp_secs(n),
                None => None,
            };
            let expiration_timestamp = match expiration {
                Some(t) => t,
                None => {
                    return Err(
                        AnsError::InvalidTimestamp {
                            version,
                            value: inner.expiration_time_secs,
                        },
                    );
                },
            };
            let subdomain = match inner.subdomain_name.get_string() {
                Some(s) => s,
                None => String::new(),
            };
            Ok(
                CurrentAnsLookup {
                    domain: inner.domain_name,
                    subdomain,
                    registered_address: None,
                    last_transaction_version: version,
                    expiration_timestamp,
                    inserted_at,
                },
            )
        },
    }
}

/// The type tag of a Move struct: the address of the module that defines it, the
/// module's name and the struct's name.
#[derive(Debug)]
pub struct MoveStructTag {
    pub address: String,
    pub module: String,
    pub name: String,
}

/// The type of an event.
#[derive(Debug)]
pub enum MoveType {
    Struct(MoveStructTag),
    /// A type that is not a struct.
    Other,
}

/// An event emitted by a transaction: its type and its payload.
#[derive(Debug)]
pub struct Event {
    pub typ: MoveType,
    pub data: JsonValue,
}

/// A transaction submitted by a user: its version and its events, in order.
#[derive(Debug)]
pub struct UserTransaction {
    pub version: i64,
    pub events: Vec<Event>,
}

/// A transaction of the chain; only those that users submit carry registry events.
#[derive(Debug)]
pub enum Transaction {
    PendingTransaction,
    UserTransaction(UserTransaction),
    GenesisTransaction,
    BlockMetadataTransaction,
    StateCheckpointTransaction,
}

/// The qualified type of an event: `<module>::<name>`.
pub open spec fn qualified_type(tag: MoveStructTag) -> Seq<char> {
    tag.module@ + "::"@ + tag.name@
}

/// What one event contributes.
pub enum Outcome {
    Skip,
    Record(LookupView),
    Fail(AnsErrorView),
}

/// What an event of a transaction of `version` contributes, where `addr` is the
/// registry's contract address.
pub open spec fn event_outcome(
    e: Event,
    addr: Seq<char>,
    version: i64,
    inserted_at: UtcTimestamp,
) -> Outcome {
    match e.typ {
        MoveType::Struct(tag) => {
            let t = qualified_type(tag);
            let decoded = if t == "domains::SetNameAddressEventV1"@ {
                Some(decoded_event(e.data, false))
            } else if t == "domains::RegisterNameEventV1"@ {
                Some(decoded_event(e.data, true))
            } else {
                None
            };
            if tag.address@ != addr {
                Outcome::Skip
            } else {
                match decoded {
                    None => Outcome::Skip,
                    Some(Err(cause)) => Outcome::Fail(
                        AnsErrorView::Decode { version, event_type: t, payload: e.data, cause },
                    ),
                    Some(Ok(ev)) => match expiration_of(ev) {
                        Some(ts) => Outcome::Record(record_of(ev, version, ts, inserted_at)),
                        None => Outcome::Fail(
                            AnsErrorView::InvalidTimestamp {
                                version,
                                value: ev.expiration_time_secs,
                            },
                        ),
                    },
                }
            }
        },
        MoveType::Other => Outcome::Skip,
    }
}

/// The records of the first `n` events, folded in order: a later record replaces an
/// earlier one of the same key, and the first failure ends the fold.
pub open spec fn lookups_upto(
    events: Seq<Event>,
    n: int,
    addr: Seq<char>,
    version: i64,
    inserted_at: UtcTimestamp,
) -> Result<Map<(Seq<char>, Seq<char>), LookupView>, AnsErrorView>
    decreases n,
{
    if n <= 0 {
        Ok(Map::empty())
    } else {
        match lookups_upto(events, n - 1, addr, version, inserted_at) {
            Err(e) => Err(e),
            Ok(m) => match event_outcome(events[n - 1], addr, version, inserted_at) {
                Outcome::Skip => Ok(m),
                Outcome::Record(r) => Ok(m.insert(key_of(r), r)),
                Outcome::Fail(e) => Err(e),
            },
        }
    }
}

/// The records that a transaction gives: none without a contract address or for a
/// transaction that no user submitted.
pub open spec fn transaction_lookups(
    transaction: Transaction,
    ans_contract_address: Option<String>,
    inserted_at: UtcTimestamp,
) -> Result<Map<(Seq<char>, Seq<char>), LookupView>, AnsErrorView> {
    match ans_contract_address {
        None => Ok(Map::empty()),
        Some(addr) => match transaction {
            Transaction::UserTransaction(t) => lookups_upto(
                t.events@,
                t.events@.len() as int,
                addr@,
                t.version,
                inserted_at,
            ),
            _ => Ok(Map::empty()),
        },
    }
}

/// The records hold distinct keys, and their key-to-record map is `m`.
pub open spec fn represents(
    records: Seq<CurrentAnsLookup>,
    m: Map<(Seq<char>, Seq<char>), LookupView>,
) -> bool {
    &&& forall|i: int, j: int|
        0 <= i < j < records.len() ==> key_of(#[trigger] records[i]@) != key_of(
            #[trigger] records[j]@,
        )
    &&& forall|i: int|
        0 <= i < records.len() ==> #[trigger] m.contains_key(key_of(records[i]@)) && m[key_of(
            records[i]@,
        )] == records[i]@
    &&& forall|k: (Seq<char>, Seq<char>)|
        #[trigger] m.contains_key(k) ==> exists|i: int|
            0 <= i < records.len() && key_of(#[trigger] records[i]@) == k
}

/// Inserts a record, replacing the one of the same key if there is one.
pub fn upsert(records: &mut Vec<CurrentAnsLookup>, rec: CurrentAnsLookup)
    requires
        exists|m| represents(old(records)@, m),
    ensures
        forall|m|
            represents(old(records)@, m) ==> represents(final(records)@, m.insert(key_of(rec@), rec@)),
{
    let ghost rv = rec@;
    let ghost k = key_of(rv);
    let mut i: usize = 0;
    while i < records.len()
        invariant
            i <= records.len(),
            records@ == old(records)@,
            rv == rec@,
            k == key_of(rv),
            forall|j: int| 0 <= j < i ==> key_of(#[trigger] records@[j]@) != k,
        decreases records.len() - i,
    {
        if string_eq(records[i].domain.as_str(), rec.domain.as_str()) && string_eq(
            records[i].subdomain.as_str(),
            rec.subdomain.as_str(),
        ) {
            let ghost before = records@;
            assert(key_of(before[i as int]@) == k);
            records.set(i, rec);
            assert(records@[i as int]@ == rv);
            assert forall|m| represents(before, m) implies represents(
                records@,
                m.insert(k, rv),
            ) by {
                let m2 = m.insert(k, rv);
                assert forall|k2| #[trigger] m2.contains_key(k2) implies exists|j: int|
                    0 <= j < records@.len() && key_of(#[trigger] records@[j]@) == k2 by {
                    if k2 == k {
                        assert(key_of(records@[i as int]@) == k2);
                    } else {
                        let j = choose|j: int| 0 <= j < before.len() && key_of(
                            #[trigger] before[j]@,
                        ) == k2;
                        assert(key_of(records@[j]@) == k2);
                    }
                }
                assert forall|j: int| 0 <= j < records@.len() implies #[trigger] m2.contains_key(
                    key_of(records@[j]@),
                ) && m2[key_of(records@[j]@)] == records@[j]@ by {
                    if j != i {
                        if j < i {
                            assert(key_of(before[j]@) != key_of(before[i as int]@));
                        } else {
                            assert(key_of(before[i as int]@) != key_of(before[j]@));
                        }
                    }
                }
            }
            return ;
        }
        i = i + 1;
    }
    let ghost before = records@;
    records.push(rec);
    assert(records@[before.len() as int]@ == rv);
    assert forall|m| represents(before, m) implies represents(records@, m.insert(k, rv)) by {
        let m2 = m.insert(k, rv);
        assert forall|k2| #[trigger] m2.contains_key(k2) implies exists|j: int|
            0 <= j < records@.len() && key_of(#[trigger] records@[j]@) == k2 by {
            if k2 == k {
                assert(key_of(records@[before.len() as int]@) == k2);
            } else {
                let j = choose|j: int| 0 <= j < before.len() && key_of(#[trigger] before[j]@) == k2;
                assert(key_of(records@[j]@) == k2);
            }
        }
    }
}

/// Once the fold has failed, later events leave the failure as it is.
pub proof fn lemma_failure_persists(
    events: Seq<Event>,
    n: int,
    total: int,
    addr: Seq<char>,
    version: i64,
    inserted_at: UtcTimestamp,
)
    requires
        0 <= n <= total,
        lookups_upto(events, n, addr, version, inserted_at) is Err,
    ensures
        lookups_upto(events, total, addr, version, inserted_at) == lookups_upto(
            events,
            n,
            addr,
            version,
            inserted_at,
        ),
    decreases total - n,
{
    if n < total {
        lemma_failure_persists(events, n, total - 1, addr, version, inserted_at);
    }
}

/// What an event contributes: nothing, a record, or a failure.
pub fn event_record(event: Event, addr: &String, version: i64, inserted_at: UtcTimestamp) -> (r:
    Result<Option<CurrentAnsLookup>, AnsError>)
    ensures
        match event_outcome(event, addr@, version, inserted_at) {
            Outcome::Skip => r matches Ok(None),
            Outcome::Record(v) => r matches Ok(Some(rec)) && rec@ == v,
            Outcome::Fail(e) => r matches Err(x) && x@ == e,
        },
{
    let Event { typ, data } = event;
    let tag = match typ {
        MoveType::Struct(tag) => tag,
        MoveType::Other => {
            return Ok(None);
        },
    };
    if !string_eq(tag.address.as_str(), addr.as_str()) {
        return Ok(None);
    }
    let mut event_type: String = tag.module.clone();
    event_type.append("::");
    event_type.append(tag.name.as_str());
    assert(event_type@ == qualified_type(tag));
    let decoded: ANSEvent = if string_eq(event_type.as_str(), "domains::SetNameAddressEventV1") {
        match decode_set_name_address(&data) {
            Ok(e) => ANSEvent::SetNameAddressEventV1(e),
            Err(cause) => {
                return Err(AnsError::Decode { version, event_type, payload: data, cause });
            },
        }
    } else if string_eq(event_type.as_str(), "domains::RegisterNameEventV1") {
        match decode_register_name(&data) {
            Ok(e) => ANSEvent::RegisterNameEventV1(e),
            Err(cause) => {
                return Err(AnsError::Decode { version, event_type, payload: data, cause });
            },
        }
    } else {
        return Ok(None);
    };
    match lookup_from_event(decoded, version, inserted_at) {
        Ok(rec) => Ok(Some(rec)),
        Err(e) => Err(e),
    }
}

impl CurrentAnsLookup {
    /// The current records that one transaction gives, one per key, a later event
    /// replacing the record of an earlier one with the same key; or the first failure.
    /// Without a contract address, or for a transaction that no user submitted, there
    /// are none.
    pub fn from_transaction(
        transaction: Transaction,
        ans_contract_address: Option<String>,
        inserted_at: UtcTimestamp,
    ) -> (r: Result<Vec<CurrentAnsLookup>, AnsError>)
        ensures
            match transaction_lookups(transaction, ans_contract_address, inserted_at) {
                Ok(m) => r matches Ok(v) && represents(v@, m),
                Err(e) => r matches Err(x) && x@ == e,
            },
    {
        let ghost whole = transaction;
        let mut current_ans_lookups: Vec<CurrentAnsLookup> = Vec::new();
        assert(represents(current_ans_lookups@, Map::empty()));
        let addr = match ans_contract_address {
            Some(a) => a,
            None => {
                return Ok(current_ans_lookups);
            },
        };
        let user_txn = match transaction {
            Transaction::UserTransaction(u) => u,
            _ => {
                return Ok(current_ans_lookups);
            },
        };
        let version = user_txn.version;
        let ghost events = user_txn.events@;
        let mut rest: Vec<Event> = user_txn.events;
        let total: usize = rest.len();
        assert(events.len() == total);
        let mut i: usize = 0;
        while rest.len() > 0
            invariant
                i <= events.len(),
                whole == transaction,
                events.len() == total,
                rest@ == events.subrange(i as int, events.len() as int),
                transaction_lookups(whole, ans_contract_address, inserted_at) == lookups_upto(
                    events,
                    events.len() as int,
                    addr@,
                    version,
                    inserted_at,
                ),
                lookups_upto(events, i as int, addr@, version, inserted_at) matches Ok(m)
                    && represents(current_ans_lookups@, m),
            decreases rest.len(),
        {
            assert(rest@.len() == events.len() - i);
            let event = rest.remove(0);
            assert(event == events[i as int]);
            match event_record(event, &addr, version, inserted_at) {
                Ok(Some(rec)) => {
                    upsert(&mut current_ans_lookups, rec);
                },
                Ok(None) => {},
                Err(e) => {
                    assert(lookups_upto(events, i + 1, addr@, version, inserted_at) == Err::<
                        Map<(Seq<char>, Seq<char>), LookupView>,
                        AnsErrorView,
                    >(e@));
                    proof {
                        lemma_failure_persists(
                            events,
                            i + 1,
                            events.len() as int,
                            addr@,
                            version,
                            inserted_at,
                        );
                    }
                    return Err(e);
                },
            }
            i = i + 1;
            assert(rest@ =~= events.subrange(i as int, events.len() as int));
        }
        assert(i == events.len());
        Ok(current_ans_lookups)
    }
}

} // verus!
