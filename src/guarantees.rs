//! What holds of every transaction, proved over the fold that `from_transaction` follows.
use vstd::prelude::*;

use crate::events::{decoded_event, optional_member, DecodeCauseView};
use crate::json::{string_member, JsonValue};
use crate::lookup::{
    event_outcome, key_of, lemma_failure_persists, lookups_upto, qualified_type, represents,
    transaction_lookups, AnsErrorView, CurrentAnsLookup, Event, LookupView, MoveType, Outcome,
    Transaction, UtcTimestamp, MAX_UTC_SECS,
};

verus! {

/// The two known event types are distinct texts.
proof fn lemma_event_types_differ()
    ensures
        "domains::RegisterNameEventV1"@ != "domains::SetNameAddressEventV1"@,
{
    reveal_strlit("domains::RegisterNameEventV1");
    reveal_strlit("domains::SetNameAddressEventV1");
    assert("domains::RegisterNameEventV1"@.len() != "domains::SetNameAddressEventV1"@.len());
}

/// Without a contract address a transaction gives no record, whatever its events.
pub proof fn lemma_no_address_no_records(transaction: Transaction, inserted_at: UtcTimestamp)
    ensures
        transaction_lookups(transaction, None, inserted_at) matches Ok(m) && m.is_empty(),
{
}

/// Every record comes from an event whose type is defined at the contract address.
pub proof fn lemma_records_from_contract(
    events: Seq<Event>,
    n: int,
    addr: Seq<char>,
    version: i64,
    inserted_at: UtcTimestamp,
)
    requires
        0 <= n <= events.len(),
        lookups_upto(events, n, addr, version, inserted_at) is Ok,
    ensures
        forall|k: (Seq<char>, Seq<char>)| #[trigger]
            lookups_upto(events, n, addr, version, inserted_at)->Ok_0.contains_key(k)
                ==> exists|i: int|
                0 <= i < n && (events[i].typ matches MoveType::Struct(tag) && tag.address@ == addr)
                    && #[trigger] event_outcome(events[i], addr, version, inserted_at)
                    == Outcome::Record(
                    lookups_upto(events, n, addr, version, inserted_at)->Ok_0[k],
                ),
    decreases n,
{
    if n > 0 {
        lemma_records_from_contract(events, n - 1, addr, version, inserted_at);
        let m = lookups_upto(events, n, addr, version, inserted_at)->Ok_0;
        let prev = lookups_upto(events, n - 1, addr, version, inserted_at)->Ok_0;
        assert forall|k: (Seq<char>, Seq<char>)| #[trigger] m.contains_key(k) implies exists|i: int|
            0 <= i < n && (events[i].typ matches MoveType::Struct(tag) && tag.address@ == addr)
                && #[trigger] event_outcome(events[i], addr, version, inserted_at)
                == Outcome::Record(m[k]) by {
            match event_outcome(events[n - 1], addr, version, inserted_at) {
                Outcome::Record(r) => {
                    if k == key_of(r) {
                        assert(event_outcome(events[n - 1], addr, version, inserted_at)
                            == Outcome::Record(m[k]));
                    } else {
                        assert(prev.contains_key(k));
                    }
                },
                _ => {
                    assert(prev.contains_key(k));
                },
            }
        }
    }
}

/// A registration never gives a record with an address.
pub proof fn lemma_registration_sets_no_address(
    e: Event,
    addr: Seq<char>,
    version: i64,
    inserted_at: UtcTimestamp,
)
    requires
        e.typ matches MoveType::Struct(tag) && qualified_type(tag)
            == "domains::RegisterNameEventV1"@,
    ensures
        event_outcome(e, addr, version, inserted_at) matches Outcome::Record(r)
            ==> r.registered_address is None,
{
    lemma_event_types_differ();
}

/// An event of any other type gives no record and no failure.
pub proof fn lemma_other_types_skipped(
    e: Event,
    addr: Seq<char>,
    version: i64,
    inserted_at: UtcTimestamp,
)
    requires
        e.typ matches MoveType::Struct(tag) && qualified_type(tag)
            != "domains::RegisterNameEventV1"@ && qualified_type(tag)
            != "domains::SetNameAddressEventV1"@,
    ensures
        event_outcome(e, addr, version, inserted_at) == Outcome::Skip,
{
}

/// The record of a key is the one of the last event that gave that key: an earlier
/// record of the same key is replaced whole.
pub proof fn lemma_last_writer_wins(
    events: Seq<Event>,
    n: int,
    j: int,
    r: LookupView,
    addr: Seq<char>,
    version: i64,
    inserted_at: UtcTimestamp,
)
    requires
        0 <= j < n <= events.len(),
        lookups_upto(events, n, addr, version, inserted_at) is Ok,
        event_outcome(events[j], addr, version, inserted_at) == Outcome::Record(r),
        forall|l: int|
            j < l < n ==> !(#[trigger] event_outcome(events[l], addr, version, inserted_at) matches Outcome::Record(
                r2,
            ) && key_of(r2) == key_of(r)),
    ensures
        lookups_upto(events, n, addr, version, inserted_at)->Ok_0.contains_key(key_of(r)),
        lookups_upto(events, n, addr, version, inserted_at)->Ok_0[key_of(r)] == r,
    decreases n,
{
    if j < n - 1 {
        assert(lookups_upto(events, n - 1, addr, version, inserted_at) is Ok);
        lemma_last_writer_wins(events, n - 1, j, r, addr, version, inserted_at);
        let o = event_outcome(events[n - 1], addr, version, inserted_at);
        assert(!(o matches Outcome::Record(r2) && key_of(r2) == key_of(r)));
    }
}

/// The subdomain of a record is the first string of the payload's subdomain container,
/// and empty when the container is.
pub proof fn lemma_subdomain_from_container(
    e: Event,
    addr: Seq<char>,
    version: i64,
    inserted_at: UtcTimestamp,
    fields: Vec<(String, JsonValue)>,
    items: Seq<Seq<char>>,
)
    requires
        e.data == JsonValue::Object(fields),
        optional_member(fields@, "subdomain_name"@) == Some(items),
    ensures
        event_outcome(e, addr, version, inserted_at) matches Outcome::Record(r) ==> r.subdomain
            == (if items.len() == 0 {
            Seq::<char>::empty()
        } else {
            items[0]
        }),
{
}

/// The expiration of a record is the calendar timestamp of the seconds in the event, for
/// both kinds of event alike.
pub proof fn lemma_expiration_from_seconds(
    e: Event,
    addr: Seq<char>,
    version: i64,
    inserted_at: UtcTimestamp,
    registration: bool,
    n: u64,
)
    requires
        e.typ matches MoveType::Struct(tag) && tag.address@ == addr && qualified_type(tag) == (
        if registration {
            "domains::RegisterNameEventV1"@
        } else {
            "domains::SetNameAddressEventV1"@
        }),
        decoded_event(e.data, registration) matches Ok(ev) && ev.expiration_secs == Some(n),
        n <= MAX_UTC_SECS,
    ensures
        event_outcome(e, addr, version, inserted_at) matches Outcome::Record(r)
            && r.expiration_timestamp == (UtcTimestamp { secs: n as i64 })
            && r.last_transaction_version == version,
{
    lemma_event_types_differ();
}

/// A registration and an address change with the same seconds give records with the
/// same expiration.
pub proof fn lemma_expiration_same_for_both_kinds(
    registration: Event,
    change: Event,
    addr: Seq<char>,
    version: i64,
    inserted_at: UtcTimestamp,
    n: u64,
)
    requires
        registration.typ matches MoveType::Struct(tag) && tag.address@ == addr && qualified_type(
            tag,
        ) == "domains::RegisterNameEventV1"@,
        change.typ matches MoveType::Struct(tag) && tag.address@ == addr && qualified_type(tag)
            == "domains::SetNameAddressEventV1"@,
        decoded_event(registration.data, true) matches Ok(ev) && ev.expiration_secs == Some(n),
        decoded_event(change.data, false) matches Ok(ev) && ev.expiration_secs == Some(n),
        n <= MAX_UTC_SECS,
    ensures
        event_outcome(registration, addr, version, inserted_at) matches Outcome::Record(r1)
            && event_outcome(change, addr, version, inserted_at) matches Outcome::Record(r2)
            && r1.expiration_timestamp == r2.expiration_timestamp,
{
    lemma_expiration_from_seconds(registration, addr, version, inserted_at, true, n);
    lemma_expiration_from_seconds(change, addr, version, inserted_at, false, n);
}

/// A registration whose payload has its subdomain but lacks its domain name fails,
/// naming the transaction's version, the event's type, its payload and the member.
pub proof fn lemma_missing_domain_name_fails(
    e: Event,
    addr: Seq<char>,
    version: i64,
    inserted_at: UtcTimestamp,
)
    requires
        e.typ matches MoveType::Struct(tag) && tag.address@ == addr && qualified_type(tag)
            == "domains::RegisterNameEventV1"@,
        e.data matches JsonValue::Object(fields) && optional_member(fields@, "subdomain_name"@)
            is Some && string_member(fields@, "domain_name"@) is None,
    ensures
        event_outcome(e, addr, version, inserted_at) == Outcome::Fail(
            AnsErrorView::Decode {
                version,
                event_type: "domains::RegisterNameEventV1"@,
                payload: e.data,
                cause: DecodeCauseView::BadField("domain_name"@),
            },
        ),
{
    lemma_event_types_differ();
}

/// A failing event fails the whole transaction: no partial set of records comes out.
pub proof fn lemma_failure_is_fatal(
    events: Seq<Event>,
    j: int,
    addr: Seq<char>,
    version: i64,
    inserted_at: UtcTimestamp,
)
    requires
        0 <= j < events.len(),
        event_outcome(events[j], addr, version, inserted_at) is Fail,
    ensures
        lookups_upto(events, events.len() as int, addr, version, inserted_at) is Err,
{
    assert(lookups_upto(events, j + 1, addr, version, inserted_at) is Err);
    lemma_failure_persists(
        events,
        j + 1,
        events.len() as int,
        addr,
        version,
        inserted_at,
    );
}

/// Removing an event that contributes nothing leaves every prefix's fold as it was.
proof fn lemma_remove_skipped_upto(
    events: Seq<Event>,
    j: int,
    n: int,
    addr: Seq<char>,
    version: i64,
    inserted_at: UtcTimestamp,
)
    requires
        0 <= j < events.len(),
        0 <= n <= events.len(),
        event_outcome(events[j], addr, version, inserted_at) == Outcome::Skip,
    ensures
        n <= j ==> lookups_upto(events.remove(j), n, addr, version, inserted_at) == lookups_upto(
            events,
            n,
            addr,
            version,
            inserted_at,
        ),
        n > j ==> lookups_upto(events.remove(j), n - 1, addr, version, inserted_at)
            == lookups_upto(events, n, addr, version, inserted_at),
    decreases n,
{
    if n > 0 {
        lemma_remove_skipped_upto(events, j, n - 1, addr, version, inserted_at);
        if n - 1 < j {
            assert(events.remove(j)[n - 1] == events[n - 1]);
        } else if n - 1 > j {
            assert(events.remove(j)[n - 2] == events[n - 1]);
        }
    }
}

/// Events that contribute nothing, those defined at other addresses or of other types
/// among them, can be dropped without changing the result, failures included.
pub proof fn lemma_skipped_event_changes_nothing(
    events: Seq<Event>,
    j: int,
    addr: Seq<char>,
    version: i64,
    inserted_at: UtcTimestamp,
)
    requires
        0 <= j < events.len(),
        event_outcome(events[j], addr, version, inserted_at) == Outcome::Skip,
    ensures
        lookups_upto(events.remove(j), events.len() - 1, addr, version, inserted_at)
            == lookups_upto(events, events.len() as int, addr, version, inserted_at),
{
    lemma_remove_skipped_upto(events, j, events.len() as int, addr, version, inserted_at);
}

/// An event defined at another address than the contract's contributes nothing.
pub proof fn lemma_foreign_events_skipped(
    e: Event,
    addr: Seq<char>,
    version: i64,
    inserted_at: UtcTimestamp,
)
    requires
        e.typ matches MoveType::Struct(tag) && tag.address@ != addr,
    ensures
        event_outcome(e, addr, version, inserted_at) == Outcome::Skip,
{
}

/// The fold over events of which only two give records, of one key.
proof fn lemma_two_records_upto(
    events: Seq<Event>,
    j1: int,
    j2: int,
    r1: LookupView,
    r2: LookupView,
    n: int,
    addr: Seq<char>,
    version: i64,
    inserted_at: UtcTimestamp,
)
    requires
        0 <= j1 < j2 < events.len(),
        0 <= n <= events.len(),
        event_outcome(events[j1], addr, version, inserted_at) == Outcome::Record(r1),
        event_outcome(events[j2], addr, version, inserted_at) == Outcome::Record(r2),
        key_of(r1) == key_of(r2),
        forall|l: int|
            0 <= l < events.len() && l != j1 && l != j2 ==> #[trigger] event_outcome(
                events[l],
                addr,
                version,
                inserted_at,
            ) == Outcome::Skip,
    ensures
        n <= j1 ==> lookups_upto(events, n, addr, version, inserted_at) == Ok::<
            Map<(Seq<char>, Seq<char>), LookupView>,
            AnsErrorView,
        >(Map::empty()),
        j1 < n <= j2 ==> lookups_upto(events, n, addr, version, inserted_at) == Ok::<
            Map<(Seq<char>, Seq<char>), LookupView>,
            AnsErrorView,
        >(Map::empty().insert(key_of(r1), r1)),
        j2 < n ==> lookups_upto(events, n, addr, version, inserted_at) == Ok::<
            Map<(Seq<char>, Seq<char>), LookupView>,
            AnsErrorView,
        >(Map::empty().insert(key_of(r2), r2)),
    decreases n,
{
    if n > 0 {
        lemma_two_records_upto(events, j1, j2, r1, r2, n - 1, addr, version, inserted_at);
        if n - 1 == j2 {
            assert(Map::empty().insert(key_of(r1), r1).insert(key_of(r2), r2) =~= Map::empty().insert(
                key_of(r2),
                r2,
            ));
        }
    }
}

/// Two events of one key, say a registration followed by an address change, with nothing
/// else contributing: exactly one record results, the second event's, with nothing of the
/// first merged in.
pub proof fn lemma_overwrite_leaves_one_record(
    events: Seq<Event>,
    j1: int,
    j2: int,
    r1: LookupView,
    r2: LookupView,
    addr: Seq<char>,
    version: i64,
    inserted_at: UtcTimestamp,
    records: Seq<CurrentAnsLookup>,
)
    requires
        0 <= j1 < j2 < events.len(),
        event_outcome(events[j1], addr, version, inserted_at) == Outcome::Record(r1),
        event_outcome(events[j2], addr, version, inserted_at) == Outcome::Record(r2),
        key_of(r1) == key_of(r2),
        forall|l: int|
            0 <= l < events.len() && l != j1 && l != j2 ==> #[trigger] event_outcome(
                events[l],
                addr,
                version,
                inserted_at,
            ) == Outcome::Skip,
        lookups_upto(events, events.len() as int, addr, version, inserted_at) matches Ok(m)
            && represents(records, m),
    ensures
        records.len() == 1,
        records[0]@ == r2,
{
    lemma_two_records_upto(
        events,
        j1,
        j2,
        r1,
        r2,
        events.len() as int,
        addr,
        version,
        inserted_at,
    );
    let m = Map::<(Seq<char>, Seq<char>), LookupView>::empty().insert(key_of(r2), r2);
    assert(m.contains_key(key_of(r2)));
    let i = choose|i: int| 0 <= i < records.len() && key_of(#[trigger] records[i]@) == key_of(r2);
    if records.len() > 1 {
        let o = if i == 0 {
            1int
        } else {
            0int
        };
        assert(m.contains_key(key_of(records[o]@)));
        if o < i {
            assert(key_of(records[o]@) != key_of(records[i]@));
        } else {
            assert(key_of(records[i]@) != key_of(records[o]@));
        }
    }
    assert(m.contains_key(key_of(records[0]@)));
}

} // verus!
