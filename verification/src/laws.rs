//! What holds of the registry as a whole: the proof that every operation
//! keeps the invariant of `crate::consistency`, and the laws that follow from
//! it and from the operations' outcomes.
//!
//! Everything here is stated over the outcomes of `crate::registry` and
//! `crate::admin`, which the operations' own contracts speak of, and is
//! proved.

use crate::admin::{blacklist_outcome, setting_outcome, with_blacklist_action};
use crate::consistency::{
    consistent, fees_in_range, index_lists_members, records_keyed, shards_filled, witnesses_match,
};
use crate::host::{address_id, text_bytes};
use crate::model::{
    admin_of, audit_log_of, conforms, count_of, event_at, fits, is_member, key_admin,
    key_blacklist_log, key_blacklisted, key_count, key_event, key_global_promo_bps, key_member,
    key_platform_fee, key_promo_expiry, key_shard, key_ticket_payment_contract, organizer_events,
    platform_fee_of, shard_of, shards_joined, shards_needed, AuditView, EventView, LedgerState,
    PaymentView, StorageKey, Stored, FAMILY_EVENT, FAMILY_ORGANIZER_EVENT,
    FAMILY_ORGANIZER_EVENT_COUNT, FAMILY_ORGANIZER_EVENT_SHARD, MAX_FEE_BPS, SHARD_SIZE,
};
use crate::registry::{
    fee_outcome, initialize_outcome, initialized, keeps_organizer, new_record, payment_info_of,
    registration_outcome, status_outcome, store_outcome, RegistryError,
};
use crate::storage::{
    index_full, lemma_event_stored_conforms, lemma_insert_conforms, lemma_remove_conforms,
    with_event_stored,
};
use crate::types::DataKey;
use vstd::prelude::*;

verus! {

/// `e` stands at exactly one place of `list`.
pub open spec fn appears_once(list: Seq<Seq<u8>>, e: Seq<u8>) -> bool {
    exists|i: int|
        0 <= i < list.len() && #[trigger] list[i] == e && forall|j: int|
            0 <= j < list.len() && #[trigger] list[j] == e ==> j == i
}

/// Two keys are the same key: the same variant, for the same principal,
/// text and number.
pub open spec fn same_key(a: DataKey, b: DataKey) -> bool {
    match (a, b) {
        (DataKey::Admin, DataKey::Admin) => true,
        (DataKey::PlatformFee, DataKey::PlatformFee) => true,
        (DataKey::Initialized, DataKey::Initialized) => true,
        (DataKey::PlatformWallet, DataKey::PlatformWallet) => true,
        (DataKey::Event(x), DataKey::Event(y)) => text_bytes(x) == text_bytes(y),
        (DataKey::OrganizerEventCount(x), DataKey::OrganizerEventCount(y)) => address_id(x)
            == address_id(y),
        (DataKey::OrganizerEventShard(x, i), DataKey::OrganizerEventShard(y, j)) => address_id(x)
            == address_id(y) && i == j,
        (DataKey::OrganizerEvent(x, s), DataKey::OrganizerEvent(y, t)) => address_id(x)
            == address_id(y) && text_bytes(s) == text_bytes(t),
        (DataKey::TicketPaymentContract, DataKey::TicketPaymentContract) => true,
        (DataKey::BlacklistedOrganizer(x), DataKey::BlacklistedOrganizer(y)) => address_id(x)
            == address_id(y),
        (DataKey::BlacklistLog, DataKey::BlacklistLog) => true,
        (DataKey::GlobalPromoBps, DataKey::GlobalPromoBps) => true,
        (DataKey::PromoExpiry, DataKey::PromoExpiry) => true,
        _ => false,
    }
}

/// The encoding of keys is injective: two keys are stored under the same
/// entry exactly when they are the same key. In particular, keys of
/// different variants never collide.
pub proof fn law_keys_do_not_collide(a: DataKey, b: DataKey)
    ensures
        a@ == b@ <==> same_key(a, b),
{
}

/// An untouched index enumerates as before: where the count and every shard
/// of an organizer are the same in two stores, so is the enumeration.
pub proof fn lemma_same_shards_same_join(
    a: Map<StorageKey, Stored>,
    b: Map<StorageKey, Stored>,
    o: Seq<u8>,
    shards: nat,
)
    requires
        forall|s: u32| s < shards ==> #[trigger] shard_of(a, o, s) == shard_of(b, o, s),
        shards <= u32::MAX,
    ensures
        shards_joined(a, o, shards) == shards_joined(b, o, shards),
    decreases shards,
{
    if shards > 0 {
        lemma_same_shards_same_join(a, b, o, (shards - 1) as nat);
        assert(shard_of(a, o, (shards - 1) as u32) == shard_of(b, o, (shards - 1) as u32));
    }
}

/// An untouched index keeps its shape: where the count and every shard of
/// an organizer are the same in two stores and the shards are filled in
/// order in one, they are in the other.
pub proof fn lemma_same_shards_same_shape(
    a: Map<StorageKey, Stored>,
    b: Map<StorageKey, Stored>,
    o: Seq<u8>,
)
    requires
        count_of(a, o) == count_of(b, o),
        forall|s: u32| #[trigger] shard_of(a, o, s) == shard_of(b, o, s),
        shards_filled(b, o),
    ensures
        shards_filled(a, o),
{
    let count = count_of(b, o);
    assert forall|s: u32|
        (#[trigger] shard_of(a, o, s)).len() == (if s < count / SHARD_SIZE {
            SHARD_SIZE as int
        } else if s == count / SHARD_SIZE {
            (count % SHARD_SIZE) as int
        } else {
            0
        }) by {
        assert(shard_of(a, o, s) == shard_of(b, o, s));
    }
}

/// Full shards joined: the first `shards` shards of an organizer, all
/// before the one its count points to, hold 50 events each.
pub proof fn lemma_full_shards_length(entries: Map<StorageKey, Stored>, o: Seq<u8>, shards: nat)
    requires
        shards_filled(entries, o),
        shards <= count_of(entries, o) / SHARD_SIZE,
    ensures
        shards_joined(entries, o, shards).len() == SHARD_SIZE * shards,
    decreases shards,
{
    if shards > 0 {
        lemma_full_shards_length(entries, o, (shards - 1) as nat);
        assert(shard_of(entries, o, (shards - 1) as u32).len() == SHARD_SIZE);
    }
}

/// The enumeration as the full shards and the rest: the shards before the
/// one the count points to, then that one.
pub proof fn lemma_enumeration_split(entries: Map<StorageKey, Stored>, o: Seq<u8>)
    requires
        shards_filled(entries, o),
    ensures
        organizer_events(entries, o) == shards_joined(
            entries,
            o,
            (count_of(entries, o) / SHARD_SIZE) as nat,
        ) + shard_of(entries, o, count_of(entries, o) / SHARD_SIZE),
{
    let count = count_of(entries, o);
    let full = (count / SHARD_SIZE) as nat;
    let last = shard_of(entries, o, count / SHARD_SIZE);
    assert(last.len() == count % SHARD_SIZE);
    if count % SHARD_SIZE == 0 {
        assert(shards_needed(count) == full);
        assert(shards_joined(entries, o, full) + last =~= shards_joined(entries, o, full));
    } else {
        assert(shards_needed(count) == full + 1);
        assert(shards_joined(entries, o, full + 1) == shards_joined(entries, o, full) + shard_of(
            entries,
            o,
            full as u32,
        ));
    }
}

/// The empty store is consistent: a registry starts out so.
pub proof fn law_empty_store_is_consistent()
    ensures
        consistent(Map::<StorageKey, Stored>::empty()),
{
    let empty = Map::<StorageKey, Stored>::empty();
    assert forall|o: Seq<u8>| #[trigger] index_lists_members(empty, o) by {
        assert(shards_needed(0) == 0);
        assert(organizer_events(empty, o) =~= Seq::<Seq<u8>>::empty());
    }
}

/// The key is that of a record or of a part of an index.
pub open spec fn concerns_events(key: StorageKey) -> bool {
    key.family == FAMILY_EVENT || key.family == FAMILY_ORGANIZER_EVENT || key.family
        == FAMILY_ORGANIZER_EVENT_COUNT || key.family == FAMILY_ORGANIZER_EVENT_SHARD
}

/// Removing an entry that is neither a record nor part of an index keeps
/// the registry consistent.
pub proof fn lemma_plain_entry_removed_consistent(entries: Map<StorageKey, Stored>, key: StorageKey)
    requires
        consistent(entries),
        !concerns_events(key),
    ensures
        consistent(entries.remove(key)),
{
    let after = entries.remove(key);
    lemma_remove_conforms(entries, key);
    assert forall|e: Seq<u8>| #[trigger] event_at(after, e) == event_at(entries, e) by {}
    assert forall|o: Seq<u8>, e: Seq<u8>| #[trigger]
        is_member(after, o, e) == is_member(entries, o, e) by {}
    assert forall|o: Seq<u8>| #[trigger] shards_filled(after, o) by {
        assert(shards_filled(entries, o));
        assert(count_of(after, o) == count_of(entries, o));
        assert forall|s: u32| #[trigger] shard_of(after, o, s) == shard_of(entries, o, s) by {}
    }
    assert forall|o: Seq<u8>| #[trigger] index_lists_members(after, o) by {
        assert(index_lists_members(entries, o));
        assert(count_of(after, o) == count_of(entries, o));
        assert forall|s: u32| #[trigger] shard_of(after, o, s) == shard_of(entries, o, s) by {}
        lemma_same_shards_same_join(after, entries, o, shards_needed(count_of(entries, o)));
    }
}

/// Writing an entry that is neither a record nor part of an index, and that
/// the schema accepts, keeps the registry consistent.
pub proof fn lemma_plain_entry_consistent(entries: Map<StorageKey, Stored>, key: StorageKey, value: Stored)
    requires
        consistent(entries),
        fits(key, value),
        !concerns_events(key),
    ensures
        consistent(entries.insert(key, value)),
{
    let after = entries.insert(key, value);
    lemma_insert_conforms(entries, key, value);
    assert forall|e: Seq<u8>| #[trigger] event_at(after, e) == event_at(entries, e) by {}
    assert forall|o: Seq<u8>, e: Seq<u8>| #[trigger]
        is_member(after, o, e) == is_member(entries, o, e) by {}
    assert forall|o: Seq<u8>| #[trigger] shards_filled(after, o) by {
        assert(shards_filled(entries, o));
        assert(count_of(after, o) == count_of(entries, o));
        assert forall|s: u32| #[trigger] shard_of(after, o, s) == shard_of(entries, o, s) by {}
    }
    assert forall|o: Seq<u8>| #[trigger] index_lists_members(after, o) by {
        assert(index_lists_members(entries, o));
        assert(count_of(after, o) == count_of(entries, o));
        assert forall|s: u32| #[trigger] shard_of(after, o, s) == shard_of(entries, o, s) by {}
        lemma_same_shards_same_join(after, entries, o, shards_needed(count_of(entries, o)));
    }
}

/// Overwriting a record with one for the same event and organizer leaves
/// what the index says as it is: witnesses still match records, every
/// enumeration still lists the members once each, and no count or shard has
/// changed.
pub proof fn lemma_record_rewritten_keeps_index(entries: Map<StorageKey, Stored>, record: EventView)
    requires
        witnesses_match(entries),
        forall|o: Seq<u8>| #[trigger] index_lists_members(entries, o),
        event_at(entries, record.event_id) is Some,
        event_at(entries, record.event_id).unwrap().organizer == record.organizer,
    ensures
        witnesses_match(entries.insert(key_event(record.event_id), Stored::Event(record))),
        forall|o: Seq<u8>| #[trigger]
            index_lists_members(
                entries.insert(key_event(record.event_id), Stored::Event(record)),
                o,
            ),
        forall|o: Seq<u8>|
            shards_filled(entries, o) ==> #[trigger] shards_filled(
                entries.insert(key_event(record.event_id), Stored::Event(record)),
                o,
            ),
        forall|o: Seq<u8>| #[trigger]
            organizer_events(entries.insert(key_event(record.event_id), Stored::Event(record)), o)
                == organizer_events(entries, o),
{
    let key = key_event(record.event_id);
    let after = entries.insert(key, Stored::Event(record));
    assert forall|o: Seq<u8>, e: Seq<u8>| #[trigger]
        is_member(after, o, e) <==> (event_at(after, e) is Some && event_at(
            after,
            e,
        ).unwrap().organizer == o) by {
        assert(is_member(after, o, e) == is_member(entries, o, e));
        if e != record.event_id {
            assert(key_event(e) != key);
            assert(event_at(after, e) == event_at(entries, e));
        }
    }
    assert forall|o: Seq<u8>| #[trigger] organizer_events(after, o) == organizer_events(
        entries,
        o,
    ) by {
        assert(count_of(after, o) == count_of(entries, o));
        assert forall|s: u32| #[trigger] shard_of(after, o, s) == shard_of(entries, o, s) by {}
        lemma_same_shards_same_join(after, entries, o, shards_needed(count_of(entries, o)));
    }
    assert forall|o: Seq<u8>| shards_filled(entries, o) implies #[trigger] shards_filled(
        after,
        o,
    ) by {
        assert(count_of(after, o) == count_of(entries, o));
        assert forall|s: u32| #[trigger] shard_of(after, o, s) == shard_of(entries, o, s) by {}
        lemma_same_shards_same_shape(after, entries, o);
    }
    assert forall|o: Seq<u8>| #[trigger] index_lists_members(after, o) by {
        assert(index_lists_members(entries, o));
        assert(organizer_events(after, o) == organizer_events(entries, o));
        assert forall|e: Seq<u8>| #[trigger]
            is_member(after, o, e) == is_member(entries, o, e) by {}
    }
}

/// Overwriting a record with one for the same event and organizer, with a
/// fee in range, keeps the registry consistent: the index is not concerned.
pub proof fn lemma_record_rewritten_consistent(entries: Map<StorageKey, Stored>, record: EventView)
    requires
        consistent(entries),
        event_at(entries, record.event_id) is Some,
        event_at(entries, record.event_id).unwrap().organizer == record.organizer,
        record.fee_bps <= MAX_FEE_BPS,
    ensures
        consistent(entries.insert(key_event(record.event_id), Stored::Event(record))),
{
    let after = entries.insert(key_event(record.event_id), Stored::Event(record));
    lemma_insert_conforms(entries, key_event(record.event_id), Stored::Event(record));
    lemma_record_rewritten_keeps_index(entries, record);
    assert forall|o: Seq<u8>| #[trigger] shards_filled(after, o) by {
        assert(shards_filled(entries, o));
    }
}

/// What storing the record of a new event does to the index of its
/// organizer: the event is appended to the enumeration.
pub proof fn lemma_new_event_appended(entries: Map<StorageKey, Stored>, record: EventView)
    requires
        shards_filled(entries, record.organizer),
        !is_member(entries, record.organizer, record.event_id),
        count_of(entries, record.organizer) < u32::MAX,
    ensures
        organizer_events(with_event_stored(entries, record), record.organizer) == organizer_events(
            entries,
            record.organizer,
        ).push(record.event_id),
        shards_filled(with_event_stored(entries, record), record.organizer),
        count_of(with_event_stored(entries, record), record.organizer) == count_of(
            entries,
            record.organizer,
        ) + 1,
{
    let o = record.organizer;
    let e = record.event_id;
    let after = with_event_stored(entries, record);
    let count = count_of(entries, o);
    let shard_id: u32 = count / SHARD_SIZE;
    let full = shard_id as nat;
    let grown = shard_of(entries, o, shard_id).push(e);

    assert(after.contains_key(key_count(o)));
    assert(after[key_count(o)] == Stored::Number((count + 1) as u32));
    assert(count_of(after, o) == count + 1);
    assert(after[key_shard(o, shard_id)] == Stored::Ids(grown));
    assert(shard_of(after, o, shard_id) == grown);
    assert forall|s: u32| s != shard_id implies #[trigger] shard_of(after, o, s) == shard_of(
        entries,
        o,
        s,
    ) by {
        assert(key_shard(o, s) != key_shard(o, shard_id));
    }
    assert(shard_of(entries, o, shard_id).len() == count % SHARD_SIZE);
    assert(grown.len() == count % SHARD_SIZE + 1);

    assert forall|s: u32|
        (#[trigger] shard_of(after, o, s)).len() == (if s < (count + 1) as u32 / SHARD_SIZE {
            SHARD_SIZE as int
        } else if s == (count + 1) as u32 / SHARD_SIZE {
            ((count + 1) as u32 % SHARD_SIZE) as int
        } else {
            0
        }) by {
        if s != shard_id {
            assert(shard_of(after, o, s) == shard_of(entries, o, s));
        }
    }
    assert(shards_filled(after, o));

    lemma_enumeration_split(entries, o);
    lemma_same_shards_same_join(after, entries, o, full);
    if (count + 1) % (SHARD_SIZE as int) == 0 {
        // The shard is now full: the count points to the next one, which is empty.
        assert(shards_needed((count + 1) as u32) == full + 1);
        assert(shards_joined(after, o, full + 1) == shards_joined(after, o, full) + shard_of(
            after,
            o,
            full as u32,
        ));
    } else {
        lemma_enumeration_split(after, o);
        assert(count_of(after, o) / SHARD_SIZE == shard_id);
    }
    assert(organizer_events(after, o) =~= organizer_events(entries, o).push(e));
}

/// Storing a record that leaves its event with the organizer it has keeps
/// what the index says sound. It asks for no more than this: witnesses match
/// records, every enumeration lists the members once each, and the shards of
/// the record's organizer are filled in order. Then the same holds
/// afterwards, and the event is a member of its organizer's index.
pub proof fn lemma_event_stored_keeps_index(entries: Map<StorageKey, Stored>, record: EventView)
    requires
        witnesses_match(entries),
        forall|o: Seq<u8>| #[trigger] index_lists_members(entries, o),
        shards_filled(entries, record.organizer),
        keeps_organizer(entries, record),
        !index_full(entries, record),
    ensures
        witnesses_match(with_event_stored(entries, record)),
        forall|o: Seq<u8>| #[trigger] index_lists_members(with_event_stored(entries, record), o),
        shards_filled(with_event_stored(entries, record), record.organizer),
        forall|o: Seq<u8>|
            o != record.organizer && shards_filled(entries, o) ==> #[trigger] shards_filled(
                with_event_stored(entries, record),
                o,
            ),
        is_member(with_event_stored(entries, record), record.organizer, record.event_id),
{
    let o = record.organizer;
    let e = record.event_id;
    let after = with_event_stored(entries, record);
    if is_member(entries, o, e) {
        lemma_record_rewritten_keeps_index(entries, record);
    } else {
        let count = count_of(entries, o);
        let shard_id: u32 = count / SHARD_SIZE;
        assert(event_at(entries, e) is None) by {
            if event_at(entries, e) is Some {
                assert(is_member(entries, o, e));
            }
        }
        assert(index_lists_members(entries, o));
        lemma_new_event_appended(entries, record);

        assert forall|x: Seq<u8>| #[trigger] event_at(after, x) == (if x == e {
            Some(record)
        } else {
            event_at(entries, x)
        }) by {
            if x != e {
                assert(key_event(x) != key_event(e));
            }
        }
        assert forall|p: Seq<u8>, x: Seq<u8>| #[trigger]
            is_member(after, p, x) == ((p == o && x == e) || is_member(entries, p, x)) by {
            if !(p == o && x == e) {
                assert(key_member(p, x) != key_member(o, e));
            }
        }
        assert forall|p: Seq<u8>| p != o implies count_of(after, p) == count_of(entries, p) by {
            assert(key_count(p) != key_count(o));
        }
        assert forall|p: Seq<u8>, s: u32| p != o implies #[trigger] shard_of(after, p, s)
            == shard_of(entries, p, s) by {
            assert(key_shard(p, s) != key_shard(o, shard_id));
        }

        assert forall|p: Seq<u8>, x: Seq<u8>| #[trigger]
            is_member(after, p, x) <==> (event_at(after, x) is Some && event_at(
                after,
                x,
            ).unwrap().organizer == p) by {
            assert(is_member(entries, p, x) <==> (event_at(entries, x) is Some && event_at(
                entries,
                x,
            ).unwrap().organizer == p));
        }
        assert forall|p: Seq<u8>| p != o && shards_filled(entries, p) implies #[trigger] shards_filled(
            after,
            p,
        ) by {
            assert(count_of(after, p) == count_of(entries, p));
            assert forall|s: u32| #[trigger] shard_of(after, p, s) == shard_of(entries, p, s) by {}
            lemma_same_shards_same_shape(after, entries, p);
        }
        assert forall|p: Seq<u8>| #[trigger] index_lists_members(after, p) by {
            assert(index_lists_members(entries, p));
            if p != o {
                assert(count_of(after, p) == count_of(entries, p));
                assert forall|s: u32| #[trigger]
                    shard_of(after, p, s) == shard_of(entries, p, s) by {}
                lemma_same_shards_same_join(after, entries, p, shards_needed(count_of(entries, p)));
                assert forall|x: Seq<u8>| #[trigger]
                    is_member(after, p, x) == is_member(entries, p, x) by {}
            } else {
                let before = organizer_events(entries, o);
                assert(!before.contains(e));
                assert(organizer_events(after, o) == before.push(e));
                assert forall|x: Seq<u8>| #[trigger]
                    before.push(e).contains(x) <==> is_member(after, o, x) by {
                    if before.push(e).contains(x) {
                        let i = choose|i: int| 0 <= i < before.push(e).len() && before.push(e)[i] == x;
                        if i < before.len() {
                            assert(before[i] == x);
                            assert(before.contains(x));
                        }
                    }
                    if is_member(after, o, x) {
                        if x == e {
                            assert(before.push(e)[before.len() as int] == e);
                        } else {
                            assert(before.contains(x));
                            let i = choose|i: int| 0 <= i < before.len() && before[i] == x;
                            assert(before.push(e)[i] == x);
                        }
                    }
                }
                assert forall|i: int, j: int|
                    0 <= i < before.push(e).len() && 0 <= j < before.push(e).len() && i
                        != j implies before.push(e)[i] != before.push(e)[j] by {
                    if i < before.len() && j < before.len() {
                    } else if i < before.len() {
                        assert(before.contains(before[i]));
                    } else if j < before.len() {
                        assert(before.contains(before[j]));
                    }
                }
            }
        }
    }
}

/// Storing a record keeps the registry consistent where the record's fee is
/// in range, the event is new or already belongs to the same organizer, and
/// the index has room.
pub proof fn lemma_event_stored_consistent(entries: Map<StorageKey, Stored>, record: EventView)
    requires
        consistent(entries),
        record.fee_bps <= MAX_FEE_BPS,
        keeps_organizer(entries, record),
        !index_full(entries, record),
    ensures
        consistent(with_event_stored(entries, record)),
{
    let after = with_event_stored(entries, record);
    lemma_event_stored_conforms(entries, record);
    assert(shards_filled(entries, record.organizer));
    lemma_event_stored_keeps_index(entries, record);
    assert forall|o: Seq<u8>| #[trigger] shards_filled(after, o) by {
        assert(shards_filled(entries, o));
    }
}

/// Every operation keeps the registry consistent: `store_event`, for a
/// record that leaves its event with the organizer it has. A record with a
/// fee above 100% is refused, so the fee asks for nothing here.
/// (A record that moves an event to another organizer would leave the first
/// organizer's index with an event that is no longer theirs.)
pub proof fn law_store_keeps_consistent(s: LedgerState, record: EventView)
    requires
        consistent(s.entries),
        keeps_organizer(s.entries, record),
    ensures
        consistent(store_outcome(s, record).1.entries),
{
    if store_outcome(s, record).0 is Ok {
        lemma_event_stored_consistent(s.entries, record);
    }
}

/// Records, witnesses and enumerations agree: of every event and every
/// organizer these say the same, that the record of the event exists and
/// names the organizer, that the event has a membership witness with the
/// organizer, and that the event appears exactly once in the enumeration of
/// the organizer's events.
pub open spec fn records_witnesses_enumerations_agree(entries: Map<StorageKey, Stored>) -> bool {
    forall|o: Seq<u8>, e: Seq<u8>|
        {
            &&& #[trigger] is_member(entries, o, e) <==> (event_at(entries, e) is Some && event_at(
                entries,
                e,
            ).unwrap().organizer == o)
            &&& is_member(entries, o, e) <==> appears_once(organizer_events(entries, o), e)
        }
}

/// No enumeration holds an event twice.
pub open spec fn no_event_twice(entries: Map<StorageKey, Stored>) -> bool {
    forall|o: Seq<u8>| (#[trigger] organizer_events(entries, o)).no_duplicates()
}

/// In a list that holds nothing twice, to be in it is to appear exactly once.
pub proof fn lemma_contains_iff_once(list: Seq<Seq<u8>>, e: Seq<u8>)
    requires
        list.no_duplicates(),
    ensures
        list.contains(e) <==> appears_once(list, e),
{
    if list.contains(e) {
        let i = choose|i: int| 0 <= i < list.len() && list[i] == e;
        assert(0 <= i < list.len() && list[i] == e && forall|j: int|
            0 <= j < list.len() && #[trigger] list[j] == e ==> j == i);
    }
    if appears_once(list, e) {
        let i = choose|i: int|
            0 <= i < list.len() && #[trigger] list[i] == e && forall|j: int|
                0 <= j < list.len() && #[trigger] list[j] == e ==> j == i;
        assert(list[i] == e);
    }
}

/// Agreement and a sound index are the same thing: witnesses match records
/// and every enumeration lists the members once each, exactly when records,
/// witnesses and enumerations agree and no enumeration holds an event twice.
pub proof fn lemma_agreement_is_a_sound_index(entries: Map<StorageKey, Stored>)
    ensures
        (witnesses_match(entries) && forall|o: Seq<u8>| #[trigger] index_lists_members(entries, o))
            <==> (records_witnesses_enumerations_agree(entries) && no_event_twice(entries)),
{
    if witnesses_match(entries) && forall|o: Seq<u8>| #[trigger] index_lists_members(entries, o) {
        assert forall|o: Seq<u8>| (#[trigger] organizer_events(entries, o)).no_duplicates() by {
            assert(index_lists_members(entries, o));
        }
        assert forall|o: Seq<u8>, e: Seq<u8>|
            {
                &&& #[trigger] is_member(entries, o, e) <==> (event_at(entries, e) is Some
                    && event_at(entries, e).unwrap().organizer == o)
                &&& is_member(entries, o, e) <==> appears_once(organizer_events(entries, o), e)
            } by {
            assert(index_lists_members(entries, o));
            assert(organizer_events(entries, o).contains(e) <==> is_member(entries, o, e));
            lemma_contains_iff_once(organizer_events(entries, o), e);
        }
    }
    if records_witnesses_enumerations_agree(entries) && no_event_twice(entries) {
        assert forall|o: Seq<u8>, e: Seq<u8>| #[trigger]
            is_member(entries, o, e) <==> (event_at(entries, e) is Some && event_at(
                entries,
                e,
            ).unwrap().organizer == o) by {}
        assert forall|o: Seq<u8>| #[trigger] index_lists_members(entries, o) by {
            assert(organizer_events(entries, o).no_duplicates());
            assert forall|e: Seq<u8>| #[trigger]
                organizer_events(entries, o).contains(e) <==> is_member(entries, o, e) by {
                lemma_contains_iff_once(organizer_events(entries, o), e);
                assert(is_member(entries, o, e) <==> appears_once(organizer_events(entries, o), e));
            }
        }
    }
}

/// In a consistent registry records, witnesses and enumerations agree, and
/// no enumeration holds an event twice.
pub proof fn law_consistent_registry_agrees(entries: Map<StorageKey, Stored>)
    requires
        consistent(entries),
    ensures
        records_witnesses_enumerations_agree(entries),
        no_event_twice(entries),
{
    lemma_agreement_is_a_sound_index(entries);
}

/// `store_event` keeps the agreement of records, witnesses and
/// enumerations, for a record that leaves its event with the organizer it
/// has. It asks for the agreement, that no enumeration holds an event twice,
/// and that the shards of the record's organizer are filled in order; the
/// rest of the invariant is not needed. Where the record is stored, its
/// event appears exactly once in the enumeration of its organizer.
///
/// The agreement alone does not carry over: it says nothing of a shard
/// behind the one the count points to, and ids left in such a shard would
/// come into the enumeration with the next event.
pub proof fn law_store_keeps_agreement(s: LedgerState, record: EventView)
    requires
        records_witnesses_enumerations_agree(s.entries),
        no_event_twice(s.entries),
        shards_filled(s.entries, record.organizer),
        keeps_organizer(s.entries, record),
    ensures
        records_witnesses_enumerations_agree(store_outcome(s, record).1.entries),
        no_event_twice(store_outcome(s, record).1.entries),
        shards_filled(store_outcome(s, record).1.entries, record.organizer),
        store_outcome(s, record).0 is Ok ==> appears_once(
            organizer_events(store_outcome(s, record).1.entries, record.organizer),
            record.event_id,
        ),
{
    if store_outcome(s, record).0 is Ok {
        let after = with_event_stored(s.entries, record);
        lemma_agreement_is_a_sound_index(s.entries);
        lemma_event_stored_keeps_index(s.entries, record);
        lemma_agreement_is_a_sound_index(after);
        assert(is_member(after, record.organizer, record.event_id));
    }
}

/// The schema bounds the fees and keeps every record under its own id: in a
/// store that follows it, neither the platform fee nor the fee of any record
/// is above 100%, and every record is held under its event id.
pub proof fn law_schema_bounds_fees(entries: Map<StorageKey, Stored>)
    requires
        conforms(entries),
    ensures
        fees_in_range(entries),
        records_keyed(entries),
{
    assert(entries.contains_key(key_platform_fee()) ==> fits(
        key_platform_fee(),
        entries[key_platform_fee()],
    ));
    assert forall|e: Seq<u8>| #[trigger] event_at(entries, e) is Some implies event_at(
        entries,
        e,
    ).unwrap().fee_bps <= MAX_FEE_BPS && event_at(entries, e).unwrap().event_id == e by {
        assert(entries.contains_key(key_event(e)));
        assert(fits(key_event(e), entries[key_event(e)]));
    }
}

/// No record with a fee above 100% is ever stored: `store_event` refuses it
/// and changes nothing.
pub proof fn law_store_refuses_fee_out_of_range(s: LedgerState, record: EventView)
    requires
        record.fee_bps > MAX_FEE_BPS,
    ensures
        store_outcome(s, record) == (
            Err::<(), RegistryError>(RegistryError::FeeOutOfRange),
            s,
        ),
{
}

/// Every operation keeps the registry consistent: `initialize`.
pub proof fn law_initialize_keeps_consistent(s: LedgerState, admin: Seq<u8>, fee_bps: u32)
    requires
        consistent(s.entries),
    ensures
        consistent(initialize_outcome(s, admin, fee_bps).1.entries),
{
    if initialize_outcome(s, admin, fee_bps).0 is Ok {
        lemma_plain_entry_consistent(s.entries, key_admin(), Stored::Principal(admin));
        lemma_plain_entry_consistent(
            s.entries.insert(key_admin(), Stored::Principal(admin)),
            key_platform_fee(),
            Stored::Number(fee_bps),
        );
    }
}

/// Every operation keeps the registry consistent: `register_event`,
/// whatever the host answers.
pub proof fn law_registration_keeps_consistent(
    s: LedgerState,
    event_id: Seq<u8>,
    organizer: Seq<u8>,
    payout: Seq<u8>,
    identity_proven: bool,
    now: u64,
)
    requires
        consistent(s.entries),
    ensures
        consistent(
            registration_outcome(s, event_id, organizer, payout, identity_proven, now).1.entries,
        ),
{
    if registration_outcome(s, event_id, organizer, payout, identity_proven, now).0 is Ok {
        lemma_event_stored_consistent(s.entries, new_record(s, event_id, organizer, payout, now));
    }
}

/// Every operation keeps the registry consistent: `update_event_status`,
/// whatever the host answers.
pub proof fn law_status_keeps_consistent(
    s: LedgerState,
    event_id: Seq<u8>,
    active: bool,
    identity_proven: bool,
)
    requires
        consistent(s.entries),
    ensures
        consistent(status_outcome(s, event_id, active, identity_proven).1.entries),
{
    if status_outcome(s, event_id, active, identity_proven).0 is Ok {
        let record = event_at(s.entries, event_id).unwrap();
        assert(record.event_id == event_id);
        lemma_record_rewritten_consistent(s.entries, EventView { active, ..record });
    }
}

/// Every operation keeps the registry consistent: `set_platform_fee`,
/// whatever the host answers.
pub proof fn law_fee_keeps_consistent(s: LedgerState, fee_bps: u32, identity_proven: bool)
    requires
        consistent(s.entries),
    ensures
        consistent(fee_outcome(s, fee_bps, identity_proven).1.entries),
{
    if fee_outcome(s, fee_bps, identity_proven).0 is Ok {
        lemma_plain_entry_consistent(s.entries, key_platform_fee(), Stored::Number(fee_bps));
    }
}

/// Putting an organizer on the blacklist or taking it off, with the line
/// for the audit trail, keeps the registry consistent.
pub proof fn lemma_blacklist_action_consistent(entries: Map<StorageKey, Stored>, line: AuditView)
    requires
        consistent(entries),
    ensures
        consistent(with_blacklist_action(entries, line)),
{
    let log = Stored::Audit(audit_log_of(entries).push(line));
    if line.added {
        lemma_plain_entry_consistent(entries, key_blacklisted(line.organizer), Stored::Flag(true));
        lemma_plain_entry_consistent(
            entries.insert(key_blacklisted(line.organizer), Stored::Flag(true)),
            key_blacklist_log(),
            log,
        );
    } else {
        lemma_plain_entry_removed_consistent(entries, key_blacklisted(line.organizer));
        lemma_plain_entry_consistent(
            entries.remove(key_blacklisted(line.organizer)),
            key_blacklist_log(),
            log,
        );
    }
}

/// Every operation keeps the registry consistent: `add_to_blacklist` and
/// `remove_from_blacklist`, whatever the host answers.
pub proof fn law_blacklist_keeps_consistent(
    s: LedgerState,
    organizer: Seq<u8>,
    added: bool,
    reason: Seq<u8>,
    identity_proven: bool,
    now: u64,
)
    requires
        consistent(s.entries),
    ensures
        consistent(blacklist_outcome(s, organizer, added, reason, identity_proven, now).1.entries),
{
    if blacklist_outcome(s, organizer, added, reason, identity_proven, now).0 is Ok {
        lemma_blacklist_action_consistent(
            s.entries,
            AuditView {
                organizer,
                added,
                actor: admin_of(s.entries).unwrap(),
                timestamp: now,
                reason,
            },
        );
    }
}

/// Every operation keeps the registry consistent: the administrator's
/// settings (the promotional discount, its end, the payment component),
/// whatever the host answers. A setting is an entry that is neither a
/// record nor part of an index, with a value that the schema accepts.
pub proof fn law_setting_keeps_consistent(
    s: LedgerState,
    key: StorageKey,
    value: Stored,
    identity_proven: bool,
)
    requires
        consistent(s.entries),
        !concerns_events(key),
        fits(key, value),
    ensures
        consistent(setting_outcome(s, key, value, identity_proven).1.entries),
{
    if setting_outcome(s, key, value, identity_proven).0 is Ok {
        lemma_plain_entry_consistent(s.entries, key, value);
    }
}

/// In a consistent registry, these say the same of an event `e` and an
/// organizer `o`: the record of `e` exists and names `o`; `e` has a
/// membership witness with `o`; `e` appears exactly once in the enumeration
/// of the events of `o`.
pub proof fn law_record_witness_enumeration(entries: Map<StorageKey, Stored>, o: Seq<u8>, e: Seq<u8>)
    requires
        consistent(entries),
    ensures
        (event_at(entries, e) is Some && event_at(entries, e).unwrap().organizer == o) <==> is_member(
            entries,
            o,
            e,
        ),
        is_member(entries, o, e) <==> appears_once(organizer_events(entries, o), e),
{
    let list = organizer_events(entries, o);
    assert(index_lists_members(entries, o));
    assert(is_member(entries, o, e) <==> (event_at(entries, e) is Some && event_at(
        entries,
        e,
    ).unwrap().organizer == o));
    if is_member(entries, o, e) {
        assert(list.contains(e));
        let i = choose|i: int| 0 <= i < list.len() && list[i] == e;
        assert(0 <= i < list.len() && list[i] == e && forall|j: int|
            0 <= j < list.len() && #[trigger] list[j] == e ==> j == i);
    }
    if appears_once(list, e) {
        let i = choose|i: int|
            0 <= i < list.len() && #[trigger] list[i] == e && forall|j: int|
                0 <= j < list.len() && #[trigger] list[j] == e ==> j == i;
        assert(list[i] == e);
        assert(list.contains(e));
    }
}

/// In a consistent registry, the enumeration of an organizer's events is as
/// long as the organizer's count says, and holds no event twice; so the
/// count is the number of events that have a membership witness.
pub proof fn law_enumeration_length(entries: Map<StorageKey, Stored>, o: Seq<u8>)
    requires
        consistent(entries),
    ensures
        organizer_events(entries, o).len() == count_of(entries, o),
        organizer_events(entries, o).no_duplicates(),
        Set::new(|e: Seq<u8>| is_member(entries, o, e)).finite(),
        Set::new(|e: Seq<u8>| is_member(entries, o, e)).len() == count_of(entries, o),
{
    let count = count_of(entries, o);
    let list = organizer_events(entries, o);
    assert(shards_filled(entries, o));
    assert(index_lists_members(entries, o));
    lemma_enumeration_split(entries, o);
    lemma_full_shards_length(entries, o, (count / SHARD_SIZE) as nat);
    assert(shard_of(entries, o, count / SHARD_SIZE).len() == count % SHARD_SIZE);
    assert(list.len() == count);
    list.unique_seq_to_set();
    assert(list.to_set() =~= Set::new(|e: Seq<u8>| is_member(entries, o, e))) by {
        assert forall|e: Seq<u8>| list.to_set().contains(e) <==> is_member(entries, o, e) by {
            assert(list.contains(e) <==> is_member(entries, o, e));
        }
    }
}

/// In a consistent registry, every shard before the one the count points to
/// holds 50 events; and where the organizer has events at all, the last
/// shard that the enumeration reads holds at least 1 and at most 50.
pub proof fn law_shard_lengths(entries: Map<StorageKey, Stored>, o: Seq<u8>, shard_id: u32)
    requires
        consistent(entries),
    ensures
        shard_id < count_of(entries, o) / SHARD_SIZE ==> shard_of(entries, o, shard_id).len()
            == SHARD_SIZE,
        count_of(entries, o) > 0 && shard_id + 1 == shards_needed(count_of(entries, o)) ==> 1
            <= shard_of(entries, o, shard_id).len() <= SHARD_SIZE,
        shard_id >= shards_needed(count_of(entries, o)) ==> shard_of(entries, o, shard_id).len()
            == 0,
{
    assert(shards_filled(entries, o));
    let count = count_of(entries, o);
    assert(shard_of(entries, o, shard_id).len() == (if shard_id < count / SHARD_SIZE {
        SHARD_SIZE as int
    } else if shard_id == count / SHARD_SIZE {
        (count % SHARD_SIZE) as int
    } else {
        0
    }));
}

/// Events are enumerated in the order of their registration: a
/// registration puts the new event behind the events its organizer has, and
/// leaves the enumerations of the other organizers as they are.
pub proof fn law_registration_appends(
    s: LedgerState,
    event_id: Seq<u8>,
    organizer: Seq<u8>,
    payout: Seq<u8>,
    now: u64,
    other: Seq<u8>,
)
    requires
        consistent(s.entries),
        registration_outcome(s, event_id, organizer, payout, true, now).0 is Ok,
    ensures
        organizer_events(
            registration_outcome(s, event_id, organizer, payout, true, now).1.entries,
            organizer,
        ) == organizer_events(s.entries, organizer).push(event_id),
        other != organizer ==> organizer_events(
            registration_outcome(s, event_id, organizer, payout, true, now).1.entries,
            other,
        ) == organizer_events(s.entries, other),
{
    let record = new_record(s, event_id, organizer, payout, now);
    let after = with_event_stored(s.entries, record);
    assert(!is_member(s.entries, organizer, event_id));
    assert(shards_filled(s.entries, organizer));
    lemma_new_event_appended(s.entries, record);
    if other != organizer {
        assert(key_count(other) != key_count(organizer));
        assert(count_of(after, other) == count_of(s.entries, other));
        assert forall|i: u32| #[trigger] shard_of(after, other, i) == shard_of(s.entries, other, i) by {
            assert(key_shard(other, i) != key_shard(
                organizer,
                count_of(s.entries, organizer) / SHARD_SIZE,
            ));
        }
        lemma_same_shards_same_join(after, s.entries, other, shards_needed(count_of(s.entries, other)));
    }
}

/// Only `register_event` and `store_event` touch an index: every other
/// operation of the registry leaves the enumeration of every organizer as it
/// is, whatever the host answers.
pub proof fn law_other_operations_leave_the_index(
    s: LedgerState,
    o: Seq<u8>,
    event_id: Seq<u8>,
    organizer: Seq<u8>,
    active: bool,
    fee_bps: u32,
    added: bool,
    reason: Seq<u8>,
    key: StorageKey,
    value: Stored,
    identity_proven: bool,
    now: u64,
)
    requires
        !concerns_events(key),
    ensures
        organizer_events(initialize_outcome(s, organizer, fee_bps).1.entries, o) == organizer_events(
            s.entries,
            o,
        ),
        organizer_events(status_outcome(s, event_id, active, identity_proven).1.entries, o)
            == organizer_events(s.entries, o),
        organizer_events(fee_outcome(s, fee_bps, identity_proven).1.entries, o) == organizer_events(
            s.entries,
            o,
        ),
        organizer_events(
            blacklist_outcome(s, organizer, added, reason, identity_proven, now).1.entries,
            o,
        ) == organizer_events(s.entries, o),
        organizer_events(setting_outcome(s, key, value, identity_proven).1.entries, o)
            == organizer_events(s.entries, o),
{
    let shards = shards_needed(count_of(s.entries, o));
    let a = initialize_outcome(s, organizer, fee_bps).1.entries;
    assert(count_of(a, o) == count_of(s.entries, o));
    assert forall|i: u32| #[trigger] shard_of(a, o, i) == shard_of(s.entries, o, i) by {}
    lemma_same_shards_same_join(a, s.entries, o, shards);

    let b = status_outcome(s, event_id, active, identity_proven).1.entries;
    assert(count_of(b, o) == count_of(s.entries, o));
    assert forall|i: u32| #[trigger] shard_of(b, o, i) == shard_of(s.entries, o, i) by {}
    lemma_same_shards_same_join(b, s.entries, o, shards);

    let c = fee_outcome(s, fee_bps, identity_proven).1.entries;
    assert(count_of(c, o) == count_of(s.entries, o));
    assert forall|i: u32| #[trigger] shard_of(c, o, i) == shard_of(s.entries, o, i) by {}
    lemma_same_shards_same_join(c, s.entries, o, shards);

    let d = blacklist_outcome(s, organizer, added, reason, identity_proven, now).1.entries;
    assert(count_of(d, o) == count_of(s.entries, o));
    assert forall|i: u32| #[trigger] shard_of(d, o, i) == shard_of(s.entries, o, i) by {}
    lemma_same_shards_same_join(d, s.entries, o, shards);

    let e = setting_outcome(s, key, value, identity_proven).1.entries;
    assert(count_of(e, o) == count_of(s.entries, o));
    assert forall|i: u32| #[trigger] shard_of(e, o, i) == shard_of(s.entries, o, i) by {}
    lemma_same_shards_same_join(e, s.entries, o, shards);
}

/// Initialization is single-shot: after an `initialize` that succeeded,
/// every `initialize` fails, whatever its arguments, and changes nothing.
pub proof fn law_initialize_once(s: LedgerState, admin: Seq<u8>, fee_bps: u32, admin2: Seq<u8>, fee_bps2: u32)
    requires
        initialize_outcome(s, admin, fee_bps).0 is Ok,
    ensures
        initialized(initialize_outcome(s, admin, fee_bps).1),
        initialize_outcome(initialize_outcome(s, admin, fee_bps).1, admin2, fee_bps2) == (
            Err::<(), RegistryError>(RegistryError::AlreadyInitialized),
            initialize_outcome(s, admin, fee_bps).1,
        ),
{
}

/// Once initialized, always initialized: no operation takes the
/// administrator or the platform fee away, and `initialize` fails from then
/// on.
pub proof fn law_initialized_is_permanent(
    s: LedgerState,
    event_id: Seq<u8>,
    organizer: Seq<u8>,
    payout: Seq<u8>,
    active: bool,
    fee_bps: u32,
    identity_proven: bool,
    now: u64,
)
    requires
        initialized(s),
    ensures
        initialize_outcome(s, organizer, fee_bps) == (
            Err::<(), RegistryError>(RegistryError::AlreadyInitialized),
            s,
        ),
        initialized(registration_outcome(s, event_id, organizer, payout, identity_proven, now).1),
        initialized(status_outcome(s, event_id, active, identity_proven).1),
        initialized(fee_outcome(s, fee_bps, identity_proven).1),
{
}

/// A registration whose organizer has not proven its identity is refused
/// and leaves the ledger exactly as it was.
pub proof fn law_refused_registration_changes_nothing(
    s: LedgerState,
    event_id: Seq<u8>,
    organizer: Seq<u8>,
    payout: Seq<u8>,
    now: u64,
)
    ensures
        registration_outcome(s, event_id, organizer, payout, false, now) == (
            Err::<(), RegistryError>(RegistryError::Unauthorized),
            s,
        ),
{
}

/// A status update whose organizer has not proven its identity is refused
/// and leaves the ledger exactly as it was.
pub proof fn law_refused_status_update_changes_nothing(s: LedgerState, event_id: Seq<u8>, active: bool)
    ensures
        status_outcome(s, event_id, active, false).0 is Err,
        status_outcome(s, event_id, active, false).1 == s,
        event_at(s.entries, event_id) is Some ==> status_outcome(s, event_id, active, false).0
            == Err::<(), RegistryError>(RegistryError::Unauthorized),
{
}

/// A write of the administrator's (the platform fee, the blacklist, a
/// setting) for which the administrator has not proven its identity is
/// refused and leaves the ledger exactly as it was.
pub proof fn law_refused_admin_write_changes_nothing(
    s: LedgerState,
    fee_bps: u32,
    organizer: Seq<u8>,
    added: bool,
    reason: Seq<u8>,
    now: u64,
    key: StorageKey,
    value: Stored,
)
    ensures
        fee_outcome(s, fee_bps, false).0 is Err,
        fee_outcome(s, fee_bps, false).1 == s,
        blacklist_outcome(s, organizer, added, reason, false, now).0 is Err,
        blacklist_outcome(s, organizer, added, reason, false, now).1 == s,
        setting_outcome(s, key, value, false).0 is Err,
        setting_outcome(s, key, value, false).1 == s,
        admin_of(s.entries) is Some ==> {
            &&& fee_outcome(s, fee_bps, false).0 == Err::<(), RegistryError>(
                RegistryError::Unauthorized,
            )
            &&& blacklist_outcome(s, organizer, added, reason, false, now).0 == Err::<
                (),
                RegistryError,
            >(RegistryError::Unauthorized)
            &&& setting_outcome(s, key, value, false).0 == Err::<(), RegistryError>(
                RegistryError::Unauthorized,
            )
        },
{
}

/// No mutation that asks for an identity succeeds without the proof: where
/// an operation answers `Ok`, the principal it answers to had proven its
/// identity.
pub proof fn law_success_needs_proof(
    s: LedgerState,
    event_id: Seq<u8>,
    organizer: Seq<u8>,
    payout: Seq<u8>,
    active: bool,
    fee_bps: u32,
    added: bool,
    reason: Seq<u8>,
    key: StorageKey,
    value: Stored,
    identity_proven: bool,
    now: u64,
)
    ensures
        registration_outcome(s, event_id, organizer, payout, identity_proven, now).0 is Ok
            ==> identity_proven,
        status_outcome(s, event_id, active, identity_proven).0 is Ok ==> identity_proven,
        fee_outcome(s, fee_bps, identity_proven).0 is Ok ==> identity_proven,
        blacklist_outcome(s, organizer, added, reason, identity_proven, now).0 is Ok
            ==> identity_proven,
        setting_outcome(s, key, value, identity_proven).0 is Ok ==> identity_proven,
{
}

/// A `store_event` that is refused leaves the ledger exactly as it was.
pub proof fn law_refused_store_changes_nothing(s: LedgerState, record: EventView)
    ensures
        store_outcome(s, record).0 is Err ==> store_outcome(s, record).1 == s,
        store_outcome(s, record).0 is Ok <==> record.fee_bps <= MAX_FEE_BPS && !index_full(
            s.entries,
            record,
        ),
{
}

/// Every operation that fails leaves the ledger exactly as it was.
pub proof fn law_failure_changes_nothing(
    s: LedgerState,
    event_id: Seq<u8>,
    organizer: Seq<u8>,
    payout: Seq<u8>,
    active: bool,
    fee_bps: u32,
    added: bool,
    reason: Seq<u8>,
    key: StorageKey,
    value: Stored,
    identity_proven: bool,
    now: u64,
)
    ensures
        initialize_outcome(s, organizer, fee_bps).0 is Err ==> initialize_outcome(
            s,
            organizer,
            fee_bps,
        ).1 == s,
        registration_outcome(s, event_id, organizer, payout, identity_proven, now).0 is Err
            ==> registration_outcome(s, event_id, organizer, payout, identity_proven, now).1 == s,
        status_outcome(s, event_id, active, identity_proven).0 is Err ==> status_outcome(
            s,
            event_id,
            active,
            identity_proven,
        ).1 == s,
        fee_outcome(s, fee_bps, identity_proven).0 is Err ==> fee_outcome(
            s,
            fee_bps,
            identity_proven,
        ).1 == s,
        blacklist_outcome(s, organizer, added, reason, identity_proven, now).0 is Err
            ==> blacklist_outcome(s, organizer, added, reason, identity_proven, now).1 == s,
        setting_outcome(s, key, value, identity_proven).0 is Err ==> setting_outcome(
            s,
            key,
            value,
            identity_proven,
        ).1 == s,
{
}

/// A record is never deleted: an event that is bound stays bound, whatever
/// operation follows and whatever the host answers; and but for a
/// `store_event`, which writes the record it is given, it stays bound to the
/// same organizer, payout, fee and time of creation.
pub proof fn law_records_are_never_deleted(
    s: LedgerState,
    bound: Seq<u8>,
    stored: EventView,
    event_id: Seq<u8>,
    organizer: Seq<u8>,
    payout: Seq<u8>,
    active: bool,
    fee_bps: u32,
    added: bool,
    reason: Seq<u8>,
    identity_proven: bool,
    now: u64,
)
    requires
        consistent(s.entries),
        event_at(s.entries, bound) is Some,
    ensures
        event_at(store_outcome(s, stored).1.entries, bound) is Some,
        stays_bound(s, initialize_outcome(s, organizer, fee_bps).1, bound),
        stays_bound(
            s,
            registration_outcome(s, event_id, organizer, payout, identity_proven, now).1,
            bound,
        ),
        stays_bound(s, status_outcome(s, event_id, active, identity_proven).1, bound),
        stays_bound(s, fee_outcome(s, fee_bps, identity_proven).1, bound),
        stays_bound(s, blacklist_outcome(s, organizer, added, reason, identity_proven, now).1, bound),
        stays_bound(
            s,
            setting_outcome(s, key_global_promo_bps(), Stored::Number(fee_bps), identity_proven).1,
            bound,
        ),
        stays_bound(
            s,
            setting_outcome(s, key_promo_expiry(), Stored::Instant(now), identity_proven).1,
            bound,
        ),
        stays_bound(
            s,
            setting_outcome(
                s,
                key_ticket_payment_contract(),
                Stored::Principal(payout),
                identity_proven,
            ).1,
            bound,
        ),
{
    assert(key_event(bound) != key_admin());
    assert(key_event(bound) != key_platform_fee());
    assert(key_event(bound) != key_blacklist_log());
    assert(key_event(bound) != key_blacklisted(organizer));
    assert(event_at(s.entries, bound).unwrap().event_id == bound);
    if store_outcome(s, stored).0 is Ok {
        assert(key_event(bound) != key_count(stored.organizer));
        assert(key_event(bound) != key_member(stored.organizer, stored.event_id));
        assert(key_event(bound) != key_shard(
            stored.organizer,
            count_of(s.entries, stored.organizer) / SHARD_SIZE,
        ));
    }
    if registration_outcome(s, event_id, organizer, payout, identity_proven, now).0 is Ok {
        assert(event_id != bound);
        assert(key_event(bound) != key_event(event_id));
        assert(key_event(bound) != key_count(organizer));
        assert(key_event(bound) != key_member(organizer, event_id));
        assert(key_event(bound) != key_shard(
            organizer,
            count_of(s.entries, organizer) / SHARD_SIZE,
        ));
    }
    if status_outcome(s, event_id, active, identity_proven).0 is Ok {
        assert(event_at(s.entries, event_id).unwrap().event_id == event_id);
        if event_id != bound {
            assert(key_event(bound) != key_event(event_id));
        }
    }
}

/// The event stays bound to its organizer, payout, fee and time of
/// creation from one state of the ledger to the other.
pub open spec fn stays_bound(before: LedgerState, after: LedgerState, event_id: Seq<u8>) -> bool {
    &&& event_at(after.entries, event_id) is Some
    &&& event_at(after.entries, event_id).unwrap().event_id == event_at(
        before.entries,
        event_id,
    ).unwrap().event_id
    &&& event_at(after.entries, event_id).unwrap().organizer == event_at(
        before.entries,
        event_id,
    ).unwrap().organizer
    &&& event_at(after.entries, event_id).unwrap().payout == event_at(
        before.entries,
        event_id,
    ).unwrap().payout
    &&& event_at(after.entries, event_id).unwrap().fee_bps == event_at(
        before.entries,
        event_id,
    ).unwrap().fee_bps
    &&& event_at(after.entries, event_id).unwrap().created_at == event_at(
        before.entries,
        event_id,
    ).unwrap().created_at
}

/// The fee of a record is a snapshot: an event registered while the
/// platform fee was F keeps the fee F when the platform fee is changed.
pub proof fn law_fee_is_snapshot(
    s: LedgerState,
    event_id: Seq<u8>,
    organizer: Seq<u8>,
    payout: Seq<u8>,
    now: u64,
    new_fee_bps: u32,
    identity_proven: bool,
)
    requires
        registration_outcome(s, event_id, organizer, payout, true, now).0 is Ok,
    ensures
        ({
            let registered = registration_outcome(s, event_id, organizer, payout, true, now).1;
            let changed = fee_outcome(registered, new_fee_bps, identity_proven).1;
            &&& event_at(changed.entries, event_id) is Some
            &&& event_at(changed.entries, event_id).unwrap().fee_bps == platform_fee_of(s.entries)
            &&& event_at(changed.entries, event_id) == event_at(registered.entries, event_id)
        }),
{
    let record = new_record(s, event_id, organizer, payout, now);
    lemma_stored_record_is_read(s.entries, record);
}

/// After storing a record, the record is what is read under its event id.
pub proof fn lemma_stored_record_is_read(entries: Map<StorageKey, Stored>, record: EventView)
    ensures
        event_at(with_event_stored(entries, record), record.event_id) == Some(record),
{
}

/// Round trip: after `register_event(e, o, p)` succeeded,
/// `get_event_payment_info(e)` answers with the payout `p` and the platform
/// fee of the moment of registration.
pub proof fn law_registration_round_trip(
    s: LedgerState,
    event_id: Seq<u8>,
    organizer: Seq<u8>,
    payout: Seq<u8>,
    now: u64,
)
    requires
        registration_outcome(s, event_id, organizer, payout, true, now).0 is Ok,
    ensures
        payment_info_of(
            registration_outcome(s, event_id, organizer, payout, true, now).1,
            event_id,
        ) == Ok::<PaymentView, RegistryError>(
            PaymentView { payout, fee_bps: platform_fee_of(s.entries) },
        ),
{
    let record = new_record(s, event_id, organizer, payout, now);
    lemma_stored_record_is_read(s.entries, record);
}

/// Setting the status is idempotent: `update_event_status(e, b)` a second
/// time, whatever the host answers then, leaves the ledger as the first call
/// left it.
pub proof fn law_status_is_idempotent(
    s: LedgerState,
    event_id: Seq<u8>,
    active: bool,
    identity_proven: bool,
)
    requires
        status_outcome(s, event_id, active, true).0 is Ok,
    ensures
        status_outcome(status_outcome(s, event_id, active, true).1, event_id, active, identity_proven).1
            == status_outcome(s, event_id, active, true).1,
{
    let first = status_outcome(s, event_id, active, true).1;
    let second = status_outcome(first, event_id, active, identity_proven).1;
    let record = event_at(s.entries, event_id).unwrap();
    assert(event_at(first.entries, event_id) == Some(EventView { active, ..record }));
    assert(second.entries =~= first.entries);
}

} // verus!
