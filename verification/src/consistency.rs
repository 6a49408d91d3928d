//! The invariant of the registry: the schema, which bounds the fees and
//! keeps every record under its own id, and what ties records, membership
//! witnesses, counts and shards together.
//!
//! An empty store has it and every operation of the registry keeps it
//! (`crate::laws`). The functions of `crate::storage` write what they are
//! given: they keep the schema, and the rest of the invariant only as far as
//! their callers see to it.

use crate::model::{
    conforms, count_of, event_at, is_member, organizer_events, platform_fee_of, shard_of,
    StorageKey, Stored, MAX_FEE_BPS, SHARD_SIZE,
};
use vstd::prelude::*;

verus! {

/// Every record is stored under its own event id. The schema sees to it.
pub open spec fn records_keyed(entries: Map<StorageKey, Stored>) -> bool {
    forall|e: Seq<u8>| #[trigger]
        event_at(entries, e) is Some ==> event_at(entries, e).unwrap().event_id == e
}

/// An event is in an organizer's index exactly when its record exists and
/// names that organizer.
pub open spec fn witnesses_match(entries: Map<StorageKey, Stored>) -> bool {
    forall|o: Seq<u8>, e: Seq<u8>| #[trigger]
        is_member(entries, o, e) <==> (event_at(entries, e) is Some && event_at(
            entries,
            e,
        ).unwrap().organizer == o)
}

/// The shards of an organizer are filled in order: every shard before the
/// one its count points to is full, that one holds the rest, and those behind
/// it are empty.
pub open spec fn shards_filled(entries: Map<StorageKey, Stored>, o: Seq<u8>) -> bool {
    let count = count_of(entries, o);
    forall|s: u32|
        (#[trigger] shard_of(entries, o, s)).len() == (if s < count / SHARD_SIZE {
            SHARD_SIZE as int
        } else if s == count / SHARD_SIZE {
            (count % SHARD_SIZE) as int
        } else {
            0
        })
}

/// The enumeration of an organizer's events holds no event twice, and holds
/// exactly the events that have a membership witness.
pub open spec fn index_lists_members(entries: Map<StorageKey, Stored>, o: Seq<u8>) -> bool {
    &&& organizer_events(entries, o).no_duplicates()
    &&& forall|e: Seq<u8>| #[trigger]
        organizer_events(entries, o).contains(e) <==> is_member(entries, o, e)
}

/// No fee is above 100%: neither the platform fee nor the fee of a record.
/// The schema sees to it.
pub open spec fn fees_in_range(entries: Map<StorageKey, Stored>) -> bool {
    &&& platform_fee_of(entries) <= MAX_FEE_BPS
    &&& forall|e: Seq<u8>| #[trigger]
        event_at(entries, e) is Some ==> event_at(entries, e).unwrap().fee_bps <= MAX_FEE_BPS
}

/// The invariant of the registry.
pub open spec fn consistent(entries: Map<StorageKey, Stored>) -> bool {
    &&& conforms(entries)
    &&& witnesses_match(entries)
    &&& forall|o: Seq<u8>| #[trigger] shards_filled(entries, o)
    &&& forall|o: Seq<u8>| #[trigger] index_lists_members(entries, o)
}

} // verus!
