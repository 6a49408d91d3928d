//! The mathematical model of the ledger the registry lives on: what a storage
//! key is, what can be held under one, and what the registry has published.
//!
//! Everything here is ghost. Principals and texts appear by their
//! identity: the byte string that two handles share exactly when they denote
//! the same principal or hold the same text.

use vstd::prelude::*;

verus! {

/// A storage key as the ledger sees it: the family of the entry, and the
/// values that single it out within its family.
pub struct StorageKey {
    pub family: u32,
    pub who: Option<Seq<u8>>,
    pub text: Option<Seq<u8>>,
    pub index: Option<u32>,
}

/// The stored form of an event record.
pub struct EventView {
    pub event_id: Seq<u8>,
    pub organizer: Seq<u8>,
    pub payout: Seq<u8>,
    pub fee_bps: u32,
    pub active: bool,
    pub created_at: u64,
}

/// The projection of an event record that payment routing needs.
pub struct PaymentView {
    pub payout: Seq<u8>,
    pub fee_bps: u32,
}

/// One line of the blacklist audit trail.
pub struct AuditView {
    pub organizer: Seq<u8>,
    pub added: bool,
    pub actor: Seq<u8>,
    pub timestamp: u64,
    pub reason: Seq<u8>,
}

/// A value held under a storage key. The first seven variants are the shapes
/// the registry writes; each is a different shape on the ledger. Whatever has
/// none of these shapes is `Other`.
pub enum Stored {
    /// A principal.
    Principal(Seq<u8>),
    /// A 32-bit unsigned number.
    Number(u32),
    /// A 64-bit unsigned number.
    Instant(u64),
    /// A boolean.
    Flag(bool),
    /// An event record.
    Event(EventView),
    /// A list of texts.
    Ids(Seq<Seq<u8>>),
    /// An audit trail.
    Audit(Seq<AuditView>),
    /// A value of any other shape. The registry never writes one, and the
    /// schema accepts none under a key of a family it knows.
    Other,
}

/// A record handed to the observability channel.
pub enum Notice {
    /// An event was registered.
    EventRegistered {
        topic: Seq<char>,
        event_id: Seq<u8>,
        organizer: Seq<u8>,
        payout: Seq<u8>,
        fee_bps: u32,
    },
    /// The platform fee was changed.
    FeeUpdated { topic: Seq<char>, fee_bps: u32 },
}

/// The state of the ledger as far as the registry is concerned.
pub struct LedgerState {
    /// The persistent entries of the running contract.
    pub entries: Map<StorageKey, Stored>,
    /// What the running contract has published, oldest first.
    pub notices: Seq<Notice>,
    /// Whether a contract is running, so that storage can be reached.
    pub running: bool,
}

/// Capacity of one shard of an organizer's index.
pub const SHARD_SIZE: u32 = 50;

/// Largest fee, in basis points: 100%.
pub const MAX_FEE_BPS: u32 = 10000;

pub const FAMILY_ADMIN: u32 = 0;

pub const FAMILY_PLATFORM_FEE: u32 = 1;

pub const FAMILY_INITIALIZED: u32 = 2;

pub const FAMILY_PLATFORM_WALLET: u32 = 3;

pub const FAMILY_EVENT: u32 = 4;

pub const FAMILY_ORGANIZER_EVENT_COUNT: u32 = 5;

pub const FAMILY_ORGANIZER_EVENT_SHARD: u32 = 6;

pub const FAMILY_ORGANIZER_EVENT: u32 = 7;

pub const FAMILY_TICKET_PAYMENT_CONTRACT: u32 = 8;

pub const FAMILY_BLACKLISTED_ORGANIZER: u32 = 9;

pub const FAMILY_BLACKLIST_LOG: u32 = 10;

pub const FAMILY_GLOBAL_PROMO_BPS: u32 = 11;

pub const FAMILY_PROMO_EXPIRY: u32 = 12;

/// The key of an entry that is alone in its family.
pub open spec fn key_single(family: u32) -> StorageKey {
    StorageKey { family, who: None, text: None, index: None }
}

pub open spec fn key_admin() -> StorageKey {
    key_single(FAMILY_ADMIN)
}

pub open spec fn key_platform_fee() -> StorageKey {
    key_single(FAMILY_PLATFORM_FEE)
}

pub open spec fn key_initialized() -> StorageKey {
    key_single(FAMILY_INITIALIZED)
}

pub open spec fn key_platform_wallet() -> StorageKey {
    key_single(FAMILY_PLATFORM_WALLET)
}

pub open spec fn key_event(event_id: Seq<u8>) -> StorageKey {
    StorageKey { family: FAMILY_EVENT, who: None, text: Some(event_id), index: None }
}

pub open spec fn key_count(organizer: Seq<u8>) -> StorageKey {
    StorageKey { family: FAMILY_ORGANIZER_EVENT_COUNT, who: Some(organizer), text: None, index: None }
}

pub open spec fn key_shard(organizer: Seq<u8>, shard_id: u32) -> StorageKey {
    StorageKey {
        family: FAMILY_ORGANIZER_EVENT_SHARD,
        who: Some(organizer),
        text: None,
        index: Some(shard_id),
    }
}

pub open spec fn key_member(organizer: Seq<u8>, event_id: Seq<u8>) -> StorageKey {
    StorageKey {
        family: FAMILY_ORGANIZER_EVENT,
        who: Some(organizer),
        text: Some(event_id),
        index: None,
    }
}

pub open spec fn key_ticket_payment_contract() -> StorageKey {
    key_single(FAMILY_TICKET_PAYMENT_CONTRACT)
}

pub open spec fn key_blacklisted(organizer: Seq<u8>) -> StorageKey {
    StorageKey { family: FAMILY_BLACKLISTED_ORGANIZER, who: Some(organizer), text: None, index: None }
}

pub open spec fn key_blacklist_log() -> StorageKey {
    key_single(FAMILY_BLACKLIST_LOG)
}

pub open spec fn key_global_promo_bps() -> StorageKey {
    key_single(FAMILY_GLOBAL_PROMO_BPS)
}

pub open spec fn key_promo_expiry() -> StorageKey {
    key_single(FAMILY_PROMO_EXPIRY)
}

/// Whether `value` is what the family of `key` prescribes: its shape, for a
/// fee that it is at most 100%, and for a record that it has a fee of at
/// most 100% and is held under its own event id. `Other` is accepted under
/// no family that the registry knows; families it does not know prescribe
/// nothing.
pub open spec fn fits(key: StorageKey, value: Stored) -> bool {
    if key.family == FAMILY_ADMIN || key.family == FAMILY_PLATFORM_WALLET || key.family
        == FAMILY_TICKET_PAYMENT_CONTRACT {
        value is Principal
    } else if key.family == FAMILY_PLATFORM_FEE {
        value is Number && value->Number_0 <= MAX_FEE_BPS
    } else if key.family == FAMILY_ORGANIZER_EVENT_COUNT || key.family == FAMILY_GLOBAL_PROMO_BPS {
        value is Number
    } else if key.family == FAMILY_INITIALIZED || key.family == FAMILY_ORGANIZER_EVENT
        || key.family == FAMILY_BLACKLISTED_ORGANIZER {
        value is Flag
    } else if key.family == FAMILY_EVENT {
        &&& value is Event
        &&& value->Event_0.fee_bps <= MAX_FEE_BPS
        &&& key == key_event(value->Event_0.event_id)
    } else if key.family == FAMILY_ORGANIZER_EVENT_SHARD {
        value is Ids
    } else if key.family == FAMILY_BLACKLIST_LOG {
        value is Audit
    } else if key.family == FAMILY_PROMO_EXPIRY {
        value is Instant
    } else {
        true
    }
}

/// The store follows the schema: every entry holds what its family
/// prescribes.
pub open spec fn conforms(entries: Map<StorageKey, Stored>) -> bool {
    forall|k: StorageKey| #[trigger] entries.contains_key(k) ==> fits(k, entries[k])
}

/// The principal held under `key`, if any.
pub open spec fn principal_at(entries: Map<StorageKey, Stored>, key: StorageKey) -> Option<Seq<u8>> {
    if entries.contains_key(key) {
        Some(entries[key]->Principal_0)
    } else {
        None
    }
}

/// The number held under `key`, or 0 where nothing is.
pub open spec fn number_at(entries: Map<StorageKey, Stored>, key: StorageKey) -> u32 {
    if entries.contains_key(key) {
        entries[key]->Number_0
    } else {
        0
    }
}

/// The 64-bit number held under `key`, or 0 where nothing is.
pub open spec fn instant_at(entries: Map<StorageKey, Stored>, key: StorageKey) -> u64 {
    if entries.contains_key(key) {
        entries[key]->Instant_0
    } else {
        0
    }
}

/// The flag held under `key`, or false where nothing is.
pub open spec fn flag_at(entries: Map<StorageKey, Stored>, key: StorageKey) -> bool {
    if entries.contains_key(key) {
        entries[key]->Flag_0
    } else {
        false
    }
}

/// The administrator, if one is set.
pub open spec fn admin_of(entries: Map<StorageKey, Stored>) -> Option<Seq<u8>> {
    principal_at(entries, key_admin())
}

/// The global platform fee; 0 while none has been written.
pub open spec fn platform_fee_of(entries: Map<StorageKey, Stored>) -> u32 {
    number_at(entries, key_platform_fee())
}

/// The record bound to `event_id`, if any.
pub open spec fn event_at(entries: Map<StorageKey, Stored>, event_id: Seq<u8>) -> Option<EventView> {
    if entries.contains_key(key_event(event_id)) {
        Some(entries[key_event(event_id)]->Event_0)
    } else {
        None
    }
}

/// The number of events the index holds for `organizer`.
pub open spec fn count_of(entries: Map<StorageKey, Stored>, organizer: Seq<u8>) -> u32 {
    number_at(entries, key_count(organizer))
}

/// Shard `shard_id` of the index of `organizer`; empty where none was written.
pub open spec fn shard_of(entries: Map<StorageKey, Stored>, organizer: Seq<u8>, shard_id: u32) -> Seq<
    Seq<u8>,
> {
    if entries.contains_key(key_shard(organizer, shard_id)) {
        entries[key_shard(organizer, shard_id)]->Ids_0
    } else {
        Seq::empty()
    }
}

/// The membership witness of `event_id` in the index of `organizer`.
pub open spec fn is_member(entries: Map<StorageKey, Stored>, organizer: Seq<u8>, event_id: Seq<u8>) -> bool {
    entries.contains_key(key_member(organizer, event_id))
}

/// The audit trail; empty where none was written.
pub open spec fn audit_log_of(entries: Map<StorageKey, Stored>) -> Seq<AuditView> {
    if entries.contains_key(key_blacklist_log()) {
        entries[key_blacklist_log()]->Audit_0
    } else {
        Seq::empty()
    }
}

/// The number of shards that `count` events occupy.
pub open spec fn shards_needed(count: u32) -> nat {
    ((count + SHARD_SIZE - 1) / (SHARD_SIZE as int)) as nat
}

/// The first `shards` shards of the index of `organizer`, one after another.
pub open spec fn shards_joined(entries: Map<StorageKey, Stored>, organizer: Seq<u8>, shards: nat) -> Seq<
    Seq<u8>,
>
    decreases shards,
{
    if shards == 0 {
        Seq::empty()
    } else {
        shards_joined(entries, organizer, (shards - 1) as nat) + shard_of(
            entries,
            organizer,
            (shards - 1) as u32,
        )
    }
}

/// The enumeration of the events of `organizer`: the shards that its count
/// asks for, in order.
pub open spec fn organizer_events(entries: Map<StorageKey, Stored>, organizer: Seq<u8>) -> Seq<Seq<u8>> {
    shards_joined(entries, organizer, shards_needed(count_of(entries, organizer)))
}

} // verus!
