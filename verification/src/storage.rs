//! The typed layer over the ledger's persistent entries, and the sharded
//! per-organizer index that is kept with the event records.
//!
//! The layer writes what it is given and asks nobody's identity. It keeps
//! the schema: a function that writes a fee asks for one of at most 10000
//! basis points, and a record goes under its own event id.

use crate::host::{
    address_id, audit_views, contract_running, has_entry, in_contract, ledger, list_append,
    list_items, list_push,
    load_address, load_audit, load_event, load_flag, load_ids, load_instant, load_number,
    new_list, only_texts, persistent_entries, remove_entry, save_address, save_audit, save_event,
    save_flag, save_ids, save_instant, save_number, text_bytes,
};
use crate::model::{
    admin_of, audit_log_of, conforms, count_of, event_at, fits, flag_at, instant_at, is_member,
    key_admin, key_blacklist_log, key_blacklisted, key_count, key_event, key_global_promo_bps,
    key_initialized, key_member, key_platform_fee, key_platform_wallet, key_promo_expiry,
    key_shard, key_ticket_payment_contract, number_at, organizer_events, platform_fee_of,
    principal_at, shard_of, shards_joined, shards_needed, EventView, LedgerState, StorageKey,
    Stored, MAX_FEE_BPS, SHARD_SIZE,
};
use crate::types::{BlacklistAuditEntry, DataKey, EventInfo};
use soroban_sdk::{Address, Env};
use vstd::prelude::*;

verus! {

/// Storage can be reached and follows the schema: a contract is running, and
/// every entry it holds is what its family prescribes.
///
/// This is what every function of the registry asks of the environment and
/// leaves behind. It holds throughout the invocations of a contract whose
/// storage the registry alone writes: an empty store follows the schema, and
/// `is_reachable` tells whether a contract is running.
pub open spec fn ready(env: Env) -> bool {
    in_contract(env) && conforms(persistent_entries(env))
}

/// The ledger with `value` written under `key` and nothing else changed.
pub open spec fn with_entry(s: LedgerState, key: StorageKey, value: Stored) -> LedgerState {
    LedgerState { entries: s.entries.insert(key, value), ..s }
}

/// The ledger without the entry under `key` and nothing else changed.
pub open spec fn without_entry(s: LedgerState, key: StorageKey) -> LedgerState {
    LedgerState { entries: s.entries.remove(key), ..s }
}

/// The identity of an address that may be missing.
pub open spec fn id_of(a: Option<Address>) -> Option<Seq<u8>> {
    match a {
        Some(a) => Some(address_id(a)),
        None => None,
    }
}

/// The view of an event record that may be missing.
pub open spec fn view_of(e: Option<EventInfo>) -> Option<EventView> {
    match e {
        Some(e) => Some(e@),
        None => None,
    }
}

/// The entries after `record` was stored: the record is written under its
/// event id, and where the organizer's index does not hold the event yet, the
/// id is appended to the shard that the count points to, the count grows by
/// one and the membership witness is set.
pub open spec fn with_event_stored(entries: Map<StorageKey, Stored>, record: EventView) -> Map<
    StorageKey,
    Stored,
> {
    let written = entries.insert(key_event(record.event_id), Stored::Event(record));
    if is_member(entries, record.organizer, record.event_id) {
        written
    } else {
        let count = count_of(entries, record.organizer);
        let shard_id = count / SHARD_SIZE;
        written.insert(
            key_shard(record.organizer, shard_id),
            Stored::Ids(shard_of(entries, record.organizer, shard_id).push(record.event_id)),
        ).insert(key_count(record.organizer), Stored::Number((count + 1) as u32)).insert(
            key_member(record.organizer, record.event_id),
            Stored::Flag(true),
        )
    }
}

/// The index of the record's organizer does not hold the event and cannot
/// grow: its count is the largest `u32`.
pub open spec fn index_full(entries: Map<StorageKey, Stored>, record: EventView) -> bool {
    !is_member(entries, record.organizer, record.event_id) && count_of(entries, record.organizer)
        == u32::MAX
}

/// The ledger after `store_event`: as it was where the index is full, else
/// with the record stored.
pub open spec fn event_stored(s: LedgerState, record: EventView) -> LedgerState {
    if index_full(s.entries, record) {
        s
    } else {
        LedgerState { entries: with_event_stored(s.entries, record), ..s }
    }
}

/// Writing a fitting value keeps the store within the schema.
pub proof fn lemma_insert_conforms(entries: Map<StorageKey, Stored>, key: StorageKey, value: Stored)
    requires
        conforms(entries),
        fits(key, value),
    ensures
        conforms(entries.insert(key, value)),
{
    assert forall|k: StorageKey| #[trigger]
        entries.insert(key, value).contains_key(k) implies fits(k, entries.insert(key, value)[k]) by {
        if k != key {
            assert(entries.contains_key(k));
        }
    }
}

/// Removing an entry keeps the store within the schema.
pub proof fn lemma_remove_conforms(entries: Map<StorageKey, Stored>, key: StorageKey)
    requires
        conforms(entries),
    ensures
        conforms(entries.remove(key)),
{
    assert forall|k: StorageKey| #[trigger]
        entries.remove(key).contains_key(k) implies fits(k, entries.remove(key)[k]) by {
        assert(entries.contains_key(k));
    }
}

/// Storing a record keeps the store within the schema.
pub proof fn lemma_event_stored_conforms(entries: Map<StorageKey, Stored>, record: EventView)
    requires
        conforms(entries),
        record.fee_bps <= MAX_FEE_BPS,
    ensures
        conforms(with_event_stored(entries, record)),
{
    let written = entries.insert(key_event(record.event_id), Stored::Event(record));
    lemma_insert_conforms(entries, key_event(record.event_id), Stored::Event(record));
    if !is_member(entries, record.organizer, record.event_id) {
        let count = count_of(entries, record.organizer);
        let shard_id = count / SHARD_SIZE;
        let ids = Stored::Ids(shard_of(entries, record.organizer, shard_id).push(record.event_id));
        let a = written.insert(key_shard(record.organizer, shard_id), ids);
        lemma_insert_conforms(written, key_shard(record.organizer, shard_id), ids);
        let b = a.insert(key_count(record.organizer), Stored::Number((count + 1) as u32));
        lemma_insert_conforms(a, key_count(record.organizer), Stored::Number((count + 1) as u32));
        lemma_insert_conforms(b, key_member(record.organizer, record.event_id), Stored::Flag(true));
    }
}

/// Whether a contract is running in the environment, so that its storage
/// can be reached. Every other function of the registry asks for that.
pub fn is_reachable(env: &Env) -> (reachable: bool)
    ensures
        reachable == in_contract(*env),
{
    contract_running(env)
}

/// Sets the administrator address of the contract.
pub fn set_admin(env: &mut Env, admin: &Address)
    requires
        ready(*old(env)),
    ensures
        ledger(*final(env)) == with_entry(
            ledger(*old(env)),
            key_admin(),
            Stored::Principal(address_id(*admin)),
        ),
        ready(*final(env)),
{
    proof {
        lemma_insert_conforms(
            persistent_entries(*env),
            key_admin(),
            Stored::Principal(address_id(*admin)),
        );
    }
    save_address(env, &DataKey::Admin.parts(), admin);
}

/// Retrieves the administrator address of the contract.
pub fn get_admin(env: &Env) -> (admin: Option<Address>)
    requires
        ready(*env),
    ensures
        id_of(admin) == admin_of(persistent_entries(*env)),
{
    load_address(env, &DataKey::Admin.parts())
}

/// Sets the platform wallet address of the contract.
pub fn set_platform_wallet(env: &mut Env, wallet: &Address)
    requires
        ready(*old(env)),
    ensures
        ledger(*final(env)) == with_entry(
            ledger(*old(env)),
            key_platform_wallet(),
            Stored::Principal(address_id(*wallet)),
        ),
        ready(*final(env)),
{
    proof {
        lemma_insert_conforms(
            persistent_entries(*env),
            key_platform_wallet(),
            Stored::Principal(address_id(*wallet)),
        );
    }
    save_address(env, &DataKey::PlatformWallet.parts(), wallet);
}

/// Retrieves the platform wallet address of the contract.
pub fn get_platform_wallet(env: &Env) -> (wallet: Option<Address>)
    requires
        ready(*env),
    ensures
        id_of(wallet) == principal_at(persistent_entries(*env), key_platform_wallet()),
{
    load_address(env, &DataKey::PlatformWallet.parts())
}

/// Sets the global platform fee. A fee is at most 10000 basis points.
pub fn set_platform_fee(env: &mut Env, fee: u32)
    requires
        ready(*old(env)),
        fee <= MAX_FEE_BPS,
    ensures
        ledger(*final(env)) == with_entry(ledger(*old(env)), key_platform_fee(), Stored::Number(fee)),
        ready(*final(env)),
{
    proof {
        lemma_insert_conforms(persistent_entries(*env), key_platform_fee(), Stored::Number(fee));
    }
    save_number(env, &DataKey::PlatformFee.parts(), fee);
}

/// Retrieves the global platform fee: 0 while none has been set.
pub fn get_platform_fee(env: &Env) -> (fee: u32)
    requires
        ready(*env),
    ensures
        fee == platform_fee_of(persistent_entries(*env)),
{
    match load_number(env, &DataKey::PlatformFee.parts()) {
        Some(fee) => fee,
        None => 0,
    }
}

/// Checks if the platform fee has been set.
pub fn has_platform_fee(env: &Env) -> (set: bool)
    requires
        ready(*env),
    ensures
        set == persistent_entries(*env).contains_key(key_platform_fee()),
{
    has_entry(env, &DataKey::PlatformFee.parts())
}

/// Sets initialization flag.
pub fn set_initialized(env: &mut Env, value: bool)
    requires
        ready(*old(env)),
    ensures
        ledger(*final(env)) == with_entry(ledger(*old(env)), key_initialized(), Stored::Flag(value)),
        ready(*final(env)),
{
    proof {
        lemma_insert_conforms(persistent_entries(*env), key_initialized(), Stored::Flag(value));
    }
    save_flag(env, &DataKey::Initialized.parts(), value);
}

/// Checks if contract has been initialized: false while the flag is unset.
pub fn is_initialized(env: &Env) -> (flag: bool)
    requires
        ready(*env),
    ensures
        flag == flag_at(persistent_entries(*env), key_initialized()),
{
    match load_flag(env, &DataKey::Initialized.parts()) {
        Some(flag) => flag,
        None => false,
    }
}

/// Stores a new event or updates an existing one.
/// Also updates the organizer's list of events.
///
/// The fee of a record is at most 10000 basis points. The count of an
/// organizer's events is a `u32`: where the index would have to grow past
/// that, nothing is stored and `false` comes back.
pub fn store_event(env: &mut Env, event_info: EventInfo) -> (stored: bool)
    requires
        ready(*old(env)),
        event_info.platform_fee_percent <= MAX_FEE_BPS,
    ensures
        stored == !index_full(ledger(*old(env)).entries, event_info@),
        ledger(*final(env)) == event_stored(ledger(*old(env)), event_info@),
        ready(*final(env)),
{
    let ghost before = persistent_entries(*env);
    let ghost record = event_info@;
    proof {
        lemma_event_stored_conforms(before, record);
        lemma_insert_conforms(before, key_event(record.event_id), Stored::Event(record));
    }
    let event_id = event_info.event_id.clone();
    let organizer = event_info.organizer_address.clone();

    let indexed = has_organizer_event(env, &organizer, event_id.clone());
    let count = if indexed {
        0
    } else {
        get_organizer_event_count(env, &organizer)
    };
    if !indexed && count == u32::MAX {
        return false;
    }
    save_event(env, &DataKey::Event(event_id.clone()).parts(), &event_info);

    // Update organizer's event index if it doesn't hold the event
    if !indexed {
        let shard_id = count / SHARD_SIZE;

        let shard_key = DataKey::OrganizerEventShard(organizer.clone(), shard_id);
        let mut shard = match load_ids(env, &shard_key.parts()) {
            Some(ids) => ids,
            None => new_list(env),
        };
        list_push(&mut shard, event_id.clone());
        save_ids(env, &shard_key.parts(), &shard);

        save_number(env, &DataKey::OrganizerEventCount(organizer.clone()).parts(), count + 1);

        save_flag(env, &DataKey::OrganizerEvent(organizer, event_id).parts(), true);
    }
    assert(persistent_entries(*env) =~= with_event_stored(before, record));
    true
}

/// Updates event data without touching organizer index.
/// Use this for mutations on already-registered events.
/// The fee of a record is at most 10000 basis points.
pub fn update_event(env: &mut Env, event_info: EventInfo)
    requires
        ready(*old(env)),
        event_info.platform_fee_percent <= MAX_FEE_BPS,
    ensures
        ledger(*final(env)) == with_entry(
            ledger(*old(env)),
            key_event(event_info@.event_id),
            Stored::Event(event_info@),
        ),
        ready(*final(env)),
{
    proof {
        lemma_insert_conforms(
            persistent_entries(*env),
            key_event(event_info@.event_id),
            Stored::Event(event_info@),
        );
    }
    let event_id = event_info.event_id.clone();
    save_event(env, &DataKey::Event(event_id).parts(), &event_info);
}

/// Retrieves event information by event_id.
pub fn get_event(env: &Env, event_id: soroban_sdk::String) -> (event: Option<EventInfo>)
    requires
        ready(*env),
    ensures
        view_of(event) == event_at(persistent_entries(*env), text_bytes(event_id)),
{
    load_event(env, &DataKey::Event(event_id).parts())
}

/// Checks if an event with the given event_id exists.
pub fn event_exists(env: &Env, event_id: soroban_sdk::String) -> (found: bool)
    requires
        ready(*env),
    ensures
        found == (event_at(persistent_entries(*env), text_bytes(event_id)) is Some),
{
    has_entry(env, &DataKey::Event(event_id).parts())
}

/// Retrieves the total number of events for an organizer.
pub fn get_organizer_event_count(env: &Env, organizer: &Address) -> (count: u32)
    requires
        ready(*env),
    ensures
        count == count_of(persistent_entries(*env), address_id(*organizer)),
{
    match load_number(env, &DataKey::OrganizerEventCount(organizer.clone()).parts()) {
        Some(count) => count,
        None => 0,
    }
}

/// Checks if an organizer has a specific event in their index.
pub fn has_organizer_event(env: &Env, organizer: &Address, event_id: soroban_sdk::String) -> (member:
    bool)
    requires
        ready(*env),
    ensures
        member == is_member(persistent_entries(*env), address_id(*organizer), text_bytes(event_id)),
{
    has_entry(env, &DataKey::OrganizerEvent(organizer.clone(), event_id).parts())
}

/// The number of shards that `count` events occupy.
pub fn shard_count(count: u32) -> (shards: u32)
    ensures
        shards == shards_needed(count),
{
    if count % SHARD_SIZE == 0 {
        count / SHARD_SIZE
    } else {
        count / SHARD_SIZE + 1
    }
}

/// Retrieves all event_ids associated with an organizer by iterating through shards.
/// For very large lists this reads many entries: use shard-based iteration for scale.
pub fn get_organizer_events(env: &Env, organizer: &Address) -> (events: soroban_sdk::Vec<
    soroban_sdk::String,
>)
    requires
        ready(*env),
    ensures
        list_items(events) == organizer_events(persistent_entries(*env), address_id(*organizer)),
        only_texts(events),
{
    let count = get_organizer_event_count(env, organizer);
    let mut all_events = new_list(env);

    if count == 0 {
        return all_events;
    }
    let num_shards = shard_count(count);
    let mut i: u32 = 0;
    while i < num_shards
        invariant
            ready(*env),
            i <= num_shards,
            list_items(all_events) == shards_joined(
                persistent_entries(*env),
                address_id(*organizer),
                i as nat,
            ),
            only_texts(all_events),
        decreases num_shards - i,
    {
        let shard = get_organizer_event_shard(env, organizer, i);
        list_append(&mut all_events, &shard);
        i = i + 1;
    }
    all_events
}

/// Retrieves a specific shard of event_ids for an organizer.
pub fn get_organizer_event_shard(env: &Env, organizer: &Address, shard_id: u32) -> (shard:
    soroban_sdk::Vec<soroban_sdk::String>)
    requires
        ready(*env),
    ensures
        list_items(shard) == shard_of(persistent_entries(*env), address_id(*organizer), shard_id),
        only_texts(shard),
{
    match load_ids(env, &DataKey::OrganizerEventShard(organizer.clone(), shard_id).parts()) {
        Some(ids) => ids,
        None => new_list(env),
    }
}

/// Sets the authorized TicketPayment contract address.
pub fn set_ticket_payment_contract(env: &mut Env, address: &Address)
    requires
        ready(*old(env)),
    ensures
        ledger(*final(env)) == with_entry(
            ledger(*old(env)),
            key_ticket_payment_contract(),
            Stored::Principal(address_id(*address)),
        ),
        ready(*final(env)),
{
    proof {
        lemma_insert_conforms(
            persistent_entries(*env),
            key_ticket_payment_contract(),
            Stored::Principal(address_id(*address)),
        );
    }
    save_address(env, &DataKey::TicketPaymentContract.parts(), address);
}

/// Retrieves the authorized TicketPayment contract address.
pub fn get_ticket_payment_contract(env: &Env) -> (address: Option<Address>)
    requires
        ready(*env),
    ensures
        id_of(address) == principal_at(persistent_entries(*env), key_ticket_payment_contract()),
{
    load_address(env, &DataKey::TicketPaymentContract.parts())
}

/// Checks if an organizer is blacklisted.
pub fn is_blacklisted(env: &Env, organizer: &Address) -> (listed: bool)
    requires
        ready(*env),
    ensures
        listed == flag_at(persistent_entries(*env), key_blacklisted(address_id(*organizer))),
{
    match load_flag(env, &DataKey::BlacklistedOrganizer(organizer.clone()).parts()) {
        Some(listed) => listed,
        None => false,
    }
}

/// Adds an organizer to the blacklist.
pub fn add_to_blacklist(env: &mut Env, organizer: &Address)
    requires
        ready(*old(env)),
    ensures
        ledger(*final(env)) == with_entry(
            ledger(*old(env)),
            key_blacklisted(address_id(*organizer)),
            Stored::Flag(true),
        ),
        ready(*final(env)),
{
    proof {
        lemma_insert_conforms(
            persistent_entries(*env),
            key_blacklisted(address_id(*organizer)),
            Stored::Flag(true),
        );
    }
    save_flag(env, &DataKey::BlacklistedOrganizer(organizer.clone()).parts(), true);
}

/// Removes an organizer from the blacklist.
pub fn remove_from_blacklist(env: &mut Env, organizer: &Address)
    requires
        ready(*old(env)),
    ensures
        ledger(*final(env)) == without_entry(
            ledger(*old(env)),
            key_blacklisted(address_id(*organizer)),
        ),
        ready(*final(env)),
{
    proof {
        lemma_remove_conforms(persistent_entries(*env), key_blacklisted(address_id(*organizer)));
    }
    remove_entry(env, &DataKey::BlacklistedOrganizer(organizer.clone()).parts());
}

/// Adds an audit log entry for blacklist actions.
pub fn add_blacklist_audit_entry(env: &mut Env, entry: BlacklistAuditEntry)
    requires
        ready(*old(env)),
    ensures
        ledger(*final(env)) == with_entry(
            ledger(*old(env)),
            key_blacklist_log(),
            Stored::Audit(audit_log_of(ledger(*old(env)).entries).push(entry@)),
        ),
        ready(*final(env)),
{
    let ghost line = entry@;
    let mut audit_log = get_blacklist_audit_log(env);
    let ghost before = audit_log@;
    audit_log.push(entry);
    proof {
        assert(audit_views(audit_log@) =~= audit_views(before).push(line));
        lemma_insert_conforms(
            persistent_entries(*env),
            key_blacklist_log(),
            Stored::Audit(audit_views(audit_log@)),
        );
    }
    save_audit(env, &DataKey::BlacklistLog.parts(), &audit_log);
}

/// Retrieves the blacklist audit log.
pub fn get_blacklist_audit_log(env: &Env) -> (log: Vec<BlacklistAuditEntry>)
    requires
        ready(*env),
    ensures
        audit_views(log@) == audit_log_of(persistent_entries(*env)),
{
    match load_audit(env, &DataKey::BlacklistLog.parts()) {
        Some(log) => log,
        None => {
            let log: Vec<BlacklistAuditEntry> = Vec::new();
            assert(audit_views(log@) =~= Seq::<crate::model::AuditView>::empty());
            log
        },
    }
}

/// Sets the global promotional discount in basis points.
pub fn set_global_promo_bps(env: &mut Env, bps: u32)
    requires
        ready(*old(env)),
    ensures
        ledger(*final(env)) == with_entry(
            ledger(*old(env)),
            key_global_promo_bps(),
            Stored::Number(bps),
        ),
        ready(*final(env)),
{
    proof {
        lemma_insert_conforms(
            persistent_entries(*env),
            key_global_promo_bps(),
            Stored::Number(bps),
        );
    }
    save_number(env, &DataKey::GlobalPromoBps.parts(), bps);
}

/// Retrieves the global promotional discount in basis points.
pub fn get_global_promo_bps(env: &Env) -> (bps: u32)
    requires
        ready(*env),
    ensures
        bps == number_at(persistent_entries(*env), key_global_promo_bps()),
{
    match load_number(env, &DataKey::GlobalPromoBps.parts()) {
        Some(bps) => bps,
        None => 0,
    }
}

/// Sets the expiry timestamp for the global promotional discount.
pub fn set_promo_expiry(env: &mut Env, expiry: u64)
    requires
        ready(*old(env)),
    ensures
        ledger(*final(env)) == with_entry(
            ledger(*old(env)),
            key_promo_expiry(),
            Stored::Instant(expiry),
        ),
        ready(*final(env)),
{
    proof {
        lemma_insert_conforms(
            persistent_entries(*env),
            key_promo_expiry(),
            Stored::Instant(expiry),
        );
    }
    save_instant(env, &DataKey::PromoExpiry.parts(), expiry);
}

/// Retrieves the expiry timestamp for the global promotional discount.
pub fn get_promo_expiry(env: &Env) -> (expiry: u64)
    requires
        ready(*env),
    ensures
        expiry == instant_at(persistent_entries(*env), key_promo_expiry()),
{
    match load_instant(env, &DataKey::PromoExpiry.parts()) {
        Some(expiry) => expiry,
        None => 0,
    }
}

} // verus!
