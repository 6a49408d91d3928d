//! The operations of the registry. Each is one transaction: it checks its
//! preconditions first and changes nothing where one fails.
//!
//! Two things are the host's to decide: whether a principal has proven its
//! identity, and what time it is. An operation that needs either finds the
//! principal it answers to, asks the host, and hands the answer to a function
//! that takes it as an argument, makes every decision of the operation, and
//! has an exact contract. The operation itself states what holds whatever the
//! host answered, and that it succeeds only where the host vouches for the
//! principal.

use crate::consistency::consistent;
use crate::host::{
    address_id, identity_proven, is_symbol, ledger, ledger_now, list_items, only_texts,
    persistent_entries, publish_fee_update, publish_registration, text_bytes, vouched,
};
use crate::laws::{
    law_fee_keeps_consistent, law_initialize_keeps_consistent, law_registration_keeps_consistent,
    law_status_keeps_consistent, law_store_keeps_consistent,
};
use crate::model::{
    admin_of, event_at, key_admin, key_event, key_platform_fee, organizer_events,
    platform_fee_of, EventView, LedgerState, Notice, PaymentView, StorageKey, Stored,
    MAX_FEE_BPS,
};
use crate::storage;
use crate::storage::{index_full, ready, view_of, with_entry, with_event_stored};
use crate::types::{EventInfo, PaymentInfo};
use soroban_sdk::{Address, Env};
use vstd::prelude::*;

verus! {

/// Why an operation was refused.
#[derive(Clone, Copy, Debug, PartialEq, Eq, Structural)]
pub enum RegistryError {
    /// `initialize` was called on a registry that holds an administrator or a fee.
    AlreadyInitialized,
    /// An operation that needs the administrator was called before `initialize`.
    NotInitialized,
    /// A fee above 10000 basis points.
    FeeOutOfRange,
    /// The event id is already bound.
    EventAlreadyExists,
    /// The event id is not bound.
    EventNotFound,
    /// The principal that the operation answers to has not proven its identity.
    Unauthorized,
    /// The organizer's index holds as many events as its count can tell.
    IndexFull,
}

impl RegistryError {
    /// The text that an invocation stops with on this error.
    pub open spec fn message_text(self) -> Seq<char> {
        match self {
            RegistryError::AlreadyInitialized => "already initialized"@,
            RegistryError::NotInitialized => "Contract not initialized"@,
            RegistryError::FeeOutOfRange => "Fee percent must be between 0 and 10000 (100%)"@,
            RegistryError::EventAlreadyExists => "Event already exists"@,
            RegistryError::EventNotFound => "Event not found"@,
            RegistryError::Unauthorized => "Unauthorized"@,
            RegistryError::IndexFull => "Organizer index is full"@,
        }
    }

    /// The text that an invocation stops with on this error.
    pub fn message(&self) -> (text: &'static str)
        ensures
            text@ == self.message_text(),
    {
        match self {
            RegistryError::AlreadyInitialized => "already initialized",
            RegistryError::NotInitialized => "Contract not initialized",
            RegistryError::FeeOutOfRange => "Fee percent must be between 0 and 10000 (100%)",
            RegistryError::EventAlreadyExists => "Event already exists",
            RegistryError::EventNotFound => "Event not found",
            RegistryError::Unauthorized => "Unauthorized",
            RegistryError::IndexFull => "Organizer index is full",
        }
    }
}

/// The topic under which a registration is published.
pub open spec fn topic_registered() -> Seq<char> {
    "event_reg"@
}

/// The topic under which a change of the platform fee is published.
pub open spec fn topic_fee_updated() -> Seq<char> {
    "fee_upd"@
}

/// The registry is initialized: it has an administrator and a platform fee.
pub open spec fn initialized(s: LedgerState) -> bool {
    s.entries.contains_key(key_admin()) && s.entries.contains_key(key_platform_fee())
}

/// What `initialize` answers and leaves behind.
pub open spec fn initialize_outcome(s: LedgerState, admin: Seq<u8>, fee_bps: u32) -> (
    Result<(), RegistryError>,
    LedgerState,
) {
    if s.entries.contains_key(key_admin()) || s.entries.contains_key(key_platform_fee()) {
        (Err(RegistryError::AlreadyInitialized), s)
    } else if fee_bps > MAX_FEE_BPS {
        (Err(RegistryError::FeeOutOfRange), s)
    } else {
        (
            Ok(()),
            with_entry(
                with_entry(s, key_admin(), Stored::Principal(admin)),
                key_platform_fee(),
                Stored::Number(fee_bps),
            ),
        )
    }
}

/// The record that a registration creates: the fee is the platform fee of
/// the moment, the event is active, and it was created now.
pub open spec fn new_record(
    s: LedgerState,
    event_id: Seq<u8>,
    organizer: Seq<u8>,
    payout: Seq<u8>,
    now: u64,
) -> EventView {
    EventView {
        event_id,
        organizer,
        payout,
        fee_bps: platform_fee_of(s.entries),
        active: true,
        created_at: now,
    }
}

/// What `register_event` answers and leaves behind, given whether the
/// organizer has proven its identity and what time it is.
pub open spec fn registration_outcome(
    s: LedgerState,
    event_id: Seq<u8>,
    organizer: Seq<u8>,
    payout: Seq<u8>,
    identity_proven: bool,
    now: u64,
) -> (Result<(), RegistryError>, LedgerState) {
    if !identity_proven {
        (Err(RegistryError::Unauthorized), s)
    } else if event_at(s.entries, event_id) is Some {
        (Err(RegistryError::EventAlreadyExists), s)
    } else if index_full(s.entries, new_record(s, event_id, organizer, payout, now)) {
        (Err(RegistryError::IndexFull), s)
    } else {
        (
            Ok(()),
            LedgerState {
                entries: with_event_stored(s.entries, new_record(s, event_id, organizer, payout, now)),
                notices: s.notices.push(
                    Notice::EventRegistered {
                        topic: topic_registered(),
                        event_id,
                        organizer,
                        payout,
                        fee_bps: platform_fee_of(s.entries),
                    },
                ),
                ..s
            },
        )
    }
}

/// What `get_event_payment_info` answers.
pub open spec fn payment_info_of(s: LedgerState, event_id: Seq<u8>) -> Result<
    PaymentView,
    RegistryError,
> {
    match event_at(s.entries, event_id) {
        Some(record) => Ok(PaymentView { payout: record.payout, fee_bps: record.fee_bps }),
        None => Err(RegistryError::EventNotFound),
    }
}

/// What `update_event_status` answers and leaves behind, given whether the
/// organizer of the record has proven its identity. The record is written
/// back with the new status; the index is not touched.
pub open spec fn status_outcome(
    s: LedgerState,
    event_id: Seq<u8>,
    active: bool,
    identity_proven: bool,
) -> (Result<(), RegistryError>, LedgerState) {
    match event_at(s.entries, event_id) {
        None => (Err(RegistryError::EventNotFound), s),
        Some(record) => if !identity_proven {
            (Err(RegistryError::Unauthorized), s)
        } else {
            (
                Ok(()),
                with_entry(s, key_event(event_id), Stored::Event(EventView { active, ..record })),
            )
        },
    }
}

/// What `set_platform_fee` answers and leaves behind, given whether the
/// administrator has proven its identity.
pub open spec fn fee_outcome(s: LedgerState, fee_bps: u32, identity_proven: bool) -> (
    Result<(), RegistryError>,
    LedgerState,
) {
    if admin_of(s.entries) is None {
        (Err(RegistryError::NotInitialized), s)
    } else if !identity_proven {
        (Err(RegistryError::Unauthorized), s)
    } else if fee_bps > MAX_FEE_BPS {
        (Err(RegistryError::FeeOutOfRange), s)
    } else {
        (
            Ok(()),
            LedgerState {
                entries: s.entries.insert(key_platform_fee(), Stored::Number(fee_bps)),
                notices: s.notices.push(Notice::FeeUpdated { topic: topic_fee_updated(), fee_bps }),
                ..s
            },
        )
    }
}

/// What `store_event` answers and leaves behind: a record with a fee above
/// 100% is refused, and so is one that the index of its organizer has no
/// room for; any other record is stored.
pub open spec fn store_outcome(s: LedgerState, record: EventView) -> (
    Result<(), RegistryError>,
    LedgerState,
) {
    if record.fee_bps > MAX_FEE_BPS {
        (Err(RegistryError::FeeOutOfRange), s)
    } else if index_full(s.entries, record) {
        (Err(RegistryError::IndexFull), s)
    } else {
        (Ok(()), LedgerState { entries: with_event_stored(s.entries, record), ..s })
    }
}

/// Storing the record leaves its event with the organizer it has: the
/// event is new, or its record names the same organizer.
pub open spec fn keeps_organizer(entries: Map<StorageKey, Stored>, record: EventView) -> bool {
    event_at(entries, record.event_id) is Some ==> event_at(
        entries,
        record.event_id,
    ).unwrap().organizer == record.organizer
}

/// The view of a payment answer.
pub open spec fn payment_view_of(r: Result<PaymentInfo, RegistryError>) -> Result<
    PaymentView,
    RegistryError,
> {
    match r {
        Ok(info) => Ok(info@),
        Err(e) => Err(e),
    }
}

/// The identity of an address that came with an answer.
pub open spec fn id_of_answer(r: Result<Address, RegistryError>) -> Result<Seq<u8>, RegistryError> {
    match r {
        Ok(a) => Ok(address_id(a)),
        Err(e) => Err(e),
    }
}

/// Both topics can be made into host symbols.
proof fn lemma_topics_are_symbols()
    ensures
        is_symbol(topic_registered()),
        is_symbol(topic_fee_updated()),
{
    reveal_strlit("event_reg");
    reveal_strlit("fee_upd");
}

/// The Event Registry contract.
pub struct EventRegistry;

impl EventRegistry {
    /// Initializes the contract with an admin address and initial platform fee.
    /// No identity is asked for: to be the first to call is the capability.
    pub fn initialize(env: &mut Env, admin: Address, platform_fee_percent: u32) -> (r: Result<
        (),
        RegistryError,
    >)
        requires
            ready(*old(env)),
        ensures
            (r, ledger(*final(env))) == initialize_outcome(
                ledger(*old(env)),
                address_id(admin),
                platform_fee_percent,
            ),
            ready(*final(env)),
            consistent(persistent_entries(*old(env))) ==> consistent(persistent_entries(*final(env))),
    {
        proof {
            if consistent(persistent_entries(*env)) {
                law_initialize_keeps_consistent(ledger(*env), address_id(admin), platform_fee_percent);
            }
        }
        if storage::get_admin(env).is_some() || storage::has_platform_fee(env) {
            return Err(RegistryError::AlreadyInitialized);
        }
        if platform_fee_percent > MAX_FEE_BPS {
            return Err(RegistryError::FeeOutOfRange);
        }
        storage::set_admin(env, &admin);
        storage::set_platform_fee(env, platform_fee_percent);
        Ok(())
    }

    /// Register a new event with organizer authentication.
    ///
    /// The organizer's identity and the time are the host's to say: the
    /// outcome is that of `register_event_with` for what the host answered.
    /// It succeeds only where the host vouches for the organizer, and a
    /// refusal leaves the ledger as it was.
    pub fn register_event(
        env: &mut Env,
        event_id: soroban_sdk::String,
        organizer_address: Address,
        payment_address: Address,
    ) -> (r: Result<(), RegistryError>)
        requires
            ready(*old(env)),
        ensures
            exists|identity_proven: bool, now: u64|
                (r, ledger(*final(env))) == #[trigger] registration_outcome(
                    ledger(*old(env)),
                    text_bytes(event_id),
                    address_id(organizer_address),
                    address_id(payment_address),
                    identity_proven,
                    now,
                ),
            r is Ok ==> vouched(*old(env), address_id(organizer_address)),
            r is Err ==> ledger(*final(env)) == ledger(*old(env)),
            ready(*final(env)),
            consistent(persistent_entries(*old(env))) ==> consistent(persistent_entries(*final(env))),
    {
        let proven = identity_proven(env, &organizer_address);
        let now = ledger_now(env);
        Self::register_event_with(env, event_id, organizer_address, payment_address, proven, now)
    }

    /// Registers a new event, given whether the organizer has proven its
    /// identity and what time it is.
    pub fn register_event_with(
        env: &mut Env,
        event_id: soroban_sdk::String,
        organizer_address: Address,
        payment_address: Address,
        identity_proven: bool,
        now: u64,
    ) -> (r: Result<(), RegistryError>)
        requires
            ready(*old(env)),
        ensures
            (r, ledger(*final(env))) == registration_outcome(
                ledger(*old(env)),
                text_bytes(event_id),
                address_id(organizer_address),
                address_id(payment_address),
                identity_proven,
                now,
            ),
            ready(*final(env)),
            consistent(persistent_entries(*old(env))) ==> consistent(persistent_entries(*final(env))),
    {
        proof {
            if consistent(persistent_entries(*env)) {
                law_registration_keeps_consistent(
                    ledger(*env),
                    text_bytes(event_id),
                    address_id(organizer_address),
                    address_id(payment_address),
                    identity_proven,
                    now,
                );
            }
        }
        if !identity_proven {
            return Err(RegistryError::Unauthorized);
        }
        if storage::event_exists(env, event_id.clone()) {
            return Err(RegistryError::EventAlreadyExists);
        }
        let platform_fee_percent = storage::get_platform_fee(env);

        let event_info = EventInfo {
            event_id: event_id.clone(),
            organizer_address: organizer_address.clone(),
            payment_address: payment_address.clone(),
            platform_fee_percent,
            is_active: true,
            created_at: now,
        };

        if !storage::store_event(env, event_info) {
            return Err(RegistryError::IndexFull);
        }
        proof {
            lemma_topics_are_symbols();
        }
        publish_registration(
            env,
            "event_reg",
            &event_id,
            &organizer_address,
            &payment_address,
            platform_fee_percent,
        );
        Ok(())
    }

    /// Get event payment information.
    pub fn get_event_payment_info(env: &Env, event_id: soroban_sdk::String) -> (r: Result<
        PaymentInfo,
        RegistryError,
    >)
        requires
            ready(*env),
        ensures
            payment_view_of(r) == payment_info_of(ledger(*env), text_bytes(event_id)),
    {
        match storage::get_event(env, event_id) {
            Some(event_info) => Ok(
                PaymentInfo {
                    payment_address: event_info.payment_address,
                    platform_fee_percent: event_info.platform_fee_percent,
                },
            ),
            None => Err(RegistryError::EventNotFound),
        }
    }

    /// Update event status (only by organizer).
    ///
    /// The identity of the record's organizer is the host's to say: the
    /// outcome is that of `update_event_status_with` for what the host
    /// answered. It succeeds only where the host vouches for the organizer
    /// of the record, and a refusal leaves the ledger as it was.
    pub fn update_event_status(env: &mut Env, event_id: soroban_sdk::String, is_active: bool) -> (r:
        Result<(), RegistryError>)
        requires
            ready(*old(env)),
        ensures
            exists|identity_proven: bool|
                (r, ledger(*final(env))) == #[trigger] status_outcome(
                    ledger(*old(env)),
                    text_bytes(event_id),
                    is_active,
                    identity_proven,
                ),
            r is Ok ==> vouched(
                *old(env),
                event_at(persistent_entries(*old(env)), text_bytes(event_id)).unwrap().organizer,
            ),
            r is Err ==> ledger(*final(env)) == ledger(*old(env)),
            r == Err::<(), RegistryError>(RegistryError::EventNotFound) <==> event_at(
                persistent_entries(*old(env)),
                text_bytes(event_id),
            ) is None,
            ready(*final(env)),
            consistent(persistent_entries(*old(env))) ==> consistent(persistent_entries(*final(env))),
    {
        let proven = match storage::get_event(env, event_id.clone()) {
            Some(event_info) => identity_proven(env, &event_info.organizer_address),
            None => false,
        };
        Self::update_event_status_with(env, event_id, is_active, proven)
    }

    /// Updates the status of an event, given whether the organizer of its
    /// record has proven its identity.
    pub fn update_event_status_with(
        env: &mut Env,
        event_id: soroban_sdk::String,
        is_active: bool,
        identity_proven: bool,
    ) -> (r: Result<(), RegistryError>)
        requires
            ready(*old(env)),
        ensures
            (r, ledger(*final(env))) == status_outcome(
                ledger(*old(env)),
                text_bytes(event_id),
                is_active,
                identity_proven,
            ),
            ready(*final(env)),
            consistent(persistent_entries(*old(env))) ==> consistent(persistent_entries(*final(env))),
    {
        proof {
            if consistent(persistent_entries(*env)) {
                law_status_keeps_consistent(
                    ledger(*env),
                    text_bytes(event_id),
                    is_active,
                    identity_proven,
                );
            }
        }
        match storage::get_event(env, event_id) {
            Some(event_info) => {
                if !identity_proven {
                    return Err(RegistryError::Unauthorized);
                }
                assert(persistent_entries(*env).contains_key(key_event(text_bytes(event_id))));
                let mut event_info = event_info;
                event_info.is_active = is_active;
                storage::update_event(env, event_info);
                Ok(())
            },
            None => Err(RegistryError::EventNotFound),
        }
    }

    /// Stores or updates an event directly: no identity is asked for, and
    /// the fields are taken as they are given, but for the fee, which is at
    /// most 10000 basis points. Prefer `register_event`.
    pub fn store_event(env: &mut Env, event_info: EventInfo) -> (r: Result<(), RegistryError>)
        requires
            ready(*old(env)),
        ensures
            (r, ledger(*final(env))) == store_outcome(ledger(*old(env)), event_info@),
            ready(*final(env)),
            consistent(persistent_entries(*old(env))) && keeps_organizer(
                persistent_entries(*old(env)),
                event_info@,
            ) ==> consistent(persistent_entries(*final(env))),
    {
        proof {
            if consistent(persistent_entries(*env)) && keeps_organizer(
                persistent_entries(*env),
                event_info@,
            ) {
                law_store_keeps_consistent(ledger(*env), event_info@);
            }
        }
        if event_info.platform_fee_percent > MAX_FEE_BPS {
            return Err(RegistryError::FeeOutOfRange);
        }
        if storage::store_event(env, event_info) {
            Ok(())
        } else {
            Err(RegistryError::IndexFull)
        }
    }

    /// Retrieves an event by its ID.
    pub fn get_event(env: &Env, event_id: soroban_sdk::String) -> (event: Option<EventInfo>)
        requires
            ready(*env),
        ensures
            view_of(event) == event_at(persistent_entries(*env), text_bytes(event_id)),
    {
        storage::get_event(env, event_id)
    }

    /// Checks if an event exists.
    pub fn event_exists(env: &Env, event_id: soroban_sdk::String) -> (found: bool)
        requires
            ready(*env),
        ensures
            found == (event_at(persistent_entries(*env), text_bytes(event_id)) is Some),
    {
        storage::event_exists(env, event_id)
    }

    /// Retrieves all event IDs for an organizer.
    pub fn get_organizer_events(env: &Env, organizer: Address) -> (events: soroban_sdk::Vec<
        soroban_sdk::String,
    >)
        requires
            ready(*env),
        ensures
            list_items(events) == organizer_events(persistent_entries(*env), address_id(organizer)),
            only_texts(events),
    {
        storage::get_organizer_events(env, &organizer)
    }

    /// Updates the platform fee. Only callable by the administrator.
    ///
    /// The administrator's identity is the host's to say: the outcome is
    /// that of `set_platform_fee_with` for what the host answered. It
    /// succeeds only where the host vouches for the administrator, and a
    /// refusal leaves the ledger as it was.
    pub fn set_platform_fee(env: &mut Env, new_fee_percent: u32) -> (r: Result<(), RegistryError>)
        requires
            ready(*old(env)),
        ensures
            exists|identity_proven: bool|
                (r, ledger(*final(env))) == #[trigger] fee_outcome(
                    ledger(*old(env)),
                    new_fee_percent,
                    identity_proven,
                ),
            r is Ok ==> vouched(*old(env), admin_of(persistent_entries(*old(env))).unwrap()),
            r is Err ==> ledger(*final(env)) == ledger(*old(env)),
            r == Err::<(), RegistryError>(RegistryError::NotInitialized) <==> admin_of(
                persistent_entries(*old(env)),
            ) is None,
            ready(*final(env)),
            consistent(persistent_entries(*old(env))) ==> consistent(persistent_entries(*final(env))),
    {
        let proven = Self::administrator_proven(env);
        Self::set_platform_fee_with(env, new_fee_percent, proven)
    }

    /// Updates the platform fee, given whether the administrator has proven
    /// its identity.
    pub fn set_platform_fee_with(env: &mut Env, new_fee_percent: u32, identity_proven: bool) -> (r:
        Result<(), RegistryError>)
        requires
            ready(*old(env)),
        ensures
            (r, ledger(*final(env))) == fee_outcome(
                ledger(*old(env)),
                new_fee_percent,
                identity_proven,
            ),
            ready(*final(env)),
            consistent(persistent_entries(*old(env))) ==> consistent(persistent_entries(*final(env))),
    {
        proof {
            if consistent(persistent_entries(*env)) {
                law_fee_keeps_consistent(ledger(*env), new_fee_percent, identity_proven);
            }
        }
        if storage::get_admin(env).is_none() {
            return Err(RegistryError::NotInitialized);
        }
        if !identity_proven {
            return Err(RegistryError::Unauthorized);
        }
        if new_fee_percent > MAX_FEE_BPS {
            return Err(RegistryError::FeeOutOfRange);
        }
        storage::set_platform_fee(env, new_fee_percent);

        proof {
            lemma_topics_are_symbols();
        }
        publish_fee_update(env, "fee_upd", new_fee_percent);
        Ok(())
    }

    /// Asks the host whether the administrator has proven its identity.
    /// Without an administrator there is nobody to ask for, and no proof.
    pub(crate) fn administrator_proven(env: &Env) -> (proven: bool)
        requires
            ready(*env),
        ensures
            proven ==> admin_of(persistent_entries(*env)) is Some && vouched(
                *env,
                admin_of(persistent_entries(*env)).unwrap(),
            ),
    {
        match storage::get_admin(env) {
            Some(admin) => identity_proven(env, &admin),
            None => false,
        }
    }

    /// Returns the current platform fee.
    pub fn get_platform_fee(env: &Env) -> (fee: u32)
        requires
            ready(*env),
        ensures
            fee == platform_fee_of(persistent_entries(*env)),
    {
        storage::get_platform_fee(env)
    }

    /// Returns the current administrator address.
    pub fn get_admin(env: &Env) -> (r: Result<Address, RegistryError>)
        requires
            ready(*env),
        ensures
            id_of_answer(r) == match admin_of(persistent_entries(*env)) {
                Some(admin) => Ok::<Seq<u8>, RegistryError>(admin),
                None => Err::<Seq<u8>, RegistryError>(RegistryError::NotInitialized),
            },
    {
        match storage::get_admin(env) {
            Some(admin) => Ok(admin),
            None => Err(RegistryError::NotInitialized),
        }
    }
}

} // verus!
