//! The records the registry stores and the keys it stores them under.

use crate::host::{address_id, text_bytes, KeyParts};
use crate::model::{
    AuditView, EventView, PaymentView, StorageKey, FAMILY_ADMIN, FAMILY_BLACKLISTED_ORGANIZER,
    FAMILY_BLACKLIST_LOG, FAMILY_EVENT, FAMILY_GLOBAL_PROMO_BPS, FAMILY_INITIALIZED,
    FAMILY_ORGANIZER_EVENT, FAMILY_ORGANIZER_EVENT_COUNT, FAMILY_ORGANIZER_EVENT_SHARD,
    FAMILY_PLATFORM_FEE, FAMILY_PLATFORM_WALLET, FAMILY_PROMO_EXPIRY,
    FAMILY_TICKET_PAYMENT_CONTRACT,
};
use soroban_sdk::Address;
use vstd::prelude::*;

verus! {

/// Represents information about an event in the registry.
#[derive(Clone, Debug, Eq, PartialEq)]
pub struct EventInfo {
    /// Unique identifier for the event
    pub event_id: soroban_sdk::String,
    /// The wallet address of the event organizer
    pub organizer_address: Address,
    /// The address where payments for this event should be routed
    pub payment_address: Address,
    /// The fee taken by the platform, in basis points
    pub platform_fee_percent: u32,
    /// Whether the event is currently active and accepting payments
    pub is_active: bool,
    /// Timestamp when the event was created
    pub created_at: u64,
}

impl View for EventInfo {
    type V = EventView;

    open spec fn view(&self) -> EventView {
        EventView {
            event_id: text_bytes(self.event_id),
            organizer: address_id(self.organizer_address),
            payout: address_id(self.payment_address),
            fee_bps: self.platform_fee_percent,
            active: self.is_active,
            created_at: self.created_at,
        }
    }
}

/// Payment information for an event
#[derive(Clone, Debug, Eq, PartialEq)]
pub struct PaymentInfo {
    /// The address where payments for this event should be routed
    pub payment_address: Address,
    /// The fee taken by the platform, in basis points
    pub platform_fee_percent: u32,
}

impl View for PaymentInfo {
    type V = PaymentView;

    open spec fn view(&self) -> PaymentView {
        PaymentView {
            payout: address_id(self.payment_address),
            fee_bps: self.platform_fee_percent,
        }
    }
}

/// One line of the blacklist audit trail: who was put on the blacklist or
/// taken off it, by whom, when and why.
#[derive(Clone, Debug, Eq, PartialEq)]
pub struct BlacklistAuditEntry {
    /// The organizer the action was about
    pub organizer: Address,
    /// True where the organizer was added, false where removed
    pub added: bool,
    /// The principal that acted
    pub actor: Address,
    /// Ledger time of the action, in seconds
    pub timestamp: u64,
    /// The reason given
    pub reason: soroban_sdk::String,
}

impl View for BlacklistAuditEntry {
    type V = AuditView;

    open spec fn view(&self) -> AuditView {
        AuditView {
            organizer: address_id(self.organizer),
            added: self.added,
            actor: address_id(self.actor),
            timestamp: self.timestamp,
            reason: text_bytes(self.reason),
        }
    }
}

/// Storage keys for the Event Registry contract.
pub enum DataKey {
    /// The administrator address for contract management
    Admin,
    /// The global platform fee
    PlatformFee,
    /// Whether the contract has been initialized
    Initialized,
    /// The wallet of the platform
    PlatformWallet,
    /// Mapping of event_id to EventInfo
    Event(soroban_sdk::String),
    /// Number of events of an organizer
    OrganizerEventCount(Address),
    /// One shard of the list of an organizer's event_ids
    OrganizerEventShard(Address, u32),
    /// Witness that an event is in an organizer's list
    OrganizerEvent(Address, soroban_sdk::String),
    /// The authorized TicketPayment contract
    TicketPaymentContract,
    /// Whether an organizer is blacklisted
    BlacklistedOrganizer(Address),
    /// The blacklist audit trail
    BlacklistLog,
    /// The global promotional discount
    GlobalPromoBps,
    /// When the global promotional discount ends
    PromoExpiry,
}

impl View for DataKey {
    type V = StorageKey;

    /// The encoding of a key: the tag of its variant, then its fields.
    open spec fn view(&self) -> StorageKey {
        match *self {
            DataKey::Admin => StorageKey { family: FAMILY_ADMIN, who: None, text: None, index: None },
            DataKey::PlatformFee => StorageKey {
                family: FAMILY_PLATFORM_FEE,
                who: None,
                text: None,
                index: None,
            },
            DataKey::Initialized => StorageKey {
                family: FAMILY_INITIALIZED,
                who: None,
                text: None,
                index: None,
            },
            DataKey::PlatformWallet => StorageKey {
                family: FAMILY_PLATFORM_WALLET,
                who: None,
                text: None,
                index: None,
            },
            DataKey::Event(id) => StorageKey {
                family: FAMILY_EVENT,
                who: None,
                text: Some(text_bytes(id)),
                index: None,
            },
            DataKey::OrganizerEventCount(o) => StorageKey {
                family: FAMILY_ORGANIZER_EVENT_COUNT,
                who: Some(address_id(o)),
                text: None,
                index: None,
            },
            DataKey::OrganizerEventShard(o, shard_id) => StorageKey {
                family: FAMILY_ORGANIZER_EVENT_SHARD,
                who: Some(address_id(o)),
                text: None,
                index: Some(shard_id),
            },
            DataKey::OrganizerEvent(o, id) => StorageKey {
                family: FAMILY_ORGANIZER_EVENT,
                who: Some(address_id(o)),
                text: Some(text_bytes(id)),
                index: None,
            },
            DataKey::TicketPaymentContract => StorageKey {
                family: FAMILY_TICKET_PAYMENT_CONTRACT,
                who: None,
                text: None,
                index: None,
            },
            DataKey::BlacklistedOrganizer(o) => StorageKey {
                family: FAMILY_BLACKLISTED_ORGANIZER,
                who: Some(address_id(o)),
                text: None,
                index: None,
            },
            DataKey::BlacklistLog => StorageKey {
                family: FAMILY_BLACKLIST_LOG,
                who: None,
                text: None,
                index: None,
            },
            DataKey::GlobalPromoBps => StorageKey {
                family: FAMILY_GLOBAL_PROMO_BPS,
                who: None,
                text: None,
                index: None,
            },
            DataKey::PromoExpiry => StorageKey {
                family: FAMILY_PROMO_EXPIRY,
                who: None,
                text: None,
                index: None,
            },
        }
    }
}

impl DataKey {
    /// Takes the key apart into what the host is handed.
    pub fn parts(&self) -> (p: KeyParts<'_>)
        ensures
            p@ == self@,
    {
        match self {
            DataKey::Admin => KeyParts { family: FAMILY_ADMIN, who: None, text: None, index: None },
            DataKey::PlatformFee => KeyParts {
                family: FAMILY_PLATFORM_FEE,
                who: None,
                text: None,
                index: None,
            },
            DataKey::Initialized => KeyParts {
                family: FAMILY_INITIALIZED,
                who: None,
                text: None,
                index: None,
            },
            DataKey::PlatformWallet => KeyParts {
                family: FAMILY_PLATFORM_WALLET,
                who: None,
                text: None,
                index: None,
            },
            DataKey::Event(id) => KeyParts {
                family: FAMILY_EVENT,
                who: None,
                text: Some(id),
                index: None,
            },
            DataKey::OrganizerEventCount(o) => KeyParts {
                family: FAMILY_ORGANIZER_EVENT_COUNT,
                who: Some(o),
                text: None,
                index: None,
            },
            DataKey::OrganizerEventShard(o, shard_id) => KeyParts {
                family: FAMILY_ORGANIZER_EVENT_SHARD,
                who: Some(o),
                text: None,
                index: Some(*shard_id),
            },
            DataKey::OrganizerEvent(o, id) => KeyParts {
                family: FAMILY_ORGANIZER_EVENT,
                who: Some(o),
                text: Some(id),
                index: None,
            },
            DataKey::TicketPaymentContract => KeyParts {
                family: FAMILY_TICKET_PAYMENT_CONTRACT,
                who: None,
                text: None,
                index: None,
            },
            DataKey::BlacklistedOrganizer(o) => KeyParts {
                family: FAMILY_BLACKLISTED_ORGANIZER,
                who: Some(o),
                text: None,
                index: None,
            },
            DataKey::BlacklistLog => KeyParts {
                family: FAMILY_BLACKLIST_LOG,
                who: None,
                text: None,
                index: None,
            },
            DataKey::GlobalPromoBps => KeyParts {
                family: FAMILY_GLOBAL_PROMO_BPS,
                who: None,
                text: None,
                index: None,
            },
            DataKey::PromoExpiry => KeyParts {
                family: FAMILY_PROMO_EXPIRY,
                who: None,
                text: None,
                index: None,
            },
        }
    }
}

} // verus!
