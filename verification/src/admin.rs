//! The auxiliary ledgers: the blacklist with its audit trail, the global
//! promotional discount, and the pointer to the payment component. Each is
//! written only on the administrator's proven identity; reading is free.
//!
//! The registry stores these values and does not interpret them.

use crate::consistency::consistent;
use crate::host::{
    address_id, audit_views, ledger, ledger_now, persistent_entries, text_bytes, vouched,
};
use crate::laws::{law_blacklist_keeps_consistent, law_setting_keeps_consistent};
use crate::model::{
    admin_of, audit_log_of, flag_at, instant_at, key_blacklist_log, key_blacklisted,
    key_global_promo_bps, key_promo_expiry, key_ticket_payment_contract, number_at, principal_at,
    AuditView, LedgerState, StorageKey, Stored,
};
use crate::registry::{EventRegistry, RegistryError};
use crate::storage;
use crate::storage::{id_of, ready, with_entry};
use crate::types::BlacklistAuditEntry;
use soroban_sdk::{Address, Env};
use vstd::prelude::*;

verus! {

/// What a setter of the administrator's answers and leaves behind, given
/// whether the administrator has proven its identity.
pub open spec fn setting_outcome(s: LedgerState, key: StorageKey, value: Stored, identity_proven: bool) -> (
    Result<(), RegistryError>,
    LedgerState,
) {
    if admin_of(s.entries) is None {
        (Err(RegistryError::NotInitialized), s)
    } else if !identity_proven {
        (Err(RegistryError::Unauthorized), s)
    } else {
        (Ok(()), with_entry(s, key, value))
    }
}

/// The entries after an organizer was put on the blacklist or taken off it,
/// and the action was added to the audit trail.
pub open spec fn with_blacklist_action(entries: Map<StorageKey, Stored>, line: AuditView) -> Map<
    StorageKey,
    Stored,
> {
    let listed = if line.added {
        entries.insert(key_blacklisted(line.organizer), Stored::Flag(true))
    } else {
        entries.remove(key_blacklisted(line.organizer))
    };
    listed.insert(key_blacklist_log(), Stored::Audit(audit_log_of(entries).push(line)))
}

/// What `add_to_blacklist` (`added`) and `remove_from_blacklist` (not
/// `added`) answer and leave behind, given whether the administrator has
/// proven its identity and what time it is. The administrator is the actor
/// of the audit line.
pub open spec fn blacklist_outcome(
    s: LedgerState,
    organizer: Seq<u8>,
    added: bool,
    reason: Seq<u8>,
    identity_proven: bool,
    now: u64,
) -> (Result<(), RegistryError>, LedgerState) {
    match admin_of(s.entries) {
        None => (Err(RegistryError::NotInitialized), s),
        Some(admin) => if !identity_proven {
            (Err(RegistryError::Unauthorized), s)
        } else {
            (
                Ok(()),
                LedgerState {
                    entries: with_blacklist_action(
                        s.entries,
                        AuditView { organizer, added, actor: admin, timestamp: now, reason },
                    ),
                    ..s
                },
            )
        },
    }
}

impl EventRegistry {
    /// Puts an organizer on the blacklist (`added`) or takes it off, and
    /// adds the action to the audit trail, given whether the administrator
    /// has proven its identity and what time it is.
    pub fn change_blacklist_with(
        env: &mut Env,
        organizer: Address,
        added: bool,
        reason: soroban_sdk::String,
        identity_proven: bool,
        now: u64,
    ) -> (r: Result<(), RegistryError>)
        requires
            ready(*old(env)),
        ensures
            (r, ledger(*final(env))) == blacklist_outcome(
                ledger(*old(env)),
                address_id(organizer),
                added,
                text_bytes(reason),
                identity_proven,
                now,
            ),
            ready(*final(env)),
            consistent(persistent_entries(*old(env))) ==> consistent(persistent_entries(*final(env))),
    {
        proof {
            if consistent(persistent_entries(*env)) {
                law_blacklist_keeps_consistent(
                    ledger(*env),
                    address_id(organizer),
                    added,
                    text_bytes(reason),
                    identity_proven,
                    now,
                );
            }
        }
        match storage::get_admin(env) {
            Some(admin) => {
                if !identity_proven {
                    return Err(RegistryError::Unauthorized);
                }
                let ghost before = persistent_entries(*env);
                if added {
                    storage::add_to_blacklist(env, &organizer);
                } else {
                    storage::remove_from_blacklist(env, &organizer);
                }
                assert(audit_log_of(persistent_entries(*env)) == audit_log_of(before));
                storage::add_blacklist_audit_entry(
                    env,
                    BlacklistAuditEntry { organizer, added, actor: admin, timestamp: now, reason },
                );
                Ok(())
            },
            None => Err(RegistryError::NotInitialized),
        }
    }

    /// Puts an organizer on the blacklist and adds the action to the audit
    /// trail. Only callable by the administrator.
    ///
    /// The administrator's identity and the time are the host's to say: the
    /// outcome is that of `change_blacklist_with` for what the host
    /// answered. It succeeds only where the host vouches for the
    /// administrator, and a refusal leaves the ledger as it was.
    pub fn add_to_blacklist(env: &mut Env, organizer: Address, reason: soroban_sdk::String) -> (r: Result<
        (),
        RegistryError,
    >)
        requires
            ready(*old(env)),
        ensures
            exists|identity_proven: bool, now: u64|
                (r, ledger(*final(env))) == #[trigger] blacklist_outcome(
                    ledger(*old(env)),
                    address_id(organizer),
                    true,
                    text_bytes(reason),
                    identity_proven,
                    now,
                ),
            r is Ok ==> vouched(*old(env), admin_of(persistent_entries(*old(env))).unwrap()),
            r is Err ==> ledger(*final(env)) == ledger(*old(env)),
            r == Err::<(), RegistryError>(RegistryError::NotInitialized) <==> admin_of(
                persistent_entries(*old(env)),
            ) is None,
            ready(*final(env)),
            consistent(persistent_entries(*old(env))) ==> consistent(persistent_entries(*final(env))),
    {
        let proven = Self::administrator_proven(env);
        let now = ledger_now(env);
        Self::change_blacklist_with(env, organizer, true, reason, proven, now)
    }

    /// Takes an organizer off the blacklist and adds the action to the audit
    /// trail. Only callable by the administrator.
    ///
    /// The administrator's identity and the time are the host's to say: the
    /// outcome is that of `change_blacklist_with` for what the host
    /// answered. It succeeds only where the host vouches for the
    /// administrator, and a refusal leaves the ledger as it was.
    pub fn remove_from_blacklist(env: &mut Env, organizer: Address, reason: soroban_sdk::String) -> (r:
        Result<(), RegistryError>)
        requires
            ready(*old(env)),
        ensures
            exists|identity_proven: bool, now: u64|
                (r, ledger(*final(env))) == #[trigger] blacklist_outcome(
                    ledger(*old(env)),
                    address_id(organizer),
                    false,
                    text_bytes(reason),
                    identity_proven,
                    now,
                ),
            r is Ok ==> vouched(*old(env), admin_of(persistent_entries(*old(env))).unwrap()),
            r is Err ==> ledger(*final(env)) == ledger(*old(env)),
            r == Err::<(), RegistryError>(RegistryError::NotInitialized) <==> admin_of(
                persistent_entries(*old(env)),
            ) is None,
            ready(*final(env)),
            consistent(persistent_entries(*old(env))) ==> consistent(persistent_entries(*final(env))),
    {
        let proven = Self::administrator_proven(env);
        let now = ledger_now(env);
        Self::change_blacklist_with(env, organizer, false, reason, proven, now)
    }

    /// Checks if an organizer is blacklisted.
    pub fn is_blacklisted(env: &Env, organizer: Address) -> (listed: bool)
        requires
            ready(*env),
        ensures
            listed == flag_at(persistent_entries(*env), key_blacklisted(address_id(organizer))),
    {
        storage::is_blacklisted(env, &organizer)
    }

    /// Retrieves the blacklist audit trail, oldest action first.
    pub fn get_blacklist_audit_log(env: &Env) -> (log: Vec<BlacklistAuditEntry>)
        requires
            ready(*env),
        ensures
            audit_views(log@) == audit_log_of(persistent_entries(*env)),
    {
        storage::get_blacklist_audit_log(env)
    }

    /// Sets the global promotional discount, given whether the administrator
    /// has proven its identity.
    pub fn set_global_promo_bps_with(env: &mut Env, bps: u32, identity_proven: bool) -> (r: Result<
        (),
        RegistryError,
    >)
        requires
            ready(*old(env)),
        ensures
            (r, ledger(*final(env))) == setting_outcome(
                ledger(*old(env)),
                key_global_promo_bps(),
                Stored::Number(bps),
                identity_proven,
            ),
            ready(*final(env)),
            consistent(persistent_entries(*old(env))) ==> consistent(persistent_entries(*final(env))),
    {
        proof {
            if consistent(persistent_entries(*env)) {
                law_setting_keeps_consistent(
                    ledger(*env),
                    key_global_promo_bps(),
                    Stored::Number(bps),
                    identity_proven,
                );
            }
        }
        if storage::get_admin(env).is_none() {
            return Err(RegistryError::NotInitialized);
        }
        if !identity_proven {
            return Err(RegistryError::Unauthorized);
        }
        storage::set_global_promo_bps(env, bps);
        Ok(())
    }

    /// Sets the global promotional discount in basis points. Only callable by
    /// the administrator.
    ///
    /// The administrator's identity is the host's to say: the outcome is that
    /// of `set_global_promo_bps_with` for what the host answered. It succeeds
    /// only where the host vouches for the administrator, and a refusal
    /// leaves the ledger as it was.
    pub fn set_global_promo_bps(env: &mut Env, bps: u32) -> (r: Result<(), RegistryError>)
        requires
            ready(*old(env)),
        ensures
            exists|identity_proven: bool|
                (r, ledger(*final(env))) == #[trigger] setting_outcome(
                    ledger(*old(env)),
                    key_global_promo_bps(),
                    Stored::Number(bps),
                    identity_proven,
                ),
            r is Ok ==> vouched(*old(env), admin_of(persistent_entries(*old(env))).unwrap()),
            r is Err ==> ledger(*final(env)) == ledger(*old(env)),
            r == Err::<(), RegistryError>(RegistryError::NotInitialized) <==> admin_of(
                persistent_entries(*old(env)),
            ) is None,
            ready(*final(env)),
            consistent(persistent_entries(*old(env))) ==> consistent(persistent_entries(*final(env))),
    {
        let proven = Self::administrator_proven(env);
        Self::set_global_promo_bps_with(env, bps, proven)
    }

    /// Retrieves the global promotional discount in basis points: 0 while
    /// none has been set.
    pub fn get_global_promo_bps(env: &Env) -> (bps: u32)
        requires
            ready(*env),
        ensures
            bps == number_at(persistent_entries(*env), key_global_promo_bps()),
    {
        storage::get_global_promo_bps(env)
    }

    /// Sets the end of the global promotional discount, given whether the
    /// administrator has proven its identity.
    pub fn set_promo_expiry_with(env: &mut Env, expiry: u64, identity_proven: bool) -> (r: Result<
        (),
        RegistryError,
    >)
        requires
            ready(*old(env)),
        ensures
            (r, ledger(*final(env))) == setting_outcome(
                ledger(*old(env)),
                key_promo_expiry(),
                Stored::Instant(expiry),
                identity_proven,
            ),
            ready(*final(env)),
            consistent(persistent_entries(*old(env))) ==> consistent(persistent_entries(*final(env))),
    {
        proof {
            if consistent(persistent_entries(*env)) {
                law_setting_keeps_consistent(
                    ledger(*env),
                    key_promo_expiry(),
                    Stored::Instant(expiry),
                    identity_proven,
                );
            }
        }
        if storage::get_admin(env).is_none() {
            return Err(RegistryError::NotInitialized);
        }
        if !identity_proven {
            return Err(RegistryError::Unauthorized);
        }
        storage::set_promo_expiry(env, expiry);
        Ok(())
    }

    /// Sets the expiry timestamp for the global promotional discount. Only
    /// callable by the administrator. The registry does not compare it with
    /// the ledger's clock: that is the reader's to do.
    ///
    /// The administrator's identity is the host's to say: the outcome is that
    /// of `set_promo_expiry_with` for what the host answered. It succeeds
    /// only where the host vouches for the administrator, and a refusal
    /// leaves the ledger as it was.
    pub fn set_promo_expiry(env: &mut Env, expiry: u64) -> (r: Result<(), RegistryError>)
        requires
            ready(*old(env)),
        ensures
            exists|identity_proven: bool|
                (r, ledger(*final(env))) == #[trigger] setting_outcome(
                    ledger(*old(env)),
                    key_promo_expiry(),
                    Stored::Instant(expiry),
                    identity_proven,
                ),
            r is Ok ==> vouched(*old(env), admin_of(persistent_entries(*old(env))).unwrap()),
            r is Err ==> ledger(*final(env)) == ledger(*old(env)),
            r == Err::<(), RegistryError>(RegistryError::NotInitialized) <==> admin_of(
                persistent_entries(*old(env)),
            ) is None,
            ready(*final(env)),
            consistent(persistent_entries(*old(env))) ==> consistent(persistent_entries(*final(env))),
    {
        let proven = Self::administrator_proven(env);
        Self::set_promo_expiry_with(env, expiry, proven)
    }

    /// Retrieves the expiry timestamp for the global promotional discount:
    /// 0 while none has been set.
    pub fn get_promo_expiry(env: &Env) -> (expiry: u64)
        requires
            ready(*env),
        ensures
            expiry == instant_at(persistent_entries(*env), key_promo_expiry()),
    {
        storage::get_promo_expiry(env)
    }

    /// Sets the payment component, given whether the administrator has proven
    /// its identity.
    pub fn set_ticket_payment_contract_with(
        env: &mut Env,
        address: Address,
        identity_proven: bool,
    ) -> (r: Result<(), RegistryError>)
        requires
            ready(*old(env)),
        ensures
            (r, ledger(*final(env))) == setting_outcome(
                ledger(*old(env)),
                key_ticket_payment_contract(),
                Stored::Principal(address_id(address)),
                identity_proven,
            ),
            ready(*final(env)),
            consistent(persistent_entries(*old(env))) ==> consistent(persistent_entries(*final(env))),
    {
        proof {
            if consistent(persistent_entries(*env)) {
                law_setting_keeps_consistent(
                    ledger(*env),
                    key_ticket_payment_contract(),
                    Stored::Principal(address_id(address)),
                    identity_proven,
                );
            }
        }
        if storage::get_admin(env).is_none() {
            return Err(RegistryError::NotInitialized);
        }
        if !identity_proven {
            return Err(RegistryError::Unauthorized);
        }
        storage::set_ticket_payment_contract(env, &address);
        Ok(())
    }

    /// Sets the authorized TicketPayment contract address. Only callable by
    /// the administrator. The registry calls nothing at that address: it
    /// tells clients where the payment component is.
    ///
    /// The administrator's identity is the host's to say: the outcome is that
    /// of `set_ticket_payment_contract_with` for what the host answered. It
    /// succeeds only where the host vouches for the administrator, and a
    /// refusal leaves the ledger as it was.
    pub fn set_ticket_payment_contract(env: &mut Env, address: Address) -> (r: Result<(), RegistryError>)
        requires
            ready(*old(env)),
        ensures
            exists|identity_proven: bool|
                (r, ledger(*final(env))) == #[trigger] setting_outcome(
                    ledger(*old(env)),
                    key_ticket_payment_contract(),
                    Stored::Principal(address_id(address)),
                    identity_proven,
                ),
            r is Ok ==> vouched(*old(env), admin_of(persistent_entries(*old(env))).unwrap()),
            r is Err ==> ledger(*final(env)) == ledger(*old(env)),
            r == Err::<(), RegistryError>(RegistryError::NotInitialized) <==> admin_of(
                persistent_entries(*old(env)),
            ) is None,
            ready(*final(env)),
            consistent(persistent_entries(*old(env))) ==> consistent(persistent_entries(*final(env))),
    {
        let proven = Self::administrator_proven(env);
        Self::set_ticket_payment_contract_with(env, address, proven)
    }

    /// Retrieves the authorized TicketPayment contract address.
    pub fn get_ticket_payment_contract(env: &Env) -> (address: Option<Address>)
        requires
            ready(*env),
        ensures
            id_of(address) == principal_at(persistent_entries(*env), key_ticket_payment_contract()),
    {
        storage::get_ticket_payment_contract(env)
    }
}

} // verus!
