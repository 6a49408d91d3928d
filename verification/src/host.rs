//! The boundary to the Soroban host.
//!
//! Nothing in this file is proved. It declares the host's types, gives names
//! to what its values hold, and wraps each host call the registry makes in a
//! function whose contract states, over the model of `crate::model`, what the
//! SDK's source shows of that call. Every proof in the other modules rests on
//! these contracts.
//!
//! On the ledger an entry's key is a vector of four values: the number of the
//! key's family, then the principal, the text and the number that single the
//! entry out, each void where the family has none. A value is stored as
//! itself (`Address`, `u32`, `u64`, `bool`), an event record as the vector of
//! its six fields, a list of ids as a vector of strings, and the audit trail
//! as a vector of one item, the vector of its lines of five fields each. No
//! two of these shapes can be taken for one another.
//!
//! Handles (`Address`, `String`, `Vec`) belong to the environment that made
//! them. Every function of this crate expects the handles it is given to come
//! from the environment it is given. A host call may also stop the invocation
//! for want of resources; the contracts say what holds when a call returns.

use crate::model::{AuditView, LedgerState, Notice, StorageKey, Stored};
use crate::types::{BlacklistAuditEntry, EventInfo};
use soroban_sdk::{Address, Env};
use vstd::prelude::*;

verus! {

#[verifier::external_type_specification]
#[verifier::external_body]
pub struct ExEnv(soroban_sdk::Env);

#[verifier::external_type_specification]
#[verifier::external_body]
pub struct ExAddress(soroban_sdk::Address);

#[verifier::external_type_specification]
#[verifier::external_body]
pub struct ExString(soroban_sdk::String);

#[verifier::external_type_specification]
#[verifier::external_body]
#[verifier::reject_recursive_types(T)]
pub struct ExVec<T>(soroban_sdk::Vec<T>);

/// The identity of the principal that an address denotes: equal for two
/// addresses exactly when the host takes them for the same account or contract.
pub uninterp spec fn address_id(a: Address) -> Seq<u8>;

/// The bytes that a host string holds.
pub uninterp spec fn text_bytes(s: soroban_sdk::String) -> Seq<u8>;

/// The bytes of the items that a host vector of strings holds, in order.
pub uninterp spec fn list_items(v: soroban_sdk::Vec<soroban_sdk::String>) -> Seq<Seq<u8>>;

/// Whether every item of a host vector of strings is indeed a string. The
/// host checks an item's type only when the item is read.
pub uninterp spec fn only_texts(v: soroban_sdk::Vec<soroban_sdk::String>) -> bool;

/// The persistent entries of the running contract, by key. An entry whose
/// value has none of the shapes that the registry writes is in the domain
/// with the value `Stored::Other`.
pub uninterp spec fn persistent_entries(env: Env) -> Map<StorageKey, Stored>;

/// The records that the running contract has published and that the host
/// still holds, oldest first.
pub uninterp spec fn published(env: Env) -> Seq<Notice>;

/// Whether the host vouches for a principal: the invocation that runs in the
/// environment carries a proof of the principal's identity that the host
/// has accepted.
pub uninterp spec fn vouched(env: Env, principal: Seq<u8>) -> bool;

/// Whether a contract is running in the environment. Outside a contract the
/// SDK refuses to hand out storage.
pub uninterp spec fn in_contract(env: Env) -> bool;

/// The state of the ledger behind an environment.
pub open spec fn ledger(env: Env) -> LedgerState {
    LedgerState {
        entries: persistent_entries(env),
        notices: published(env),
        running: in_contract(env),
    }
}

/// A storage key taken apart: what is handed to the host as the key of an
/// entry. The host compares keys by value, so two keys name the same entry
/// exactly when their views are equal.
pub struct KeyParts<'a> {
    pub family: u32,
    pub who: Option<&'a Address>,
    pub text: Option<&'a soroban_sdk::String>,
    pub index: Option<u32>,
}

impl<'a> View for KeyParts<'a> {
    type V = StorageKey;

    open spec fn view(&self) -> StorageKey {
        StorageKey {
            family: self.family,
            who: match self.who {
                Some(a) => Some(address_id(*a)),
                None => None,
            },
            text: match self.text {
                Some(s) => Some(text_bytes(*s)),
                None => None,
            },
            index: self.index,
        }
    }
}

/// Whether `c` may stand in a host symbol.
pub open spec fn is_symbol_char(c: char) -> bool {
    ('a' <= c && c <= 'z') || ('A' <= c && c <= 'Z') || ('0' <= c && c <= '9') || c == '_'
}

/// Whether `s` can be made into a host symbol: at most 32 characters, each a
/// letter, a digit or an underscore.
pub open spec fn is_symbol(s: Seq<char>) -> bool {
    &&& s.len() <= 32
    &&& forall|i: int| 0 <= i < s.len() ==> is_symbol_char(#[trigger] s[i])
}

/// The views of the lines of an audit trail.
pub open spec fn audit_views(log: Seq<BlacklistAuditEntry>) -> Seq<AuditView> {
    Seq::new(log.len(), |i: int| log[i]@)
}

/// `Clone::clone` of `soroban_sdk::Address` copies the handle: the copy
/// denotes the same principal.
pub assume_specification[ <soroban_sdk::Address as Clone>::clone ](
    a: &soroban_sdk::Address,
) -> (r: soroban_sdk::Address)
    ensures
        address_id(r) == address_id(*a),
;

/// `Clone::clone` of `soroban_sdk::String` copies the handle: the copy holds
/// the same bytes.
pub assume_specification[ <soroban_sdk::String as Clone>::clone ](
    s: &soroban_sdk::String,
) -> (r: soroban_sdk::String)
    ensures
        text_bytes(r) == text_bytes(*s),
;

/// `soroban_sdk::Vec::new`: a host vector without items.
#[verifier::external_body]
pub(crate) fn new_list(env: &Env) -> (v: soroban_sdk::Vec<soroban_sdk::String>)
    ensures
        list_items(v) == Seq::<Seq<u8>>::empty(),
        only_texts(v),
{
    soroban_sdk::Vec::new(env)
}

/// `soroban_sdk::Vec::push_back`: the item is added behind the last one.
#[verifier::external_body]
pub(crate) fn list_push(v: &mut soroban_sdk::Vec<soroban_sdk::String>, item: soroban_sdk::String)
    ensures
        list_items(*final(v)) == list_items(*old(v)).push(text_bytes(item)),
        only_texts(*old(v)) ==> only_texts(*final(v)),
{
    v.push_back(item)
}

/// `soroban_sdk::Vec::append`: the items of `other` are added, in their
/// order, behind the last one.
#[verifier::external_body]
pub(crate) fn list_append(
    v: &mut soroban_sdk::Vec<soroban_sdk::String>,
    other: &soroban_sdk::Vec<soroban_sdk::String>,
)
    ensures
        list_items(*final(v)) == list_items(*old(v)) + list_items(*other),
        only_texts(*old(v)) && only_texts(*other) ==> only_texts(*final(v)),
{
    v.append(other)
}

/// `Env::in_contract` of the SDK: whether a contract is running.
#[verifier::external_body]
pub(crate) fn contract_running(env: &Env) -> (running: bool)
    ensures
        running == in_contract(*env),
{
    env.in_contract()
}

/// `Persistent::has` of the SDK's storage: whether the running contract holds
/// an entry under the key.
#[verifier::external_body]
pub(crate) fn has_entry(env: &Env, key: &KeyParts) -> (found: bool)
    requires
        in_contract(*env),
    ensures
        found == persistent_entries(*env).contains_key(key@),
{
    env.storage().persistent().has(&(key.family, key.who, key.text, key.index))
}

/// `Persistent::remove` of the SDK's storage: the entry under the key is
/// gone, the others stay; nothing happens where there was none.
#[verifier::external_body]
pub(crate) fn remove_entry(env: &mut Env, key: &KeyParts)
    requires
        in_contract(*old(env)),
    ensures
        persistent_entries(*final(env)) == persistent_entries(*old(env)).remove(key@),
        published(*final(env)) == published(*old(env)),
        in_contract(*final(env)),
{
    env.storage().persistent().remove(&(key.family, key.who, key.text, key.index))
}

/// `Persistent::get` of the SDK's storage, read as an `Address`. The SDK
/// stops the invocation where the entry holds something else: `requires`
/// leaves that out.
#[verifier::external_body]
pub(crate) fn load_address(env: &Env, key: &KeyParts) -> (r: Option<Address>)
    requires
        in_contract(*env),
        persistent_entries(*env).contains_key(key@) ==> persistent_entries(*env)[key@] is Principal,
    ensures
        match r {
            Some(a) => persistent_entries(*env).contains_key(key@) && persistent_entries(*env)[key@]
                == Stored::Principal(address_id(a)),
            None => !persistent_entries(*env).contains_key(key@),
        },
{
    env.storage().persistent().get(&(key.family, key.who, key.text, key.index))
}

/// `Persistent::set` of the SDK's storage with an `Address`: the entry under
/// the key now holds that principal, the other entries stay.
#[verifier::external_body]
pub(crate) fn save_address(env: &mut Env, key: &KeyParts, value: &Address)
    requires
        in_contract(*old(env)),
    ensures
        persistent_entries(*final(env)) == persistent_entries(*old(env)).insert(
            key@,
            Stored::Principal(address_id(*value)),
        ),
        published(*final(env)) == published(*old(env)),
        in_contract(*final(env)),
{
    env.storage().persistent().set(&(key.family, key.who, key.text, key.index), value)
}

/// `Persistent::get` of the SDK's storage, read as a `u32`. The SDK stops the
/// invocation where the entry holds something else: `requires` leaves that
/// out.
#[verifier::external_body]
pub(crate) fn load_number(env: &Env, key: &KeyParts) -> (r: Option<u32>)
    requires
        in_contract(*env),
        persistent_entries(*env).contains_key(key@) ==> persistent_entries(*env)[key@] is Number,
    ensures
        match r {
            Some(n) => persistent_entries(*env).contains_key(key@) && persistent_entries(*env)[key@]
                == Stored::Number(n),
            None => !persistent_entries(*env).contains_key(key@),
        },
{
    env.storage().persistent().get(&(key.family, key.who, key.text, key.index))
}

/// `Persistent::set` of the SDK's storage with a `u32`.
#[verifier::external_body]
pub(crate) fn save_number(env: &mut Env, key: &KeyParts, value: u32)
    requires
        in_contract(*old(env)),
    ensures
        persistent_entries(*final(env)) == persistent_entries(*old(env)).insert(
            key@,
            Stored::Number(value),
        ),
        published(*final(env)) == published(*old(env)),
        in_contract(*final(env)),
{
    env.storage().persistent().set(&(key.family, key.who, key.text, key.index), &value)
}

/// `Persistent::get` of the SDK's storage, read as a `u64`. The SDK stops the
/// invocation where the entry holds something else: `requires` leaves that
/// out.
#[verifier::external_body]
pub(crate) fn load_instant(env: &Env, key: &KeyParts) -> (r: Option<u64>)
    requires
        in_contract(*env),
        persistent_entries(*env).contains_key(key@) ==> persistent_entries(*env)[key@] is Instant,
    ensures
        match r {
            Some(n) => persistent_entries(*env).contains_key(key@) && persistent_entries(*env)[key@]
                == Stored::Instant(n),
            None => !persistent_entries(*env).contains_key(key@),
        },
{
    env.storage().persistent().get(&(key.family, key.who, key.text, key.index))
}

/// `Persistent::set` of the SDK's storage with a `u64`.
#[verifier::external_body]
pub(crate) fn save_instant(env: &mut Env, key: &KeyParts, value: u64)
    requires
        in_contract(*old(env)),
    ensures
        persistent_entries(*final(env)) == persistent_entries(*old(env)).insert(
            key@,
            Stored::Instant(value),
        ),
        published(*final(env)) == published(*old(env)),
        in_contract(*final(env)),
{
    env.storage().persistent().set(&(key.family, key.who, key.text, key.index), &value)
}

/// `Persistent::get` of the SDK's storage, read as a `bool`. The SDK stops
/// the invocation where the entry holds something else: `requires` leaves
/// that out.
#[verifier::external_body]
pub(crate) fn load_flag(env: &Env, key: &KeyParts) -> (r: Option<bool>)
    requires
        in_contract(*env),
        persistent_entries(*env).contains_key(key@) ==> persistent_entries(*env)[key@] is Flag,
    ensures
        match r {
            Some(b) => persistent_entries(*env).contains_key(key@) && persistent_entries(*env)[key@]
                == Stored::Flag(b),
            None => !persistent_entries(*env).contains_key(key@),
        },
{
    env.storage().persistent().get(&(key.family, key.who, key.text, key.index))
}

/// `Persistent::set` of the SDK's storage with a `bool`.
#[verifier::external_body]
pub(crate) fn save_flag(env: &mut Env, key: &KeyParts, value: bool)
    requires
        in_contract(*old(env)),
    ensures
        persistent_entries(*final(env)) == persistent_entries(*old(env)).insert(
            key@,
            Stored::Flag(value),
        ),
        published(*final(env)) == published(*old(env)),
        in_contract(*final(env)),
{
    env.storage().persistent().set(&(key.family, key.who, key.text, key.index), &value)
}

/// `Persistent::get` of the SDK's storage, read as the six fields of an event
/// record. The SDK stops the invocation where the entry holds something else:
/// `requires` leaves that out.
#[verifier::external_body]
pub(crate) fn load_event(env: &Env, key: &KeyParts) -> (r: Option<EventInfo>)
    requires
        in_contract(*env),
        persistent_entries(*env).contains_key(key@) ==> persistent_entries(*env)[key@] is Event,
    ensures
        match r {
            Some(e) => persistent_entries(*env).contains_key(key@) && persistent_entries(*env)[key@]
                == Stored::Event(e@),
            None => !persistent_entries(*env).contains_key(key@),
        },
{
    env.storage().persistent().get::<_, (soroban_sdk::String, Address, Address, u32, bool, u64)>(
        &(key.family, key.who, key.text, key.index),
    ).map(|t| EventInfo {
        event_id: t.0,
        organizer_address: t.1,
        payment_address: t.2,
        platform_fee_percent: t.3,
        is_active: t.4,
        created_at: t.5,
    })
}

/// `Persistent::set` of the SDK's storage with the six fields of an event
/// record.
#[verifier::external_body]
pub(crate) fn save_event(env: &mut Env, key: &KeyParts, value: &EventInfo)
    requires
        in_contract(*old(env)),
    ensures
        persistent_entries(*final(env)) == persistent_entries(*old(env)).insert(
            key@,
            Stored::Event(value@),
        ),
        published(*final(env)) == published(*old(env)),
        in_contract(*final(env)),
{
    env.storage().persistent().set(
        &(key.family, key.who, key.text, key.index),
        &(
            value.event_id.clone(),
            value.organizer_address.clone(),
            value.payment_address.clone(),
            value.platform_fee_percent,
            value.is_active,
            value.created_at,
        ),
    )
}

/// `Persistent::get` of the SDK's storage, read as a vector of strings. The
/// SDK stops the invocation where the entry is no vector: `requires` leaves
/// out all but vectors of strings.
#[verifier::external_body]
pub(crate) fn load_ids(env: &Env, key: &KeyParts) -> (r: Option<soroban_sdk::Vec<soroban_sdk::String>>)
    requires
        in_contract(*env),
        persistent_entries(*env).contains_key(key@) ==> persistent_entries(*env)[key@] is Ids,
    ensures
        match r {
            Some(v) => persistent_entries(*env).contains_key(key@) && persistent_entries(*env)[key@]
                == Stored::Ids(list_items(v)) && only_texts(v),
            None => !persistent_entries(*env).contains_key(key@),
        },
{
    env.storage().persistent().get(&(key.family, key.who, key.text, key.index))
}

/// `Persistent::set` of the SDK's storage with a vector of strings.
#[verifier::external_body]
pub(crate) fn save_ids(env: &mut Env, key: &KeyParts, value: &soroban_sdk::Vec<soroban_sdk::String>)
    requires
        in_contract(*old(env)),
        only_texts(*value),
    ensures
        persistent_entries(*final(env)) == persistent_entries(*old(env)).insert(
            key@,
            Stored::Ids(list_items(*value)),
        ),
        published(*final(env)) == published(*old(env)),
        in_contract(*final(env)),
{
    env.storage().persistent().set(&(key.family, key.who, key.text, key.index), value)
}

/// `Persistent::get` of the SDK's storage, read as an audit trail: a record
/// of one field, a vector of lines of five fields each. The SDK stops the
/// invocation where the entry holds something else: `requires` leaves that
/// out.
#[verifier::external_body]
pub(crate) fn load_audit(env: &Env, key: &KeyParts) -> (r: Option<Vec<BlacklistAuditEntry>>)
    requires
        in_contract(*env),
        persistent_entries(*env).contains_key(key@) ==> persistent_entries(*env)[key@] is Audit,
    ensures
        match r {
            Some(log) => persistent_entries(*env).contains_key(key@) && persistent_entries(*env)[key@]
                == Stored::Audit(audit_views(log@)),
            None => !persistent_entries(*env).contains_key(key@),
        },
{
    env.storage().persistent().get::<
        _,
        (soroban_sdk::Vec<(Address, bool, Address, u64, soroban_sdk::String)>,),
    >(&(key.family, key.who, key.text, key.index)).map(|t| t.0.iter().map(|line| BlacklistAuditEntry {
        organizer: line.0,
        added: line.1,
        actor: line.2,
        timestamp: line.3,
        reason: line.4,
    }).collect())
}

/// `Persistent::set` of the SDK's storage with an audit trail, in the form
/// that `load_audit` reads.
#[verifier::external_body]
pub(crate) fn save_audit(env: &mut Env, key: &KeyParts, value: &Vec<BlacklistAuditEntry>)
    requires
        in_contract(*old(env)),
    ensures
        persistent_entries(*final(env)) == persistent_entries(*old(env)).insert(
            key@,
            Stored::Audit(audit_views(value@)),
        ),
        published(*final(env)) == published(*old(env)),
        in_contract(*final(env)),
{
    let lines = value.iter().map(|line| (
        line.organizer.clone(),
        line.added,
        line.actor.clone(),
        line.timestamp,
        line.reason.clone(),
    ));
    env.storage().persistent().set(
        &(key.family, key.who, key.text, key.index),
        &(soroban_sdk::Vec::from_iter(env, lines),),
    )
}

/// `Ledger::timestamp` of the SDK: the close time of the ledger, in seconds.
/// Nothing is claimed of the value.
#[verifier::external_body]
pub(crate) fn ledger_now(env: &Env) -> (now: u64) {
    env.ledger().timestamp()
}

/// The host's `require_auth` for an address, called on the host itself, so
/// that a refusal comes back as a value instead of stopping the invocation.
/// Where the host accepts, it vouches for the principal of that address;
/// when it accepts is the host's alone, and nothing is claimed of a refusal.
/// The call leaves the contract's entries and what it has published as they
/// are.
#[verifier::external_body]
pub(crate) fn identity_proven(env: &Env, who: &Address) -> (proven: bool)
    ensures
        proven ==> vouched(*env, address_id(*who)),
{
    soroban_env_host::Env::require_auth(env.host(), who.to_object()).is_ok()
}

/// `Events::publish` of the SDK with the topics (symbol, event id) and the
/// data (organizer, payout, fee): one record more is published.
/// `Symbol::new` stops the invocation on a text that is no symbol:
/// `requires` leaves that out.
#[verifier::external_body]
#[allow(deprecated)]
pub(crate) fn publish_registration(
    env: &mut Env,
    topic: &str,
    event_id: &soroban_sdk::String,
    organizer: &Address,
    payout: &Address,
    fee_bps: u32,
)
    requires
        in_contract(*old(env)),
        is_symbol(topic@),
    ensures
        published(*final(env)) == published(*old(env)).push(
            Notice::EventRegistered {
                topic: topic@,
                event_id: text_bytes(*event_id),
                organizer: address_id(*organizer),
                payout: address_id(*payout),
                fee_bps,
            },
        ),
        persistent_entries(*final(env)) == persistent_entries(*old(env)),
        in_contract(*final(env)),
{
    env.events().publish(
        (soroban_sdk::Symbol::new(env, topic), event_id.clone()),
        (organizer.clone(), payout.clone(), fee_bps),
    )
}

/// `Events::publish` of the SDK with the topic (symbol) and the new fee as
/// data: one record more is published. `Symbol::new` stops the invocation on
/// a text that is no symbol: `requires` leaves that out.
#[verifier::external_body]
#[allow(deprecated)]
pub(crate) fn publish_fee_update(env: &mut Env, topic: &str, fee_bps: u32)
    requires
        in_contract(*old(env)),
        is_symbol(topic@),
    ensures
        published(*final(env)) == published(*old(env)).push(
            Notice::FeeUpdated { topic: topic@, fee_bps },
        ),
        persistent_entries(*final(env)) == persistent_entries(*old(env)),
        in_contract(*final(env)),
{
    env.events().publish((soroban_sdk::Symbol::new(env, topic),), fee_bps)
}

} // verus!
