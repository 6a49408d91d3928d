use event_registry::storage;
use event_registry::types::BlacklistAuditEntry;
use soroban_sdk::testutils::{Address as _, ContractFunctionSet, EnvTestConfig};
use soroban_sdk::{Address, Env, String, Val};

struct Deployed;

impl ContractFunctionSet for Deployed {
    fn call(&self, _func: &str, _env: Env, _args: &[Val]) -> Option<Val> {
        None
    }
}

fn new_env() -> Env {
    Env::new_with_config(EnvTestConfig {
        capture_snapshot_at_drop: false,
    })
}

fn invoke<T>(env: &Env, contract: &Address, f: impl FnOnce(&mut Env) -> T) -> T {
    env.as_contract(contract, || {
        let mut inside = env.clone();
        f(&mut inside)
    })
}

#[test]
fn storage_is_reachable_inside_a_contract_only() {
    let env = new_env();
    let contract = env.register(Deployed, ());

    assert!(!storage::is_reachable(&env));
    assert!(invoke(&env, &contract, |e| storage::is_reachable(e)));
    assert!(!storage::is_reachable(&env));
}

#[test]
fn admin_is_read_back() {
    let env = new_env();
    let contract = env.register(Deployed, ());
    let admin = Address::generate(&env);
    let next = Address::generate(&env);

    assert_eq!(invoke(&env, &contract, |e| storage::get_admin(e)), None);
    invoke(&env, &contract, |e| storage::set_admin(e, &admin));
    assert_eq!(invoke(&env, &contract, |e| storage::get_admin(e)), Some(admin));
    invoke(&env, &contract, |e| storage::set_admin(e, &next));
    assert_eq!(invoke(&env, &contract, |e| storage::get_admin(e)), Some(next));
}

#[test]
fn platform_wallet_is_read_back() {
    let env = new_env();
    let contract = env.register(Deployed, ());
    let wallet = Address::generate(&env);

    assert_eq!(invoke(&env, &contract, |e| storage::get_platform_wallet(e)), None);
    invoke(&env, &contract, |e| storage::set_platform_wallet(e, &wallet));
    assert_eq!(invoke(&env, &contract, |e| storage::get_platform_wallet(e)), Some(wallet));
    assert_eq!(invoke(&env, &contract, |e| storage::get_admin(e)), None);
}

#[test]
fn platform_fee_defaults_to_zero_until_set() {
    let env = new_env();
    let contract = env.register(Deployed, ());

    assert!(!invoke(&env, &contract, |e| storage::has_platform_fee(e)));
    assert_eq!(invoke(&env, &contract, |e| storage::get_platform_fee(e)), 0);
    invoke(&env, &contract, |e| storage::set_platform_fee(e, 0));
    assert!(invoke(&env, &contract, |e| storage::has_platform_fee(e)));
    assert_eq!(invoke(&env, &contract, |e| storage::get_platform_fee(e)), 0);
    invoke(&env, &contract, |e| storage::set_platform_fee(e, 321));
    assert_eq!(invoke(&env, &contract, |e| storage::get_platform_fee(e)), 321);
}

#[test]
fn initialized_flag_is_read_back() {
    let env = new_env();
    let contract = env.register(Deployed, ());

    assert!(!invoke(&env, &contract, |e| storage::is_initialized(e)));
    invoke(&env, &contract, |e| storage::set_initialized(e, true));
    assert!(invoke(&env, &contract, |e| storage::is_initialized(e)));
    invoke(&env, &contract, |e| storage::set_initialized(e, false));
    assert!(!invoke(&env, &contract, |e| storage::is_initialized(e)));
}

#[test]
fn ticket_payment_contract_is_read_back() {
    let env = new_env();
    let contract = env.register(Deployed, ());
    let payments = Address::generate(&env);

    assert_eq!(invoke(&env, &contract, |e| storage::get_ticket_payment_contract(e)), None);
    invoke(&env, &contract, |e| storage::set_ticket_payment_contract(e, &payments));
    assert_eq!(invoke(&env, &contract, |e| storage::get_ticket_payment_contract(e)), Some(payments));
}

#[test]
fn blacklist_adds_and_removes() {
    let env = new_env();
    let contract = env.register(Deployed, ());
    let organizer = Address::generate(&env);
    let other = Address::generate(&env);

    assert!(!invoke(&env, &contract, |e| storage::is_blacklisted(e, &organizer)));
    invoke(&env, &contract, |e| storage::add_to_blacklist(e, &organizer));
    assert!(invoke(&env, &contract, |e| storage::is_blacklisted(e, &organizer)));
    assert!(!invoke(&env, &contract, |e| storage::is_blacklisted(e, &other)));
    invoke(&env, &contract, |e| storage::remove_from_blacklist(e, &other));
    assert!(invoke(&env, &contract, |e| storage::is_blacklisted(e, &organizer)));
    invoke(&env, &contract, |e| storage::remove_from_blacklist(e, &organizer));
    assert!(!invoke(&env, &contract, |e| storage::is_blacklisted(e, &organizer)));
}

#[test]
fn audit_log_appends_in_order() {
    let env = new_env();
    let contract = env.register(Deployed, ());
    let organizer = Address::generate(&env);
    let admin = Address::generate(&env);

    assert_eq!(invoke(&env, &contract, |e| storage::get_blacklist_audit_log(e)), vec![]);

    let added = BlacklistAuditEntry {
        organizer: organizer.clone(),
        added: true,
        actor: admin.clone(),
        timestamp: 1000,
        reason: String::from_str(&env, "fraud"),
    };
    let removed = BlacklistAuditEntry {
        organizer: organizer.clone(),
        added: false,
        actor: admin.clone(),
        timestamp: 2000,
        reason: String::from_str(&env, "appeal granted"),
    };
    invoke(&env, &contract, |e| storage::add_blacklist_audit_entry(e, added.clone()));
    assert_eq!(invoke(&env, &contract, |e| storage::get_blacklist_audit_log(e)), vec![added.clone()]);
    invoke(&env, &contract, |e| storage::add_blacklist_audit_entry(e, removed.clone()));
    assert_eq!(
        invoke(&env, &contract, |e| storage::get_blacklist_audit_log(e)),
        vec![added, removed]
    );
}

#[test]
fn promo_rate_and_expiry_are_read_back() {
    let env = new_env();
    let contract = env.register(Deployed, ());

    assert_eq!(invoke(&env, &contract, |e| storage::get_global_promo_bps(e)), 0);
    assert_eq!(invoke(&env, &contract, |e| storage::get_promo_expiry(e)), 0);
    invoke(&env, &contract, |e| storage::set_global_promo_bps(e, 1500));
    invoke(&env, &contract, |e| storage::set_promo_expiry(e, 1_900_000_000_000));
    assert_eq!(invoke(&env, &contract, |e| storage::get_global_promo_bps(e)), 1500);
    assert_eq!(invoke(&env, &contract, |e| storage::get_promo_expiry(e)), 1_900_000_000_000);
}
