use event_registry::registry::{EventRegistry, RegistryError};
use event_registry::types::EventInfo;
use soroban_sdk::testutils::{Address as _, ContractFunctionSet, EnvTestConfig, Events as _, Ledger as _};
use soroban_sdk::{Address, Env, IntoVal, String, Symbol, Val};

struct Deployed;

impl ContractFunctionSet for Deployed {
    fn call(&self, _func: &str, _env: Env, _args: &[Val]) -> Option<Val> {
        None
    }
}

fn new_env() -> Env {
    Env::new_with_config(EnvTestConfig {
        capture_snapshot_at_drop: false,
    })
}

/// Runs one invocation of the deployed contract.
fn invoke<T>(env: &Env, contract: &Address, f: impl FnOnce(&mut Env) -> T) -> T {
    env.as_contract(contract, || {
        let mut inside = env.clone();
        f(&mut inside)
    })
}

#[test]
fn test_initialize() {
    let env = new_env();
    let contract_id = env.register(Deployed, ());
    let admin = Address::generate(&env);

    let r = invoke(&env, &contract_id, |e| EventRegistry::initialize(e, admin.clone(), 5));
    assert_eq!(r, Ok(()));

    assert_eq!(invoke(&env, &contract_id, |e| EventRegistry::get_platform_fee(e)), 5);
    assert_eq!(invoke(&env, &contract_id, |e| EventRegistry::get_admin(e)), Ok(admin));
}

#[test]
fn test_double_initialization_fails() {
    let env = new_env();
    let contract_id = env.register(Deployed, ());
    let admin = Address::generate(&env);

    assert_eq!(invoke(&env, &contract_id, |e| EventRegistry::initialize(e, admin.clone(), 5)), Ok(()));
    let second = invoke(&env, &contract_id, |e| EventRegistry::initialize(e, admin.clone(), 10));
    assert_eq!(second, Err(RegistryError::AlreadyInitialized));
    assert_eq!(second.unwrap_err().message(), "already initialized");
    assert_eq!(invoke(&env, &contract_id, |e| EventRegistry::get_platform_fee(e)), 5);
}

#[test]
fn test_initialization_invalid_fee() {
    let env = new_env();
    let contract_id = env.register(Deployed, ());
    let admin = Address::generate(&env);

    let r = invoke(&env, &contract_id, |e| EventRegistry::initialize(e, admin.clone(), 10001));
    assert_eq!(r, Err(RegistryError::FeeOutOfRange));
    assert!(r.unwrap_err().message().starts_with("Fee percent must be between 0 and 10000"));
    assert_eq!(
        invoke(&env, &contract_id, |e| EventRegistry::get_admin(e)),
        Err(RegistryError::NotInitialized)
    );
}

#[test]
fn test_set_platform_fee() {
    let env = new_env();
    env.mock_all_auths();

    let contract_id = env.register(Deployed, ());
    let admin = Address::generate(&env);

    assert_eq!(invoke(&env, &contract_id, |e| EventRegistry::initialize(e, admin.clone(), 5)), Ok(()));
    assert_eq!(invoke(&env, &contract_id, |e| EventRegistry::set_platform_fee(e, 10)), Ok(()));

    assert_eq!(invoke(&env, &contract_id, |e| EventRegistry::get_platform_fee(e)), 10);
}

#[test]
fn test_set_platform_fee_invalid() {
    let env = new_env();
    env.mock_all_auths();

    let contract_id = env.register(Deployed, ());
    let admin = Address::generate(&env);

    assert_eq!(invoke(&env, &contract_id, |e| EventRegistry::initialize(e, admin.clone(), 5)), Ok(()));
    let r = invoke(&env, &contract_id, |e| EventRegistry::set_platform_fee(e, 10001));
    assert_eq!(r, Err(RegistryError::FeeOutOfRange));
    assert!(r.unwrap_err().message().starts_with("Fee percent must be between 0 and 10000"));
    assert_eq!(invoke(&env, &contract_id, |e| EventRegistry::get_platform_fee(e)), 5);
}

#[test]
fn test_set_platform_fee_unauthorized() {
    let env = new_env();

    let contract_id = env.register(Deployed, ());
    let admin = Address::generate(&env);

    assert_eq!(invoke(&env, &contract_id, |e| EventRegistry::initialize(e, admin.clone(), 5)), Ok(()));

    // No identity proof is carried for the admin address stored in the contract.
    let r = invoke(&env, &contract_id, |e| EventRegistry::set_platform_fee(e, 10));
    assert_eq!(r, Err(RegistryError::Unauthorized));
    assert_eq!(invoke(&env, &contract_id, |e| EventRegistry::get_platform_fee(e)), 5);
}

#[test]
fn test_storage_operations() {
    let env = new_env();
    let contract_id = env.register(Deployed, ());

    let admin = Address::generate(&env);
    assert_eq!(invoke(&env, &contract_id, |e| EventRegistry::initialize(e, admin.clone(), 5)), Ok(()));

    let organizer = Address::generate(&env);
    let payment_address = Address::generate(&env);
    let event_id = String::from_str(&env, "event_123");

    let event_info = EventInfo {
        event_id: event_id.clone(),
        organizer_address: organizer.clone(),
        payment_address: payment_address.clone(),
        platform_fee_percent: 5,
        is_active: true,
        created_at: env.ledger().timestamp(),
    };

    // Test store_event
    assert_eq!(invoke(&env, &contract_id, |e| EventRegistry::store_event(e, event_info.clone())), Ok(()));

    // Test event_exists
    assert!(invoke(&env, &contract_id, |e| EventRegistry::event_exists(e, event_id.clone())));

    // Test get_event
    let stored_event = invoke(&env, &contract_id, |e| EventRegistry::get_event(e, event_id.clone())).unwrap();
    assert_eq!(stored_event.event_id, event_id);
    assert_eq!(stored_event.organizer_address, organizer);
    assert_eq!(stored_event.payment_address, payment_address);
    assert_eq!(stored_event.platform_fee_percent, 5);
    assert!(stored_event.is_active);

    // Test non-existent event
    let fake_id = String::from_str(&env, "fake");
    assert!(!invoke(&env, &contract_id, |e| EventRegistry::event_exists(e, fake_id.clone())));
    assert!(invoke(&env, &contract_id, |e| EventRegistry::get_event(e, fake_id.clone())).is_none());
}

#[test]
fn test_organizer_events_list() {
    let env = new_env();
    let organizer = Address::generate(&env);
    let payment_address = Address::generate(&env);

    let event_1 = EventInfo {
        event_id: String::from_str(&env, "e1"),
        organizer_address: organizer.clone(),
        payment_address: payment_address.clone(),
        platform_fee_percent: 5,
        is_active: true,
        created_at: 100,
    };

    let event_2 = EventInfo {
        event_id: String::from_str(&env, "e2"),
        organizer_address: organizer.clone(),
        payment_address: payment_address.clone(),
        platform_fee_percent: 5,
        is_active: true,
        created_at: 200,
    };

    let contract_id = env.register(Deployed, ());

    assert_eq!(invoke(&env, &contract_id, |e| EventRegistry::store_event(e, event_1.clone())), Ok(()));
    assert_eq!(invoke(&env, &contract_id, |e| EventRegistry::store_event(e, event_2.clone())), Ok(()));

    let event_exists_1 = invoke(&env, &contract_id, |e| EventRegistry::event_exists(e, event_1.event_id.clone()));
    let event_exists_2 = invoke(&env, &contract_id, |e| EventRegistry::event_exists(e, event_2.event_id.clone()));
    assert!(event_exists_1);
    assert!(event_exists_2);

    let organizer_events = invoke(&env, &contract_id, |e| EventRegistry::get_organizer_events(e, organizer.clone()));
    assert_eq!(organizer_events.len(), 2);
    assert_eq!(organizer_events.get(0).unwrap(), event_1.event_id);
    assert_eq!(organizer_events.get(1).unwrap(), event_2.event_id);
}

// Event Registration Tests
#[test]
fn test_register_event_success() {
    let env = new_env();
    let contract_id = env.register(Deployed, ());

    let admin = Address::generate(&env);
    let organizer = Address::generate(&env);
    let payment_addr = Address::generate(&env);

    // Mock authorization for all addresses
    env.mock_all_auths();

    // Initialize contract
    assert_eq!(invoke(&env, &contract_id, |e| EventRegistry::initialize(e, admin.clone(), 500)), Ok(()));

    // Register event
    let event_id = String::from_str(&env, "event_001");
    let r = invoke(&env, &contract_id, |e| {
        EventRegistry::register_event(e, event_id.clone(), organizer.clone(), payment_addr.clone())
    });
    assert_eq!(r, Ok(()));

    // Verify event was registered
    let payment_info =
        invoke(&env, &contract_id, |e| EventRegistry::get_event_payment_info(e, event_id.clone())).unwrap();
    assert_eq!(payment_info.payment_address, payment_addr);
    assert_eq!(payment_info.platform_fee_percent, 500);

    // Verify event exists
    assert!(invoke(&env, &contract_id, |e| EventRegistry::event_exists(e, event_id.clone())));
}

#[test]
fn test_register_duplicate_event_fails() {
    let env = new_env();
    let contract_id = env.register(Deployed, ());

    let admin = Address::generate(&env);
    let organizer = Address::generate(&env);
    let payment_addr = Address::generate(&env);
    env.mock_all_auths();

    assert_eq!(invoke(&env, &contract_id, |e| EventRegistry::initialize(e, admin.clone(), 500)), Ok(()));

    let event_id = String::from_str(&env, "event_001");

    // Register event first time
    let first = invoke(&env, &contract_id, |e| {
        EventRegistry::register_event(e, event_id.clone(), organizer.clone(), payment_addr.clone())
    });
    assert_eq!(first, Ok(()));

    // Try to register same event again
    let second = invoke(&env, &contract_id, |e| {
        EventRegistry::register_event(e, event_id.clone(), organizer.clone(), payment_addr.clone())
    });
    assert_eq!(second, Err(RegistryError::EventAlreadyExists));
    assert_eq!(second.unwrap_err().message(), "Event already exists");

    // State unchanged: still one event in the index.
    let events = invoke(&env, &contract_id, |e| EventRegistry::get_organizer_events(e, organizer.clone()));
    assert_eq!(events.len(), 1);
}

#[test]
fn test_get_event_payment_info() {
    let env = new_env();
    let contract_id = env.register(Deployed, ());

    let admin = Address::generate(&env);
    let organizer = Address::generate(&env);
    let payment_addr = Address::generate(&env);
    env.mock_all_auths();

    assert_eq!(invoke(&env, &contract_id, |e| EventRegistry::initialize(e, admin.clone(), 750)), Ok(())); // 7.5%

    let event_id = String::from_str(&env, "event_002");
    let r = invoke(&env, &contract_id, |e| {
        EventRegistry::register_event(e, event_id.clone(), organizer.clone(), payment_addr.clone())
    });
    assert_eq!(r, Ok(()));

    // Test successful query
    let info = invoke(&env, &contract_id, |e| EventRegistry::get_event_payment_info(e, event_id.clone())).unwrap();
    assert_eq!(info.payment_address, payment_addr);
    assert_eq!(info.platform_fee_percent, 750);
}

#[test]
fn test_get_nonexistent_event_fails() {
    let env = new_env();
    let contract_id = env.register(Deployed, ());

    // Test query for non-existent event
    let non_existent_id = String::from_str(&env, "non_existent");
    let r = invoke(&env, &contract_id, |e| EventRegistry::get_event_payment_info(e, non_existent_id.clone()));
    assert_eq!(r, Err(RegistryError::EventNotFound));
    assert_eq!(r.unwrap_err().message(), "Event not found");
}

#[test]
fn test_update_event_status() {
    let env = new_env();
    let contract_id = env.register(Deployed, ());

    let admin = Address::generate(&env);
    let organizer = Address::generate(&env);
    let payment_addr = Address::generate(&env);
    env.mock_all_auths();

    assert_eq!(invoke(&env, &contract_id, |e| EventRegistry::initialize(e, admin.clone(), 500)), Ok(()));

    let event_id = String::from_str(&env, "event_001");
    let r = invoke(&env, &contract_id, |e| {
        EventRegistry::register_event(e, event_id.clone(), organizer.clone(), payment_addr.clone())
    });
    assert_eq!(r, Ok(()));

    // Test successful status update by organizer
    let u = invoke(&env, &contract_id, |e| EventRegistry::update_event_status(e, event_id.clone(), false));
    assert_eq!(u, Ok(()));

    // Verify the event was updated
    let event_info = invoke(&env, &contract_id, |e| EventRegistry::get_event(e, event_id.clone())).unwrap();
    assert!(!event_info.is_active);
}

#[test]
fn test_update_nonexistent_event_fails() {
    let env = new_env();
    let contract_id = env.register(Deployed, ());

    // Test update for non-existent event
    let non_existent_id = String::from_str(&env, "non_existent");
    let r = invoke(&env, &contract_id, |e| {
        EventRegistry::update_event_status(e, non_existent_id.clone(), false)
    });
    assert_eq!(r, Err(RegistryError::EventNotFound));
    assert_eq!(r.unwrap_err().message(), "Event not found");
}

#[test]
fn test_complete_event_lifecycle() {
    let env = new_env();
    let contract_id = env.register(Deployed, ());

    let admin = Address::generate(&env);
    let organizer = Address::generate(&env);
    let payment_addr = Address::generate(&env);
    env.mock_all_auths();

    // Initialize
    assert_eq!(invoke(&env, &contract_id, |e| EventRegistry::initialize(e, admin.clone(), 600)), Ok(())); // 6%

    let event_id = String::from_str(&env, "lifecycle_event");

    // 1. Register event
    let r = invoke(&env, &contract_id, |e| {
        EventRegistry::register_event(e, event_id.clone(), organizer.clone(), payment_addr.clone())
    });
    assert_eq!(r, Ok(()));

    // 2. Query payment info
    let payment_info =
        invoke(&env, &contract_id, |e| EventRegistry::get_event_payment_info(e, event_id.clone())).unwrap();
    assert_eq!(payment_info.payment_address, payment_addr);
    assert_eq!(payment_info.platform_fee_percent, 600);

    // 3. Check organizer events
    let org_events = invoke(&env, &contract_id, |e| EventRegistry::get_organizer_events(e, organizer.clone()));
    assert_eq!(org_events.len(), 1);
    assert!(org_events.contains(&event_id));

    // 4. Update event status
    let u = invoke(&env, &contract_id, |e| EventRegistry::update_event_status(e, event_id.clone(), false));
    assert_eq!(u, Ok(()));

    // 5. Verify event still exists and can be queried
    let payment_info =
        invoke(&env, &contract_id, |e| EventRegistry::get_event_payment_info(e, event_id.clone())).unwrap();
    assert_eq!(payment_info.payment_address, payment_addr);

    // 6. Verify event info shows updated status
    let event_info = invoke(&env, &contract_id, |e| EventRegistry::get_event(e, event_id.clone())).unwrap();
    assert!(!event_info.is_active);
}

#[test]
fn registration_is_published_and_stamped() {
    let env = new_env();
    let contract_id = env.register(Deployed, ());
    let admin = Address::generate(&env);
    let organizer = Address::generate(&env);
    let payout = Address::generate(&env);
    env.mock_all_auths();
    env.ledger().set_timestamp(1_700_000_123);

    assert_eq!(invoke(&env, &contract_id, |e| EventRegistry::initialize(e, admin.clone(), 500)), Ok(()));
    let event_id = String::from_str(&env, "event_001");
    let r = invoke(&env, &contract_id, |e| {
        EventRegistry::register_event(e, event_id.clone(), organizer.clone(), payout.clone())
    });
    assert_eq!(r, Ok(()));

    let topics: soroban_sdk::Vec<Val> = (Symbol::new(&env, "event_reg"), event_id.clone()).into_val(&env);
    let data: Val = (organizer.clone(), payout.clone(), 500u32).into_val(&env);
    let expected = soroban_sdk::Vec::from_array(&env, [(contract_id.clone(), topics, data)]);
    assert!(env.events().all() == expected);

    let record = invoke(&env, &contract_id, |e| EventRegistry::get_event(e, event_id.clone())).unwrap();
    assert_eq!(
        record,
        EventInfo {
            event_id: event_id.clone(),
            organizer_address: organizer,
            payment_address: payout,
            platform_fee_percent: 500,
            is_active: true,
            created_at: 1_700_000_123,
        }
    );
}

#[test]
fn fee_update_is_published() {
    let env = new_env();
    let contract_id = env.register(Deployed, ());
    let admin = Address::generate(&env);
    env.mock_all_auths();

    assert_eq!(invoke(&env, &contract_id, |e| EventRegistry::initialize(e, admin.clone(), 500)), Ok(()));
    assert_eq!(invoke(&env, &contract_id, |e| EventRegistry::set_platform_fee(e, 900)), Ok(()));

    let topics: soroban_sdk::Vec<Val> = (Symbol::new(&env, "fee_upd"),).into_val(&env);
    let data: Val = 900u32.into_val(&env);
    let expected = soroban_sdk::Vec::from_array(&env, [(contract_id.clone(), topics, data)]);
    assert!(env.events().all() == expected);
}
