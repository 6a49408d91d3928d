use event_registry::registry::{EventRegistry, RegistryError};
use event_registry::storage;
use event_registry::types::{EventInfo, PaymentInfo};
use soroban_sdk::testutils::{Address as _, ContractFunctionSet, EnvTestConfig, Events as _};
use soroban_sdk::{Address, Env, String, Val};

struct Deployed;

impl ContractFunctionSet for Deployed {
    fn call(&self, _func: &str, _env: Env, _args: &[Val]) -> Option<Val> {
        None
    }
}

fn new_env() -> Env {
    Env::new_with_config(EnvTestConfig {
        capture_snapshot_at_drop: false,
    })
}

fn invoke<T>(env: &Env, contract: &Address, f: impl FnOnce(&mut Env) -> T) -> T {
    env.as_contract(contract, || {
        let mut inside = env.clone();
        f(&mut inside)
    })
}

fn text(env: &Env, s: &str) -> String {
    String::from_str(env, s)
}

fn register(env: &Env, contract: &Address, id: &str, organizer: &Address, payout: &Address) -> Result<(), RegistryError> {
    invoke(env, contract, |e| {
        EventRegistry::register_event(e, text(env, id), organizer.clone(), payout.clone())
    })
}

fn events_of(env: &Env, contract: &Address, organizer: &Address) -> Vec<String> {
    invoke(env, contract, |e| EventRegistry::get_organizer_events(e, organizer.clone()))
        .iter()
        .collect()
}

/// Everything that can be read of the registry about the given events and organizers.
fn snapshot(
    env: &Env,
    contract: &Address,
    ids: &[&str],
    organizers: &[&Address],
) -> (Option<Address>, bool, u32, Vec<Option<EventInfo>>, Vec<(u32, Vec<String>)>) {
    let admin = invoke(env, contract, |e| storage::get_admin(e));
    let has_fee = invoke(env, contract, |e| storage::has_platform_fee(e));
    let fee = invoke(env, contract, |e| storage::get_platform_fee(e));
    let records = ids
        .iter()
        .map(|id| invoke(env, contract, |e| storage::get_event(e, text(env, id))))
        .collect();
    let indexes = organizers
        .iter()
        .map(|o| {
            (
                invoke(env, contract, |e| storage::get_organizer_event_count(e, o)),
                events_of(env, contract, o),
            )
        })
        .collect();
    (admin, has_fee, fee, records, indexes)
}

#[test]
fn initialize_and_read_back() {
    let env = new_env();
    let contract = env.register(Deployed, ());
    let admin = Address::generate(&env);

    assert_eq!(invoke(&env, &contract, |e| EventRegistry::initialize(e, admin.clone(), 5)), Ok(()));
    assert_eq!(invoke(&env, &contract, |e| EventRegistry::get_platform_fee(e)), 5);
    assert_eq!(invoke(&env, &contract, |e| EventRegistry::get_admin(e)), Ok(admin));
}

#[test]
fn invalid_fee_at_init_leaves_the_registry_uninitialized() {
    let env = new_env();
    let contract = env.register(Deployed, ());
    let admin = Address::generate(&env);

    assert_eq!(
        invoke(&env, &contract, |e| EventRegistry::initialize(e, admin.clone(), 10001)),
        Err(RegistryError::FeeOutOfRange)
    );
    assert_eq!(
        invoke(&env, &contract, |e| EventRegistry::get_admin(e)),
        Err(RegistryError::NotInitialized)
    );
    assert!(!invoke(&env, &contract, |e| storage::has_platform_fee(e)));
    // The registry can still be initialized.
    assert_eq!(invoke(&env, &contract, |e| EventRegistry::initialize(e, admin.clone(), 10000)), Ok(()));
}

#[test]
fn fee_bounds_at_initialization() {
    for (fee, expected) in [
        (0u32, Ok(())),
        (10000, Ok(())),
        (10001, Err(RegistryError::FeeOutOfRange)),
        (u32::MAX, Err(RegistryError::FeeOutOfRange)),
    ] {
        let env = new_env();
        let contract = env.register(Deployed, ());
        let admin = Address::generate(&env);
        assert_eq!(invoke(&env, &contract, |e| EventRegistry::initialize(e, admin.clone(), fee)), expected);
    }
}

#[test]
fn fee_bounds_at_update() {
    let env = new_env();
    let contract = env.register(Deployed, ());
    let admin = Address::generate(&env);
    env.mock_all_auths();
    assert_eq!(invoke(&env, &contract, |e| EventRegistry::initialize(e, admin.clone(), 5)), Ok(()));

    assert_eq!(invoke(&env, &contract, |e| EventRegistry::set_platform_fee(e, 10000)), Ok(()));
    assert_eq!(invoke(&env, &contract, |e| EventRegistry::get_platform_fee(e)), 10000);
    assert_eq!(invoke(&env, &contract, |e| EventRegistry::set_platform_fee(e, 0)), Ok(()));
    assert_eq!(invoke(&env, &contract, |e| EventRegistry::get_platform_fee(e)), 0);
    assert_eq!(
        invoke(&env, &contract, |e| EventRegistry::set_platform_fee(e, 10001)),
        Err(RegistryError::FeeOutOfRange)
    );
    assert_eq!(invoke(&env, &contract, |e| EventRegistry::get_platform_fee(e)), 0);
    assert_eq!(env.events().all().events().len(), 0);
}

#[test]
fn initialization_is_single_shot() {
    let env = new_env();
    let contract = env.register(Deployed, ());
    let admin = Address::generate(&env);
    let other = Address::generate(&env);
    assert_eq!(invoke(&env, &contract, |e| EventRegistry::initialize(e, admin.clone(), 5)), Ok(()));

    for (who, fee) in [(&admin, 5u32), (&other, 5), (&admin, 0), (&other, 10000), (&other, 10001)] {
        assert_eq!(
            invoke(&env, &contract, |e| EventRegistry::initialize(e, who.clone(), fee)),
            Err(RegistryError::AlreadyInitialized)
        );
        assert_eq!(invoke(&env, &contract, |e| EventRegistry::get_platform_fee(e)), 5);
        assert_eq!(invoke(&env, &contract, |e| EventRegistry::get_admin(e)), Ok(admin.clone()));
    }
}

#[test]
fn half_initialized_registry_refuses_initialization() {
    let env = new_env();
    let admin = Address::generate(&env);

    let only_fee = env.register(Deployed, ());
    invoke(&env, &only_fee, |e| storage::set_platform_fee(e, 1));
    assert_eq!(
        invoke(&env, &only_fee, |e| EventRegistry::initialize(e, admin.clone(), 5)),
        Err(RegistryError::AlreadyInitialized)
    );
    assert_eq!(
        invoke(&env, &only_fee, |e| EventRegistry::get_admin(e)),
        Err(RegistryError::NotInitialized)
    );

    let only_admin = env.register(Deployed, ());
    invoke(&env, &only_admin, |e| storage::set_admin(e, &admin));
    assert_eq!(
        invoke(&env, &only_admin, |e| EventRegistry::initialize(e, admin.clone(), 5)),
        Err(RegistryError::AlreadyInitialized)
    );
    assert!(!invoke(&env, &only_admin, |e| storage::has_platform_fee(e)));
}

#[test]
fn registration_round_trip() {
    let env = new_env();
    let contract = env.register(Deployed, ());
    let admin = Address::generate(&env);
    let organizer = Address::generate(&env);
    let payout = Address::generate(&env);
    env.mock_all_auths();
    assert_eq!(invoke(&env, &contract, |e| EventRegistry::initialize(e, admin.clone(), 500)), Ok(()));

    assert_eq!(register(&env, &contract, "event_001", &organizer, &payout), Ok(()));

    assert_eq!(
        invoke(&env, &contract, |e| EventRegistry::get_event_payment_info(e, text(&env, "event_001"))),
        Ok(PaymentInfo {
            payment_address: payout.clone(),
            platform_fee_percent: 500,
        })
    );
    assert!(invoke(&env, &contract, |e| EventRegistry::event_exists(e, text(&env, "event_001"))));
    assert_eq!(events_of(&env, &contract, &organizer), vec![text(&env, "event_001")]);
}

#[test]
fn duplicate_registration_changes_nothing() {
    let env = new_env();
    let contract = env.register(Deployed, ());
    let admin = Address::generate(&env);
    let organizer = Address::generate(&env);
    let payout = Address::generate(&env);
    let intruder = Address::generate(&env);
    env.mock_all_auths();
    assert_eq!(invoke(&env, &contract, |e| EventRegistry::initialize(e, admin.clone(), 500)), Ok(()));
    assert_eq!(register(&env, &contract, "event_001", &organizer, &payout), Ok(()));
    let before = snapshot(&env, &contract, &["event_001"], &[&organizer, &intruder]);

    assert_eq!(
        register(&env, &contract, "event_001", &organizer, &payout),
        Err(RegistryError::EventAlreadyExists)
    );
    assert_eq!(env.events().all().events().len(), 0);
    assert_eq!(
        register(&env, &contract, "event_001", &intruder, &intruder),
        Err(RegistryError::EventAlreadyExists)
    );
    assert_eq!(snapshot(&env, &contract, &["event_001"], &[&organizer, &intruder]), before);
}

#[test]
fn status_flip_is_the_organizers_alone() {
    let env = new_env();
    let contract = env.register(Deployed, ());
    let admin = Address::generate(&env);
    let organizer = Address::generate(&env);
    let payout = Address::generate(&env);
    env.mock_all_auths();
    assert_eq!(invoke(&env, &contract, |e| EventRegistry::initialize(e, admin.clone(), 500)), Ok(()));
    assert_eq!(register(&env, &contract, "event_001", &organizer, &payout), Ok(()));

    // Without the organizer's identity the flip is refused and the record stays.
    env.set_auths(&[]);
    let before = snapshot(&env, &contract, &["event_001"], &[&organizer]);
    assert_eq!(
        invoke(&env, &contract, |e| EventRegistry::update_event_status(e, text(&env, "event_001"), false)),
        Err(RegistryError::Unauthorized)
    );
    assert_eq!(snapshot(&env, &contract, &["event_001"], &[&organizer]), before);
    assert!(invoke(&env, &contract, |e| EventRegistry::get_event(e, text(&env, "event_001"))).unwrap().is_active);

    // With it the flip succeeds.
    env.mock_all_auths();
    assert_eq!(
        invoke(&env, &contract, |e| EventRegistry::update_event_status(e, text(&env, "event_001"), false)),
        Ok(())
    );
    let record = invoke(&env, &contract, |e| EventRegistry::get_event(e, text(&env, "event_001"))).unwrap();
    assert!(!record.is_active);
    assert_eq!(record.organizer_address, organizer);
    assert_eq!(record.payment_address, payout);
    assert_eq!(record.platform_fee_percent, 500);
    assert_eq!(events_of(&env, &contract, &organizer), vec![text(&env, "event_001")]);
}

#[test]
fn fee_is_a_snapshot() {
    let env = new_env();
    let contract = env.register(Deployed, ());
    let admin = Address::generate(&env);
    let organizer = Address::generate(&env);
    let payout = Address::generate(&env);
    env.mock_all_auths();
    assert_eq!(invoke(&env, &contract, |e| EventRegistry::initialize(e, admin.clone(), 500)), Ok(()));
    assert_eq!(register(&env, &contract, "event_001", &organizer, &payout), Ok(()));

    assert_eq!(invoke(&env, &contract, |e| EventRegistry::set_platform_fee(e, 900)), Ok(()));

    let first = invoke(&env, &contract, |e| EventRegistry::get_event_payment_info(e, text(&env, "event_001")));
    assert_eq!(first.unwrap().platform_fee_percent, 500);

    assert_eq!(register(&env, &contract, "event_002", &organizer, &payout), Ok(()));
    let second = invoke(&env, &contract, |e| EventRegistry::get_event_payment_info(e, text(&env, "event_002")));
    assert_eq!(second.unwrap().platform_fee_percent, 900);
    assert_eq!(
        invoke(&env, &contract, |e| EventRegistry::get_event(e, text(&env, "event_001"))).unwrap().platform_fee_percent,
        500
    );
}

#[test]
fn refused_mutations_leave_everything_as_it_was() {
    let env = new_env();
    let contract = env.register(Deployed, ());
    let admin = Address::generate(&env);
    let organizer = Address::generate(&env);
    let payout = Address::generate(&env);
    env.mock_all_auths();
    assert_eq!(invoke(&env, &contract, |e| EventRegistry::initialize(e, admin.clone(), 500)), Ok(()));
    assert_eq!(register(&env, &contract, "kept", &organizer, &payout), Ok(()));
    env.set_auths(&[]);
    let before = snapshot(&env, &contract, &["kept", "new"], &[&organizer]);

    assert_eq!(register(&env, &contract, "new", &organizer, &payout), Err(RegistryError::Unauthorized));
    assert_eq!(env.events().all().events().len(), 0);
    assert_eq!(snapshot(&env, &contract, &["kept", "new"], &[&organizer]), before);

    assert_eq!(
        invoke(&env, &contract, |e| EventRegistry::update_event_status(e, text(&env, "kept"), false)),
        Err(RegistryError::Unauthorized)
    );
    assert_eq!(snapshot(&env, &contract, &["kept", "new"], &[&organizer]), before);

    assert_eq!(
        invoke(&env, &contract, |e| EventRegistry::set_platform_fee(e, 1)),
        Err(RegistryError::Unauthorized)
    );
    assert_eq!(env.events().all().events().len(), 0);
    assert_eq!(snapshot(&env, &contract, &["kept", "new"], &[&organizer]), before);
    assert_eq!(RegistryError::Unauthorized.message(), "Unauthorized");
}

#[test]
fn answers_given_to_the_operations_decide() {
    let env = new_env();
    let contract = env.register(Deployed, ());
    let admin = Address::generate(&env);
    let organizer = Address::generate(&env);
    let payout = Address::generate(&env);
    assert_eq!(invoke(&env, &contract, |e| EventRegistry::initialize(e, admin.clone(), 500)), Ok(()));

    // Registration: refused without proof, stamped with the given time with it.
    let refused = invoke(&env, &contract, |e| {
        EventRegistry::register_event_with(e, text(&env, "e1"), organizer.clone(), payout.clone(), false, 77)
    });
    assert_eq!(refused, Err(RegistryError::Unauthorized));
    assert!(!invoke(&env, &contract, |e| EventRegistry::event_exists(e, text(&env, "e1"))));
    let done = invoke(&env, &contract, |e| {
        EventRegistry::register_event_with(e, text(&env, "e1"), organizer.clone(), payout.clone(), true, 77)
    });
    assert_eq!(done, Ok(()));
    let record = invoke(&env, &contract, |e| EventRegistry::get_event(e, text(&env, "e1"))).unwrap();
    assert_eq!(
        record,
        EventInfo {
            event_id: text(&env, "e1"),
            organizer_address: organizer.clone(),
            payment_address: payout.clone(),
            platform_fee_percent: 500,
            is_active: true,
            created_at: 77,
        }
    );
    // An unproven identity is refused before the event is looked up.
    let again = invoke(&env, &contract, |e| {
        EventRegistry::register_event_with(e, text(&env, "e1"), organizer.clone(), payout.clone(), false, 78)
    });
    assert_eq!(again, Err(RegistryError::Unauthorized));
    let again = invoke(&env, &contract, |e| {
        EventRegistry::register_event_with(e, text(&env, "e1"), organizer.clone(), payout.clone(), true, 78)
    });
    assert_eq!(again, Err(RegistryError::EventAlreadyExists));

    // Status.
    let refused = invoke(&env, &contract, |e| {
        EventRegistry::update_event_status_with(e, text(&env, "e1"), false, false)
    });
    assert_eq!(refused, Err(RegistryError::Unauthorized));
    assert!(invoke(&env, &contract, |e| EventRegistry::get_event(e, text(&env, "e1"))).unwrap().is_active);
    let done = invoke(&env, &contract, |e| {
        EventRegistry::update_event_status_with(e, text(&env, "e1"), false, true)
    });
    assert_eq!(done, Ok(()));
    let flipped = invoke(&env, &contract, |e| EventRegistry::get_event(e, text(&env, "e1"))).unwrap();
    assert_eq!(
        flipped,
        EventInfo {
            is_active: false,
            ..record.clone()
        }
    );

    // An event that is not bound is not found, whatever the answer.
    for proven in [false, true] {
        let missing = invoke(&env, &contract, |e| {
            EventRegistry::update_event_status_with(e, text(&env, "nowhere"), false, proven)
        });
        assert_eq!(missing, Err(RegistryError::EventNotFound));
    }
    assert!(!invoke(&env, &contract, |e| EventRegistry::event_exists(e, text(&env, "nowhere"))));

    // Fee: an unproven identity is refused before the fee is looked at.
    assert_eq!(
        invoke(&env, &contract, |e| EventRegistry::set_platform_fee_with(e, 10001, false)),
        Err(RegistryError::Unauthorized)
    );
    assert_eq!(
        invoke(&env, &contract, |e| EventRegistry::set_platform_fee_with(e, 10001, true)),
        Err(RegistryError::FeeOutOfRange)
    );
    assert_eq!(invoke(&env, &contract, |e| EventRegistry::set_platform_fee_with(e, 42, true)), Ok(()));
    assert_eq!(invoke(&env, &contract, |e| EventRegistry::get_platform_fee(e)), 42);
}

#[test]
fn a_record_with_a_fee_above_the_limit_is_refused() {
    let env = new_env();
    let contract = env.register(Deployed, ());
    let organizer = Address::generate(&env);
    let payout = Address::generate(&env);
    let record = |fee: u32| EventInfo {
        event_id: text(&env, "pricey"),
        organizer_address: organizer.clone(),
        payment_address: payout.clone(),
        platform_fee_percent: fee,
        is_active: true,
        created_at: 1,
    };
    let before = snapshot(&env, &contract, &["pricey"], &[&organizer]);

    for fee in [10001u32, 20000, u32::MAX] {
        let r = invoke(&env, &contract, |e| EventRegistry::store_event(e, record(fee)));
        assert_eq!(r, Err(RegistryError::FeeOutOfRange));
        assert_eq!(snapshot(&env, &contract, &["pricey"], &[&organizer]), before);
        assert!(!invoke(&env, &contract, |e| EventRegistry::event_exists(e, text(&env, "pricey"))));
    }

    assert_eq!(invoke(&env, &contract, |e| EventRegistry::store_event(e, record(10000))), Ok(()));
    assert_eq!(
        invoke(&env, &contract, |e| EventRegistry::get_event(e, text(&env, "pricey"))),
        Some(record(10000))
    );
    // Nor does a stored record take a fee above the limit later.
    let r = invoke(&env, &contract, |e| EventRegistry::store_event(e, record(10001)));
    assert_eq!(r, Err(RegistryError::FeeOutOfRange));
    assert_eq!(
        invoke(&env, &contract, |e| EventRegistry::get_event(e, text(&env, "pricey"))),
        Some(record(10000))
    );
    assert_eq!(invoke(&env, &contract, |e| EventRegistry::store_event(e, record(0))), Ok(()));
    assert_eq!(events_of(&env, &contract, &organizer), vec![text(&env, "pricey")]);
}

#[test]
fn the_fee_needs_an_administrator_whatever_the_answer() {
    let env = new_env();
    let contract = env.register(Deployed, ());

    for proven in [false, true] {
        assert_eq!(
            invoke(&env, &contract, |e| EventRegistry::set_platform_fee_with(e, 5, proven)),
            Err(RegistryError::NotInitialized)
        );
    }
    assert!(!invoke(&env, &contract, |e| storage::has_platform_fee(e)));
    assert_eq!(env.events().all().events().len(), 0);
}

#[test]
fn status_update_is_idempotent() {
    let env = new_env();
    let contract = env.register(Deployed, ());
    let admin = Address::generate(&env);
    let organizer = Address::generate(&env);
    let payout = Address::generate(&env);
    env.mock_all_auths();
    assert_eq!(invoke(&env, &contract, |e| EventRegistry::initialize(e, admin.clone(), 500)), Ok(()));
    assert_eq!(register(&env, &contract, "e1", &organizer, &payout), Ok(()));

    for active in [false, true] {
        assert_eq!(
            invoke(&env, &contract, |e| EventRegistry::update_event_status(e, text(&env, "e1"), active)),
            Ok(())
        );
        let once = snapshot(&env, &contract, &["e1"], &[&organizer]);
        assert_eq!(
            invoke(&env, &contract, |e| EventRegistry::update_event_status(e, text(&env, "e1"), active)),
            Ok(())
        );
        assert_eq!(snapshot(&env, &contract, &["e1"], &[&organizer]), once);
        assert_eq!(
            invoke(&env, &contract, |e| EventRegistry::get_event(e, text(&env, "e1"))).unwrap().is_active,
            active
        );
    }
}

#[test]
fn records_witnesses_and_enumerations_agree() {
    let env = new_env();
    let contract = env.register(Deployed, ());
    let admin = Address::generate(&env);
    let ann = Address::generate(&env);
    let bob = Address::generate(&env);
    let idle = Address::generate(&env);
    let payout = Address::generate(&env);
    env.mock_all_auths();
    assert_eq!(invoke(&env, &contract, |e| EventRegistry::initialize(e, admin.clone(), 500)), Ok(()));
    let plan = [("a1", &ann), ("b1", &bob), ("a2", &ann), ("a3", &ann), ("b2", &bob)];
    for (id, who) in plan {
        assert_eq!(register(&env, &contract, id, who, &payout), Ok(()));
    }

    for organizer in [&ann, &bob, &idle] {
        let listed = events_of(&env, &contract, organizer);
        let count = invoke(&env, &contract, |e| storage::get_organizer_event_count(e, organizer));
        assert_eq!(listed.len() as u32, count);
        for (id, who) in plan {
            let record = invoke(&env, &contract, |e| EventRegistry::get_event(e, text(&env, id))).unwrap();
            let named = record.organizer_address == *organizer;
            assert_eq!(named, who == organizer);
            let member = invoke(&env, &contract, |e| storage::has_organizer_event(e, organizer, text(&env, id)));
            let occurrences = listed.iter().filter(|x| **x == text(&env, id)).count();
            assert_eq!(member, named);
            assert_eq!(occurrences, if named { 1 } else { 0 });
        }
    }
    assert_eq!(events_of(&env, &contract, &ann), vec![text(&env, "a1"), text(&env, "a2"), text(&env, "a3")]);
    assert_eq!(events_of(&env, &contract, &bob), vec![text(&env, "b1"), text(&env, "b2")]);
    assert_eq!(events_of(&env, &contract, &idle), Vec::<String>::new());
}

#[test]
fn shards_before_the_last_are_full() {
    let env = new_env();
    let contract = env.register(Deployed, ());
    let organizer = Address::generate(&env);
    let payout = Address::generate(&env);
    env.mock_all_auths();

    for n in 0..120u32 {
        let id = format!("e{}", n);
        assert_eq!(register(&env, &contract, &id, &organizer, &payout), Ok(()));
    }
    let count = invoke(&env, &contract, |e| storage::get_organizer_event_count(e, &organizer));
    assert_eq!(count, 120);
    let lengths: Vec<u32> = (0..4)
        .map(|s| invoke(&env, &contract, |e| storage::get_organizer_event_shard(e, &organizer, s)).len())
        .collect();
    assert_eq!(lengths, vec![50, 50, 20, 0]);
    let all = events_of(&env, &contract, &organizer);
    assert_eq!(all.len(), 120);
    let expected: Vec<String> = (0..120u32).map(|n| text(&env, &format!("e{}", n))).collect();
    assert_eq!(all, expected);
}

#[test]
fn registration_before_initialization_takes_fee_zero() {
    let env = new_env();
    let contract = env.register(Deployed, ());
    let organizer = Address::generate(&env);
    let payout = Address::generate(&env);
    env.mock_all_auths();

    assert_eq!(register(&env, &contract, "early", &organizer, &payout), Ok(()));
    assert_eq!(
        invoke(&env, &contract, |e| EventRegistry::get_event_payment_info(e, text(&env, "early"))),
        Ok(PaymentInfo {
            payment_address: payout,
            platform_fee_percent: 0,
        })
    );
}

#[test]
fn every_refusal_has_its_message() {
    assert_eq!(RegistryError::AlreadyInitialized.message(), "already initialized");
    assert_eq!(RegistryError::NotInitialized.message(), "Contract not initialized");
    assert_eq!(
        RegistryError::FeeOutOfRange.message(),
        "Fee percent must be between 0 and 10000 (100%)"
    );
    assert_eq!(RegistryError::EventAlreadyExists.message(), "Event already exists");
    assert_eq!(RegistryError::EventNotFound.message(), "Event not found");
    assert_eq!(RegistryError::Unauthorized.message(), "Unauthorized");
    assert_eq!(RegistryError::IndexFull.message(), "Organizer index is full");
}
