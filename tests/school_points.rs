use school_points::{Address, Env, Error, Event, SchoolPoints};

fn setup() -> (SchoolPoints, Env, Address) {
    let mut env = Env::new(100, 1_700_000_000);
    env.mock_all_auths();
    let mut client = SchoolPoints::new();
    let admin = Address::new(1);
    client
        .initialize(admin, String::from("School Points"), String::from("SPTS"))
        .unwrap();
    (client, env, admin)
}

#[test]
fn test_initialize() {
    let (client, _env, admin) = setup();
    assert_eq!(client.admin(), Ok(admin));
    assert_eq!(client.name(), Ok(String::from("School Points")));
    assert_eq!(client.symbol(), Ok(String::from("SPTS")));
    assert_eq!(client.decimals(), 0);
    assert_eq!(client.total_supply(), 0);
}

#[test]
fn test_double_initialize_fails() {
    let (mut client, _env, admin) = setup();
    let other = Address::new(99);
    let r = client.initialize(other, String::from("Other"), String::from("OTH"));
    assert_eq!(r, Err(Error::AlreadyInitialized));
    assert_eq!(client.admin(), Ok(admin));
    assert_eq!(client.name(), Ok(String::from("School Points")));
    assert_eq!(client.symbol(), Ok(String::from("SPTS")));
}

#[test]
fn test_mint_and_balance() {
    let (mut client, env, _) = setup();
    let student = Address::new(2);

    assert_eq!(client.balance(student), 0);
    client.mint(&env, student, 100_i128).unwrap();
    assert_eq!(client.balance(student), 100);
    assert_eq!(client.total_supply(), 100);

    client.mint(&env, student, 50_i128).unwrap();
    assert_eq!(client.balance(student), 150);
    assert_eq!(client.total_supply(), 150);
}

#[test]
fn test_burn_by_holder() {
    let (mut client, env, _) = setup();
    let student = Address::new(2);

    client.mint(&env, student, 200_i128).unwrap();
    client.burn(&env, student, 80_i128).unwrap();
    assert_eq!(client.balance(student), 120);
    assert_eq!(client.total_supply(), 120);
}

#[test]
fn test_burn_insufficient_balance() {
    let (mut client, env, _) = setup();
    let student = Address::new(2);

    client.mint(&env, student, 50_i128).unwrap();
    assert_eq!(client.burn(&env, student, 100_i128), Err(Error::InsufficientBalance));
    assert_eq!(client.balance(student), 50);
    assert_eq!(client.total_supply(), 50);
}

#[test]
fn test_clawback_by_admin() {
    let (mut client, env, _) = setup();
    let student = Address::new(2);

    client.mint(&env, student, 200_i128).unwrap();
    client.clawback(&env, student, 80_i128).unwrap();
    assert_eq!(client.balance(student), 120);
    assert_eq!(client.total_supply(), 120);
}

#[test]
fn test_clawback_insufficient_balance() {
    let (mut client, env, _) = setup();
    let student = Address::new(2);

    client.mint(&env, student, 50_i128).unwrap();
    assert_eq!(client.clawback(&env, student, 100_i128), Err(Error::InsufficientBalance));
    assert_eq!(client.balance(student), 50);
}

#[test]
fn test_transfer() {
    let (mut client, env, _) = setup();
    let s1 = Address::new(2);
    let s2 = Address::new(3);

    client.mint(&env, s1, 100_i128).unwrap();
    client.transfer(&env, s1, s2, 40_i128).unwrap();

    assert_eq!(client.balance(s1), 60);
    assert_eq!(client.balance(s2), 40);
    assert_eq!(client.total_supply(), 100);
}

#[test]
fn test_approve_and_transfer_from() {
    let (mut client, env, _) = setup();
    let owner = Address::new(2);
    let spender = Address::new(3);
    let recipient = Address::new(4);

    client.mint(&env, owner, 100_i128).unwrap();
    client.approve(&env, owner, spender, 50_i128, env.sequence + 1000).unwrap();
    assert_eq!(client.allowance(&env, owner, spender), 50);

    client.transfer_from(&env, spender, owner, recipient, 30_i128).unwrap();
    assert_eq!(client.balance(owner), 70);
    assert_eq!(client.balance(recipient), 30);
    assert_eq!(client.allowance(&env, owner, spender), 20);
}

#[test]
fn test_approve_and_burn_from() {
    let (mut client, env, _) = setup();
    let owner = Address::new(2);
    let spender = Address::new(3);

    client.mint(&env, owner, 100_i128).unwrap();
    client.approve(&env, owner, spender, 60_i128, env.sequence + 1000).unwrap();

    client.burn_from(&env, spender, owner, 40_i128).unwrap();
    assert_eq!(client.balance(owner), 60);
    assert_eq!(client.allowance(&env, owner, spender), 20);
    assert_eq!(client.total_supply(), 60);
}

#[test]
fn test_set_admin() {
    let (mut client, env, _) = setup();
    let new_admin = Address::new(7);

    client.set_admin(&env, new_admin).unwrap();
    assert_eq!(client.admin(), Ok(new_admin));
}

#[test]
fn test_mint_negative_amount() {
    let (mut client, env, _) = setup();
    let student = Address::new(2);
    assert_eq!(client.mint(&env, student, -10_i128), Err(Error::AmountMustBePositive));
    assert_eq!(client.balance(student), 0);
    assert_eq!(client.total_supply(), 0);
}

#[test]
fn mint_zero_is_refused() {
    let (mut client, env, _) = setup();
    assert_eq!(client.mint(&env, Address::new(2), 0), Err(Error::AmountMustBePositive));
}

#[test]
fn mint_reports_event() {
    let (mut client, env, admin) = setup();
    let to = Address::new(2);
    assert_eq!(client.mint(&env, to, 5), Ok(Event::Mint { admin, to, amount: 5 }));
}

#[test]
fn supply_tracks_a_mixed_sequence() {
    let (mut client, env, _) = setup();
    let a = Address::new(2);
    let b = Address::new(3);
    let c = Address::new(4);
    client.mint(&env, a, 300).unwrap();
    client.mint(&env, b, 50).unwrap();
    client.transfer(&env, a, c, 120).unwrap();
    client.burn(&env, b, 20).unwrap();
    client.clawback(&env, c, 20).unwrap();
    let sum = client.balance(a) + client.balance(b) + client.balance(c);
    assert_eq!(client.total_supply(), sum);
    assert_eq!(sum, 310);
    assert!(client.balance(a) >= 0 && client.balance(b) >= 0 && client.balance(c) >= 0);
}

#[test]
fn transfer_to_self_keeps_balance() {
    let (mut client, env, _) = setup();
    let a = Address::new(2);
    client.mint(&env, a, 100).unwrap();
    client.transfer(&env, a, a, 40).unwrap();
    assert_eq!(client.balance(a), 100);
    assert_eq!(client.total_supply(), 100);
}

#[test]
fn transfer_insufficient_balance_changes_nothing() {
    let (mut client, env, _) = setup();
    let a = Address::new(2);
    let b = Address::new(3);
    client.mint(&env, a, 10).unwrap();
    assert_eq!(client.transfer(&env, a, b, 11), Err(Error::InsufficientBalance));
    assert_eq!(client.balance(a), 10);
    assert_eq!(client.balance(b), 0);
}

#[test]
fn mint_overflow_is_refused() {
    let (mut client, env, _) = setup();
    let a = Address::new(2);
    client.mint(&env, a, i128::MAX).unwrap();
    assert_eq!(client.mint(&env, Address::new(3), 1), Err(Error::Overflow));
    assert_eq!(client.total_supply(), i128::MAX);
}

#[test]
fn allowance_lapses_after_expiration() {
    let (mut client, mut env, _) = setup();
    let owner = Address::new(2);
    let spender = Address::new(3);
    client.approve(&env, owner, spender, 50, 110).unwrap();
    env.set_sequence(110);
    assert_eq!(client.allowance(&env, owner, spender), 50);
    env.set_sequence(111);
    assert_eq!(client.allowance(&env, owner, spender), 0);
    env.set_sequence(110);
    assert_eq!(client.allowance(&env, owner, spender), 50);
}

#[test]
fn approve_replaces_earlier_allowance() {
    let (mut client, env, _) = setup();
    let owner = Address::new(2);
    let spender = Address::new(3);
    client.approve(&env, owner, spender, 50, 500).unwrap();
    client.approve(&env, owner, spender, 7, 500).unwrap();
    assert_eq!(client.allowance(&env, owner, spender), 7);
}

#[test]
fn approve_with_past_expiration_fails() {
    let (mut client, env, _) = setup();
    let owner = Address::new(2);
    let spender = Address::new(3);
    let r = client.approve(&env, owner, spender, 50, env.sequence - 1);
    assert_eq!(r, Err(Error::ExpirationInPast));
    assert_eq!(client.allowance(&env, owner, spender), 0);
    assert_eq!(
        client.approve(&env, owner, spender, 50, env.sequence),
        Ok(Event::Approve { from: owner, spender, amount: 50, expiration_ledger: 100 })
    );
}

#[test]
fn transfer_from_beyond_allowance_fails() {
    let (mut client, env, _) = setup();
    let owner = Address::new(2);
    let spender = Address::new(3);
    let to = Address::new(4);
    client.mint(&env, owner, 100).unwrap();
    client.approve(&env, owner, spender, 30, 1000).unwrap();
    assert_eq!(client.transfer_from(&env, spender, owner, to, 31), Err(Error::InsufficientAllowance));
    assert_eq!(client.allowance(&env, owner, spender), 30);
    assert_eq!(client.balance(owner), 100);
    client.transfer_from(&env, spender, owner, to, 30).unwrap();
    assert_eq!(client.allowance(&env, owner, spender), 0);
}

#[test]
fn transfer_from_expired_allowance_fails() {
    let (mut client, mut env, _) = setup();
    let owner = Address::new(2);
    let spender = Address::new(3);
    client.mint(&env, owner, 100).unwrap();
    client.approve(&env, owner, spender, 30, 105).unwrap();
    env.set_sequence(106);
    assert_eq!(client.transfer_from(&env, spender, owner, Address::new(4), 10), Err(Error::AllowanceExpired));
    assert_eq!(client.burn_from(&env, spender, owner, 10), Err(Error::AllowanceExpired));
}

#[test]
fn transfer_from_without_allowance_fails() {
    let (mut client, env, _) = setup();
    let owner = Address::new(2);
    client.mint(&env, owner, 100).unwrap();
    assert_eq!(client.transfer_from(&env, Address::new(3), owner, Address::new(4), 10), Err(Error::AllowanceExpired));
}

#[test]
fn burn_from_beyond_balance_keeps_allowance() {
    let (mut client, env, _) = setup();
    let owner = Address::new(2);
    let spender = Address::new(3);
    client.mint(&env, owner, 10).unwrap();
    client.approve(&env, owner, spender, 50, 1000).unwrap();
    assert_eq!(client.burn_from(&env, spender, owner, 20), Err(Error::InsufficientBalance));
    assert_eq!(client.allowance(&env, owner, spender), 50);
    assert_eq!(client.balance(owner), 10);
}

#[test]
fn operations_need_authentication() {
    let mut env = Env::new(100, 0);
    let admin = Address::new(1);
    let student = Address::new(2);
    let mut client = SchoolPoints::new();
    client.initialize(admin, String::from("P"), String::from("P")).unwrap();
    assert_eq!(client.mint(&env, student, 10), Err(Error::Unauthorized));
    env.authorize(admin);
    client.mint(&env, student, 10).unwrap();
    assert_eq!(client.burn(&env, student, 5), Err(Error::Unauthorized));
    assert_eq!(client.transfer(&env, student, admin, 5), Err(Error::Unauthorized));
    assert_eq!(client.approve(&env, student, admin, 5, 200), Err(Error::Unauthorized));
    assert_eq!(client.set_admin(&env, student), Ok(()));
    assert_eq!(client.clawback(&env, student, 5), Err(Error::Unauthorized));
    assert_eq!(client.balance(student), 10);
}

#[test]
fn uninitialized_ledger_reports_it() {
    let mut env = Env::new(1, 0);
    env.mock_all_auths();
    let mut client = SchoolPoints::new();
    assert_eq!(client.admin(), Err(Error::NotInitialized));
    assert_eq!(client.name(), Err(Error::NotInitialized));
    assert_eq!(client.mint(&env, Address::new(2), 1), Err(Error::NotInitialized));
    assert_eq!(client.set_admin(&env, Address::new(2)), Err(Error::NotInitialized));
    assert_eq!(client.total_supply(), 0);
}

#[test]
fn reads_are_repeatable() {
    let (mut client, env, admin) = setup();
    let a = Address::new(2);
    let s = Address::new(3);
    client.mint(&env, a, 42).unwrap();
    client.approve(&env, a, s, 9, 1000).unwrap();
    for _ in 0..3 {
        assert_eq!(client.balance(a), 42);
        assert_eq!(client.allowance(&env, a, s), 9);
        assert_eq!(client.admin(), Ok(admin));
        assert_eq!(client.total_supply(), 42);
    }
}

#[test]
fn error_codes_match_faults() {
    assert_eq!(Error::InsufficientBalance.code(), "insufficient_balance");
    assert_eq!(Error::AlreadyInitialized.code(), "already_initialized");
    assert_eq!(Error::ExpirationInPast.code(), "expiration_ledger_in_past");
}

#[test]
fn authentication_is_checked_before_amount() {
    let env = Env::new(100, 0);
    let admin = Address::new(1);
    let student = Address::new(2);
    let mut client = SchoolPoints::new();
    client.initialize(admin, String::from("P"), String::from("P")).unwrap();
    assert_eq!(client.mint(&env, student, 0), Err(Error::Unauthorized));
    assert_eq!(client.clawback(&env, student, -1), Err(Error::Unauthorized));
    assert_eq!(client.burn(&env, student, 0), Err(Error::Unauthorized));
    assert_eq!(client.transfer(&env, student, admin, 0), Err(Error::Unauthorized));
    assert_eq!(client.transfer_from(&env, admin, student, admin, 0), Err(Error::Unauthorized));
    assert_eq!(client.burn_from(&env, admin, student, 0), Err(Error::Unauthorized));
}

#[test]
fn amount_is_checked_before_balance_and_allowance() {
    let (mut client, env, _) = setup();
    let a = Address::new(2);
    let b = Address::new(3);
    assert_eq!(client.burn(&env, a, 0), Err(Error::AmountMustBePositive));
    assert_eq!(client.transfer(&env, a, b, -5), Err(Error::AmountMustBePositive));
    assert_eq!(client.transfer_from(&env, b, a, b, 0), Err(Error::AmountMustBePositive));
    assert_eq!(client.burn_from(&env, b, a, 0), Err(Error::AmountMustBePositive));
    assert_eq!(client.clawback(&env, a, 0), Err(Error::AmountMustBePositive));
}
