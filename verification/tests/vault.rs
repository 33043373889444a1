use solvent::errors::ErrorCode;
use solvent::keys::Pubkey;
use solvent::ledger::Ledger;
use solvent::registry::Registry;
use solvent::tank::Rules;

fn key(tag: u8) -> Pubkey {
    Pubkey::new([tag; 32])
}

fn program() -> Pubkey {
    key(0xF0)
}

#[test]
fn scenario_full_lifecycle() {
    let owner = key(1);
    let agent = key(2);
    let dest = key(3);
    let mut reg = Registry::new(program());
    let mut led = Ledger::new();
    led.credit(&owner, 1000).unwrap();

    let vault = reg.initialize_tank(&owner).unwrap();
    let tank = reg.get_tank(&vault).unwrap();
    assert_eq!(tank.held_balance, 0);
    assert_eq!(tank.owner, owner);
    assert_eq!(tank.agent, Pubkey::zero());
    assert_eq!(tank.rules.max_spend_per_tx, 0);

    reg.deposit_sol(&mut led, &owner, &vault, 1000).unwrap();
    assert_eq!(reg.get_tank(&vault).unwrap().held_balance, 1000);
    assert_eq!(led.balance(&owner), 0);

    reg.set_config(&owner, &vault, &agent, Rules { max_spend_per_tx: 100 }).unwrap();

    let rc = reg.agent_spend(&mut led, &agent, &vault, &dest, 100).unwrap();
    assert_eq!(rc.agent, agent);
    assert_eq!(rc.destination, dest);
    assert_eq!(rc.amount, 100);
    assert_eq!(reg.get_tank(&vault).unwrap().held_balance, 900);
    assert_eq!(led.balance(&dest), 100);

    reg.agent_spend(&mut led, &agent, &vault, &dest, 100).unwrap();
    assert_eq!(reg.get_tank(&vault).unwrap().held_balance, 800);

    let r = reg.agent_spend(&mut led, &agent, &vault, &dest, 150);
    assert_eq!(r, Err(ErrorCode::SpendingLimitExceeded));
    assert_eq!(reg.get_tank(&vault).unwrap().held_balance, 800);

    reg.set_config(&owner, &vault, &Pubkey::zero(), Rules { max_spend_per_tx: 100 }).unwrap();
    let r = reg.agent_spend(&mut led, &agent, &vault, &dest, 50);
    assert_eq!(r, Err(ErrorCode::Unauthorized));
    assert_eq!(reg.get_tank(&vault).unwrap().held_balance, 800);
}

#[test]
fn second_create_for_same_owner_fails() {
    let owner = key(4);
    let mut reg = Registry::new(program());
    let first = reg.initialize_tank(&owner);
    assert!(first.is_ok());
    let second = reg.initialize_tank(&owner);
    assert_eq!(second, Err(ErrorCode::AlreadyExists));
}

#[test]
fn derivation_is_deterministic_and_owner_specific() {
    let owner_a = key(5);
    let owner_b = key(6);
    let mut reg1 = Registry::new(program());
    let mut reg2 = Registry::new(program());
    let a1 = reg1.initialize_tank(&owner_a).unwrap();
    let a2 = reg2.initialize_tank(&owner_a).unwrap();
    assert_eq!(a1, a2);
    let b1 = reg1.initialize_tank(&owner_b).unwrap();
    assert_ne!(a1, b1);
    // The derived address is a digest, not the owner identity handed back.
    assert_ne!(a1, owner_a);
}

#[test]
fn derivation_depends_on_the_program_identity() {
    let owner = key(7);
    let mut reg1 = Registry::new(key(0xA0));
    let mut reg2 = Registry::new(key(0xB0));
    let a1 = reg1.initialize_tank(&owner).unwrap();
    let a2 = reg2.initialize_tank(&owner).unwrap();
    assert_ne!(a1, a2);
}

#[test]
fn deposit_by_non_owner_is_refused() {
    let owner = key(8);
    let other = key(9);
    let mut reg = Registry::new(program());
    let mut led = Ledger::new();
    led.credit(&other, 500).unwrap();
    let vault = reg.initialize_tank(&owner).unwrap();
    let r = reg.deposit_sol(&mut led, &other, &vault, 100);
    assert_eq!(r, Err(ErrorCode::AddressMismatch));
    assert_eq!(reg.get_tank(&vault).unwrap().held_balance, 0);
    assert_eq!(led.balance(&other), 500);
}

#[test]
fn deposit_without_external_funds_is_refused() {
    let owner = key(10);
    let mut reg = Registry::new(program());
    let mut led = Ledger::new();
    led.credit(&owner, 99).unwrap();
    let vault = reg.initialize_tank(&owner).unwrap();
    let r = reg.deposit_sol(&mut led, &owner, &vault, 100);
    assert_eq!(r, Err(ErrorCode::InsufficientFunds));
    assert_eq!(reg.get_tank(&vault).unwrap().held_balance, 0);
    assert_eq!(led.balance(&owner), 99);
}

#[test]
fn deposit_overflowing_the_vault_is_refused() {
    let owner = key(11);
    let mut reg = Registry::new(program());
    let mut led = Ledger::new();
    led.credit(&owner, u64::MAX).unwrap();
    let vault = reg.initialize_tank(&owner).unwrap();
    reg.deposit_sol(&mut led, &owner, &vault, u64::MAX).unwrap();
    led.credit(&owner, 1).unwrap();
    let r = reg.deposit_sol(&mut led, &owner, &vault, 1);
    assert_eq!(r, Err(ErrorCode::ArithmeticOverflow));
    assert_eq!(reg.get_tank(&vault).unwrap().held_balance, u64::MAX);
    assert_eq!(led.balance(&owner), 1);
}

#[test]
fn deposit_into_unknown_vault_is_refused() {
    let owner = key(12);
    let mut reg = Registry::new(program());
    let mut led = Ledger::new();
    led.credit(&owner, 100).unwrap();
    let bogus = key(13);
    let r = reg.deposit_sol(&mut led, &owner, &bogus, 50);
    assert_eq!(r, Err(ErrorCode::AddressMismatch));
    assert_eq!(led.balance(&owner), 100);
}

#[test]
fn set_config_by_non_owner_is_refused() {
    let owner = key(14);
    let intruder = key(15);
    let agent = key(16);
    let mut reg = Registry::new(program());
    let vault = reg.initialize_tank(&owner).unwrap();
    let r = reg.set_config(&intruder, &vault, &agent, Rules { max_spend_per_tx: 7 });
    assert_eq!(r, Err(ErrorCode::Unauthorized));
    assert_eq!(reg.get_tank(&vault).unwrap().agent, Pubkey::zero());
    assert_eq!(reg.get_tank(&vault).unwrap().rules.max_spend_per_tx, 0);
}

#[test]
fn unconfigured_agent_authorizes_nobody() {
    let owner = key(17);
    let dest = key(18);
    let mut reg = Registry::new(program());
    let mut led = Ledger::new();
    led.credit(&owner, 10).unwrap();
    let vault = reg.initialize_tank(&owner).unwrap();
    reg.deposit_sol(&mut led, &owner, &vault, 10).unwrap();
    // Nobody matches a fresh vault's agent, not even the zero sentinel.
    let r = reg.agent_spend(&mut led, &owner, &vault, &dest, 0);
    assert_eq!(r, Err(ErrorCode::Unauthorized));
    let r = reg.agent_spend(&mut led, &Pubkey::zero(), &vault, &dest, 0);
    assert_eq!(r, Err(ErrorCode::Unauthorized));
}

#[test]
fn spend_at_the_cap_succeeds_and_above_it_fails() {
    let owner = key(19);
    let agent = key(20);
    let dest = key(21);
    let mut reg = Registry::new(program());
    let mut led = Ledger::new();
    led.credit(&owner, 50).unwrap();
    let vault = reg.initialize_tank(&owner).unwrap();
    reg.deposit_sol(&mut led, &owner, &vault, 50).unwrap();
    reg.set_config(&owner, &vault, &agent, Rules { max_spend_per_tx: 5 }).unwrap();
    let r = reg.agent_spend(&mut led, &agent, &vault, &dest, 6);
    assert_eq!(r, Err(ErrorCode::SpendingLimitExceeded));
    assert!(reg.agent_spend(&mut led, &agent, &vault, &dest, 5).is_ok());
    assert_eq!(led.balance(&dest), 5);
    assert_eq!(reg.get_tank(&vault).unwrap().held_balance, 45);
}

#[test]
fn spend_above_held_balance_is_refused() {
    let owner = key(22);
    let agent = key(23);
    let dest = key(24);
    let mut reg = Registry::new(program());
    let mut led = Ledger::new();
    led.credit(&owner, 30).unwrap();
    let vault = reg.initialize_tank(&owner).unwrap();
    reg.deposit_sol(&mut led, &owner, &vault, 30).unwrap();
    reg.set_config(&owner, &vault, &agent, Rules { max_spend_per_tx: 1000 }).unwrap();
    let r = reg.agent_spend(&mut led, &agent, &vault, &dest, 31);
    assert_eq!(r, Err(ErrorCode::InsufficientFunds));
    assert_eq!(reg.get_tank(&vault).unwrap().held_balance, 30);
    assert_eq!(led.balance(&dest), 0);
}

#[test]
fn spend_overflowing_the_destination_moves_nothing() {
    let owner = key(25);
    let agent = key(26);
    let dest = key(27);
    let mut reg = Registry::new(program());
    let mut led = Ledger::new();
    led.credit(&owner, 10).unwrap();
    led.credit(&dest, u64::MAX).unwrap();
    let vault = reg.initialize_tank(&owner).unwrap();
    reg.deposit_sol(&mut led, &owner, &vault, 10).unwrap();
    reg.set_config(&owner, &vault, &agent, Rules { max_spend_per_tx: 10 }).unwrap();
    let r = reg.agent_spend(&mut led, &agent, &vault, &dest, 1);
    assert_eq!(r, Err(ErrorCode::ArithmeticOverflow));
    assert_eq!(reg.get_tank(&vault).unwrap().held_balance, 10);
    assert_eq!(led.balance(&dest), u64::MAX);
}

#[test]
fn spend_on_unknown_vault_is_refused() {
    let agent = key(28);
    let dest = key(29);
    let mut reg = Registry::new(program());
    let mut led = Ledger::new();
    let bogus = key(30);
    let r = reg.agent_spend(&mut led, &agent, &bogus, &dest, 1);
    assert_eq!(r, Err(ErrorCode::AddressMismatch));
}

#[test]
fn revocation_is_effective_for_the_next_call() {
    let owner = key(31);
    let first_agent = key(32);
    let second_agent = key(33);
    let dest = key(34);
    let mut reg = Registry::new(program());
    let mut led = Ledger::new();
    led.credit(&owner, 100).unwrap();
    let vault = reg.initialize_tank(&owner).unwrap();
    reg.deposit_sol(&mut led, &owner, &vault, 100).unwrap();
    reg.set_config(&owner, &vault, &first_agent, Rules { max_spend_per_tx: 10 }).unwrap();
    assert!(reg.agent_spend(&mut led, &first_agent, &vault, &dest, 10).is_ok());
    reg.set_config(&owner, &vault, &second_agent, Rules { max_spend_per_tx: 10 }).unwrap();
    let r = reg.agent_spend(&mut led, &first_agent, &vault, &dest, 10);
    assert_eq!(r, Err(ErrorCode::Unauthorized));
    assert!(reg.agent_spend(&mut led, &second_agent, &vault, &dest, 10).is_ok());
    assert_eq!(reg.get_tank(&vault).unwrap().held_balance, 80);
}

#[test]
fn ledger_credit_and_withdraw_are_checked() {
    let a = key(35);
    let mut led = Ledger::new();
    assert_eq!(led.balance(&a), 0);
    led.credit(&a, 40).unwrap();
    assert_eq!(led.balance(&a), 40);
    assert_eq!(led.withdraw(&a, 41), Err(ErrorCode::InsufficientFunds));
    led.withdraw(&a, 40).unwrap();
    assert_eq!(led.balance(&a), 0);
    led.credit(&a, u64::MAX).unwrap();
    assert_eq!(led.credit(&a, 1), Err(ErrorCode::ArithmeticOverflow));
    assert_eq!(led.balance(&a), u64::MAX);
}

#[test]
fn balance_conservation_over_a_mixed_run() {
    let owner = key(36);
    let agent = key(37);
    let dest = key(38);
    let mut reg = Registry::new(program());
    let mut led = Ledger::new();
    led.credit(&owner, 1000).unwrap();
    let vault = reg.initialize_tank(&owner).unwrap();
    reg.set_config(&owner, &vault, &agent, Rules { max_spend_per_tx: 60 }).unwrap();
    reg.deposit_sol(&mut led, &owner, &vault, 300).unwrap();
    reg.agent_spend(&mut led, &agent, &vault, &dest, 50).unwrap();
    reg.deposit_sol(&mut led, &owner, &vault, 200).unwrap();
    // Failures contribute nothing.
    assert!(reg.agent_spend(&mut led, &agent, &vault, &dest, 61).is_err());
    assert!(reg.deposit_sol(&mut led, &owner, &vault, 10_000).is_err());
    reg.agent_spend(&mut led, &agent, &vault, &dest, 60).unwrap();
    // 300 + 200 deposited, 50 + 60 spent.
    assert_eq!(reg.get_tank(&vault).unwrap().held_balance, 390);
    assert_eq!(led.balance(&dest), 110);
    assert_eq!(led.balance(&owner), 500);
}
