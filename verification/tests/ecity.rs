use ecity_test::error::MinterError;
use ecity_test::minter::{EcityTest, IssueOrder, MintOrder, Minter};
use ecity_test::model::{Address, CallEnv};
use ecity_test::schedule::EPISODE_LENGTH;

const OWNER: Address = [1u8; 32];
const USER: Address = [2u8; 32];

/// The minimal big-endian bytes of `x`.
fn big(x: u128) -> Vec<u8> {
    let bytes = x.to_be_bytes();
    let first = bytes.iter().position(|b| *b != 0).unwrap_or(bytes.len());
    bytes[first..].to_vec()
}

/// The number that big-endian `bytes` stand for.
fn value(bytes: &[u8]) -> u128 {
    bytes.iter().fold(0u128, |acc, b| acc * 256 + (*b as u128))
}

fn owner_at(timestamp: u64) -> CallEnv {
    CallEnv { caller: OWNER, owner: OWNER, timestamp }
}

fn user_at(timestamp: u64) -> CallEnv {
    CallEnv { caller: USER, owner: OWNER, timestamp }
}

/// The tokens that the chain has sent to each account, by performing orders.
struct Ledger {
    balances: Vec<(Address, u128)>,
}

impl Ledger {
    fn new() -> Ledger {
        Ledger { balances: Vec::new() }
    }

    fn perform(&mut self, order: &MintOrder) {
        let amount = value(&order.amount);
        for entry in self.balances.iter_mut() {
            if entry.0 == order.to {
                entry.1 += amount;
                return;
            }
        }
        self.balances.push((order.to, amount));
    }

    fn balance(&self, who: &Address) -> u128 {
        self.balances.iter().find(|e| e.0 == *who).map(|e| e.1).unwrap_or(0)
    }
}

/// A freshly deployed contract on which the constructor has run.
fn setup() -> Minter {
    let mut contract = Minter::new();
    contract.init();
    contract
}

fn issue(contract: &Minter) -> IssueOrder {
    contract
        .issue_token(&owner_at(0), big(5000000000000000), b"ECITY".to_vec(), b"ECT".to_vec())
        .unwrap()
}

#[test]
fn deploy_test() {
    let mut contract = setup();
    contract.init();
    assert!(!contract.preminted());
    assert!(!contract.even_episode_minted());
    assert!(!contract.odd_episode_minted());
    assert!(!contract.router_locked());
}

#[test]
fn set_router() {
    let mut contract = setup();
    assert_eq!(contract.set_router(&owner_at(0), USER), Ok(()));
    assert_eq!(contract.router_contract(), Some(USER));
}

#[test]
fn add_vesting_schedule() {
    let mut contract = setup();
    assert_eq!(contract.set_router(&owner_at(0), USER), Ok(()));
    assert_eq!(contract.episode_vesting_push(&owner_at(0), big(500000000000000)), Ok(()));
    assert_eq!(contract.episode_vesting_push(&owner_at(0), big(300000000000000)), Ok(()));
    assert_eq!(contract.episode_vesting_push(&owner_at(0), big(100000000000000)), Ok(()));
    let schedule: Vec<u128> = contract.episode_vesting().iter().map(|a| value(a)).collect();
    assert_eq!(schedule, vec![500000000000000, 300000000000000, 100000000000000]);
}

#[test]
fn issue_premint_mint() {
    let mut contract = setup();
    let mut ledger = Ledger::new();
    assert_eq!(contract.set_router(&owner_at(0), USER), Ok(()));
    assert_eq!(contract.episode_vesting_push(&owner_at(0), big(100000000000000)), Ok(()));
    let order = issue(&contract);
    assert_eq!(value(&order.issue_cost), 5000000000000000);
    assert_eq!(order.token_name, b"ECITY".to_vec());
    assert_eq!(order.token_ticker, b"ECT".to_vec());
    assert_eq!(order.num_decimals, 18);

    let premint = contract.premint(&owner_at(0), big(1000000), USER).unwrap();
    ledger.perform(&premint);
    assert_eq!(ledger.balance(&USER), 1000000);

    let minted = contract.mint(&user_at(0)).unwrap();
    ledger.perform(&minted);
    assert_eq!(ledger.balance(&USER), 1000000u128 + 100000000000000u128);
}

#[test]
fn premint_twice_fail() {
    let mut contract = setup();
    assert_eq!(contract.set_router(&owner_at(0), USER), Ok(()));
    assert_eq!(contract.episode_vesting_push(&owner_at(0), big(100000000000000)), Ok(()));
    issue(&contract);
    assert!(contract.premint(&owner_at(0), big(1000000), USER).is_ok());
    let second = contract.premint(&owner_at(0), big(1000000), USER);
    assert_eq!(second.as_ref().err(), Some(&MinterError::AlreadyPreminted));
    assert_eq!(second.err().unwrap().message(), "Already preminted");
    assert!(contract.mint(&user_at(0)).is_ok());
}

#[test]
fn mint_twice_fail() {
    let mut contract = setup();
    assert_eq!(contract.set_router(&owner_at(0), USER), Ok(()));
    assert_eq!(contract.episode_vesting_push(&owner_at(0), big(100000000000000)), Ok(()));
    issue(&contract);
    assert!(contract.premint(&owner_at(0), big(1000000), USER).is_ok());
    assert!(contract.mint(&user_at(0)).is_ok());
    let second = contract.mint(&user_at(0));
    assert_eq!(second.as_ref().err(), Some(&MinterError::EpisodeAlreadyMinted));
    assert_eq!(second.err().unwrap().message(), "Episode already minted");
}

#[test]
fn full_ecity_schedule() {
    let mut contract = setup();
    let mut ledger = Ledger::new();
    let pow18 = 10u128.pow(18);
    let mut curr_time = 0u64;
    assert_eq!(contract.set_router(&owner_at(curr_time), USER), Ok(()));
    for yearly in [7115u128, 13653, 3461, 1923, 769] {
        assert_eq!(contract.episode_vesting_push(&owner_at(curr_time), big(yearly * pow18)), Ok(()));
    }
    issue(&contract);
    let premint = contract.premint(&owner_at(curr_time), big(300054 * pow18), USER).unwrap();
    ledger.perform(&premint);

    for _year in 0..5 {
        for _episode in 0..26 {
            let order = contract.mint(&user_at(curr_time)).unwrap();
            ledger.perform(&order);
            curr_time += 60 * 60 * 24 * 14;
            assert_eq!(curr_time % EPISODE_LENGTH, 0);
        }
    }
    assert_eq!(ledger.balance(&USER), 1000000 * pow18);

    let last = contract.mint(&user_at(curr_time));
    assert_eq!(last.as_ref().err(), Some(&MinterError::MaxSupplyReached));
    assert_eq!(last.err().unwrap().message(), "Max supply reached");
}
