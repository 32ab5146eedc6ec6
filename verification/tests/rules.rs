use ecity_test::error::MinterError;
use ecity_test::minter::{EcityTest, Minter};
use ecity_test::model::{Address, CallEnv};
use ecity_test::schedule::{EPISODE_LENGTH, EPISODES_PER_YEAR, NUM_DECIMALS, episode_number};

const OWNER: Address = [7u8; 32];
const STRANGER: Address = [8u8; 32];
const ROUTER: Address = [9u8; 32];
const OTHER_ROUTER: Address = [10u8; 32];

fn owner_at(timestamp: u64) -> CallEnv {
    CallEnv { caller: OWNER, owner: OWNER, timestamp }
}

fn stranger_at(timestamp: u64) -> CallEnv {
    CallEnv { caller: STRANGER, owner: OWNER, timestamp }
}

/// A contract with a router and a two-year schedule (amounts 1 and 2),
/// preminted at `start`.
fn preminted_at(start: u64) -> Minter {
    let mut c = Minter::new();
    c.set_router(&owner_at(0), ROUTER).unwrap();
    c.episode_vesting_push(&owner_at(0), vec![1]).unwrap();
    c.episode_vesting_push(&owner_at(0), vec![2]).unwrap();
    c.premint(&owner_at(start), vec![3], ROUTER).unwrap();
    c
}

#[test]
fn constants_have_their_values() {
    assert_eq!(EPISODE_LENGTH, 14 * 24 * 60 * 60);
    assert_eq!(EPISODES_PER_YEAR, 26);
    assert_eq!(NUM_DECIMALS, 18);
}

#[test]
fn episode_number_counts_whole_episodes() {
    assert_eq!(episode_number(100, 100), 0);
    assert_eq!(episode_number(100, 100 + EPISODE_LENGTH - 1), 0);
    assert_eq!(episode_number(100, 100 + EPISODE_LENGTH), 1);
    assert_eq!(episode_number(0, 5 * EPISODE_LENGTH + 17), 5);
}

#[test]
fn episode_view_counts_from_one() {
    let c = preminted_at(1000);
    assert_eq!(c.vesting_start(), 1000);
    assert_eq!(c.episode(&stranger_at(1000)), 1);
    assert_eq!(c.episode(&stranger_at(1000 + 3 * EPISODE_LENGTH)), 4);
    let fresh = Minter::new();
    assert_eq!(fresh.episode(&stranger_at(2 * EPISODE_LENGTH)), 3);
}

#[test]
fn owner_only_endpoints_refuse_others() {
    let mut c = Minter::new();
    assert_eq!(c.set_router(&stranger_at(0), ROUTER), Err(MinterError::NotOwner));
    assert_eq!(c.episode_vesting_push(&stranger_at(0), vec![1]), Err(MinterError::NotOwner));
    assert_eq!(c.lock_router(&stranger_at(0)), Err(MinterError::NotOwner));
    assert_eq!(c.premint(&stranger_at(0), vec![1], ROUTER).err(), Some(MinterError::NotOwner));
    assert_eq!(
        c.issue_token(&stranger_at(0), vec![1], b"A".to_vec(), b"B".to_vec()).err(),
        Some(MinterError::NotOwner)
    );
    assert_eq!(MinterError::NotOwner.message(), "Endpoint can only be called by owner");
    assert_eq!(c.router_contract(), None);
    assert!(c.episode_vesting().is_empty());
    assert!(!c.router_locked());
    assert!(!c.preminted());
}

#[test]
fn schedule_is_frozen_after_premint() {
    let mut c = preminted_at(0);
    assert_eq!(c.episode_vesting_push(&owner_at(0), vec![5]), Err(MinterError::VestingAlreadyStarted));
    assert_eq!(MinterError::VestingAlreadyStarted.message(), "Vesting already started");
    assert_eq!(c.episode_vesting().len(), 2);
}

#[test]
fn router_lock_is_irreversible() {
    let mut c = Minter::new();
    assert_eq!(c.set_router(&owner_at(0), ROUTER), Ok(()));
    assert_eq!(c.set_router(&owner_at(0), OTHER_ROUTER), Ok(()));
    assert_eq!(c.router_contract(), Some(OTHER_ROUTER));
    assert_eq!(c.lock_router(&owner_at(0)), Ok(()));
    assert!(c.router_locked());
    assert_eq!(c.set_router(&owner_at(0), ROUTER), Err(MinterError::RouterLocked));
    assert_eq!(MinterError::RouterLocked.message(), "Router locked");
    assert_eq!(c.lock_router(&owner_at(0)), Ok(()));
    assert_eq!(c.router_contract(), Some(OTHER_ROUTER));
}

#[test]
fn mint_before_premint_is_refused() {
    let mut c = Minter::new();
    c.set_router(&owner_at(0), ROUTER).unwrap();
    c.episode_vesting_push(&owner_at(0), vec![1]).unwrap();
    assert_eq!(c.mint(&stranger_at(0)).err(), Some(MinterError::NotPreminted));
    assert_eq!(MinterError::NotPreminted.message(), "Not preminted yet.");
    assert!(!c.even_episode_minted());
}

#[test]
fn mint_without_router_is_refused() {
    let mut c = Minter::new();
    c.episode_vesting_push(&owner_at(0), vec![1]).unwrap();
    c.premint(&owner_at(0), vec![1], ROUTER).unwrap();
    assert_eq!(c.mint(&stranger_at(0)).err(), Some(MinterError::RouterNotSet));
    assert_eq!(MinterError::RouterNotSet.message(), "storage decode error: bad array length");
    assert!(!c.even_episode_minted());
}

#[test]
fn mint_with_empty_schedule_reaches_max_supply() {
    let mut c = Minter::new();
    c.set_router(&owner_at(0), ROUTER).unwrap();
    c.premint(&owner_at(0), vec![1], ROUTER).unwrap();
    assert_eq!(c.mint(&stranger_at(0)).err(), Some(MinterError::MaxSupplyReached));
}

#[test]
fn mint_releases_the_amount_of_the_episode_year() {
    let mut c = preminted_at(500);
    let first = c.mint(&stranger_at(500)).unwrap();
    assert_eq!(first.to, ROUTER);
    assert_eq!(first.amount, vec![1]);
    assert!(c.even_episode_minted());
    assert!(!c.odd_episode_minted());
    let last_of_first_year = c.mint(&stranger_at(500 + 25 * EPISODE_LENGTH)).unwrap();
    assert_eq!(last_of_first_year.amount, vec![1]);
    assert!(!c.even_episode_minted());
    assert!(c.odd_episode_minted());
    let first_of_second_year = c.mint(&stranger_at(500 + 26 * EPISODE_LENGTH)).unwrap();
    assert_eq!(first_of_second_year.amount, vec![2]);
    assert_eq!(
        c.mint(&stranger_at(500 + 52 * EPISODE_LENGTH)).err(),
        Some(MinterError::MaxSupplyReached)
    );
}

#[test]
fn each_episode_is_minted_once() {
    let mut c = preminted_at(0);
    assert!(c.mint(&stranger_at(0)).is_ok());
    assert_eq!(
        c.mint(&stranger_at(EPISODE_LENGTH - 1)).err(),
        Some(MinterError::EpisodeAlreadyMinted)
    );
    assert!(c.mint(&stranger_at(EPISODE_LENGTH)).is_ok());
    assert_eq!(
        c.mint(&stranger_at(EPISODE_LENGTH + 10)).err(),
        Some(MinterError::EpisodeAlreadyMinted)
    );
}

#[test]
fn a_skipped_episode_leaves_the_next_one_mintable() {
    let mut c = preminted_at(0);
    assert!(c.mint(&stranger_at(0)).is_ok());
    assert_eq!(c.last_minted_episode(), Some(0));
    let order = c.mint(&stranger_at(2 * EPISODE_LENGTH)).unwrap();
    assert_eq!(order.amount, vec![1]);
    assert_eq!(c.last_minted_episode(), Some(2));
    assert!(c.even_episode_minted());
    assert!(!c.odd_episode_minted());
    assert_eq!(
        c.mint(&stranger_at(2 * EPISODE_LENGTH + 5)).err(),
        Some(MinterError::EpisodeAlreadyMinted)
    );
    assert!(c.mint(&stranger_at(3 * EPISODE_LENGTH)).is_ok());
    assert!(!c.even_episode_minted());
    assert!(c.odd_episode_minted());
}

#[test]
fn minted_total_stays_within_the_schedule() {
    let mut c = preminted_at(0);
    let mut total: u32 = 0;
    for k in [0u64, 0, 3, 7, 7, 8, 30, 51, 51, 52, 60] {
        if let Ok(order) = c.mint(&stranger_at(k * EPISODE_LENGTH)) {
            total += order.amount.iter().map(|b| *b as u32).sum::<u32>();
        }
    }
    assert_eq!(total, 1 + 1 + 1 + 1 + 2 + 2);
    assert!(total <= 26 * (1 + 2));
}

#[test]
fn refused_premint_keeps_the_vesting_start() {
    let mut c = preminted_at(42);
    assert_eq!(c.premint(&owner_at(99), vec![1], ROUTER).err(), Some(MinterError::AlreadyPreminted));
    assert_eq!(c.vesting_start(), 42);
    assert!(c.preminted());
}

#[test]
fn issue_token_passes_its_arguments() {
    let c = Minter::new();
    let order = c.issue_token(&owner_at(0), vec![1, 2], b"NAME".to_vec(), b"TCK".to_vec()).unwrap();
    assert_eq!(order.issue_cost, vec![1, 2]);
    assert_eq!(order.token_name, b"NAME".to_vec());
    assert_eq!(order.token_ticker, b"TCK".to_vec());
    assert_eq!(order.num_decimals, 18);
}

#[test]
fn premint_sends_its_amount_to_its_address() {
    let mut c = Minter::new();
    let order = c.premint(&owner_at(7), vec![4, 0], OTHER_ROUTER).unwrap();
    assert_eq!(order.to, OTHER_ROUTER);
    assert_eq!(order.amount, vec![4, 0]);
    assert!(c.preminted());
    assert_eq!(c.vesting_start(), 7);
}

#[test]
fn storage_read_back_decides_as_before() {
    let mut c = Minter::from_storage(true, true, false, Some(0), Some(ROUTER), true, 100, vec![vec![9]]);
    assert!(c.preminted());
    assert!(c.even_episode_minted());
    assert!(!c.odd_episode_minted());
    assert_eq!(c.last_minted_episode(), Some(0));
    assert_eq!(c.router_contract(), Some(ROUTER));
    assert!(c.router_locked());
    assert_eq!(c.vesting_start(), 100);
    assert_eq!(c.episode_vesting(), &vec![vec![9u8]]);
    assert_eq!(c.mint(&stranger_at(100)).err(), Some(MinterError::EpisodeAlreadyMinted));
    let order = c.mint(&stranger_at(100 + EPISODE_LENGTH)).unwrap();
    assert_eq!(order.amount, vec![9]);
    assert_eq!(c.set_router(&owner_at(0), OTHER_ROUTER), Err(MinterError::RouterLocked));
}
