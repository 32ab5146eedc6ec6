use vstd::prelude::*;

use crate::error::MinterError;
use crate::model::{Address, Call, CallEnv, MinterState, is_owner, step};
use crate::schedule::{EPISODES_PER_YEAR, NUM_DECIMALS, episode_number};

verus! {

/// Tokens to create and send: `amount` is a big-endian unsigned integer.
pub struct MintOrder {
    pub to: Address,
    pub amount: Vec<u8>,
}

/// A request to the chain's system contract to issue the fungible token
/// and to give this contract all of its roles.
pub struct IssueOrder {
    pub issue_cost: Vec<u8>,
    pub token_name: Vec<u8>,
    pub token_ticker: Vec<u8>,
    pub num_decimals: usize,
}

/// Whether two addresses are the same account.
fn same_address(a: &Address, b: &Address) -> (r: bool)
    ensures
        r == (a@ == b@),
{
    let mut i: usize = 0;
    while i < 32
        invariant
            0 <= i <= 32,
            a@.len() == 32,
            b@.len() == 32,
            forall|j: int| 0 <= j < i ==> a@[j] == b@[j],
        decreases 32 - i,
    {
        if a[i] != b[i] {
            return false;
        }
        i = i + 1;
    }
    assert(a@ =~= b@);
    true
}

/// A copy of a byte string.
fn copy_bytes(v: &Vec<u8>) -> (r: Vec<u8>)
    ensures
        r@ == v@,
{
    let mut r: Vec<u8> = Vec::new();
    let mut i: usize = 0;
    while i < v.len()
        invariant
            0 <= i <= v.len(),
            r@ == v@.take(i as int),
        decreases v.len() - i,
    {
        r.push(v[i]);
        i = i + 1;
        assert(r@ =~= v@.take(i as int));
    }
    assert(v@.take(v.len() as int) =~= v@);
    r
}

/// The storage of the ECITY minter contract.
pub struct Minter {
    preminted: bool,
    even_episode_minted: bool,
    odd_episode_minted: bool,
    last_minted_episode: Option<u64>,
    router_contract: Option<Address>,
    router_locked: bool,
    vesting_start: u64,
    episode_vesting: Vec<Vec<u8>>,
}

impl View for Minter {
    type V = MinterState;

    closed spec fn view(&self) -> MinterState {
        MinterState {
            preminted: self.preminted,
            even_episode_minted: self.even_episode_minted,
            odd_episode_minted: self.odd_episode_minted,
            last_minted_episode: self.last_minted_episode,
            router_contract: self.router_contract,
            router_locked: self.router_locked,
            vesting_start: self.vesting_start,
            episode_vesting: self.episode_vesting@.map_values(|v: Vec<u8>| v@),
        }
    }
}

/// The ECITY minter contract: its endpoints and views over the contract's
/// storage, which `storage` gives as mathematical values. Each endpoint
/// either refuses the call, changing nothing, or updates the storage and
/// returns what the chain is to do.
pub trait EcityTest: Sized {
    /// The contract's storage.
    spec fn storage(&self) -> MinterState;

    /// The constructor endpoint: it stores `false` in the flags that are
    /// still empty, which read as `false` already, so nothing visible changes.
    fn init(&mut self)
        ensures
            final(self).storage() == old(self).storage(),
    ;

    /// The `episode` view: the episode that the current block falls in,
    /// counted from 1 at the vesting start.
    fn episode(&self, env: &CallEnv) -> (e: u64)
        requires
            self.storage().vesting_start <= env.timestamp,
        ensures
            e == self.storage().current_episode(env.timestamp),
            self.storage().vesting_start + (e - 1) * 1209600 <= env.timestamp,
            env.timestamp < self.storage().vesting_start + e * 1209600,
    ;

    /// The owner-only `issueToken` endpoint: asks the system contract to
    /// issue the token with 18 decimals and all roles for this contract,
    /// paying `issue_cost`. The storage of the token identifier is kept by
    /// the chain's token mapper, not here.
    fn issue_token(
        &self,
        env: &CallEnv,
        issue_cost: Vec<u8>,
        token_name: Vec<u8>,
        token_ticker: Vec<u8>,
    ) -> (r: Result<IssueOrder, MinterError>)
        ensures
            !is_owner(*env) ==> r == Err::<IssueOrder, MinterError>(MinterError::NotOwner),
            is_owner(*env) ==> r == Ok::<IssueOrder, MinterError>(
                IssueOrder { issue_cost, token_name, token_ticker, num_decimals: 18 },
            ),
            step(self.storage(), Call::IssueToken, *env) == if r is Ok {
                Some(self.storage())
            } else {
                None::<MinterState>
            },
    ;

    /// The owner-only `premint` endpoint: mints `amount` to `to` once, and
    /// starts the vesting schedule at the current block's timestamp.
    fn premint(&mut self, env: &CallEnv, amount: Vec<u8>, to: Address) -> (r: Result<
        MintOrder,
        MinterError,
    >)
        ensures
            match old(self).storage().premint_error(*env) {
                Some(e) => r == Err::<MintOrder, MinterError>(e) && final(self).storage() == old(self).storage(),
                None => {
                    &&& r == Ok::<MintOrder, MinterError>(MintOrder { to, amount })
                    &&& final(self).storage() == old(self).storage().after_premint(env.timestamp)
                },
            },
            step(old(self).storage(), Call::Premint { amount: amount@, to }, *env) == if r is Ok {
                Some(final(self).storage())
            } else {
                None::<MinterState>
            },
            is_owner(*env) && !old(self).storage().preminted ==> {
                &&& r == Ok::<MintOrder, MinterError>(MintOrder { to, amount })
                &&& final(self).storage() == (MinterState {
                    preminted: true,
                    vesting_start: env.timestamp,
                    ..old(self).storage()
                })
            },
            old(self).storage().wf() ==> final(self).storage().wf(),
    ;

    /// The owner-only `episodeVestingPush` endpoint: adds a year to the
    /// schedule, in which `amount` is minted each episode. Refused once the
    /// vesting has started.
    fn episode_vesting_push(&mut self, env: &CallEnv, amount: Vec<u8>) -> (r: Result<
        (),
        MinterError,
    >)
        ensures
            match old(self).storage().push_error(*env) {
                Some(e) => r == Err::<(), MinterError>(e) && final(self).storage() == old(self).storage(),
                None => r is Ok && final(self).storage() == old(self).storage().after_push(amount@),
            },
            step(old(self).storage(), Call::EpisodeVestingPush { amount: amount@ }, *env) == if r is Ok {
                Some(final(self).storage())
            } else {
                None::<MinterState>
            },
            is_owner(*env) && !old(self).storage().preminted ==> {
                &&& r is Ok
                &&& final(self).storage().episode_vesting.len() == old(self).storage().episode_vesting.len() + 1
                &&& final(self).storage().episode_vesting.last() == amount@
                &&& final(self).storage() == (MinterState {
                    episode_vesting: old(self).storage().episode_vesting.push(amount@),
                    ..old(self).storage()
                })
            },
            old(self).storage().wf() ==> final(self).storage().wf(),
    ;

    /// The owner-only `setRouter` endpoint: stores the router address that
    /// receives the minted tokens. Refused once the router is locked.
    fn set_router(&mut self, env: &CallEnv, router: Address) -> (r: Result<(), MinterError>)
        ensures
            match old(self).storage().set_router_error(*env) {
                Some(e) => r == Err::<(), MinterError>(e) && final(self).storage() == old(self).storage(),
                None => r is Ok && final(self).storage() == old(self).storage().after_set_router(router),
            },
            step(old(self).storage(), Call::SetRouter { router }, *env) == if r is Ok {
                Some(final(self).storage())
            } else {
                None::<MinterState>
            },
            is_owner(*env) && !old(self).storage().router_locked ==> {
                &&& r is Ok
                &&& final(self).storage() == (MinterState {
                    router_contract: Some(router),
                    ..old(self).storage()
                })
            },
            old(self).storage().wf() ==> final(self).storage().wf(),
    ;

    /// The owner-only `lockRouter` endpoint: locks the router address for
    /// good.
    fn lock_router(&mut self, env: &CallEnv) -> (r: Result<(), MinterError>)
        ensures
            match old(self).storage().lock_router_error(*env) {
                Some(e) => r == Err::<(), MinterError>(e) && final(self).storage() == old(self).storage(),
                None => r is Ok && final(self).storage() == old(self).storage().after_lock_router(),
            },
            step(old(self).storage(), Call::LockRouter, *env) == if r is Ok {
                Some(final(self).storage())
            } else {
                None::<MinterState>
            },
            is_owner(*env) ==> {
                &&& r is Ok
                &&& final(self).storage() == (MinterState {
                    router_locked: true,
                    ..old(self).storage()
                })
            },
            old(self).storage().wf() ==> final(self).storage().wf(),
    ;

    /// The `preminted` view.
    fn preminted(&self) -> (b: bool)
        ensures
            b == self.storage().preminted,
    ;

    /// The `evenEpisodeMinted` view.
    fn even_episode_minted(&self) -> (b: bool)
        ensures
            b == self.storage().even_episode_minted,
    ;

    /// The `oddEpisodeMinted` view.
    fn odd_episode_minted(&self) -> (b: bool)
        ensures
            b == self.storage().odd_episode_minted,
    ;

    /// The episode (counted from 0) of the latest mint; `None` before the
    /// first mint.
    fn last_minted_episode(&self) -> (e: Option<u64>)
        ensures
            e == self.storage().last_minted_episode,
    ;

    /// The `routerContract` view; `None` while no router was set.
    fn router_contract(&self) -> (a: Option<Address>)
        ensures
            a == self.storage().router_contract,
    ;

    /// The `routerLocked` view.
    fn router_locked(&self) -> (b: bool)
        ensures
            b == self.storage().router_locked,
    ;

    /// The `vestingStart` view: the timestamp of the premint.
    fn vesting_start(&self) -> (t: u64)
        ensures
            t == self.storage().vesting_start,
    ;

    /// The `episodeVesting` view: the amount minted per episode, year by year.
    fn episode_vesting(&self) -> (v: &Vec<Vec<u8>>)
        ensures
            v@.map_values(|a: Vec<u8>| a@) == self.storage().episode_vesting,
    ;

    /// The `mint` endpoint, open to everyone: mints the amount of the
    /// current episode, taken from the year of the schedule that the episode
    /// falls in, and sends it to the router. A mint is refused as "Episode
    /// already minted" exactly when the current episode is the one minted
    /// last; after a mint, the flag of its parity is set and the other one
    /// cleared.
    fn mint(&mut self, env: &CallEnv) -> (r: Result<MintOrder, MinterError>)
        requires
            old(self).storage().preminted ==> old(self).storage().vesting_start <= env.timestamp,
        ensures
            match old(self).storage().mint_error(env.timestamp) {
                Some(e) => r == Err::<MintOrder, MinterError>(e) && final(self).storage() == old(self).storage(),
                None => {
                    &&& r is Ok
                    &&& r->Ok_0.to == old(self).storage().router_contract->0
                    &&& r->Ok_0.amount@ == old(self).storage().mint_amount(env.timestamp)
                    &&& final(self).storage() == old(self).storage().after_mint(env.timestamp)
                },
            },
            !(old(self).storage().even_episode_minted && old(self).storage().odd_episode_minted)
                ==> !(final(self).storage().even_episode_minted
                && final(self).storage().odd_episode_minted),
            r is Ok ==> {
                let e = old(self).storage().mint_episode(env.timestamp);
                &&& final(self).storage().even_episode_minted == (e % 2 == 0)
                &&& final(self).storage().odd_episode_minted == (e % 2 == 1)
                &&& final(self).storage().last_minted_episode == Some(e as u64)
            },
            r is Ok ==> {
                &&& final(self).storage().last_minted_episode matches Some(k)
                &&& old(self).storage().vesting_start + k * 1209600 <= env.timestamp
                &&& env.timestamp < old(self).storage().vesting_start + (k + 1) * 1209600
                &&& k / 26 < old(self).storage().episode_vesting.len()
                &&& r->Ok_0.amount@ == old(self).storage().episode_vesting[(k / 26) as int]
                &&& old(self).storage().last_minted_episode != Some(k)
            },
            step(old(self).storage(), Call::Mint, *env) == if r is Ok {
                Some(final(self).storage())
            } else {
                None::<MinterState>
            },
            old(self).storage().wf() ==> final(self).storage().wf(),
    ;
}

impl Minter {
    /// The storage of a freshly deployed contract.
    pub fn new() -> (s: Self)
        ensures
            s@ == MinterState::initial(),
            s@.wf(),
    {
        let s = Minter {
            preminted: false,
            even_episode_minted: false,
            odd_episode_minted: false,
            last_minted_episode: None,
            router_contract: None,
            router_locked: false,
            vesting_start: 0,
            episode_vesting: Vec::new(),
        };
        assert(s@.episode_vesting =~= Seq::<Seq<u8>>::empty());
        s
    }

    /// The storage as read from the chain, field by field.
    pub fn from_storage(
        preminted: bool,
        even_episode_minted: bool,
        odd_episode_minted: bool,
        last_minted_episode: Option<u64>,
        router_contract: Option<Address>,
        router_locked: bool,
        vesting_start: u64,
        episode_vesting: Vec<Vec<u8>>,
    ) -> (s: Self)
        ensures
            s@ == (MinterState {
                preminted,
                even_episode_minted,
                odd_episode_minted,
                last_minted_episode,
                router_contract,
                router_locked,
                vesting_start,
                episode_vesting: episode_vesting@.map_values(|v: Vec<u8>| v@),
            }),
    {
        Minter {
            preminted,
            even_episode_minted,
            odd_episode_minted,
            last_minted_episode,
            router_contract,
            router_locked,
            vesting_start,
            episode_vesting,
        }
    }
}

impl EcityTest for Minter {
    open spec fn storage(&self) -> MinterState {
        self@
    }

    fn init(&mut self) {
    }

    fn episode(&self, env: &CallEnv) -> (e: u64) {
        episode_number(self.vesting_start, env.timestamp) + 1
    }

    fn issue_token(
        &self,
        env: &CallEnv,
        issue_cost: Vec<u8>,
        token_name: Vec<u8>,
        token_ticker: Vec<u8>,
    ) -> (r: Result<IssueOrder, MinterError>) {
        if !same_address(&env.caller, &env.owner) {
            return Err(MinterError::NotOwner);
        }
        Ok(IssueOrder { issue_cost, token_name, token_ticker, num_decimals: NUM_DECIMALS })
    }

    fn premint(&mut self, env: &CallEnv, amount: Vec<u8>, to: Address) -> (r: Result<
        MintOrder,
        MinterError,
    >) {
        if !same_address(&env.caller, &env.owner) {
            return Err(MinterError::NotOwner);
        }
        if self.preminted {
            return Err(MinterError::AlreadyPreminted);
        }
        self.preminted = true;
        self.vesting_start = env.timestamp;
        Ok(MintOrder { to, amount })
    }

    fn episode_vesting_push(&mut self, env: &CallEnv, amount: Vec<u8>) -> (r: Result<
        (),
        MinterError,
    >) {
        if !same_address(&env.caller, &env.owner) {
            return Err(MinterError::NotOwner);
        }
        if self.preminted {
            return Err(MinterError::VestingAlreadyStarted);
        }
        let ghost before = self.episode_vesting@;
        self.episode_vesting.push(amount);
        assert(self@.episode_vesting =~= before.map_values(|v: Vec<u8>| v@).push(amount@));
        Ok(())
    }

    fn set_router(&mut self, env: &CallEnv, router: Address) -> (r: Result<(), MinterError>) {
        if !same_address(&env.caller, &env.owner) {
            return Err(MinterError::NotOwner);
        }
        if self.router_locked {
            return Err(MinterError::RouterLocked);
        }
        self.router_contract = Some(router);
        Ok(())
    }

    fn lock_router(&mut self, env: &CallEnv) -> (r: Result<(), MinterError>) {
        if !same_address(&env.caller, &env.owner) {
            return Err(MinterError::NotOwner);
        }
        self.router_locked = true;
        Ok(())
    }

    fn preminted(&self) -> (b: bool) {
        self.preminted
    }

    fn even_episode_minted(&self) -> (b: bool) {
        self.even_episode_minted
    }

    fn odd_episode_minted(&self) -> (b: bool) {
        self.odd_episode_minted
    }

    fn last_minted_episode(&self) -> (e: Option<u64>) {
        self.last_minted_episode
    }

    fn router_contract(&self) -> (a: Option<Address>) {
        self.router_contract
    }

    fn router_locked(&self) -> (b: bool) {
        self.router_locked
    }

    fn vesting_start(&self) -> (t: u64) {
        self.vesting_start
    }

    fn episode_vesting(&self) -> (v: &Vec<Vec<u8>>) {
        &self.episode_vesting
    }

    fn mint(&mut self, env: &CallEnv) -> (r: Result<MintOrder, MinterError>) {
        if !self.preminted {
            return Err(MinterError::NotPreminted);
        }
        let episode = episode_number(self.vesting_start, env.timestamp);
        let year = episode / EPISODES_PER_YEAR;
        if year >= self.episode_vesting.len() as u64 {
            return Err(MinterError::MaxSupplyReached);
        }
        let even = episode % 2 == 0;
        if let Some(last) = self.last_minted_episode {
            if last == episode {
                return Err(MinterError::EpisodeAlreadyMinted);
            }
        }
        let to = match self.router_contract {
            Some(to) => to,
            None => {
                return Err(MinterError::RouterNotSet);
            },
        };
        let amount = copy_bytes(&self.episode_vesting[year as usize]);
        self.even_episode_minted = even;
        self.odd_episode_minted = !even;
        self.last_minted_episode = Some(episode);
        Ok(MintOrder { to, amount })
    }
}

} // verus!
