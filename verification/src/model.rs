use vstd::prelude::*;

use crate::error::MinterError;
use crate::schedule::{episode_amount, episode_index, year_of};

verus! {

/// An account address on the chain.
pub type Address = [u8; 32];

/// What the chain tells an endpoint about the call that runs it.
pub struct CallEnv {
    /// The account that called the endpoint.
    pub caller: Address,
    /// The owner of the contract.
    pub owner: Address,
    /// The timestamp of the current block, in seconds.
    pub timestamp: u64,
}

/// The contract's storage, as mathematical values. Amounts are big-endian
/// byte strings; `episode_vesting[y]` is the amount minted in each episode
/// of year `y`, counted from 0. `last_minted_episode` is the episode
/// (counted from 0) of the latest mint; the two flags tell whether the
/// latest minted episode was even or odd.
pub struct MinterState {
    pub preminted: bool,
    pub even_episode_minted: bool,
    pub odd_episode_minted: bool,
    pub last_minted_episode: Option<u64>,
    pub router_contract: Option<Address>,
    pub router_locked: bool,
    pub vesting_start: u64,
    pub episode_vesting: Seq<Seq<u8>>,
}

/// Whether the call comes from the owner of the contract.
pub open spec fn is_owner(env: CallEnv) -> bool {
    env.caller@ == env.owner@
}

impl MinterState {
    /// The storage right after deployment.
    pub open spec fn initial() -> MinterState {
        MinterState {
            preminted: false,
            even_episode_minted: false,
            odd_episode_minted: false,
            last_minted_episode: None,
            router_contract: None,
            router_locked: false,
            vesting_start: 0,
            episode_vesting: Seq::empty(),
        }
    }

    /// What every reachable storage satisfies: the two parity flags are
    /// never both set; before the premint no episode is marked minted and
    /// the vesting start is 0; no flag is set before the first mint, and
    /// after it the flag of the latest minted episode's parity is set.
    pub open spec fn wf(self) -> bool {
        &&& !(self.even_episode_minted && self.odd_episode_minted)
        &&& !self.preminted ==> {
            &&& !self.even_episode_minted
            &&& !self.odd_episode_minted
            &&& self.last_minted_episode is None
            &&& self.vesting_start == 0
        }
        &&& match self.last_minted_episode {
            None => !self.even_episode_minted && !self.odd_episode_minted,
            Some(e) => {
                &&& self.preminted
                &&& self.even_episode_minted == (e % 2 == 0)
                &&& self.odd_episode_minted == (e % 2 == 1)
            },
        }
    }

    /// The episode that `now` falls in, counted from 1 (the `episode` view).
    pub open spec fn current_episode(self, now: u64) -> int {
        episode_index(self.vesting_start, now) + 1
    }

    /// Why `premint` is refused, if it is.
    pub open spec fn premint_error(self, env: CallEnv) -> Option<MinterError> {
        if !is_owner(env) {
            Some(MinterError::NotOwner)
        } else if self.preminted {
            Some(MinterError::AlreadyPreminted)
        } else {
            None
        }
    }

    /// The storage after a premint at `now`: the vesting starts then.
    pub open spec fn after_premint(self, now: u64) -> MinterState {
        MinterState { preminted: true, vesting_start: now, ..self }
    }

    /// Why `episodeVestingPush` is refused, if it is.
    pub open spec fn push_error(self, env: CallEnv) -> Option<MinterError> {
        if !is_owner(env) {
            Some(MinterError::NotOwner)
        } else if self.preminted {
            Some(MinterError::VestingAlreadyStarted)
        } else {
            None
        }
    }

    /// The storage after a year with per-episode `amount` is pushed.
    pub open spec fn after_push(self, amount: Seq<u8>) -> MinterState {
        MinterState { episode_vesting: self.episode_vesting.push(amount), ..self }
    }

    /// Why `setRouter` is refused, if it is.
    pub open spec fn set_router_error(self, env: CallEnv) -> Option<MinterError> {
        if !is_owner(env) {
            Some(MinterError::NotOwner)
        } else if self.router_locked {
            Some(MinterError::RouterLocked)
        } else {
            None
        }
    }

    /// The storage after the router is set to `router`.
    pub open spec fn after_set_router(self, router: Address) -> MinterState {
        MinterState { router_contract: Some(router), ..self }
    }

    /// Why `lockRouter` is refused, if it is.
    pub open spec fn lock_router_error(self, env: CallEnv) -> Option<MinterError> {
        if !is_owner(env) {
            Some(MinterError::NotOwner)
        } else {
            None
        }
    }

    /// The storage after the router is locked.
    pub open spec fn after_lock_router(self) -> MinterState {
        MinterState { router_locked: true, ..self }
    }

    /// The episode that a mint at `now` releases, counted from 0.
    pub open spec fn mint_episode(self, now: u64) -> int {
        episode_index(self.vesting_start, now)
    }

    /// The first rule that a mint at `now` breaks, in the order the
    /// contract checks them.
    pub open spec fn mint_error(self, now: u64) -> Option<MinterError> {
        let e = self.mint_episode(now);
        if !self.preminted {
            Some(MinterError::NotPreminted)
        } else if year_of(e) >= self.episode_vesting.len() {
            Some(MinterError::MaxSupplyReached)
        } else if self.last_minted_episode matches Some(last) && last == e {
            Some(MinterError::EpisodeAlreadyMinted)
        } else if self.router_contract is None {
            Some(MinterError::RouterNotSet)
        } else {
            None
        }
    }

    /// The storage after a mint at `now`: the episode is recorded as the
    /// latest minted one, its parity is marked minted and the other parity
    /// unmarked.
    pub open spec fn after_mint(self, now: u64) -> MinterState {
        let e = self.mint_episode(now);
        let even = e % 2 == 0;
        MinterState {
            even_episode_minted: even,
            odd_episode_minted: !even,
            last_minted_episode: Some(e as u64),
            ..self
        }
    }

    /// The amount that a mint at `now` releases.
    pub open spec fn mint_amount(self, now: u64) -> Seq<u8> {
        episode_amount(self.episode_vesting, self.mint_episode(now))
    }
}

/// An endpoint call, with the arguments that matter to the storage.
pub enum Call {
    Init,
    IssueToken,
    Premint { amount: Seq<u8>, to: Address },
    EpisodeVestingPush { amount: Seq<u8> },
    SetRouter { router: Address },
    LockRouter,
    Mint,
}

/// The storage after a call, or `None` where the call is refused (and the
/// storage stays as it was). This is what the endpoints of `EcityTest`
/// state of themselves.
pub open spec fn step(s: MinterState, call: Call, env: CallEnv) -> Option<MinterState> {
    match call {
        Call::Init => Some(s),
        Call::IssueToken => if is_owner(env) {
            Some(s)
        } else {
            None
        },
        Call::Premint { amount, to } => match s.premint_error(env) {
            Some(_) => None,
            None => Some(s.after_premint(env.timestamp)),
        },
        Call::EpisodeVestingPush { amount } => match s.push_error(env) {
            Some(_) => None,
            None => Some(s.after_push(amount)),
        },
        Call::SetRouter { router } => match s.set_router_error(env) {
            Some(_) => None,
            None => Some(s.after_set_router(router)),
        },
        Call::LockRouter => match s.lock_router_error(env) {
            Some(_) => None,
            None => Some(s.after_lock_router()),
        },
        Call::Mint => match s.mint_error(env.timestamp) {
            Some(_) => None,
            None => Some(s.after_mint(env.timestamp)),
        },
    }
}

/// The storage after a sequence of calls, refused ones changing nothing.
pub open spec fn run(s: MinterState, calls: Seq<(Call, CallEnv)>) -> MinterState
    decreases calls.len(),
{
    if calls.len() == 0 {
        s
    } else {
        let prev = run(s, calls.drop_last());
        match step(prev, calls.last().0, calls.last().1) {
            Some(next) => next,
            None => prev,
        }
    }
}

/// The episodes (counted from 0) released by the successful mints of a
/// sequence of calls, in order.
pub open spec fn minted(s: MinterState, calls: Seq<(Call, CallEnv)>) -> Seq<int>
    decreases calls.len(),
{
    if calls.len() == 0 {
        Seq::empty()
    } else {
        let prev = run(s, calls.drop_last());
        let earlier = minted(s, calls.drop_last());
        if calls.last().0 is Mint && step(prev, calls.last().0, calls.last().1) is Some {
            earlier.push(prev.mint_episode(calls.last().1.timestamp))
        } else {
            earlier
        }
    }
}

/// The amounts sent by the successful mints of a sequence of calls, in order.
pub open spec fn mint_payouts(s: MinterState, calls: Seq<(Call, CallEnv)>) -> Seq<Seq<u8>>
    decreases calls.len(),
{
    if calls.len() == 0 {
        Seq::empty()
    } else {
        let prev = run(s, calls.drop_last());
        let earlier = mint_payouts(s, calls.drop_last());
        if calls.last().0 is Mint && step(prev, calls.last().0, calls.last().1) is Some {
            earlier.push(prev.mint_amount(calls.last().1.timestamp))
        } else {
            earlier
        }
    }
}

/// The amounts sent by the successful premints of a sequence of calls.
pub open spec fn premint_payouts(s: MinterState, calls: Seq<(Call, CallEnv)>) -> Seq<Seq<u8>>
    decreases calls.len(),
{
    if calls.len() == 0 {
        Seq::empty()
    } else {
        let prev = run(s, calls.drop_last());
        let earlier = premint_payouts(s, calls.drop_last());
        match calls.last().0 {
            Call::Premint { amount, to } => if step(prev, calls.last().0, calls.last().1) is Some {
                earlier.push(amount)
            } else {
                earlier
            },
            _ => earlier,
        }
    }
}

/// The calls come at non-decreasing timestamps, none before the vesting
/// start of `s`.
pub open spec fn in_time_order(s: MinterState, calls: Seq<(Call, CallEnv)>) -> bool {
    &&& forall|i: int| 0 <= i < calls.len() ==> s.vesting_start <= #[trigger] calls[i].1.timestamp
    &&& forall|i: int, j: int|
        0 <= i < j < calls.len() ==> #[trigger] calls[i].1.timestamp <= #[trigger] calls[j].1.timestamp
}

} // verus!
