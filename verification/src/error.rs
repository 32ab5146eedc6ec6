use vstd::prelude::*;

verus! {

/// Why an endpoint call is refused. A refused call changes nothing.
#[derive(Clone, Copy, Debug, PartialEq, Eq, Structural)]
pub enum MinterError {
    /// An owner-only endpoint was called by another account.
    NotOwner,
    /// `premint` was called a second time.
    AlreadyPreminted,
    /// A year was pushed onto the schedule after the premint.
    VestingAlreadyStarted,
    /// The router was changed after it was locked.
    RouterLocked,
    /// `mint` was called before the premint.
    NotPreminted,
    /// Every year of the schedule has been released.
    MaxSupplyReached,
    /// The current episode was already minted.
    EpisodeAlreadyMinted,
    /// `mint` was called while no router address was stored.
    RouterNotSet,
}

impl MinterError {
    /// The error message that the contract signals for this refusal.
    pub fn message(&self) -> (m: &'static str)
        ensures
            *self == MinterError::NotOwner ==> m@ == "Endpoint can only be called by owner"@,
            *self == MinterError::AlreadyPreminted ==> m@ == "Already preminted"@,
            *self == MinterError::VestingAlreadyStarted ==> m@ == "Vesting already started"@,
            *self == MinterError::RouterLocked ==> m@ == "Router locked"@,
            *self == MinterError::NotPreminted ==> m@ == "Not preminted yet."@,
            *self == MinterError::MaxSupplyReached ==> m@ == "Max supply reached"@,
            *self == MinterError::EpisodeAlreadyMinted ==> m@ == "Episode already minted"@,
            *self == MinterError::RouterNotSet ==> m@ == "storage decode error: bad array length"@,
    {
        match self {
            MinterError::NotOwner => "Endpoint can only be called by owner",
            MinterError::AlreadyPreminted => "Already preminted",
            MinterError::VestingAlreadyStarted => "Vesting already started",
            MinterError::RouterLocked => "Router locked",
            MinterError::NotPreminted => "Not preminted yet.",
            MinterError::MaxSupplyReached => "Max supply reached",
            MinterError::EpisodeAlreadyMinted => "Episode already minted",
            MinterError::RouterNotSet => "storage decode error: bad array length",
        }
    }
}

} // verus!
