//! Records, errors, events, runtime constants and the ledger the registry pays through.
use crate::hashing::{CommitmentHash, NameHash};
use vstd::prelude::*;

verus! {

/// An account identity.
pub type AccountId = u64;

/// A point of the logical clock: one tick per batch of state transitions.
pub type BlockNumber = u64;

/// An amount of currency.
pub type Balance = u128;

/// A pending commit-reveal entry.
#[derive(Clone, Copy, Debug, PartialEq, Eq)]
pub struct Commitment {
    /// The account that committed and whose deposit is reserved.
    pub committer: AccountId,
    /// The account that will own the name once it is revealed.
    pub who: AccountId,
    /// When the commitment was made.
    pub when: BlockNumber,
    /// The amount reserved from the committer.
    pub deposit: Balance,
}

/// A lease on a name.
#[derive(Clone, Copy, Debug, PartialEq, Eq)]
pub struct Registration {
    pub owner: AccountId,
    pub registrant: AccountId,
    /// The lease is live while the clock is below this point.
    pub expiry: BlockNumber,
    pub deposit: Balance,
}

/// A subname under a registered parent name.
#[derive(Clone, Copy, Debug, PartialEq, Eq)]
pub struct SubNameRegistration {
    /// The hash the subname resolves under.
    pub hash: NameHash,
    /// The parent's owner when the subname was created.
    pub owner: AccountId,
    pub registrant: AccountId,
}

/// What the registry reports after each change.
#[derive(Clone, Copy, Debug, PartialEq, Eq)]
pub enum Event {
    Committed { sender: AccountId, who: AccountId, hash: CommitmentHash },
    Registered { owner: AccountId, expiry: BlockNumber, deposit: Balance },
    Transfer { from: AccountId, to: AccountId },
    Extended { name_hash: NameHash, expires: BlockNumber },
    AddressSet { name_hash: NameHash, address: AccountId },
    AddressDeregistered { name_hash: NameHash },
    SubNameRegistered { hash: NameHash, owner: AccountId },
    SubNameAddressSet { hash: NameHash, address: AccountId },
    SubNameAddressDeregistered { sub_name_hash: NameHash },
}

/// Why an operation was refused. A refused operation changes nothing.
#[derive(Clone, Copy, Debug, PartialEq, Eq)]
pub enum Error {
    /// This commitment hash is already pending.
    AlreadyCommitted,
    /// No commitment is pending under this hash.
    CommitmentNotFound,
    /// The number of registration periods is not above the minimum.
    RegistrationPeriodTooShort,
    /// No registration (or subname) exists under this hash.
    RegistrationNotFound,
    /// The caller does not own the registration.
    NotRegistrationOwner,
    /// The registration's lease has run out.
    RegistrationExpired,
    /// The registration's lease is still live.
    RegistrationNotExpired,
    /// The subname already exists.
    SubNameAlreadyRegistered,
    /// Only controller accounts may commit.
    NotControllerAccount,
    /// The name is shorter than three bytes.
    NameTooShort,
    /// The name is longer than a length prefix can state (`u32::MAX` bytes).
    NameTooLong,
    /// The ledger could not cover the amount.
    InsufficientBalance,
    /// The caller is not the registration manager.
    BadOrigin,
}

/// The balance service that commitments are reserved from and fees withdrawn from.
pub trait Ledger {
    /// Reserves `amount` of `who`'s free balance; `false` where it does not cover it.
    fn reserve(&mut self, who: AccountId, amount: Balance) -> bool;

    /// Returns up to `amount` of `who`'s reserved balance to its free balance.
    fn unreserve(&mut self, who: AccountId, amount: Balance);

    /// Withdraws `amount` from `who` as a fee and hands back the credit taken;
    /// `None` where the balance does not cover it.
    fn withdraw(&mut self, who: AccountId, amount: Balance) -> Option<Balance>;

    /// Takes a credit withdrawn as a fee.
    fn on_unbalanced(&mut self, credit: Balance);
}

/// `x`, clamped to the range of `u128`.
pub open spec fn sat_u128(x: int) -> u128 {
    if x > u128::MAX {
        u128::MAX
    } else {
        x as u128
    }
}

/// `x`, clamped to the range of `u64`.
pub open spec fn sat_u64(x: int) -> u64 {
    if x > u64::MAX {
        u64::MAX
    } else {
        x as u64
    }
}

/// The registry's constants.
#[derive(Clone, Debug)]
pub struct Config {
    /// Whether only controller accounts may commit.
    pub controllers_only: bool,
    pub controller_accounts: Vec<AccountId>,
    /// Reserved from the committer for each commitment.
    pub commitment_deposit: Balance,
    /// Registration fee of a 3-byte name.
    pub tier_three_letters: Balance,
    /// Registration fee of a 4-byte name.
    pub tier_four_letters: Balance,
    /// Registration fee of a name of 5 bytes or more.
    pub tier_default: Balance,
    /// How many blocks one registration period lasts.
    pub blocks_per_registration_period: BlockNumber,
    /// A reveal must ask for more periods than this.
    pub minimum_registration_periods: u32,
    /// The fee of one registration period.
    pub fee_per_registration_period: Balance,
}

impl Config {
    /// Whether `who` may commit.
    pub open spec fn may_commit(&self, who: AccountId) -> bool {
        !self.controllers_only || self.controller_accounts@.contains(who)
    }

    /// The flat fee of a name of `len` bytes; a name under three bytes costs
    /// the most that can be represented.
    pub open spec fn tier_fee(&self, len: int) -> u128 {
        if len < 3 {
            u128::MAX
        } else if len == 3 {
            self.tier_three_letters
        } else if len == 4 {
            self.tier_four_letters
        } else {
            self.tier_default
        }
    }

    /// The fee of `periods` registration periods.
    pub open spec fn period_fee(&self, periods: u32) -> u128 {
        sat_u128(self.fee_per_registration_period * periods)
    }

    /// The fee of registering a name of `len` bytes for `periods` periods.
    pub open spec fn name_fee(&self, len: int, periods: u32) -> u128 {
        sat_u128(self.tier_fee(len) + self.period_fee(periods))
    }

    /// How many blocks `periods` registration periods last.
    pub open spec fn lease_length(&self, periods: u32) -> u64 {
        sat_u64(periods * self.blocks_per_registration_period)
    }
}

} // verus!
