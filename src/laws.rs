//! Properties that hold across the registry's operations.
use crate::hashing::{commitment_hash_of, CommitmentHash, LabelHash, NameHash};
use crate::ledger::LedgerCall;
use crate::state::{
    commit_post, decided, key_of, lemma_deregistered_wf, reveal_post, RegistryState,
};
use crate::table::SubKey;
use crate::types::{sat_u64, AccountId, Config, Error};
use vstd::prelude::*;

verus! {

/// Two commits of the same hash, one after the other: the second fails,
/// makes no call on the ledger and changes nothing; it fails with
/// `AlreadyCommitted` wherever its sender may commit at all.
pub proof fn lemma_commit_unique(
    s0: RegistryState,
    s1: RegistryState,
    s2: RegistryState,
    sender: AccountId,
    who: AccountId,
    sender2: AccountId,
    who2: AccountId,
    h: CommitmentHash,
    r2: Result<(), Error>,
    calls0: Seq<LedgerCall>,
    calls1: Seq<LedgerCall>,
    calls2: Seq<LedgerCall>,
)
    requires
        commit_post(s0, sender, who, h, Ok(()), s1, calls0, calls1),
        commit_post(s1, sender2, who2, h, r2, s2, calls1, calls2),
    ensures
        r2.is_err(),
        s2 == s1,
        calls2 == calls1,
        s1.config.may_commit(sender2) ==> r2 == Err::<(), Error>(Error::AlreadyCommitted),
{
}

/// A reveal that succeeds, whether it registers the name or not, consumes the
/// commitment: it is gone afterwards, and revealing the same name and secret
/// again fails with `CommitmentNotFound`, calls nothing and changes nothing.
pub proof fn lemma_reveal_consumes(
    s0: RegistryState,
    s1: RegistryState,
    s2: RegistryState,
    sender: AccountId,
    sender2: AccountId,
    name: Seq<u8>,
    secret: u64,
    periods: u32,
    periods2: u32,
    r2: Result<(), Error>,
    calls0: Seq<LedgerCall>,
    calls1: Seq<LedgerCall>,
    calls2: Seq<LedgerCall>,
)
    requires
        reveal_post(s0, sender, name, secret, periods, Ok(()), s1, calls0, calls1),
        reveal_post(s1, sender2, name, secret, periods2, r2, s2, calls1, calls2),
    ensures
        !s1.commitments.contains_key(key_of(commitment_hash_of(name, secret))),
        r2 == Err::<(), Error>(Error::CommitmentNotFound),
        s2 == s1,
        calls2 == calls1,
{
    assert(s1.commitments == s0.commitments.remove(key_of(commitment_hash_of(name, secret))));
}

/// A name without a registration is available at every point of time; a
/// registered name is available exactly from its expiry on, so it stays
/// unavailable until the clock reaches its expiry and available after.
pub proof fn lemma_availability(s: RegistryState, name_hash: NameHash, t: u64, t2: u64)
    ensures
        !s.registrations.contains_key(name_hash) ==> s.available_at(name_hash, t),
        s.registrations.contains_key(name_hash) ==> (s.available_at(name_hash, t) <==> s.registrations[name_hash].expiry <= t),
        s.available_at(name_hash, t) && t <= t2 ==> s.available_at(name_hash, t2),
{
}

/// A registration made at `now` for `periods` periods leaves the name
/// unavailable at every point before its expiry, and that expiry is past
/// `now` whenever the lease has any length and the clock has room.
pub proof fn lemma_registered_unavailable(
    s: RegistryState,
    name_hash: NameHash,
    who: AccountId,
    deposit: u128,
    periods: u32,
    t: u64,
)
    ensures
        ({
            let s1 = s.registered(name_hash, who, deposit, periods);
            &&& s1.registrations[name_hash].expiry == sat_u64(s.block_number + s.config.lease_length(periods))
            &&& t < s1.registrations[name_hash].expiry ==> !s1.available_at(name_hash, t)
            &&& s.config.lease_length(periods) > 0 && s.block_number < u64::MAX ==> !s1.available(name_hash)
        }),
{
}

/// Among names of three bytes or more, a longer name never costs more when
/// the tiers are ordered; a name under three bytes costs the most that can be
/// represented, more than any tier below that.
pub proof fn lemma_fee_monotonic(c: Config, len1: int, len2: int, short: int, periods: u32)
    requires
        c.tier_three_letters >= c.tier_four_letters >= c.tier_default,
    ensures
        3 <= len1 <= len2 ==> c.name_fee(len2, periods) <= c.name_fee(len1, periods),
        3 <= len1 <= len2 ==> c.tier_fee(len2) <= c.tier_fee(len1),
        short < 3 ==> c.name_fee(short, periods) == u128::MAX,
        short < 3 && 3 <= len1 && c.tier_fee(len1) < u128::MAX ==> c.name_fee(short, periods) > c.tier_fee(len1),
        short < 3 && 3 <= len1 ==> c.name_fee(short, periods) >= c.name_fee(len1, periods),
{
}

/// Renewing a live lease extends it from its current expiry, never from the
/// present, so the new expiry is the old one plus the lease length (clamped)
/// and never earlier than the old one.
pub proof fn lemma_renew_extends(s: RegistryState, name_hash: NameHash, periods: u32)
    requires
        s.registrations.contains_key(name_hash),
        s.registrations[name_hash].expiry > s.block_number,
    ensures
        ({
            let e = s.registrations[name_hash].expiry;
            let s1 = s.renewed(name_hash, periods);
            &&& s1.registrations[name_hash].expiry == sat_u64(e + s.config.lease_length(periods))
            &&& s1.registrations[name_hash].expiry >= e
        }),
{
}

/// Deregistering a name removes its registration and resolver entry and
/// every subname under it. Afterwards no label under it has a subname, and a
/// resolver entry under the hash of any label under it remains only where
/// that hash is also the hash of a registered name or of a subname under
/// another parent, that is, only on a hash collision.
pub proof fn lemma_cascading_deletion(
    s0: RegistryState,
    s1: RegistryState,
    name_hash: NameHash,
    label: LabelHash,
)
    requires
        s0.wf(),
        decided(s0, s0.deregister_error(name_hash), s0.deregistered(name_hash), Ok(()), s1),
    ensures
        !s1.registrations.contains_key(name_hash),
        !s1.resolvers.contains_key(name_hash),
        !s1.sub_registrations.contains_key(SubKey { parent: name_hash, label }),
        ({
            let h = RegistryState::sub_hash(name_hash, label);
            s1.resolvers.contains_key(h) ==> s1.registrations.contains_key(h) || exists|k: SubKey|
                #[trigger] s1.sub_registrations.contains_key(k) && k.parent != name_hash
                    && s1.sub_registrations[k].hash == h
        }),
{
    lemma_deregistered_wf(s0, name_hash);
    let h = RegistryState::sub_hash(name_hash, label);
    if s1.resolvers.contains_key(h) && !s1.registrations.contains_key(h) {
        assert(s1.has_resolver_owner(h));
        let k = choose|k: SubKey|
            #[trigger] s1.sub_registrations.contains_key(k) && s1.sub_registrations[k].hash == h;
        assert(k.parent != name_hash);
    }
}

} // verus!
