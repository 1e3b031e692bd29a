//! The registry's abstract state, and what each operation does to it.
use crate::hashing::{
    commitment_hash_of, name_hash_of, sub_name_hash_of, CommitmentHash, LabelHash, NameHash,
};
use crate::table::SubKey;
use crate::ledger::LedgerCall;
use crate::types::{
    sat_u64, AccountId, Balance, BlockNumber, Commitment, Config, Error, Event, Registration,
    SubNameRegistration,
};
use vstd::prelude::*;

verus! {

/// The 32-byte hash whose bytes are `s`.
pub open spec fn key_of(s: Seq<u8>) -> [u8; 32] {
    choose|a: [u8; 32]| a@ == s
}

/// A hash is the key of its own bytes.
pub proof fn lemma_key_of(a: [u8; 32])
    ensures
        key_of(a@) == a,
{
    let b = key_of(a@);
    assert(b@ == a@);
    assert forall|i: int| 0 <= i < 32 implies b[i] == a[i] by {
        assert(b@[i] == a@[i]);
    };
    assert(b =~= a);
}

/// Well-formedness survives a change that keeps the subnames and drops no registration.
pub proof fn lemma_wf_kept(pre: RegistryState, post: RegistryState)
    requires
        pre.wf(),
        post.sub_registrations == pre.sub_registrations,
        post.resolvers == pre.resolvers,
        forall|h: NameHash| #[trigger]
            pre.registrations.contains_key(h) ==> post.registrations.contains_key(h),
    ensures
        post.wf(),
{
    assert forall|k: SubKey| #[trigger] post.sub_registrations.contains_key(k) implies post.registrations.contains_key(k.parent) by {
        assert(pre.registrations.contains_key(k.parent));
    };
    assert forall|h: NameHash| #[trigger] post.resolvers.contains_key(h) implies post.has_resolver_owner(h) by {
        assert(pre.resolvers.contains_key(h));
        if pre.registrations.contains_key(h) {
            assert(post.registrations.contains_key(h));
        } else {
            let k = choose|k: SubKey|
                #[trigger] pre.sub_registrations.contains_key(k) && pre.sub_registrations[k].hash == h;
            assert(post.sub_registrations.contains_key(k));
        }
    };
}

/// Well-formedness survives setting a resolver entry for a hash that has an owner.
pub proof fn lemma_wf_resolver_set(pre: RegistryState, post: RegistryState, h: NameHash, a: AccountId)
    requires
        pre.wf(),
        pre.has_resolver_owner(h),
        post == (RegistryState { resolvers: pre.resolvers.insert(h, a), ..pre }),
    ensures
        post.wf(),
{
    assert forall|h2: NameHash| #[trigger] post.resolvers.contains_key(h2) implies post.has_resolver_owner(h2) by {
        if h2 != h {
            assert(pre.resolvers.contains_key(h2));
        }
        assert(pre.has_resolver_owner(h2));
        if !pre.registrations.contains_key(h2) {
            let k = choose|k: SubKey|
                #[trigger] pre.sub_registrations.contains_key(k) && pre.sub_registrations[k].hash == h2;
            assert(post.sub_registrations.contains_key(k));
        }
    };
}

/// Deregistering a name keeps the registry well formed.
pub proof fn lemma_deregistered_wf(s: RegistryState, name_hash: NameHash)
    requires
        s.wf(),
    ensures
        s.deregistered(name_hash).wf(),
{
    let t = s.deregistered(name_hash);
    assert forall|k: SubKey| #[trigger] t.sub_registrations.contains_key(k) implies t.registrations.contains_key(k.parent)
        && t.sub_registrations[k].hash == RegistryState::sub_hash(k.parent, k.label) by {
        assert(s.sub_registrations.contains_key(k));
    };
    assert forall|h: NameHash| #[trigger] t.resolvers.contains_key(h) implies t.has_resolver_owner(h) by {
        assert(s.resolvers.contains_key(h));
        if !s.registrations.contains_key(h) {
            let k = choose|k: SubKey|
                #[trigger] s.sub_registrations.contains_key(k) && s.sub_registrations[k].hash == h;
            if k.parent == name_hash {
                assert(s.is_sub_hash_of(name_hash, h));
            } else {
                assert(t.sub_registrations.contains_key(k));
            }
        }
    };
}

/// The four stores, the clock, the constants and the events emitted so far.
pub struct RegistryState {
    pub config: Config,
    pub block_number: BlockNumber,
    pub commitments: Map<CommitmentHash, Commitment>,
    pub registrations: Map<NameHash, Registration>,
    pub sub_registrations: Map<SubKey, SubNameRegistration>,
    pub resolvers: Map<NameHash, AccountId>,
    pub events: Seq<Event>,
}

impl RegistryState {
    /// Whether `h` is the hash of a registered name or of a registered subname.
    pub open spec fn has_resolver_owner(&self, h: NameHash) -> bool {
        self.registrations.contains_key(h) || exists|k: SubKey|
            #[trigger] self.sub_registrations.contains_key(k) && self.sub_registrations[k].hash == h
    }

    /// A subname exists only while its parent's registration does, and
    /// resolves under the hash derived from its key; a resolver entry exists
    /// only for a registered name or subname.
    pub open spec fn wf(&self) -> bool {
        &&& forall|k: SubKey| #[trigger]
            self.sub_registrations.contains_key(k) ==> self.registrations.contains_key(k.parent)
                && self.sub_registrations[k].hash == Self::sub_hash(k.parent, k.label)
        &&& forall|h: NameHash| #[trigger]
            self.resolvers.contains_key(h) ==> self.has_resolver_owner(h)
    }

    /// A name is available at `now` when it has no registration, or its lease has run out.
    pub open spec fn available_at(&self, name_hash: NameHash, now: BlockNumber) -> bool {
        !self.registrations.contains_key(name_hash) || self.registrations[name_hash].expiry
            <= now
    }

    pub open spec fn available(&self, name_hash: NameHash) -> bool {
        self.available_at(name_hash, self.block_number)
    }

    /// `self` with one more event.
    pub open spec fn emit(self, e: Event) -> RegistryState {
        RegistryState { events: self.events.push(e), ..self }
    }

    /// Why `sender` may not commit `hash`, if it may not.
    pub open spec fn commit_error(&self, sender: AccountId, hash: CommitmentHash) -> Option<
        Error,
    > {
        if !self.config.may_commit(sender) {
            Some(Error::NotControllerAccount)
        } else if self.commitments.contains_key(hash) {
            Some(Error::AlreadyCommitted)
        } else {
            None
        }
    }

    /// The state after `sender` commits `hash` on behalf of `who`.
    pub open spec fn committed(self, sender: AccountId, who: AccountId, hash: CommitmentHash) -> RegistryState {
        let c = Commitment {
            committer: sender,
            who,
            when: self.block_number,
            deposit: self.config.commitment_deposit,
        };
        RegistryState { commitments: self.commitments.insert(hash, c), ..self }.emit(
            Event::Committed { sender, who, hash },
        )
    }

    /// The state after `name_hash` is registered to `who` for `periods` periods.
    pub open spec fn registered(
        self,
        name_hash: NameHash,
        who: AccountId,
        deposit: u128,
        periods: u32,
    ) -> RegistryState {
        let expiry = sat_u64(self.block_number + self.config.lease_length(periods));
        let r = Registration { owner: who, registrant: who, expiry, deposit };
        RegistryState { registrations: self.registrations.insert(name_hash, r), ..self }.emit(
            Event::Registered { owner: who, expiry, deposit },
        )
    }

    /// Why a reveal of `(name, secret)` for `periods` periods is refused, if it is.
    pub open spec fn reveal_error(&self, name: Seq<u8>, secret: u64, periods: u32) -> Option<
        Error,
    > {
        if name.len() > u32::MAX {
            Some(Error::NameTooLong)
        } else if !self.commitments.contains_key(key_of(commitment_hash_of(name, secret))) {
            Some(Error::CommitmentNotFound)
        } else if periods <= self.config.minimum_registration_periods {
            Some(Error::RegistrationPeriodTooShort)
        } else if name.len() < 3 {
            Some(Error::NameTooShort)
        } else {
            None
        }
    }

    /// The state after the commitment under `hash` is consumed.
    pub open spec fn consumed(self, hash: CommitmentHash) -> RegistryState {
        RegistryState { commitments: self.commitments.remove(hash), ..self }
    }

    /// The state after a reveal of `(name, secret)` that is not refused: the
    /// commitment is consumed, and the name goes to the commitment's
    /// beneficiary where it is available.
    pub open spec fn revealed(self, name: Seq<u8>, secret: u64, periods: u32) -> RegistryState {
        let ch = key_of(commitment_hash_of(name, secret));
        let nh = key_of(name_hash_of(name));
        if self.available(nh) {
            self.consumed(ch).registered(nh, self.commitments[ch].who, 0, periods)
        } else {
            self.consumed(ch)
        }
    }

    /// Why `sender` may not act as the owner of `name_hash`, if it may not.
    pub open spec fn owner_error(&self, sender: AccountId, name_hash: NameHash) -> Option<Error> {
        if !self.registrations.contains_key(name_hash) {
            Some(Error::RegistrationNotFound)
        } else if self.registrations[name_hash].owner != sender {
            Some(Error::NotRegistrationOwner)
        } else if self.registrations[name_hash].expiry <= self.block_number {
            Some(Error::RegistrationExpired)
        } else {
            None
        }
    }

    /// Why `name_hash` may not be renewed, if it may not.
    pub open spec fn registration_error(&self, name_hash: NameHash) -> Option<Error> {
        if !self.registrations.contains_key(name_hash) {
            Some(Error::RegistrationNotFound)
        } else {
            None
        }
    }

    /// Why `sender` may not act as the owner of `name_hash` regardless of its
    /// lease, if it may not.
    pub open spec fn ownership_error(&self, sender: AccountId, name_hash: NameHash) -> Option<Error> {
        if !self.registrations.contains_key(name_hash) {
            Some(Error::RegistrationNotFound)
        } else if self.registrations[name_hash].owner != sender {
            Some(Error::NotRegistrationOwner)
        } else {
            None
        }
    }

    /// Why `sender` may not set the address of the subname `label_hash` under
    /// `name_hash`, if it may not.
    pub open spec fn sub_address_error(&self, sender: AccountId, name_hash: NameHash, label_hash: LabelHash) -> Option<Error> {
        match self.owner_error(sender, name_hash) {
            Some(e) => Some(e),
            None => if !self.sub_registrations.contains_key(
                SubKey { parent: name_hash, label: label_hash },
            ) {
                Some(Error::RegistrationNotFound)
            } else {
                None
            },
        }
    }

    /// The state after the owner of `name_hash`, `sender`, hands it to `to`.
    pub open spec fn transferred(self, sender: AccountId, to: AccountId, name_hash: NameHash) -> RegistryState {
        let r = self.registrations[name_hash];
        let r2 = Registration { owner: to, ..r };
        RegistryState { registrations: self.registrations.insert(name_hash, r2), ..self }.emit(
            Event::Transfer { from: sender, to },
        )
    }

    /// The expiry of `name_hash` after it is renewed for `periods` periods:
    /// counted from its current expiry while live, from now once run out.
    pub open spec fn renewed_expiry(&self, name_hash: NameHash, periods: u32) -> BlockNumber {
        let e = self.registrations[name_hash].expiry;
        let base = if e > self.block_number {
            e
        } else {
            self.block_number
        };
        sat_u64(base + self.config.lease_length(periods))
    }

    /// The state after `name_hash` is renewed for `periods` periods.
    pub open spec fn renewed(self, name_hash: NameHash, periods: u32) -> RegistryState {
        let expires = self.renewed_expiry(name_hash, periods);
        let r2 = Registration { expiry: expires, ..self.registrations[name_hash] };
        RegistryState { registrations: self.registrations.insert(name_hash, r2), ..self }.emit(
            Event::Extended { name_hash, expires },
        )
    }

    /// The state after `name_hash` is set to resolve to `address`.
    pub open spec fn address_set(self, name_hash: NameHash, address: AccountId) -> RegistryState {
        RegistryState { resolvers: self.resolvers.insert(name_hash, address), ..self }.emit(
            Event::AddressSet { name_hash, address },
        )
    }

    /// Why `name_hash` may not be deregistered, if it may not.
    pub open spec fn deregister_error(&self, name_hash: NameHash) -> Option<Error> {
        if !self.registrations.contains_key(name_hash) {
            Some(Error::RegistrationNotFound)
        } else if self.registrations[name_hash].expiry > self.block_number {
            Some(Error::RegistrationNotExpired)
        } else {
            None
        }
    }

    /// Whether `h` is the resolver hash of a subname under `parent`.
    pub open spec fn is_sub_hash_of(&self, parent: NameHash, h: NameHash) -> bool {
        exists|k: SubKey|
            #[trigger] self.sub_registrations.contains_key(k) && k.parent == parent
                && self.sub_registrations[k].hash == h
    }

    /// The state after `name_hash` is deregistered: its registration, its
    /// resolver entry, its subnames and their resolver entries are gone.
    pub open spec fn deregistered(self, name_hash: NameHash) -> RegistryState {
        let subs = Map::new(
            |k: SubKey| self.sub_registrations.contains_key(k) && k.parent != name_hash,
            |k: SubKey| self.sub_registrations[k],
        );
        let gone = Set::new(|h: NameHash| h == name_hash || self.is_sub_hash_of(name_hash, h));
        RegistryState {
            registrations: self.registrations.remove(name_hash),
            sub_registrations: subs,
            resolvers: self.resolvers.remove_keys(gone),
            ..self
        }.emit(Event::AddressDeregistered { name_hash })
    }

    /// The hash that the subname `label_hash` under `name_hash` resolves under.
    pub open spec fn sub_hash(name_hash: NameHash, label_hash: LabelHash) -> NameHash {
        key_of(sub_name_hash_of(name_hash@, label_hash@))
    }

    /// Why `sender` may not register the subname `label` under `name_hash`, if it may not.
    pub open spec fn sub_register_error(&self, sender: AccountId, name_hash: NameHash, label: Seq<u8>) -> Option<Error> {
        let key = SubKey { parent: name_hash, label: key_of(name_hash_of(label)) };
        match self.owner_error(sender, name_hash) {
            Some(e) => Some(e),
            None => if self.sub_registrations.contains_key(key) {
                Some(Error::SubNameAlreadyRegistered)
            } else {
                None
            },
        }
    }

    /// The state after the subname `label_hash` is created under `name_hash`,
    /// owned by `owner`.
    pub open spec fn sub_registered(self, name_hash: NameHash, label_hash: LabelHash, owner: AccountId) -> RegistryState {
        let hash = Self::sub_hash(name_hash, label_hash);
        let s = SubNameRegistration { hash, owner, registrant: owner };
        RegistryState {
            sub_registrations: self.sub_registrations.insert(
                SubKey { parent: name_hash, label: label_hash },
                s,
            ),
            ..self
        }.emit(Event::SubNameRegistered { hash, owner })
    }

    /// The state after the subname `label_hash` under `name_hash` is set to resolve to `address`.
    pub open spec fn sub_address_set(self, name_hash: NameHash, label_hash: LabelHash, address: AccountId) -> RegistryState {
        let hash = Self::sub_hash(name_hash, label_hash);
        RegistryState { resolvers: self.resolvers.insert(hash, address), ..self }.emit(
            Event::SubNameAddressSet { hash, address },
        )
    }

    /// Why `sender` may not remove the subname `label_hash` under `name_hash`, if it may not.
    pub open spec fn sub_deregister_error(&self, sender: AccountId, name_hash: NameHash, label_hash: LabelHash) -> Option<Error> {
        match self.ownership_error(sender, name_hash) {
            Some(e) => Some(e),
            None => if !self.sub_registrations.contains_key(
                SubKey { parent: name_hash, label: label_hash },
            ) {
                Some(Error::RegistrationNotFound)
            } else {
                None
            },
        }
    }

    /// The state after the subname `label_hash` under `name_hash` and its resolver entry are removed.
    pub open spec fn sub_deregistered(self, name_hash: NameHash, label_hash: LabelHash) -> RegistryState {
        let sub_name_hash = Self::sub_hash(name_hash, label_hash);
        RegistryState {
            sub_registrations: self.sub_registrations.remove(
                SubKey { parent: name_hash, label: label_hash },
            ),
            resolvers: self.resolvers.remove(sub_name_hash),
            ..self
        }.emit(Event::SubNameAddressDeregistered { sub_name_hash })
    }
}

/// An operation that is refused for `err` and otherwise leads to `done`:
/// refused, it returns the error and changes nothing.
pub open spec fn decided(
    pre: RegistryState,
    err: Option<Error>,
    done: RegistryState,
    r: Result<(), Error>,
    post: RegistryState,
) -> bool {
    match err {
        Some(e) => r == Err::<(), Error>(e) && post == pre,
        None => r == Ok::<(), Error>(()) && post == done,
    }
}

/// What a commit does. Refused, it changes nothing and calls nothing.
/// Otherwise it asks the ledger once to reserve the commitment deposit from
/// `sender`, and succeeds exactly when the ledger does.
pub open spec fn commit_post(
    pre: RegistryState,
    sender: AccountId,
    who: AccountId,
    hash: CommitmentHash,
    r: Result<(), Error>,
    post: RegistryState,
    calls0: Seq<LedgerCall>,
    calls1: Seq<LedgerCall>,
) -> bool {
    match pre.commit_error(sender, hash) {
        Some(e) => r == Err::<(), Error>(e) && post == pre && calls1 == calls0,
        None => {
            &&& calls1 == calls0.push(
                LedgerCall::Reserve { who: sender, amount: pre.config.commitment_deposit, ok: r.is_ok() },
            )
            &&& r.is_ok() ==> post == pre.committed(sender, who, hash)
            &&& r.is_err() ==> r == Err::<(), Error>(Error::InsufficientBalance) && post == pre
        },
    }
}

/// The calls of a paid operation whose fee the ledger granted: the withdrawal
/// of `fee` from `payer`, the credit handed to the fee sink, then `rest`.
pub open spec fn paid_calls(
    calls0: Seq<LedgerCall>,
    payer: AccountId,
    fee: Balance,
    credit: Balance,
    rest: Seq<LedgerCall>,
) -> Seq<LedgerCall> {
    calls0.push(LedgerCall::Withdraw { who: payer, amount: fee, credit: Some(credit) }).push(
        LedgerCall::Credit { amount: credit },
    ) + rest
}

/// What a paid operation does once its checks pass: it withdraws `fee` from
/// `payer`; granted, it hands the credit to the fee sink, makes the calls
/// `rest` and leads to `done`; refused, it returns `InsufficientBalance` and
/// changes nothing.
pub open spec fn paid(
    pre: RegistryState,
    payer: AccountId,
    fee: Balance,
    rest: Seq<LedgerCall>,
    done: RegistryState,
    r: Result<(), Error>,
    post: RegistryState,
    calls0: Seq<LedgerCall>,
    calls1: Seq<LedgerCall>,
) -> bool {
    &&& r.is_ok() ==> post == done && exists|credit: Balance|
        calls1 == paid_calls(calls0, payer, fee, credit, rest)
    &&& r.is_err() ==> r == Err::<(), Error>(Error::InsufficientBalance) && post == pre
        && calls1 == calls0.push(LedgerCall::Withdraw { who: payer, amount: fee, credit: None })
}

/// What a reveal of `(name, secret)` by `sender` for `periods` periods does.
/// Refused for `reveal_error`, it changes nothing and calls nothing. Where
/// the name is available, `sender` pays the registration fee, and once paid
/// the committer's deposit is returned. Where it is not, only the deposit is
/// returned and the commitment consumed.
pub open spec fn reveal_post(
    pre: RegistryState,
    sender: AccountId,
    name: Seq<u8>,
    secret: u64,
    periods: u32,
    r: Result<(), Error>,
    post: RegistryState,
    calls0: Seq<LedgerCall>,
    calls1: Seq<LedgerCall>,
) -> bool {
    let ch = key_of(commitment_hash_of(name, secret));
    let c = pre.commitments[ch];
    let refund = seq![LedgerCall::Unreserve { who: c.committer, amount: c.deposit }];
    let done = pre.revealed(name, secret, periods);
    match pre.reveal_error(name, secret, periods) {
        Some(e) => r == Err::<(), Error>(e) && post == pre && calls1 == calls0,
        None => if pre.available(key_of(name_hash_of(name))) {
            paid(
                pre,
                sender,
                pre.config.name_fee(name.len() as int, periods),
                refund,
                done,
                r,
                post,
                calls0,
                calls1,
            )
        } else {
            r == Ok::<(), Error>(()) && post == done && calls1 == calls0 + refund
        },
    }
}

/// What a renewal of `name_hash` by `sender` for `periods` periods does:
/// refused, nothing; otherwise `sender` pays the period fee.
pub open spec fn renew_post(
    pre: RegistryState,
    sender: AccountId,
    name_hash: NameHash,
    periods: u32,
    r: Result<(), Error>,
    post: RegistryState,
    calls0: Seq<LedgerCall>,
    calls1: Seq<LedgerCall>,
) -> bool {
    match pre.registration_error(name_hash) {
        Some(e) => r == Err::<(), Error>(e) && post == pre && calls1 == calls0,
        None => paid(
            pre,
            sender,
            pre.config.period_fee(periods),
            Seq::empty(),
            pre.renewed(name_hash, periods),
            r,
            post,
            calls0,
            calls1,
        ),
    }
}

} // verus!
