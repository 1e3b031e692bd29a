//! The registry: commit-reveal registration, leases, resolvers and subnames.
use crate::hashing::{name_hash_of, sub_name_hash_of, commitment_hash, label_hash, name_hash, sub_name_hash, hash_eq, CommitmentHash, LabelHash, NameHash};
use crate::ledger::{LedgerCall, LoggedLedger};
use crate::state::{
    commit_post, decided, key_of, lemma_deregistered_wf, lemma_key_of, lemma_wf_kept, lemma_wf_resolver_set, paid_calls,
    renew_post, reveal_post, RegistryState,
};
use crate::table::{SubKey, Table};
use crate::types::{
    sat_u128, sat_u64, AccountId, Balance, BlockNumber, Commitment, Config, Error, Event, Ledger,
    Registration, SubNameRegistration,
};
use vstd::prelude::*;

verus! {

/// `a * b`, clamped to the range of `u128`.
fn saturating_mul_u128(a: u128, b: u128) -> (r: u128)
    ensures
        r == sat_u128(a * b),
{
    match a.checked_mul(b) {
        Some(x) => x,
        None => u128::MAX,
    }
}

/// `a * b`, clamped to the range of `u64`.
fn saturating_mul_u64(a: u64, b: u64) -> (r: u64)
    ensures
        r == sat_u64(a * b),
{
    match a.checked_mul(b) {
        Some(x) => x,
        None => u64::MAX,
    }
}

/// The name registry. Its four stores are reached only through its operations.
pub struct Pallet {
    config: Config,
    block_number: BlockNumber,
    commitments: Table<CommitmentHash, Commitment>,
    registrations: Table<NameHash, Registration>,
    sub_registrations: Table<SubKey, SubNameRegistration>,
    resolvers: Table<NameHash, AccountId>,
    events: Vec<Event>,
}

impl View for Pallet {
    type V = RegistryState;

    closed spec fn view(&self) -> RegistryState {
        RegistryState {
            config: self.config,
            block_number: self.block_number,
            commitments: self.commitments@,
            registrations: self.registrations@,
            sub_registrations: self.sub_registrations@,
            resolvers: self.resolvers@,
            events: self.events@,
        }
    }
}

impl Pallet {
    pub closed spec fn wf(&self) -> bool {
        &&& self.commitments.wf()
        &&& self.registrations.wf()
        &&& self.sub_registrations.wf()
        &&& self.resolvers.wf()
        &&& self@.wf()
    }

    /// An empty registry at block 0.
    pub fn new(config: Config) -> (r: Self)
        ensures
            r.wf(),
            r@.config == config,
            r@.block_number == 0,
            r@.commitments == Map::<CommitmentHash, Commitment>::empty(),
            r@.registrations == Map::<NameHash, Registration>::empty(),
            r@.sub_registrations == Map::<SubKey, SubNameRegistration>::empty(),
            r@.resolvers == Map::<NameHash, AccountId>::empty(),
            r@.events == Seq::<Event>::empty(),
    {
        Pallet {
            config,
            block_number: 0,
            commitments: Table::new(),
            registrations: Table::new(),
            sub_registrations: Table::new(),
            resolvers: Table::new(),
            events: Vec::new(),
        }
    }

    /// Moves the clock to `n`.
    pub fn set_block_number(&mut self, n: BlockNumber)
        requires
            old(self).wf(),
        ensures
            final(self).wf(),
            final(self)@ == (RegistryState { block_number: n, ..old(self)@ }),
    {
        let ghost pre = self@;
        self.block_number = n;
        proof {
            lemma_wf_kept(pre, self@);
        }
    }

    /// The clock's current point.
    pub fn block_number(&self) -> (r: BlockNumber)
        ensures
            r == self@.block_number,
    {
        self.block_number
    }

    /// The registry's constants.
    pub fn config(&self) -> (r: &Config)
        ensures
            *r == self@.config,
    {
        &self.config
    }

    /// Every event emitted so far, oldest first.
    pub fn events(&self) -> (r: &Vec<Event>)
        ensures
            r@ == self@.events,
    {
        &self.events
    }

    /// The commitment pending under `hash`.
    pub fn commitment(&self, hash: CommitmentHash) -> (r: Option<Commitment>)
        requires
            self.wf(),
        ensures
            r == (if self@.commitments.contains_key(hash) {
                Some(self@.commitments[hash])
            } else {
                None
            }),
    {
        self.commitments.get(&hash)
    }

    /// The registration of `name_hash`.
    pub fn registration(&self, name_hash: NameHash) -> (r: Option<Registration>)
        requires
            self.wf(),
        ensures
            r == (if self@.registrations.contains_key(name_hash) {
                Some(self@.registrations[name_hash])
            } else {
                None
            }),
    {
        self.registrations.get(&name_hash)
    }

    /// The subname `label_hash` under `name_hash`.
    pub fn sub_registration(&self, name_hash: NameHash, label_hash: LabelHash) -> (r: Option<
        SubNameRegistration,
    >)
        requires
            self.wf(),
        ensures
            ({
                let k = SubKey { parent: name_hash, label: label_hash };
                r == (if self@.sub_registrations.contains_key(k) {
                    Some(self@.sub_registrations[k])
                } else {
                    None
                })
            }),
    {
        self.sub_registrations.get(&SubKey { parent: name_hash, label: label_hash })
    }

    /// The account that `name_hash` resolves to.
    pub fn resolve(&self, name_hash: NameHash) -> (r: Option<AccountId>)
        requires
            self.wf(),
        ensures
            r == (if self@.resolvers.contains_key(name_hash) {
                Some(self@.resolvers[name_hash])
            } else {
                None
            }),
    {
        self.resolvers.get(&name_hash)
    }

    fn deposit_event(&mut self, e: Event)
        requires
            old(self).wf(),
        ensures
            final(self).wf(),
            final(self)@ == old(self)@.emit(e),
    {
        let ghost pre = self@;
        self.events.push(e);
        proof {
            lemma_wf_kept(pre, self@);
        }
    }

    fn is_controller(&self, who: AccountId) -> (r: bool)
        ensures
            r == self@.config.controller_accounts@.contains(who),
    {
        let mut i: usize = 0;
        while i < self.config.controller_accounts.len()
            invariant
                i <= self.config.controller_accounts@.len(),
                forall|j: int| 0 <= j < i ==> self.config.controller_accounts@[j] != who,
            decreases self.config.controller_accounts@.len() - i,
        {
            if self.config.controller_accounts[i] == who {
                assert(self.config.controller_accounts@[i as int] == who);
                return true;
            }
            i = i + 1;
        }
        false
    }

    /// The fee of registering `name` for `periods` periods: the tier fee of
    /// its length plus the period fee, clamped. A name under three bytes
    /// costs the most that can be represented.
    pub fn registration_fee(&self, name: Vec<u8>, periods: u32) -> (r: Balance)
        ensures
            r == self@.config.name_fee(name@.len() as int, periods),
    {
        let name_length = name.len();
        let fee_reg = if name_length < 3 {
            u128::MAX
        } else if name_length == 3 {
            self.config.tier_three_letters
        } else if name_length == 4 {
            self.config.tier_four_letters
        } else {
            self.config.tier_default
        };
        let fee_length = self.length_fee(periods);
        fee_reg.saturating_add(fee_length)
    }

    /// The fee of `periods` registration periods, clamped.
    pub fn length_fee(&self, periods: u32) -> (r: Balance)
        ensures
            r == self@.config.period_fee(periods),
    {
        saturating_mul_u128(self.config.fee_per_registration_period, periods as u128)
    }

    /// How many blocks `periods` registration periods last, clamped.
    pub fn length(&self, periods: u32) -> (r: BlockNumber)
        ensures
            r == self@.config.lease_length(periods),
    {
        saturating_mul_u64(periods as u64, self.config.blocks_per_registration_period)
    }

    /// Whether `name_hash` is free to register at `block_number`.
    pub fn is_available(&self, name_hash: NameHash, block_number: BlockNumber) -> (r: bool)
        requires
            self.wf(),
        ensures
            r == self@.available_at(name_hash, block_number),
    {
        match self.registrations.get(&name_hash) {
            Some(r) => r.expiry <= block_number,
            None => true,
        }
    }

    /// Registers `name_hash` to `who` for `periods` periods from now, replacing
    /// any earlier registration.
    pub fn do_register(&mut self, name_hash: NameHash, who: AccountId, deposit: Balance, periods: u32) -> (r: Result<(), Error>)
        requires
            old(self).wf(),
        ensures
            final(self).wf(),
            r == Ok::<(), Error>(()),
            final(self)@ == old(self)@.registered(name_hash, who, deposit, periods),
    {
        let expiry = self.block_number.saturating_add(self.length(periods));
        let registration = Registration { owner: who, registrant: who, expiry, deposit };
        let ghost pre = self@;
        self.registrations.insert(name_hash, registration);
        proof {
            lemma_wf_kept(pre, self@);
        }
        self.deposit_event(Event::Registered { owner: who, expiry, deposit });
        Ok(())
    }

    /// `sender` commits to `commitment_hash` on behalf of `who`, reserving the
    /// commitment deposit from its balance.
    pub fn commit<L: Ledger>(
        &mut self,
        ledger: &mut LoggedLedger<L>,
        sender: AccountId,
        who: AccountId,
        commitment_hash: CommitmentHash,
    ) -> (r: Result<(), Error>)
        requires
            old(self).wf(),
        ensures
            final(self).wf(),
            commit_post(
                old(self)@,
                sender,
                who,
                commitment_hash,
                r,
                final(self)@,
                old(ledger).calls(),
                final(ledger).calls(),
            ),
    {
        if self.config.controllers_only && !self.is_controller(sender) {
            return Err(Error::NotControllerAccount);
        }
        if self.commitments.contains_key(&commitment_hash) {
            return Err(Error::AlreadyCommitted);
        }
        let deposit = self.config.commitment_deposit;
        if !ledger.reserve(sender, deposit) {
            return Err(Error::InsufficientBalance);
        }
        let commitment = Commitment { committer: sender, who, when: self.block_number, deposit };
        let ghost pre = self@;
        self.commitments.insert(commitment_hash, commitment);
        proof {
            lemma_wf_kept(pre, self@);
        }
        self.deposit_event(Event::Committed { sender, who, hash: commitment_hash });
        Ok(())
    }

    /// `sender` reveals `(name, secret)` and asks for `periods` periods. The
    /// commitment is consumed and its deposit returned to the committer; where
    /// the name is available, `sender` pays the registration fee and the name
    /// goes to the commitment's beneficiary. Where the name is held by a live
    /// lease, nothing else happens and the reveal still succeeds, so a reveal
    /// does not tell whether someone else holds the name. A refused reveal
    /// leaves the commitment pending. A name longer than `u32::MAX` bytes
    /// cannot have been committed and is refused first.
    pub fn reveal_name<L: Ledger>(
        &mut self,
        ledger: &mut LoggedLedger<L>,
        sender: AccountId,
        name: Vec<u8>,
        secret: u64,
        periods: u32,
    ) -> (r: Result<(), Error>)
        requires
            old(self).wf(),
        ensures
            final(self).wf(),
            reveal_post(
                old(self)@,
                sender,
                name@,
                secret,
                periods,
                r,
                final(self)@,
                old(ledger).calls(),
                final(ledger).calls(),
            ),
    {
        if name.len() > u32::MAX as usize {
            return Err(Error::NameTooLong);
        }
        let ch = commitment_hash(&name, secret);
        proof {
            lemma_key_of(ch);
        }
        let commitment = match self.commitments.get(&ch) {
            Some(c) => c,
            None => {
                return Err(Error::CommitmentNotFound);
            },
        };
        if periods <= self.config.minimum_registration_periods {
            return Err(Error::RegistrationPeriodTooShort);
        }
        if name.len() < 3 {
            return Err(Error::NameTooShort);
        }
        let nh = name_hash(name.as_slice());
        proof {
            lemma_key_of(nh);
        }
        let ghost name_view = name@;
        if self.is_available(nh, self.block_number) {
            let fee = self.registration_fee(name, periods);
            let credit = match ledger.withdraw(sender, fee) {
                Some(c) => c,
                None => {
                    return Err(Error::InsufficientBalance);
                },
            };
            ledger.on_unbalanced(credit);
            let ghost pre = self@;
            self.commitments.remove(&ch);
            proof {
                lemma_wf_kept(pre, self@);
            }
            ledger.unreserve(commitment.committer, commitment.deposit);
            let _ = self.do_register(nh, commitment.who, 0, periods);
            assert(ledger.calls() =~= paid_calls(
                old(ledger).calls(),
                sender,
                old(self)@.config.name_fee(name_view.len() as int, periods),
                credit,
                seq![LedgerCall::Unreserve { who: commitment.committer, amount: commitment.deposit }],
            ));
        } else {
            let ghost pre = self@;
            self.commitments.remove(&ch);
            proof {
                lemma_wf_kept(pre, self@);
            }
            ledger.unreserve(commitment.committer, commitment.deposit);
            assert(ledger.calls() =~= old(ledger).calls() + seq![
                LedgerCall::Unreserve { who: commitment.committer, amount: commitment.deposit },
            ]);
        }
        Ok(())
    }

    /// The registration of `name_hash`, where `sender` owns it and its lease is live.
    fn owned_live(&self, sender: AccountId, name_hash: NameHash) -> (r: Result<Registration, Error>)
        requires
            self.wf(),
        ensures
            match self@.owner_error(sender, name_hash) {
                Some(e) => r == Err::<Registration, Error>(e),
                None => r == Ok::<Registration, Error>(self@.registrations[name_hash]),
            },
    {
        let registration = match self.registrations.get(&name_hash) {
            Some(r) => r,
            None => {
                return Err(Error::RegistrationNotFound);
            },
        };
        if registration.owner != sender {
            return Err(Error::NotRegistrationOwner);
        }
        if registration.expiry <= self.block_number {
            return Err(Error::RegistrationExpired);
        }
        Ok(registration)
    }

    /// The registration of `name_hash`, where `sender` owns it.
    fn owned(&self, sender: AccountId, name_hash: NameHash) -> (r: Result<Registration, Error>)
        requires
            self.wf(),
        ensures
            match self@.ownership_error(sender, name_hash) {
                Some(e) => r == Err::<Registration, Error>(e),
                None => r == Ok::<Registration, Error>(self@.registrations[name_hash]),
            },
    {
        let registration = match self.registrations.get(&name_hash) {
            Some(r) => r,
            None => {
                return Err(Error::RegistrationNotFound);
            },
        };
        if registration.owner != sender {
            return Err(Error::NotRegistrationOwner);
        }
        Ok(registration)
    }

    /// The owner `sender` hands the live registration of `name_hash` to `to`.
    pub fn transfer(&mut self, sender: AccountId, to: AccountId, name_hash: NameHash) -> (r: Result<(), Error>)
        requires
            old(self).wf(),
        ensures
            final(self).wf(),
            decided(
                old(self)@,
                old(self)@.owner_error(sender, name_hash),
                old(self)@.transferred(sender, to, name_hash),
                r,
                final(self)@,
            ),
    {
        let registration = match self.owned_live(sender, name_hash) {
            Ok(r) => r,
            Err(e) => {
                return Err(e);
            },
        };
        let ghost pre = self@;
        self.registrations.insert(name_hash, Registration { owner: to, ..registration });
        proof {
            lemma_wf_kept(pre, self@);
        }
        self.deposit_event(Event::Transfer { from: sender, to });
        Ok(())
    }

    /// `sender` pays the period fee to extend the lease of `name_hash` by
    /// `periods` periods: from its expiry while it is live, from now once it
    /// has run out. Anyone may renew any name.
    pub fn renew<L: Ledger>(
        &mut self,
        ledger: &mut LoggedLedger<L>,
        sender: AccountId,
        name_hash: NameHash,
        periods: u32,
    ) -> (r: Result<(), Error>)
        requires
            old(self).wf(),
        ensures
            final(self).wf(),
            renew_post(
                old(self)@,
                sender,
                name_hash,
                periods,
                r,
                final(self)@,
                old(ledger).calls(),
                final(ledger).calls(),
            ),
    {
        let registration = match self.registrations.get(&name_hash) {
            Some(r) => r,
            None => {
                return Err(Error::RegistrationNotFound);
            },
        };
        let fee = self.length_fee(periods);
        let credit = match ledger.withdraw(sender, fee) {
            Some(c) => c,
            None => {
                return Err(Error::InsufficientBalance);
            },
        };
        let block_number = self.block_number;
        let expiry_new = if registration.expiry > block_number {
            registration.expiry.saturating_add(self.length(periods))
        } else {
            block_number.saturating_add(self.length(periods))
        };
        let ghost pre = self@;
        self.registrations.insert(name_hash, Registration { expiry: expiry_new, ..registration });
        proof {
            lemma_wf_kept(pre, self@);
        }
        ledger.on_unbalanced(credit);
        self.deposit_event(Event::Extended { name_hash, expires: expiry_new });
        assert(ledger.calls() == paid_calls(
            old(ledger).calls(),
            sender,
            old(self)@.config.period_fee(periods),
            credit,
            Seq::empty(),
        ));
        Ok(())
    }

    /// The owner `sender` sets the live name `name_hash` to resolve to `address`.
    pub fn set_address(&mut self, sender: AccountId, name_hash: NameHash, address: AccountId) -> (r: Result<(), Error>)
        requires
            old(self).wf(),
        ensures
            final(self).wf(),
            decided(
                old(self)@,
                old(self)@.owner_error(sender, name_hash),
                old(self)@.address_set(name_hash, address),
                r,
                final(self)@,
            ),
    {
        match self.owned_live(sender, name_hash) {
            Ok(_) => {},
            Err(e) => {
                return Err(e);
            },
        }
        self.do_set_address(name_hash, address)
    }

    /// Sets `name_hash` to resolve to `address`, replacing any earlier entry.
    pub fn do_set_address(&mut self, name_hash: NameHash, address: AccountId) -> (r: Result<(), Error>)
        requires
            old(self).wf(),
            old(self)@.registrations.contains_key(name_hash),
        ensures
            final(self).wf(),
            r == Ok::<(), Error>(()),
            final(self)@ == old(self)@.address_set(name_hash, address),
    {
        let ghost pre = self@;
        self.resolvers.insert(name_hash, address);
        proof {
            lemma_wf_resolver_set(pre, self@, name_hash, address);
        }
        self.deposit_event(Event::AddressSet { name_hash, address });
        Ok(())
    }

    /// Removes the run-out registration of `name_hash`. Any caller may do so.
    pub fn deregister(&mut self, _sender: AccountId, name_hash: NameHash) -> (r: Result<(), Error>)
        requires
            old(self).wf(),
        ensures
            final(self).wf(),
            decided(
                old(self)@,
                old(self)@.deregister_error(name_hash),
                old(self)@.deregistered(name_hash),
                r,
                final(self)@,
            ),
    {
        self.do_deregister(name_hash)
    }

    /// Removes the run-out registration of `name_hash`, its resolver entry,
    /// every subname under it and their resolver entries.
    pub fn do_deregister(&mut self, name_hash: NameHash) -> (r: Result<(), Error>)
        requires
            old(self).wf(),
        ensures
            final(self).wf(),
            decided(
                old(self)@,
                old(self)@.deregister_error(name_hash),
                old(self)@.deregistered(name_hash),
                r,
                final(self)@,
            ),
    {
        let registration = match self.registrations.get(&name_hash) {
            Some(r) => r,
            None => {
                return Err(Error::RegistrationNotFound);
            },
        };
        if registration.expiry > self.block_number {
            return Err(Error::RegistrationNotExpired);
        }
        let ghost s0 = self@;
        self.registrations.remove(&name_hash);
        self.resolvers.remove(&name_hash);
        let keys = self.sub_registrations.keys();
        let mut i: usize = 0;
        while i < keys.len()
            invariant
                self.commitments.wf(),
                self.registrations.wf(),
                self.sub_registrations.wf(),
                self.resolvers.wf(),
                i <= keys@.len(),
                forall|k: SubKey| s0.sub_registrations.contains_key(k) <==> keys@.contains(k),
                self.config == s0.config,
                self.block_number == s0.block_number,
                self@.commitments == s0.commitments,
                self@.registrations == s0.registrations.remove(name_hash),
                self@.events == s0.events,
                self@.sub_registrations == Map::new(
                    |k: SubKey|
                        s0.sub_registrations.contains_key(k) && !(k.parent == name_hash && exists|j: int|
                            0 <= j < i && keys@[j] == k),
                    |k: SubKey| s0.sub_registrations[k],
                ),
                self@.resolvers == s0.resolvers.remove_keys(
                    Set::new(
                        |h: NameHash|
                            h == name_hash || exists|j: int|
                                0 <= j < i && keys@[j].parent == name_hash
                                    && s0.sub_registrations.contains_key(keys@[j])
                                    && s0.sub_registrations[keys@[j]].hash == h,
                    ),
                ),
            decreases keys@.len() - i,
        {
            let k = keys[i];
            let ghost subs0 = self@.sub_registrations;
            let ghost res0 = self@.resolvers;
            if hash_eq(&k.parent, &name_hash) {
                match self.sub_registrations.remove(&k) {
                    Some(sub) => {
                        self.resolvers.remove(&sub.hash);
                    },
                    None => {},
                }
            }
            let ghost i0 = i as int;
            i = i + 1;
            proof {
                assert(keys@.contains(k));
                assert forall|k2: SubKey| #[trigger] s0.sub_registrations.contains_key(k2) && k2 == k implies exists|j: int| 0 <= j < i && keys@[j] == k2 by {
                    assert(keys@[i0] == k2);
                };
                assert(self@.sub_registrations =~= Map::new(
                    |k2: SubKey|
                        s0.sub_registrations.contains_key(k2) && !(k2.parent == name_hash && exists|j: int|
                            0 <= j < i && keys@[j] == k2),
                    |k2: SubKey| s0.sub_registrations[k2],
                ));
                let gone0 = Set::new(
                    |h: NameHash|
                        h == name_hash || exists|j: int|
                            0 <= j < i0 && keys@[j].parent == name_hash
                                && s0.sub_registrations.contains_key(keys@[j])
                                && s0.sub_registrations[keys@[j]].hash == h,
                );
                let gone1 = Set::new(
                    |h: NameHash|
                        h == name_hash || exists|j: int|
                            0 <= j < i && keys@[j].parent == name_hash
                                && s0.sub_registrations.contains_key(keys@[j])
                                && s0.sub_registrations[keys@[j]].hash == h,
                );
                if k.parent == name_hash {
                    let hk = s0.sub_registrations[k].hash;
                    assert forall|h: NameHash| gone1.contains(h) <==> (gone0.contains(h) || h == hk) by {
                        if h == hk {
                            assert(keys@[i0] == k);
                        }
                        if gone1.contains(h) && h != name_hash {
                            let j = choose|j: int|
                                0 <= j < i && keys@[j].parent == name_hash
                                    && s0.sub_registrations.contains_key(keys@[j])
                                    && s0.sub_registrations[keys@[j]].hash == h;
                            if j < i0 {
                                assert(gone0.contains(h));
                            }
                        }
                    };
                    if !subs0.contains_key(k) {
                        let j = choose|j: int| 0 <= j < i0 && keys@[j] == k;
                        assert(gone0.contains(hk));
                    }
                    assert(self@.resolvers =~= s0.resolvers.remove_keys(gone1));
                } else {
                    assert forall|h: NameHash| gone1.contains(h) <==> gone0.contains(h) by {
                        if gone1.contains(h) && h != name_hash {
                            let j = choose|j: int|
                                0 <= j < i && keys@[j].parent == name_hash
                                    && s0.sub_registrations.contains_key(keys@[j])
                                    && s0.sub_registrations[keys@[j]].hash == h;
                            assert(j != i0);
                            assert(gone0.contains(h));
                        }
                    };
                    assert(gone1 =~= gone0);
                }
            }
        }
        proof {
            let post = s0.deregistered(name_hash);
            assert forall|k: SubKey| s0.sub_registrations.contains_key(k) && k.parent == name_hash implies exists|j: int|
                0 <= j < i && keys@[j] == k by {
                assert(keys@.contains(k));
            };
            assert(self@.sub_registrations =~= post.sub_registrations);
            let gone = Set::new(|h: NameHash| h == name_hash || s0.is_sub_hash_of(name_hash, h));
            let gone_i = Set::new(
                |h: NameHash|
                    h == name_hash || exists|j: int|
                        0 <= j < i && keys@[j].parent == name_hash
                            && s0.sub_registrations.contains_key(keys@[j])
                            && s0.sub_registrations[keys@[j]].hash == h,
            );
            assert forall|h: NameHash| gone.contains(h) <==> gone_i.contains(h) by {
                if s0.is_sub_hash_of(name_hash, h) {
                    let k = choose|k: SubKey|
                        #[trigger] s0.sub_registrations.contains_key(k) && k.parent == name_hash
                            && s0.sub_registrations[k].hash == h;
                    assert(keys@.contains(k));
                    let j = choose|j: int| 0 <= j < keys@.len() && keys@[j] == k;
                    assert(gone_i.contains(h));
                }
                if gone_i.contains(h) && h != name_hash {
                    let j = choose|j: int|
                        0 <= j < i && keys@[j].parent == name_hash
                            && s0.sub_registrations.contains_key(keys@[j])
                            && s0.sub_registrations[keys@[j]].hash == h;
                    assert(s0.sub_registrations.contains_key(keys@[j]));
                }
            };
            assert(gone =~= gone_i);
            assert(self@.resolvers == post.resolvers);
            assert(self@.registrations == post.registrations);
            assert(self@.sub_registrations == post.sub_registrations);
            lemma_deregistered_wf(s0, name_hash);
            assert(self@.wf());
        }
        self.deposit_event(Event::AddressDeregistered { name_hash });
        Ok(())
    }

    /// The hash that the subname `label_hash` under `name_hash` resolves under.
    pub fn generate_sub_name_hash(name_hash: NameHash, label_hash: LabelHash) -> (r: NameHash)
        ensures
            r == RegistryState::sub_hash(name_hash, label_hash),
            r@ == sub_name_hash_of(name_hash@, label_hash@),
    {
        let r = sub_name_hash(&name_hash, &label_hash);
        proof {
            lemma_key_of(r);
        }
        r
    }

    /// The owner `sender` of the live name `name_hash` creates the subname
    /// `label` under it, owned by `sender`. Like every other operation of an
    /// owner, it needs the parent's lease to be live. The subname keeps that
    /// owner when the parent is later transferred.
    pub fn register_sub_name(&mut self, sender: AccountId, name_hash: NameHash, label: Vec<u8>) -> (r: Result<(), Error>)
        requires
            old(self).wf(),
        ensures
            final(self).wf(),
            decided(
                old(self)@,
                old(self)@.sub_register_error(sender, name_hash, label@),
                old(self)@.sub_registered(
                    name_hash,
                    key_of(name_hash_of(label@)),
                    old(self)@.registrations[name_hash].owner,
                ),
                r,
                final(self)@,
            ),
    {
        let registration = match self.owned_live(sender, name_hash) {
            Ok(r) => r,
            Err(e) => {
                return Err(e);
            },
        };
        self.do_register_sub_name(name_hash, label, registration)
    }

    /// Creates the subname `label` under the registered name `name_hash`,
    /// owned by `registration`'s owner.
    pub fn do_register_sub_name(&mut self, name_hash: NameHash, label: Vec<u8>, registration: Registration) -> (r: Result<(), Error>)
        requires
            old(self).wf(),
            old(self)@.registrations.contains_key(name_hash),
        ensures
            final(self).wf(),
            ({
                let key = SubKey { parent: name_hash, label: key_of(name_hash_of(label@)) };
                decided(
                    old(self)@,
                    if old(self)@.sub_registrations.contains_key(key) {
                        Some(Error::SubNameAlreadyRegistered)
                    } else {
                        None
                    },
                    old(self)@.sub_registered(name_hash, key.label, registration.owner),
                    r,
                    final(self)@,
                )
            }),
    {
        let lh = label_hash(label.as_slice());
        proof {
            lemma_key_of(lh);
        }
        let hash = Self::generate_sub_name_hash(name_hash, lh);
        let key = SubKey { parent: name_hash, label: lh };
        if self.sub_registrations.contains_key(&key) {
            return Err(Error::SubNameAlreadyRegistered);
        }
        let sub = SubNameRegistration { hash, owner: registration.owner, registrant: registration.owner };
        let ghost pre = self@;
        self.sub_registrations.insert(key, sub);
        assert forall|k: SubKey| #[trigger] self@.sub_registrations.contains_key(k) implies self@.registrations.contains_key(k.parent)
            && self@.sub_registrations[k].hash == RegistryState::sub_hash(k.parent, k.label) by {
            if k != key {
                assert(pre.sub_registrations.contains_key(k));
            }
        };
        assert forall|h: NameHash| #[trigger] self@.resolvers.contains_key(h) implies self@.has_resolver_owner(h) by {
            assert(pre.resolvers.contains_key(h));
            assert(pre.has_resolver_owner(h));
            if !pre.registrations.contains_key(h) {
                let k = choose|k: SubKey|
                    #[trigger] pre.sub_registrations.contains_key(k) && pre.sub_registrations[k].hash == h;
                assert(self@.sub_registrations.contains_key(k));
            }
        };
        self.deposit_event(Event::SubNameRegistered { hash, owner: registration.owner });
        Ok(())
    }

    /// The owner `sender` of the live name `name_hash` sets its registered
    /// subname `label_hash` to resolve to `address`.
    pub fn set_sub_name_address(&mut self, sender: AccountId, name_hash: NameHash, label_hash: LabelHash, address: AccountId) -> (r: Result<(), Error>)
        requires
            old(self).wf(),
        ensures
            final(self).wf(),
            decided(
                old(self)@,
                old(self)@.sub_address_error(sender, name_hash, label_hash),
                old(self)@.sub_address_set(name_hash, label_hash, address),
                r,
                final(self)@,
            ),
    {
        match self.owned_live(sender, name_hash) {
            Ok(_) => {},
            Err(e) => {
                return Err(e);
            },
        }
        if !self.sub_registrations.contains_key(&SubKey { parent: name_hash, label: label_hash }) {
            return Err(Error::RegistrationNotFound);
        }
        self.do_set_sub_name_address(name_hash, label_hash, address)
    }

    /// Sets the registered subname `label_hash` under `name_hash` to resolve to `address`.
    pub fn do_set_sub_name_address(&mut self, name_hash: NameHash, label_hash: LabelHash, address: AccountId) -> (r: Result<(), Error>)
        requires
            old(self).wf(),
            old(self)@.sub_registrations.contains_key(SubKey { parent: name_hash, label: label_hash }),
        ensures
            final(self).wf(),
            r == Ok::<(), Error>(()),
            final(self)@ == old(self)@.sub_address_set(name_hash, label_hash, address),
    {
        let hash = Self::generate_sub_name_hash(name_hash, label_hash);
        let ghost pre = self@;
        self.resolvers.insert(hash, address);
        proof {
            assert(pre.sub_registrations.contains_key(SubKey { parent: name_hash, label: label_hash }));
            lemma_wf_resolver_set(pre, self@, hash, address);
        }
        self.deposit_event(Event::SubNameAddressSet { hash, address });
        Ok(())
    }

    /// The owner `sender` of the name `name_hash` removes its subname
    /// `label_hash` and the subname's resolver entry, whether or not the
    /// parent's lease is live.
    pub fn deregister_sub_name(&mut self, sender: AccountId, name_hash: NameHash, label_hash: LabelHash) -> (r: Result<(), Error>)
        requires
            old(self).wf(),
        ensures
            final(self).wf(),
            decided(
                old(self)@,
                old(self)@.sub_deregister_error(sender, name_hash, label_hash),
                old(self)@.sub_deregistered(name_hash, label_hash),
                r,
                final(self)@,
            ),
    {
        match self.owned(sender, name_hash) {
            Ok(_) => {},
            Err(e) => {
                return Err(e);
            },
        }
        self.do_deregister_sub_name(name_hash, label_hash)
    }

    /// Removes the subname `label_hash` under `name_hash` and its resolver entry.
    pub fn do_deregister_sub_name(&mut self, name_hash: NameHash, label_hash: LabelHash) -> (r: Result<(), Error>)
        requires
            old(self).wf(),
        ensures
            final(self).wf(),
            decided(
                old(self)@,
                if old(self)@.sub_registrations.contains_key(SubKey { parent: name_hash, label: label_hash }) {
                    None
                } else {
                    Some(Error::RegistrationNotFound)
                },
                old(self)@.sub_deregistered(name_hash, label_hash),
                r,
                final(self)@,
            ),
    {
        let key = SubKey { parent: name_hash, label: label_hash };
        if !self.sub_registrations.contains_key(&key) {
            return Err(Error::RegistrationNotFound);
        }
        let sub_name_hash = Self::generate_sub_name_hash(name_hash, label_hash);
        let ghost pre = self@;
        self.sub_registrations.remove(&key);
        self.resolvers.remove(&sub_name_hash);
        assert forall|k: SubKey| #[trigger] self@.sub_registrations.contains_key(k) implies self@.registrations.contains_key(k.parent)
            && self@.sub_registrations[k].hash == RegistryState::sub_hash(k.parent, k.label) by {
            assert(pre.sub_registrations.contains_key(k));
        };
        assert forall|h: NameHash| #[trigger] self@.resolvers.contains_key(h) implies self@.has_resolver_owner(h) by {
            assert(pre.resolvers.contains_key(h));
            assert(pre.has_resolver_owner(h));
            if !pre.registrations.contains_key(h) {
                let k2 = choose|k2: SubKey|
                    #[trigger] pre.sub_registrations.contains_key(k2) && pre.sub_registrations[k2].hash == h;
                if k2 == key {
                    assert(h == sub_name_hash);
                }
                assert(self@.sub_registrations.contains_key(k2));
            }
        };
        self.deposit_event(Event::SubNameAddressDeregistered { sub_name_hash });
        Ok(())
    }

    /// The registration manager registers `name_hash` to `who` for `periods`
    /// periods, with no commitment, no fee and no deposit. `privileged` is the
    /// access policy's verdict on the caller.
    pub fn force_register(&mut self, privileged: bool, name_hash: NameHash, who: AccountId, periods: u32) -> (r: Result<(), Error>)
        requires
            old(self).wf(),
        ensures
            final(self).wf(),
            decided(
                old(self)@,
                if privileged {
                    None
                } else {
                    Some(Error::BadOrigin)
                },
                old(self)@.registered(name_hash, who, 0, periods),
                r,
                final(self)@,
            ),
    {
        if !privileged {
            return Err(Error::BadOrigin);
        }
        self.do_register(name_hash, who, 0, periods)
    }
}

} // verus!
