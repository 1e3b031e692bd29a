use name_service::{
    commitment_hash, label_hash, name_hash, AccountId, Balance, Config, Error, Event, Ledger,
    LoggedLedger, Pallet, Registration,
};
use parity_scale_codec::Encode;
use std::collections::HashMap;

const ALICE: AccountId = 1;
const BOB: AccountId = 2;
const CAROL: AccountId = 3;
const BLOCKS: u64 = 10;

#[derive(Default)]
struct MockLedger {
    free: HashMap<AccountId, Balance>,
    reserved: HashMap<AccountId, Balance>,
    sink: Balance,
}

impl MockLedger {
    fn with(accounts: &[(AccountId, Balance)]) -> Self {
        let mut l = MockLedger::default();
        for (who, amount) in accounts {
            l.free.insert(*who, *amount);
        }
        l
    }
    fn free(&self, who: AccountId) -> Balance {
        *self.free.get(&who).unwrap_or(&0)
    }
    fn reserved(&self, who: AccountId) -> Balance {
        *self.reserved.get(&who).unwrap_or(&0)
    }
}

impl Ledger for MockLedger {
    fn reserve(&mut self, who: AccountId, amount: Balance) -> bool {
        let free = self.free(who);
        if free < amount {
            return false;
        }
        self.free.insert(who, free - amount);
        *self.reserved.entry(who).or_insert(0) += amount;
        true
    }
    fn unreserve(&mut self, who: AccountId, amount: Balance) {
        let r = self.reserved(who);
        let back = r.min(amount);
        self.reserved.insert(who, r - back);
        *self.free.entry(who).or_insert(0) += back;
    }
    fn withdraw(&mut self, who: AccountId, amount: Balance) -> Option<Balance> {
        let free = self.free(who);
        if free < amount {
            return None;
        }
        self.free.insert(who, free - amount);
        Some(amount)
    }
    fn on_unbalanced(&mut self, credit: Balance) {
        self.sink += credit;
    }
}

fn config() -> Config {
    Config {
        controllers_only: false,
        controller_accounts: vec![],
        commitment_deposit: 100,
        tier_three_letters: 640,
        tier_four_letters: 160,
        tier_default: 5,
        blocks_per_registration_period: BLOCKS,
        minimum_registration_periods: 1,
        fee_per_registration_period: 1,
    }
}

fn funded() -> LoggedLedger<MockLedger> {
    LoggedLedger::new(MockLedger::with(&[(ALICE, 10_000), (BOB, 10_000), (CAROL, 10_000)]))
}

/// Commits and reveals `name` from ALICE on behalf of `who`.
fn register(p: &mut Pallet, l: &mut LoggedLedger<MockLedger>, name: &[u8], who: AccountId, periods: u32) {
    let h = commitment_hash(&name.to_vec(), 7);
    p.commit(l, ALICE, who, h).unwrap();
    p.reveal_name(l, ALICE, name.to_vec(), 7, periods).unwrap();
}

#[test]
fn empty_name_hash_is_blake2b_256_of_nothing() {
    let expected: [u8; 32] = [
        0x0e, 0x57, 0x51, 0xc0, 0x26, 0xe5, 0x43, 0xb2, 0xe8, 0xab, 0x2e, 0xb0, 0x60, 0x99, 0xda,
        0xa1, 0xd1, 0xe5, 0xdf, 0x47, 0x77, 0x8f, 0x77, 0x87, 0xfa, 0xab, 0x45, 0xcd, 0xf1, 0x2f,
        0xe3, 0xa8,
    ];
    assert_eq!(name_hash(b""), expected);
}

#[test]
fn hashes_match_the_outside_crates() {
    let name = b"alice".to_vec();
    assert_eq!(name_hash(&name), sp_core_hashing::blake2_256(&name));
    assert_eq!(label_hash(b"www"), sp_core_hashing::blake2_256(b"www"));
    let encoded = (name.clone(), 42u64).encode();
    assert_eq!(encoded.len(), 1 + 5 + 8);
    assert_eq!(commitment_hash(&name, 42), sp_core_hashing::blake2_256(&encoded));
    assert_ne!(commitment_hash(&name, 42), commitment_hash(&name, 43));
    let parent = name_hash(b"alice");
    let label = label_hash(b"www");
    let mut joined = parent.to_vec();
    joined.extend_from_slice(&label);
    assert_eq!(name_service::sub_name_hash(&parent, &label), sp_core_hashing::blake2_256(&joined));
    assert_eq!(Pallet::generate_sub_name_hash(parent, label), sp_core_hashing::blake2_256(&joined));
    assert_ne!(Pallet::generate_sub_name_hash(parent, label), Pallet::generate_sub_name_hash(label, parent));
}

#[test]
fn commitment_hash_follows_every_length_prefix_mode() {
    for len in [0usize, 63, 64, 16383, 16384] {
        let name = vec![7u8; len];
        let encoded = (name.clone(), 9u64).encode();
        let prefix = if len < 64 { 1 } else if len < 16384 { 2 } else { 4 };
        assert_eq!(encoded.len(), prefix + len + 8);
        assert_eq!(commitment_hash(&name, 9), sp_core_hashing::blake2_256(&encoded));
    }
}

#[test]
fn hash_equality_is_byte_equality() {
    let a = name_hash(b"abc");
    let mut b = a;
    assert!(name_service::hash_eq(&a, &b));
    b[31] ^= 1;
    assert!(!name_service::hash_eq(&a, &b));
}

#[test]
fn registration_fee_tiers() {
    let p = Pallet::new(config());
    assert_eq!(p.registration_fee(b"ab".to_vec(), 1), u128::MAX);
    assert_eq!(p.registration_fee(b"abc".to_vec(), 1), 641);
    assert_eq!(p.registration_fee(b"abcd".to_vec(), 2), 162);
    assert_eq!(p.registration_fee(b"abcde".to_vec(), 3), 8);
    assert_eq!(p.registration_fee(b"abcdefghij".to_vec(), 0), 5);
}

#[test]
fn fee_never_grows_with_length() {
    let p = Pallet::new(config());
    let mut last = p.registration_fee(b"ab".to_vec(), 4);
    for len in 3..12 {
        let fee = p.registration_fee(vec![b'x'; len], 4);
        assert!(fee <= last);
        assert!(p.registration_fee(b"x".to_vec(), 4) > fee);
        last = fee;
    }
}

#[test]
fn fees_and_lengths_saturate() {
    let mut c = config();
    c.fee_per_registration_period = u128::MAX / 2;
    c.blocks_per_registration_period = u64::MAX / 3;
    let p = Pallet::new(c);
    assert_eq!(p.length_fee(3), u128::MAX);
    assert_eq!(p.length_fee(2), u128::MAX - 1);
    assert_eq!(p.length(4), u64::MAX);
    assert_eq!(p.length(3), u64::MAX);
    assert_eq!(p.registration_fee(b"abcde".to_vec(), 2), u128::MAX);
    let q = Pallet::new(config());
    assert_eq!(q.length_fee(7), 7);
    assert_eq!(q.length(7), 70);
}

#[test]
fn commit_twice_fails_already_committed() {
    let mut p = Pallet::new(config());
    let mut l = funded();
    let h = commitment_hash(&b"alice".to_vec(), 42);
    assert_eq!(p.commit(&mut l, ALICE, BOB, h), Ok(()));
    assert_eq!(p.commit(&mut l, CAROL, CAROL, h), Err(Error::AlreadyCommitted));
    assert_eq!(p.commit(&mut l, ALICE, BOB, h), Err(Error::AlreadyCommitted));
    let c = p.commitment(h).unwrap();
    assert_eq!((c.committer, c.who, c.when, c.deposit), (ALICE, BOB, 0, 100));
    assert_eq!(l.inner().reserved(ALICE), 100);
    assert_eq!(l.inner().reserved(CAROL), 0);
    assert_eq!(p.events().len(), 1);
    assert_eq!(p.events()[0], Event::Committed { sender: ALICE, who: BOB, hash: h });
}

#[test]
fn commit_needs_controller_when_controllers_only() {
    let mut c = config();
    c.controllers_only = true;
    c.controller_accounts = vec![BOB];
    let mut p = Pallet::new(c);
    let mut l = funded();
    let h = commitment_hash(&b"alice".to_vec(), 42);
    assert_eq!(p.commit(&mut l, ALICE, ALICE, h), Err(Error::NotControllerAccount));
    assert_eq!(p.commitment(h), None);
    assert_eq!(p.commit(&mut l, BOB, ALICE, h), Ok(()));
}

#[test]
fn commit_without_balance_changes_nothing() {
    let mut p = Pallet::new(config());
    let mut l = LoggedLedger::new(MockLedger::with(&[(ALICE, 99)]));
    let h = commitment_hash(&b"alice".to_vec(), 42);
    assert_eq!(p.commit(&mut l, ALICE, ALICE, h), Err(Error::InsufficientBalance));
    assert_eq!(p.commitment(h), None);
    assert!(p.events().is_empty());
}

#[test]
fn commit_reveal_transfer_deregister_scenario() {
    let mut p = Pallet::new(config());
    let mut l = funded();
    let name = b"alice".to_vec();
    let h = commitment_hash(&name, 42);
    let nh = name_hash(&name);
    p.commit(&mut l, CAROL, ALICE, h).unwrap();
    assert_eq!(p.reveal_name(&mut l, CAROL, name.clone(), 42, 5), Ok(()));
    let r = p.registration(nh).unwrap();
    assert_eq!(r, Registration { owner: ALICE, registrant: ALICE, expiry: 5 * BLOCKS, deposit: 0 });
    assert_eq!(p.commitment(h), None);
    // fee: default tier 5 plus 5 periods at 1 each
    assert_eq!(l.inner().free(CAROL), 10_000 - 10);
    assert_eq!(l.inner().reserved(CAROL), 0);
    assert_eq!(l.inner().sink, 10);
    assert_eq!(p.reveal_name(&mut l, CAROL, name.clone(), 42, 5), Err(Error::CommitmentNotFound));
    assert_eq!(p.transfer(BOB, BOB, nh), Err(Error::NotRegistrationOwner));
    assert_eq!(p.set_address(ALICE, nh, BOB), Ok(()));
    assert_eq!(p.resolve(nh), Some(BOB));
    assert_eq!(p.deregister(BOB, nh), Err(Error::RegistrationNotExpired));
    p.set_block_number(5 * BLOCKS);
    assert_eq!(p.deregister(BOB, nh), Ok(()));
    assert_eq!(p.registration(nh), None);
    assert_eq!(p.resolve(nh), None);
    assert_eq!(p.deregister(BOB, nh), Err(Error::RegistrationNotFound));
}

#[test]
fn reveal_rejects_short_periods_and_short_names_without_consuming() {
    let mut p = Pallet::new(config());
    let mut l = funded();
    let h = commitment_hash(&b"al".to_vec(), 1);
    p.commit(&mut l, ALICE, ALICE, h).unwrap();
    assert_eq!(p.reveal_name(&mut l, ALICE, b"al".to_vec(), 1, 1), Err(Error::RegistrationPeriodTooShort));
    assert_eq!(p.reveal_name(&mut l, ALICE, b"al".to_vec(), 1, 3), Err(Error::NameTooShort));
    assert!(p.commitment(h).is_some());
    assert_eq!(p.reveal_name(&mut l, ALICE, b"al".to_vec(), 2, 3), Err(Error::CommitmentNotFound));
}

#[test]
fn reveal_without_fee_keeps_commitment() {
    let mut p = Pallet::new(config());
    let mut l = LoggedLedger::new(MockLedger::with(&[(ALICE, 105)]));
    let h = commitment_hash(&b"abc".to_vec(), 1);
    p.commit(&mut l, ALICE, ALICE, h).unwrap();
    assert_eq!(p.reveal_name(&mut l, ALICE, b"abc".to_vec(), 1, 2), Err(Error::InsufficientBalance));
    assert!(p.commitment(h).is_some());
    assert_eq!(p.registration(name_hash(b"abc")), None);
}

#[test]
fn reveal_of_a_taken_name_only_consumes_the_commitment() {
    let mut p = Pallet::new(config());
    let mut l = funded();
    register(&mut p, &mut l, b"alice", ALICE, 5);
    let nh = name_hash(b"alice");
    let before = p.registration(nh).unwrap();
    let h = commitment_hash(&b"alice".to_vec(), 99);
    p.commit(&mut l, BOB, BOB, h).unwrap();
    assert_eq!(l.inner().reserved(BOB), 100);
    let free_bob = l.inner().free(BOB);
    assert_eq!(p.reveal_name(&mut l, BOB, b"alice".to_vec(), 99, 5), Ok(()));
    assert_eq!(p.registration(nh), Some(before));
    assert_eq!(p.commitment(h), None);
    assert_eq!(l.inner().reserved(BOB), 0);
    assert_eq!(l.inner().free(BOB), free_bob + 100);
}

#[test]
fn expired_name_is_available_again() {
    let mut p = Pallet::new(config());
    let mut l = funded();
    register(&mut p, &mut l, b"alice", ALICE, 2);
    let nh = name_hash(b"alice");
    assert!(p.is_available(name_hash(b"bobby"), 0));
    assert!(!p.is_available(nh, 0));
    assert!(!p.is_available(nh, 19));
    assert!(p.is_available(nh, 20));
    p.set_block_number(25);
    let h = commitment_hash(&b"alice".to_vec(), 5);
    p.commit(&mut l, BOB, BOB, h).unwrap();
    p.reveal_name(&mut l, BOB, b"alice".to_vec(), 5, 3).unwrap();
    let r = p.registration(nh).unwrap();
    assert_eq!((r.owner, r.expiry), (BOB, 55));
}

#[test]
fn transfer_checks_owner_and_expiry() {
    let mut p = Pallet::new(config());
    let mut l = funded();
    register(&mut p, &mut l, b"alice", ALICE, 2);
    let nh = name_hash(b"alice");
    assert_eq!(p.transfer(ALICE, BOB, name_hash(b"nobody")), Err(Error::RegistrationNotFound));
    assert_eq!(p.transfer(BOB, BOB, nh), Err(Error::NotRegistrationOwner));
    assert_eq!(p.transfer(ALICE, BOB, nh), Ok(()));
    assert_eq!(p.registration(nh).unwrap().owner, BOB);
    assert_eq!(p.registration(nh).unwrap().registrant, ALICE);
    assert_eq!(*p.events().last().unwrap(), Event::Transfer { from: ALICE, to: BOB });
    p.set_block_number(20);
    assert_eq!(p.transfer(BOB, ALICE, nh), Err(Error::RegistrationExpired));
}

#[test]
fn renew_extends_from_expiry_or_from_now() {
    let mut p = Pallet::new(config());
    let mut l = funded();
    register(&mut p, &mut l, b"alice", ALICE, 2);
    let nh = name_hash(b"alice");
    p.set_block_number(5);
    // anyone may renew
    assert_eq!(p.renew(&mut l, CAROL, nh, 3), Ok(()));
    assert_eq!(p.registration(nh).unwrap().expiry, 50);
    assert_eq!(l.inner().free(CAROL), 10_000 - 3);
    assert_eq!(*p.events().last().unwrap(), Event::Extended { name_hash: nh, expires: 50 });
    p.set_block_number(70);
    assert_eq!(p.renew(&mut l, ALICE, nh, 1), Ok(()));
    assert_eq!(p.registration(nh).unwrap().expiry, 80);
    assert_eq!(p.renew(&mut l, ALICE, name_hash(b"zzz"), 1), Err(Error::RegistrationNotFound));
    let mut poor = LoggedLedger::new(MockLedger::default());
    assert_eq!(p.renew(&mut poor, ALICE, nh, 1), Err(Error::InsufficientBalance));
    assert_eq!(p.registration(nh).unwrap().expiry, 80);
}

#[test]
fn subnames_follow_their_parent() {
    let mut p = Pallet::new(config());
    let mut l = funded();
    register(&mut p, &mut l, b"alice", ALICE, 2);
    let nh = name_hash(b"alice");
    let www = label_hash(b"www");
    let mail = label_hash(b"mail");
    assert_eq!(p.register_sub_name(BOB, nh, b"www".to_vec()), Err(Error::NotRegistrationOwner));
    assert_eq!(p.register_sub_name(ALICE, name_hash(b"x"), b"www".to_vec()), Err(Error::RegistrationNotFound));
    assert_eq!(p.register_sub_name(ALICE, nh, b"www".to_vec()), Ok(()));
    assert_eq!(p.register_sub_name(ALICE, nh, b"www".to_vec()), Err(Error::SubNameAlreadyRegistered));
    assert_eq!(p.register_sub_name(ALICE, nh, b"mail".to_vec()), Ok(()));
    let sub = p.sub_registration(nh, www).unwrap();
    assert_eq!(sub.hash, Pallet::generate_sub_name_hash(nh, www));
    assert_eq!((sub.owner, sub.registrant), (ALICE, ALICE));
    assert_eq!(p.set_sub_name_address(BOB, nh, www, BOB), Err(Error::NotRegistrationOwner));
    assert_eq!(p.set_sub_name_address(ALICE, nh, www, BOB), Ok(()));
    assert_eq!(p.set_sub_name_address(ALICE, nh, mail, CAROL), Ok(()));
    assert_eq!(p.resolve(sub.hash), Some(BOB));
    assert_eq!(p.set_sub_name_address(ALICE, nh, label_hash(b"ftp"), BOB), Err(Error::RegistrationNotFound));
    assert_eq!(p.resolve(Pallet::generate_sub_name_hash(nh, label_hash(b"ftp"))), None);
    assert_eq!(p.deregister_sub_name(ALICE, nh, label_hash(b"ftp")), Err(Error::RegistrationNotFound));
    assert_eq!(p.deregister_sub_name(ALICE, nh, mail), Ok(()));
    assert_eq!(p.sub_registration(nh, mail), None);
    assert_eq!(p.resolve(Pallet::generate_sub_name_hash(nh, mail)), None);
    // a lapsed parent can no longer create subnames
    p.set_block_number(20);
    assert_eq!(p.register_sub_name(ALICE, nh, b"ftp".to_vec()), Err(Error::RegistrationExpired));
    assert_eq!(p.set_sub_name_address(ALICE, nh, www, ALICE), Err(Error::RegistrationExpired));
    // removal needs ownership only
    assert_eq!(p.deregister_sub_name(BOB, nh, www), Err(Error::NotRegistrationOwner));
    assert_eq!(p.deregister_sub_name(ALICE, nh, label_hash(b"ftp")), Err(Error::RegistrationNotFound));
    assert_eq!(p.deregister_sub_name(ALICE, nh, www), Ok(()));
    assert_eq!(p.sub_registration(nh, www), None);
    assert_eq!(p.resolve(sub.hash), None);
}

#[test]
fn deregister_removes_subnames_and_their_addresses() {
    let mut p = Pallet::new(config());
    let mut l = funded();
    register(&mut p, &mut l, b"alice", ALICE, 2);
    register(&mut p, &mut l, b"bobby", BOB, 5);
    let nh = name_hash(b"alice");
    let other = name_hash(b"bobby");
    let www = label_hash(b"www");
    p.register_sub_name(ALICE, nh, b"www".to_vec()).unwrap();
    p.register_sub_name(ALICE, nh, b"mail".to_vec()).unwrap();
    p.register_sub_name(BOB, other, b"www".to_vec()).unwrap();
    p.set_address(ALICE, nh, ALICE).unwrap();
    p.set_sub_name_address(ALICE, nh, www, CAROL).unwrap();
    p.set_sub_name_address(BOB, other, www, BOB).unwrap();
    p.set_block_number(20);
    assert_eq!(p.deregister(CAROL, nh), Ok(()));
    assert_eq!(p.sub_registration(nh, www), None);
    assert_eq!(p.sub_registration(nh, label_hash(b"mail")), None);
    assert_eq!(p.resolve(Pallet::generate_sub_name_hash(nh, www)), None);
    assert_eq!(p.resolve(nh), None);
    assert!(p.sub_registration(other, www).is_some());
    assert_eq!(p.resolve(Pallet::generate_sub_name_hash(other, www)), Some(BOB));
    assert_eq!(*p.events().last().unwrap(), Event::AddressDeregistered { name_hash: nh });
}

#[test]
fn force_register_needs_privilege_and_charges_nothing() {
    let mut p = Pallet::new(config());
    let nh = name_hash(b"ab");
    assert_eq!(p.force_register(false, nh, BOB, 3), Err(Error::BadOrigin));
    assert_eq!(p.registration(nh), None);
    p.set_block_number(4);
    assert_eq!(p.force_register(true, nh, BOB, 3), Ok(()));
    assert_eq!(p.registration(nh), Some(Registration { owner: BOB, registrant: BOB, expiry: 34, deposit: 0 }));
    assert_eq!(*p.events().last().unwrap(), Event::Registered { owner: BOB, expiry: 34, deposit: 0 });
}

#[test]
fn internal_helpers_act_without_checks() {
    let mut p = Pallet::new(config());
    let nh = name_hash(b"carol");
    assert_eq!(p.do_register(nh, CAROL, 7, 2), Ok(()));
    assert_eq!(p.registration(nh).unwrap().deposit, 7);
    assert_eq!(p.do_set_address(nh, BOB), Ok(()));
    assert_eq!(p.resolve(nh), Some(BOB));
    let reg = p.registration(nh).unwrap();
    assert_eq!(p.do_register_sub_name(nh, b"x".to_vec(), reg), Ok(()));
    assert_eq!(p.do_register_sub_name(nh, b"x".to_vec(), reg), Err(Error::SubNameAlreadyRegistered));
    let x = label_hash(b"x");
    assert_eq!(p.do_set_sub_name_address(nh, x, ALICE), Ok(()));
    assert_eq!(p.do_deregister_sub_name(nh, x), Ok(()));
    assert_eq!(p.do_deregister_sub_name(nh, x), Err(Error::RegistrationNotFound));
    assert_eq!(p.do_deregister(nh), Err(Error::RegistrationNotExpired));
    p.set_block_number(p.block_number() + 20);
    assert_eq!(p.do_deregister(nh), Ok(()));
    assert_eq!(p.config().tier_default, 5);
}

#[test]
fn epm_rpc_keeps_its_client() {
    let client = std::sync::Arc::new(5u32);
    let rpc: name_service::EpmRpc<u32, ()> = name_service::EpmRpc::new(client.clone());
    assert_eq!(**rpc.client(), 5);
    assert!(std::sync::Arc::ptr_eq(rpc.client(), &client));
}
