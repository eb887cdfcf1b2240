//! The account buffer: write versions are normalized, and large accounts are held back until
//! their slot is done, so that only the latest write of each goes out.

use crate::key_map::{lists_values, KeyMap};
use crate::keys::Pubkey;
use crate::message::{
    Message, MessageAccount, MessageAccountInfoView, MessageAccountView, MessageView, SlotStatus,
};
use crate::map_keys::keys_of;
use std::collections::{HashMap, HashSet};
use std::sync::Arc;
use vstd::prelude::*;

verus! {

broadcast use vstd::std_specs::hash::group_hash_axioms;

/// How many writes of one account in one slot can be told apart before the numbers of one slot
/// run into those of the next.
pub const VERSIONS_PER_SLOT: u64 = 10_000_000;

/// The write versions seen, by slot and account.
pub type Versions = Map<u64, Map<Seq<u8>, Set<u64>>>;

/// The accounts held back, by slot and account.
pub type Held = Map<u64, Map<Seq<u8>, MessageAccountView>>;

/// The write versions seen of an account in a slot.
pub open spec fn seen(versions: Versions, slot: u64, key: Seq<u8>) -> Set<u64> {
    if versions.contains_key(slot) && versions[slot].contains_key(key) {
        versions[slot][key]
    } else {
        Set::empty()
    }
}

/// Whether finitely many versions of each account were seen in each slot.
pub open spec fn finitely_seen(versions: Versions) -> bool {
    forall|slot: u64, key: Seq<u8>| (#[trigger] seen(versions, slot, key)).finite()
}

/// The versions seen once one more write was seen.
pub open spec fn with_seen(versions: Versions, slot: u64, key: Seq<u8>, version: u64) -> Versions {
    let of_slot = if versions.contains_key(slot) {
        versions[slot]
    } else {
        Map::empty()
    };
    versions.insert(slot, of_slot.insert(key, seen(versions, slot, key).insert(version)))
}

/// The number that takes the place of a write version: how many versions of the account were seen
/// in its slot, this one counted.
pub open spec fn normal_version(
    versions: Versions,
    slot: u64,
    key: Seq<u8>,
    version: u64,
) -> int {
    slot * VERSIONS_PER_SLOT + seen(versions, slot, key).insert(version).len()
}

/// An account message with another write version.
pub open spec fn with_version(account: MessageAccountView, version: u64) -> MessageAccountView {
    MessageAccountView {
        account: MessageAccountInfoView { write_version: version, ..account.account },
        ..account
    }
}

/// An account message with its write version normalized.
pub open spec fn normalized(
    versions: Versions,
    account: MessageAccountView,
) -> MessageAccountView {
    with_version(
        account,
        normal_version(
            versions,
            account.slot,
            account.account.pubkey@,
            account.account.write_version,
        ) as u64,
    )
}

/// Of each account and slot but one, the versions seen stay the same when one more is seen.
pub proof fn lemma_with_seen(versions: Versions, slot: u64, key: Seq<u8>, version: u64)
    ensures
        forall|s: u64, k: Seq<u8>|
            #![trigger seen(with_seen(versions, slot, key, version), s, k)]
            seen(with_seen(versions, slot, key, version), s, k) == if s == slot && k == key {
                seen(versions, slot, key).insert(version)
            } else {
                seen(versions, s, k)
            },
        finitely_seen(versions) ==> finitely_seen(with_seen(versions, slot, key, version)),
{
    let after = with_seen(versions, slot, key, version);
    assert forall|s: u64, k: Seq<u8>| #[trigger] seen(after, s, k) == if s == slot && k == key {
        seen(versions, slot, key).insert(version)
    } else {
        seen(versions, s, k)
    } by {}
    if finitely_seen(versions) {
        assert forall|s: u64, k: Seq<u8>| (#[trigger] seen(after, s, k)).finite() by {
            assert(seen(versions, s, k).finite());
        }
    }
}

/// The versions seen, without those of slots before `slot`.
pub open spec fn since_slot(versions: Versions, slot: u64) -> Versions {
    Map::new(|s: u64| versions.contains_key(s) && s >= slot, |s: u64| versions[s])
}

/// Counts the write versions seen of each account in each slot.
///
/// Each node numbers its writes from zero when it starts, so that their numbers differ between
/// nodes. As all nodes process the writes of an account in the same order, the count of those seen
/// does not.
pub struct WriteVersionTracker {
    slot_versions: HashMap<u64, KeyMap<HashSet<u64>>>,
}

impl View for WriteVersionTracker {
    type V = Versions;

    closed spec fn view(&self) -> Versions {
        self.slot_versions@.map_values(
            |of_slot: KeyMap<HashSet<u64>>| of_slot@.map_values(|set: HashSet<u64>| set@),
        )
    }
}

impl WriteVersionTracker {
    /// The entries of each slot are in order, and finitely many versions were seen.
    pub closed spec fn wf(&self) -> bool {
        &&& forall|slot: u64| #[trigger]
            self.slot_versions@.contains_key(slot) ==> self.slot_versions@[slot].wf()
        &&& finitely_seen(self@)
    }

    /// A well-formed tracker has seen finitely many versions.
    pub proof fn lemma_finitely_seen(&self)
        requires
            self.wf(),
        ensures
            finitely_seen(self@),
    {
    }

    /// A tracker that has seen nothing.
    pub fn new() -> (tracker: Self)
        ensures
            tracker.wf(),
            tracker@ == Map::<u64, Map<Seq<u8>, Set<u64>>>::empty(),
    {
        let tracker = WriteVersionTracker { slot_versions: HashMap::new() };
        assert(tracker@ =~= Map::<u64, Map<Seq<u8>, Set<u64>>>::empty());
        tracker
    }

    /// How many versions of an account will have been seen in its slot with this one.
    fn count_with(&self, account: &MessageAccount) -> (count: u128)
        requires
            self.wf(),
        ensures
            count == seen(self@, account.slot, account.account.pubkey@).insert(
                account.account.write_version,
            ).len(),
    {
        let ghost key = account.account.pubkey@;
        let ghost set = seen(self@, account.slot, key);
        match self.slot_versions.get(&account.slot) {
            Some(of_slot) => match of_slot.get(&account.account.pubkey) {
                Some(versions) => {
                    assert(set == versions@);
                    if versions.contains(&account.account.write_version) {
                        assert(set.insert(account.account.write_version) =~= set);
                        versions.len() as u128
                    } else {
                        assert(set.finite());
                        versions.len() as u128 + 1
                    }
                },
                None => {
                    assert(set.insert(account.account.write_version).len() == 1);
                    1
                },
            },
            None => {
                assert(set.insert(account.account.write_version).len() == 1);
                1
            },
        }
    }

    /// The number that [`Self::normalize`] would give to a write, if it fits.
    pub fn normalized_version(&self, account: &MessageAccount) -> (version: Option<u64>)
        requires
            self.wf(),
        ensures
            ({
                let number = normal_version(
                    self@,
                    account.slot,
                    account.account.pubkey@,
                    account.account.write_version,
                );
                if number <= u64::MAX {
                    version == Some(number as u64)
                } else {
                    version is None
                }
            }),
    {
        let count: u128 = self.count_with(account);
        let room: u128 = 0xffff_ffff_ffff_ffff;
        if count > room {
            return None;
        }
        assert(account.slot * VERSIONS_PER_SLOT <= 0xffff_ffff_ffff_ffff * 10_000_000)
            by (nonlinear_arith)
            requires
                account.slot <= 0xffff_ffff_ffff_ffff,
                VERSIONS_PER_SLOT == 10_000_000,
        ;
        let number: u128 = account.slot as u128 * VERSIONS_PER_SLOT as u128 + count;
        if number <= room {
            Some(number as u64)
        } else {
            None
        }
    }

    /// Counts a write, and puts the count in place of its version.
    pub fn normalize(&mut self, account: MessageAccount) -> (counted: MessageAccount)
        requires
            old(self).wf(),
            normal_version(
                old(self)@,
                account.slot,
                account.account.pubkey@,
                account.account.write_version,
            ) <= u64::MAX,
        ensures
            final(self).wf(),
            final(self)@ == with_seen(
                old(self)@,
                account.slot,
                account.account.pubkey@,
                account.account.write_version,
            ),
            counted@ == normalized(old(self)@, account@),
    {
        let ghost before = *self;
        let ghost key = account.account.pubkey@;
        let mut of_slot: KeyMap<HashSet<u64>> = match self.slot_versions.remove(&account.slot) {
            Some(of_slot) => of_slot,
            None => KeyMap::new(),
        };
        let ghost of_slot_before = of_slot@.map_values(|set: HashSet<u64>| set@);
        assert(of_slot_before =~= if before@.contains_key(account.slot) {
            before@[account.slot]
        } else {
            Map::empty()
        });
        let mut versions: HashSet<u64> = match of_slot.remove(&account.account.pubkey) {
            Some(versions) => versions,
            None => HashSet::new(),
        };
        assert(versions@ =~= seen(before@, account.slot, key));
        versions.insert(account.account.write_version);
        let count: u64 = versions.len() as u64;
        let ghost counted_set = versions@;
        of_slot.insert(account.account.pubkey, versions);
        let ghost of_slot_after = of_slot@.map_values(|set: HashSet<u64>| set@);
        assert(of_slot_after =~= of_slot_before.insert(key, counted_set));
        self.slot_versions.insert(account.slot, of_slot);
        assert(self@ =~= with_seen(before@, account.slot, key, account.account.write_version));
        proof {
            lemma_with_seen(before@, account.slot, key, account.account.write_version);
        }
        let mut info = (*account.account).clone();
        info.write_version = account.slot * VERSIONS_PER_SLOT + count;
        let counted = MessageAccount {
            account: Arc::new(info),
            slot: account.slot,
            bank_id: account.bank_id,
            is_startup: account.is_startup,
            created_at: account.created_at,
            sequence_number: account.sequence_number,
        };
        assert(counted@ =~= normalized(before@, account@));
        counted
    }

    /// Forgets all slots before the given one.
    pub fn on_finalized(&mut self, slot: u64)
        requires
            old(self).wf(),
        ensures
            final(self).wf(),
            final(self)@ == since_slot(old(self)@, slot),
    {
        let ghost before = *self;
        let slots = keys_of(&self.slot_versions);
        let mut i: usize = 0;
        while i < slots.len()
            invariant
                i <= slots@.len(),
                slots@.to_set() == before.slot_versions@.dom(),
                before.wf(),
                forall|s: u64| #[trigger]
                    self.slot_versions@.contains_key(s) <==> before.slot_versions@.contains_key(s)
                        && !(s < slot && slots@.take(i as int).contains(s)),
                forall|s: u64| #[trigger]
                    self.slot_versions@.contains_key(s) ==> self.slot_versions@[s]
                        == before.slot_versions@[s],
            decreases slots@.len() - i,
        {
            let at: u64 = slots[i];
            if at < slot {
                self.slot_versions.remove(&at);
            }
            proof {
                let part = slots@.take(i as int);
                let next = slots@.take(i + 1);
                assert(next =~= part.push(at));
                assert forall|s: u64| next.contains(s) <==> part.contains(s) || s == at by {
                    if part.contains(s) {
                        let j = choose|j: int| 0 <= j < part.len() && part[j] == s;
                        assert(next[j] == s);
                    }
                    assert(next[i as int] == at);
                    if next.contains(s) && s != at {
                        let j = choose|j: int| 0 <= j < next.len() && next[j] == s;
                        assert(part[j] == s);
                    }
                }
            }
            i += 1;
        }
        proof {
            assert(slots@.take(i as int) =~= slots@);
            assert forall|s: u64| self@.contains_key(s) <==> since_slot(
                before@,
                slot,
            ).contains_key(s) by {
                assert(slots@.to_set().contains(s) == slots@.contains(s));
                assert(self.slot_versions@.contains_key(s) == (before.slot_versions@.contains_key(s)
                    && !(s < slot && slots@.contains(s))));
            }
            assert(self@ =~= since_slot(before@, slot));
            assert forall|s: u64, key: Seq<u8>| (#[trigger] seen(self@, s, key)).finite() by {
                assert(seen(before@, s, key).finite());
            }
        }
    }

    /// The number of slots of which versions are remembered.
    pub fn tracked_slots(&self) -> (count: usize)
        requires
            self.wf(),
        ensures
            count == self@.dom().len(),
    {
        assert(self@.dom() =~= self.slot_versions@.dom());
        self.slot_versions.len()
    }

    /// Whether versions of a slot are remembered.
    pub fn tracks(&self, slot: u64) -> (known: bool)
        requires
            self.wf(),
        ensures
            known == self@.contains_key(slot),
    {
        self.slot_versions.contains_key(&slot)
    }
}

/// What a list of account messages says.
pub open spec fn views(accounts: Seq<MessageAccount>) -> Seq<MessageAccountView> {
    accounts.map_values(|account: MessageAccount| account@)
}

/// The accounts held back of a slot.
pub open spec fn held_of(held: Held, slot: u64) -> Map<Seq<u8>, MessageAccountView> {
    if held.contains_key(slot) {
        held[slot]
    } else {
        Map::empty()
    }
}

/// The accounts held back once one more is to be: of two writes of one account in one slot, the
/// one with the higher version is kept, and the earlier one where the versions are the same.
pub open spec fn with_account(held: Held, account: MessageAccountView) -> Held {
    let of_slot = held_of(held, account.slot);
    let key = account.account.pubkey@;
    if of_slot.contains_key(key) && of_slot[key].account.write_version
        >= account.account.write_version {
        held
    } else {
        held.insert(account.slot, of_slot.insert(key, account))
    }
}

/// The accounts held back without one of them; a slot of which none is left goes.
pub open spec fn without_account(held: Held, slot: u64, key: Seq<u8>) -> Held {
    let rest = held_of(held, slot).remove(key);
    if rest == Map::<Seq<u8>, MessageAccountView>::empty() {
        held.remove(slot)
    } else {
        held.insert(slot, rest)
    }
}

/// Whether `accounts` are all accounts held back, in the order of `places`.
pub open spec fn lists_held(
    held: Held,
    places: Seq<(u64, Seq<u8>)>,
    accounts: Seq<MessageAccountView>,
) -> bool {
    &&& places.no_duplicates()
    &&& places.len() == accounts.len()
    &&& forall|i: int|
        #![trigger places[i]]
        0 <= i < places.len() ==> {
            &&& held_of(held, places[i].0).contains_key(places[i].1)
            &&& held_of(held, places[i].0)[places[i].1] == accounts[i]
        }
    &&& forall|slot: u64, key: Seq<u8>| #[trigger]
        held_of(held, slot).contains_key(key) ==> places.contains((slot, key))
}

/// Whether every account is held back under its own slot and key, and no slot without accounts.
pub open spec fn well_filed(held: Held) -> bool {
    &&& forall|slot: u64, key: Seq<u8>| #[trigger]
        held_of(held, slot).contains_key(key) ==> {
            &&& held_of(held, slot)[key].slot == slot
            &&& held_of(held, slot)[key].account.pubkey@ == key
        }
    &&& forall|slot: u64| #[trigger]
        held.contains_key(slot) ==> held[slot] != Map::<Seq<u8>, MessageAccountView>::empty()
}

/// The accounts that are held back.
pub struct AccountBuffer {
    slots: HashMap<u64, KeyMap<MessageAccount>>,
}

impl View for AccountBuffer {
    type V = Held;

    closed spec fn view(&self) -> Held {
        self.slots@.map_values(|of_slot: KeyMap<MessageAccount>| accounts_view(of_slot))
    }
}

spec fn accounts_view(of_slot: KeyMap<MessageAccount>) -> Map<Seq<u8>, MessageAccountView> {
    of_slot@.map_values(|account: MessageAccount| account@)
}

impl AccountBuffer {
    /// The entries of each slot are in order, and well filed.
    pub closed spec fn wf(&self) -> bool {
        &&& forall|slot: u64| #[trigger]
            self.slots@.contains_key(slot) ==> self.slots@[slot].wf()
        &&& well_filed(self@)
    }

    /// A well-formed buffer is well filed.
    pub proof fn lemma_well_filed(&self)
        requires
            self.wf(),
        ensures
            well_filed(self@),
    {
    }

    /// A buffer that holds nothing back.
    pub fn new() -> (buffer: Self)
        ensures
            buffer.wf(),
            buffer@ == Map::<u64, Map<Seq<u8>, MessageAccountView>>::empty(),
    {
        let buffer = AccountBuffer { slots: HashMap::new() };
        assert(buffer@ =~= Map::<u64, Map<Seq<u8>, MessageAccountView>>::empty());
        buffer
    }

    /// Holds an account back, unless a write of it with as high a version is held already.
    pub fn upsert(&mut self, account: MessageAccount)
        requires
            old(self).wf(),
        ensures
            final(self).wf(),
            final(self)@ == with_account(old(self)@, account@),
    {
        let ghost before = *self;
        let slot: u64 = account.slot;
        let key: Pubkey = account.account.pubkey;
        let ghost view = account@;
        let mut of_slot: KeyMap<MessageAccount> = match self.slots.remove(&slot) {
            Some(of_slot) => of_slot,
            None => KeyMap::new(),
        };
        let ghost had = accounts_view(of_slot);
        assert(had =~= held_of(before@, slot));
        let superseded: bool = match of_slot.get(&key) {
            Some(existing) => existing.account.write_version >= account.account.write_version,
            None => false,
        };
        if !superseded {
            of_slot.insert(key, account);
        }
        let ghost has = accounts_view(of_slot);
        self.slots.insert(slot, of_slot);
        proof {
            if superseded {
                assert(before.slots@.contains_key(slot));
                assert(self@ =~= before@);
            } else {
                assert(has =~= had.insert(key@, view));
                assert(self@ =~= before@.insert(slot, has));
                assert(has.contains_key(key@));
            }
            assert(self@ == with_account(before@, view));
            lemma_with_account_well_filed(before@, view);
        }
    }

    /// Takes out what is held back of an account in a slot.
    pub fn remove_entry(&mut self, slot: u64, pubkey: &Pubkey) -> (entry: Option<MessageAccount>)
        requires
            old(self).wf(),
        ensures
            final(self).wf(),
            final(self)@ == without_account(old(self)@, slot, pubkey@),
            match entry {
                Some(account) => {
                    &&& held_of(old(self)@, slot).contains_key(pubkey@)
                    &&& account@ == held_of(old(self)@, slot)[pubkey@]
                },
                None => !held_of(old(self)@, slot).contains_key(pubkey@),
            },
    {
        let ghost before = *self;
        let mut of_slot: KeyMap<MessageAccount> = match self.slots.remove(&slot) {
            Some(of_slot) => of_slot,
            None => {
                proof {
                    assert(held_of(before@, slot).remove(pubkey@) =~= Map::<
                        Seq<u8>,
                        MessageAccountView,
                    >::empty());
                    assert(self@ =~= before@.remove(slot));
                    assert(self@ =~= before@);
                }
                return None;
            },
        };
        let ghost had = accounts_view(of_slot);
        assert(had == held_of(before@, slot));
        let entry = of_slot.remove(pubkey);
        let ghost has = accounts_view(of_slot);
        assert(has =~= had.remove(pubkey@));
        if of_slot.is_empty() {
            proof {
                assert(has =~= Map::<Seq<u8>, MessageAccountView>::empty());
                assert(self@ =~= before@.remove(slot));
            }
        } else {
            proof {
                assert(of_slot@.dom() =~= has.dom());
                if has == Map::<Seq<u8>, MessageAccountView>::empty() {
                    assert(of_slot@ =~= Map::<Seq<u8>, MessageAccount>::empty());
                }
            }
            self.slots.insert(slot, of_slot);
            assert(self@ =~= before@.insert(slot, has));
        }
        proof {
            lemma_without_account_well_filed(before@, slot, pubkey@);
        }
        entry
    }

    /// Takes out all that is held back of a slot.
    pub fn drain_slot(&mut self, slot: u64) -> (accounts: Vec<MessageAccount>)
        requires
            old(self).wf(),
        ensures
            final(self).wf(),
            final(self)@ == old(self)@.remove(slot),
            exists|keys: Seq<Seq<u8>>| #[trigger]
                lists_values(held_of(old(self)@, slot), keys, views(accounts@)),
    {
        let ghost before = *self;
        match self.slots.remove(&slot) {
            Some(of_slot) => {
                let ghost had = of_slot@;
                let accounts = of_slot.into_values();
                proof {
                    assert(self@ =~= before@.remove(slot));
                    lemma_drained_well_filed(before@, slot);
                    let keys = choose|keys: Seq<Seq<u8>>| #[trigger]
                        lists_values(had, keys, accounts@);
                    assert(held_of(before@, slot) == accounts_view(of_slot));
                    assert(lists_values(held_of(before@, slot), keys, views(accounts@)));
                }
                accounts
            },
            None => {
                let accounts: Vec<MessageAccount> = Vec::new();
                proof {
                    assert(self@ =~= before@);
                    assert(self@ =~= before@.remove(slot));
                    assert(lists_values(
                        held_of(before@, slot),
                        Seq::<Seq<u8>>::empty(),
                        views(accounts@),
                    ));
                }
                accounts
            },
        }
    }

    /// Takes out all that is held back.
    pub fn drain_all(&mut self) -> (accounts: Vec<MessageAccount>)
        requires
            old(self).wf(),
        ensures
            final(self).wf(),
            final(self)@ == Map::<u64, Map<Seq<u8>, MessageAccountView>>::empty(),
            exists|places: Seq<(u64, Seq<u8>)>| #[trigger]
                lists_held(old(self)@, places, views(accounts@)),
    {
        let ghost before = *self;
        let slots = keys_of(&self.slots);
        assert(before@.dom() =~= before.slots@.dom());
        assert(self@ =~= before@.remove_keys(slots@.take(0).to_set()));
        let mut accounts: Vec<MessageAccount> = Vec::new();
        let ghost mut places: Seq<(u64, Seq<u8>)> = Seq::empty();
        let mut i: usize = 0;
        while i < slots.len()
            invariant
                i <= slots@.len(),
                before.wf(),
                self.wf(),
                slots@.no_duplicates(),
                slots@.to_set() == before@.dom(),
                lists_taken(before@, slots@.take(i as int).to_set(), places, views(accounts@)),
                self@ == before@.remove_keys(slots@.take(i as int).to_set()),
            decreases slots@.len() - i,
        {
            let slot: u64 = slots[i];
            let ghost taken = slots@.take(i as int).to_set();
            let ghost had = views(accounts@);
            proof {
                assert(!taken.contains(slot));
                assert(held_of(self@, slot) == held_of(before@, slot));
            }
            let mut more = self.drain_slot(slot);
            let ghost values = views(more@);
            accounts.append(&mut more);
            proof {
                let keys = choose|keys: Seq<Seq<u8>>| #[trigger]
                    lists_values(held_of(before@, slot), keys, values);
                lemma_take_slot(before@, taken, places, had, slot, keys, values);
                places = places + keys.map_values(|key: Seq<u8>| (slot, key));
                assert(views(accounts@) =~= had + values);
                let next = slots@.take(i + 1).to_set();
                assert forall|s: u64| next.contains(s) == taken.insert(slot).contains(s) by {
                    let part = slots@.take(i as int);
                    let whole = slots@.take(i + 1);
                    if part.contains(s) {
                        let j = choose|j: int| 0 <= j < part.len() && part[j] == s;
                        assert(whole[j] == s);
                    }
                    assert(whole[i as int] == slot);
                    if whole.contains(s) && s != slot {
                        let j = choose|j: int| 0 <= j < whole.len() && whole[j] == s;
                        assert(part[j] == s);
                    }
                }
                assert(next =~= taken.insert(slot));
                assert(self@ =~= before@.remove_keys(next));
            }
            i += 1;
        }
        proof {
            assert(slots@.take(i as int) =~= slots@);
            assert(self@ =~= Map::<u64, Map<Seq<u8>, MessageAccountView>>::empty());
            assert(lists_held(before@, places, views(accounts@)));
        }
        accounts
    }
}

/// Whether `accounts` are the accounts held back of the slots in `taken`, in the order of `places`.
spec fn lists_taken(
    held: Held,
    taken: Set<u64>,
    places: Seq<(u64, Seq<u8>)>,
    accounts: Seq<MessageAccountView>,
) -> bool {
    &&& places.no_duplicates()
    &&& places.len() == accounts.len()
    &&& forall|i: int|
        #![trigger places[i]]
        0 <= i < places.len() ==> {
            &&& taken.contains(places[i].0)
            &&& held_of(held, places[i].0).contains_key(places[i].1)
            &&& held_of(held, places[i].0)[places[i].1] == accounts[i]
        }
    &&& forall|slot: u64, key: Seq<u8>| #[trigger]
        held_of(held, slot).contains_key(key) && taken.contains(slot) ==> places.contains(
            (slot, key),
        )
}

proof fn lemma_take_slot(
    held: Held,
    taken: Set<u64>,
    places: Seq<(u64, Seq<u8>)>,
    accounts: Seq<MessageAccountView>,
    slot: u64,
    keys: Seq<Seq<u8>>,
    values: Seq<MessageAccountView>,
)
    requires
        lists_taken(held, taken, places, accounts),
        !taken.contains(slot),
        lists_values(held_of(held, slot), keys, values),
    ensures
        lists_taken(
            held,
            taken.insert(slot),
            places + keys.map_values(|key: Seq<u8>| (slot, key)),
            accounts + values,
        ),
{
    let more = keys.map_values(|key: Seq<u8>| (slot, key));
    let all = places + more;
    assert forall|i: int, j: int| 0 <= i < all.len() && 0 <= j < all.len() && i != j implies all[i]
        != all[j] by {
        let n = places.len();
        if i < n && j < n {
            assert(places[i] != places[j]);
        } else if i < n {
            assert(taken.contains(places[i].0));
            assert(all[j] == more[j - n]);
        } else if j < n {
            assert(taken.contains(places[j].0));
            assert(all[i] == more[i - n]);
        } else {
            assert(keys[i - n] != keys[j - n]);
            assert(all[i] == more[i - n] && all[j] == more[j - n]);
        }
    }
    assert forall|i: int|
        #![trigger all[i]]
        0 <= i < all.len() implies {
        &&& taken.insert(slot).contains(all[i].0)
        &&& held_of(held, all[i].0).contains_key(all[i].1)
        &&& held_of(held, all[i].0)[all[i].1] == (accounts + values)[i]
    } by {
        if i < places.len() {
            assert(all[i] == places[i]);
        } else {
            let j = i - places.len();
            assert(all[i] == more[j]);
            assert(held_of(held, slot).contains_key(keys[j]));
        }
    }
    assert forall|s: u64, k: Seq<u8>| #[trigger]
        held_of(held, s).contains_key(k) && taken.insert(slot).contains(s) implies all.contains(
        (s, k),
    ) by {
        if s == slot {
            assert(keys.contains(k));
            let j = choose|j: int| 0 <= j < keys.len() && keys[j] == k;
            assert(more[j] == (s, k));
            assert(all[places.len() + j] == (s, k));
        } else {
            assert(places.contains((s, k)));
            let j = choose|j: int| 0 <= j < places.len() && places[j] == (s, k);
            assert(all[j] == (s, k));
        }
    }
}

proof fn lemma_with_account_well_filed(held: Held, account: MessageAccountView)
    requires
        well_filed(held),
    ensures
        well_filed(with_account(held, account)),
{
    let after = with_account(held, account);
    let key = account.account.pubkey@;
    assert forall|s: u64, k: Seq<u8>| #[trigger] held_of(after, s).contains_key(k) implies {
        &&& held_of(after, s)[k].slot == s
        &&& held_of(after, s)[k].account.pubkey@ == k
    } by {
        if s != account.slot || k != key {
            assert(held_of(held, s).contains_key(k));
        } else {
            assert(held_of(held, s).contains_key(k) || held_of(after, s)[k] == account);
        }
    }
    assert forall|s: u64| #[trigger] after.contains_key(s) implies after[s] != Map::<
        Seq<u8>,
        MessageAccountView,
    >::empty() by {
        if s == account.slot {
            assert(after[s].contains_key(key));
        } else {
            assert(held.contains_key(s));
        }
    }
}

proof fn lemma_without_account_well_filed(held: Held, slot: u64, key: Seq<u8>)
    requires
        well_filed(held),
    ensures
        well_filed(without_account(held, slot, key)),
{
    let after = without_account(held, slot, key);
    assert forall|s: u64, k: Seq<u8>| #[trigger] held_of(after, s).contains_key(k) implies {
        &&& held_of(after, s)[k].slot == s
        &&& held_of(after, s)[k].account.pubkey@ == k
    } by {
        assert(held_of(held, s).contains_key(k));
    }
    assert forall|s: u64| #[trigger] after.contains_key(s) implies after[s] != Map::<
        Seq<u8>,
        MessageAccountView,
    >::empty() by {
        if s != slot {
            assert(held.contains_key(s));
        }
    }
}

proof fn lemma_drained_well_filed(held: Held, slot: u64)
    requires
        well_filed(held),
    ensures
        well_filed(held.remove(slot)),
{
    let after = held.remove(slot);
    assert forall|s: u64, k: Seq<u8>| #[trigger] held_of(after, s).contains_key(k) implies {
        &&& held_of(after, s)[k].slot == s
        &&& held_of(after, s)[k].account.pubkey@ == k
    } by {
        assert(held_of(held, s).contains_key(k));
    }
    assert forall|s: u64| #[trigger] after.contains_key(s) implies after[s] != Map::<
        Seq<u8>,
        MessageAccountView,
    >::empty() by {
        assert(held.contains_key(s));
    }
}

/// What a list of messages says.
pub open spec fn message_views(messages: Seq<Message>) -> Seq<MessageView> {
    messages.map_values(|message: Message| message@)
}

/// The messages on a list of accounts.
pub open spec fn account_messages(accounts: Seq<MessageAccountView>) -> Seq<MessageView> {
    accounts.map_values(|account: MessageAccountView| MessageView::Account(account))
}

/// Whether `out` are the messages on the accounts held back of a slot, in any order.
pub open spec fn flushes_slot(held: Held, slot: u64, out: Seq<MessageView>) -> bool {
    exists|keys: Seq<Seq<u8>>, accounts: Seq<MessageAccountView>| #[trigger]
        lists_values(held_of(held, slot), keys, accounts) && out == account_messages(accounts)
}

/// Whether `out` are the messages on all accounts held back, in any order.
pub open spec fn flushes_all(held: Held, out: Seq<MessageView>) -> bool {
    exists|places: Seq<(u64, Seq<u8>)>, accounts: Seq<MessageAccountView>| #[trigger]
        lists_held(held, places, accounts) && out == account_messages(accounts)
}

/// Puts each account in a message.
pub fn to_messages(accounts: Vec<MessageAccount>) -> (messages: Vec<Message>)
    ensures
        message_views(messages@) == account_messages(views(accounts@)),
{
    let ghost all = accounts@;
    let mut rest: Vec<MessageAccount> = accounts;
    let mut backward: Vec<MessageAccount> = Vec::new();
    while rest.len() > 0
        invariant
            rest@.len() + backward@.len() == all.len(),
            rest@ == all.take(rest@.len() as int),
            backward@ == all.skip(rest@.len() as int).reverse(),
        decreases rest@.len(),
    {
        match rest.pop() {
            Some(account) => backward.push(account),
            None => {},
        }
        proof {
            assert(rest@ =~= all.take(rest@.len() as int));
            assert(backward@ =~= all.skip(rest@.len() as int).reverse());
        }
    }
    assert(all.skip(0) =~= all);
    let mut messages: Vec<Message> = Vec::new();
    while backward.len() > 0
        invariant
            messages@.len() + backward@.len() == all.len(),
            backward@ == all.skip(messages@.len() as int).reverse(),
            message_views(messages@) == account_messages(views(all.take(messages@.len() as int))),
        decreases backward@.len(),
    {
        let ghost n = messages@.len() as int;
        let ghost had = messages@;
        assert(backward@.last() == all[n]);
        match backward.pop() {
            Some(account) => messages.push(Message::Account(account)),
            None => {},
        }
        proof {
            assert(backward@ =~= all.skip(n + 1).reverse());
            assert(message_views(messages@) =~= message_views(had).push(
                MessageView::Account(all[n]@),
            ));
            assert(account_messages(views(all.take(n + 1))) =~= account_messages(
                views(all.take(n)),
            ).push(MessageView::Account(all[n]@)));
        }
    }
    assert(all.take(messages@.len() as int) =~= all);
    messages
}

/// What the buffer knows: the write versions that it saw, and the accounts that it holds back.
pub struct BufferState {
    pub versions: Versions,
    pub held: Held,
}

/// The slot whose accounts go out before a message does: that of a processed slot, and that of a
/// block's description.
pub open spec fn flushed_slot(message: Message) -> Option<u64> {
    match message {
        Message::Slot(news) => if news.status == SlotStatus::Processed {
            Some(news.slot)
        } else {
            None
        },
        Message::BlockMeta(meta) => Some(meta.block_meta.slot),
        _ => None,
    }
}

/// The slot before which all versions are forgotten when a message comes.
pub open spec fn finalized_slot(message: Message) -> Option<u64> {
    match message {
        Message::Slot(news) => if news.status == SlotStatus::Finalized {
            Some(news.slot)
        } else {
            None
        },
        _ => None,
    }
}

/// Whether a buffer that holds accounts of `threshold` bytes or more back goes from `before` to
/// `after` when it gets a message, and sends `out` on.
pub open spec fn takes(
    before: BufferState,
    threshold: usize,
    message: Message,
    after: BufferState,
    out: Seq<MessageView>,
) -> bool {
    match message {
        Message::Account(account) => {
            let counted = normalized(before.versions, account@);
            &&& after.versions == with_seen(
                before.versions,
                account.slot,
                account.account.pubkey@,
                account.account.write_version,
            )
            &&& if counted.account.data.len() >= threshold {
                &&& after.held == with_account(before.held, counted)
                &&& out == Seq::<MessageView>::empty()
            } else {
                &&& after.held == without_account(
                    before.held,
                    account.slot,
                    account.account.pubkey@,
                )
                &&& out == seq![MessageView::Account(counted)]
            }
        },
        _ => {
            &&& after.versions == match finalized_slot(message) {
                Some(slot) => since_slot(before.versions, slot),
                None => before.versions,
            }
            &&& after.held == match flushed_slot(message) {
                Some(slot) => before.held.remove(slot),
                None => before.held,
            }
            &&& out.len() > 0
            &&& out.last() == message@
            &&& match flushed_slot(message) {
                Some(slot) => flushes_slot(before.held, slot, out.drop_last()),
                None => out.len() == 1,
            }
        },
    }
}

/// Whatever message comes, what is held back stays well filed.
pub proof fn lemma_takes_well_filed(
    before: BufferState,
    threshold: usize,
    message: Message,
    after: BufferState,
    out: Seq<MessageView>,
)
    requires
        takes(before, threshold, message, after, out),
        well_filed(before.held),
    ensures
        well_filed(after.held),
{
    match message {
        Message::Account(account) => {
            lemma_with_account_well_filed(before.held, normalized(before.versions, account@));
            lemma_without_account_well_filed(
                before.held,
                account.slot,
                account.account.pubkey@,
            );
        },
        _ => {
            if let Some(slot) = flushed_slot(message) {
                lemma_drained_well_filed(before.held, slot);
            }
        },
    }
}

/// Whether the number that an account message gets in place of its write version fits.
pub open spec fn fits(versions: Versions, message: Message) -> bool {
    match message {
        Message::Account(account) => normal_version(
            versions,
            account.slot,
            account.account.pubkey@,
            account.account.write_version,
        ) <= u64::MAX,
        _ => true,
    }
}

/// The task that stands between the validator and the subscribers. It gets all messages, and says
/// what goes out when.
pub struct BufferTask {
    buffer: AccountBuffer,
    tracker: WriteVersionTracker,
    size_threshold: usize,
}

impl View for BufferTask {
    type V = BufferState;

    closed spec fn view(&self) -> BufferState {
        BufferState { versions: self.tracker@, held: self.buffer@ }
    }
}

impl BufferTask {
    /// Both parts are in order.
    pub closed spec fn wf(&self) -> bool {
        &&& self.buffer.wf()
        &&& self.tracker.wf()
    }

    /// From how many bytes on an account is held back.
    pub closed spec fn threshold(&self) -> usize {
        self.size_threshold
    }

    /// Whatever a task got, what it holds back is well filed, and it has seen finitely many
    /// versions.
    pub proof fn law_task_is_well_filed(&self)
        requires
            self.wf(),
        ensures
            well_filed(self@.held),
            finitely_seen(self@.versions),
    {
        self.buffer.lemma_well_filed();
        self.tracker.lemma_finitely_seen();
    }

    /// A task that has got nothing yet.
    pub fn new(size_threshold: usize) -> (task: Self)
        ensures
            task.wf(),
            task.threshold() == size_threshold,
            task@ == (BufferState { versions: Map::empty(), held: Map::empty() }),
    {
        BufferTask {
            buffer: AccountBuffer::new(),
            tracker: WriteVersionTracker::new(),
            size_threshold,
        }
    }

    /// Whether the task can number a message.
    pub fn accepts(&self, message: &Message) -> (accepted: bool)
        requires
            self.wf(),
        ensures
            accepted == fits(self@.versions, *message),
    {
        match message {
            Message::Account(account) => self.tracker.normalized_version(account).is_some(),
            _ => true,
        }
    }

    /// Takes a message, and says what goes out.
    pub fn on_message(&mut self, message: Message) -> (out: Vec<Message>)
        requires
            old(self).wf(),
            fits(old(self)@.versions, message),
        ensures
            final(self).wf(),
            final(self).threshold() == old(self).threshold(),
            takes(
                old(self)@,
                old(self).threshold(),
                message,
                final(self)@,
                message_views(out@),
            ),
    {
        let mut out: Vec<Message> = Vec::new();
        assert(message_views(out@) =~= Seq::<MessageView>::empty());
        match message {
            Message::Account(account) => {
                let account = self.tracker.normalize(account);
                if account.account.data.len() >= self.size_threshold {
                    self.buffer.upsert(account);
                } else {
                    let _ = self.buffer.remove_entry(account.slot, &account.account.pubkey);
                    out.push(Message::Account(account));
                    assert(message_views(out@) =~= seq![MessageView::Account(account@)]);
                }
            },
            Message::Slot(news) => {
                if news.status == SlotStatus::Finalized {
                    self.tracker.on_finalized(news.slot);
                } else if news.status == SlotStatus::Processed {
                    out = to_messages(self.buffer.drain_slot(news.slot));
                }
                let ghost flushed = message_views(out@);
                out.push(Message::Slot(news));
                assert(message_views(out@).drop_last() =~= flushed);
            },
            Message::BlockMeta(meta) => {
                out = to_messages(self.buffer.drain_slot(meta.slot()));
                let ghost flushed = message_views(out@);
                out.push(Message::BlockMeta(meta));
                assert(message_views(out@).drop_last() =~= flushed);
            },
            other => {
                out.push(other);
            },
        }
        out
    }

    /// Takes a tick of the flush timer, at which all that is held back goes out.
    pub fn on_tick(&mut self) -> (out: Vec<Message>)
        requires
            old(self).wf(),
        ensures
            final(self).wf(),
            final(self).threshold() == old(self).threshold(),
            final(self)@.versions == old(self)@.versions,
            final(self)@.held == Map::<u64, Map<Seq<u8>, MessageAccountView>>::empty(),
            flushes_all(old(self)@.held, message_views(out@)),
    {
        to_messages(self.buffer.drain_all())
    }
}

} // verus!
