//! A trivial host: the capability bytecode sees, backed by an in-memory
//! storage map that treats every account as empty. It exists for tests of
//! the interpreter above this crate.

use vstd::prelude::*;
use crate::env::Env;
use crate::interpreter::{LoadAccountResult, SStoreResult};
use crate::primitives::{keccak_empty, keccak_empty_spec, Address, Log, B256, U256};

verus! {

/// No two entries of a slot list hold the same key.
pub open spec fn unique_slots(s: Seq<(U256, U256)>) -> bool {
    forall|i: int, j: int| 0 <= i < j < s.len() ==> (#[trigger] s[i]).0 != (#[trigger] s[j]).0
}

/// A slot list as a map from key to value.
pub open spec fn slots_map(s: Seq<(U256, U256)>) -> Map<U256, U256>
    decreases s.len(),
{
    if s.len() == 0 {
        Map::empty()
    } else {
        slots_map(s.drop_last()).insert(s.last().0, s.last().1)
    }
}

proof fn lemma_slots_absent(s: Seq<(U256, U256)>, k: U256)
    requires
        forall|i: int| 0 <= i < s.len() ==> (#[trigger] s[i]).0 != k,
    ensures
        !slots_map(s).contains_key(k),
    decreases s.len(),
{
    if s.len() > 0 {
        lemma_slots_absent(s.drop_last(), k);
    }
}

proof fn lemma_slots_get(s: Seq<(U256, U256)>, i: int)
    requires
        unique_slots(s),
        0 <= i < s.len(),
    ensures
        slots_map(s).contains_key(s[i].0),
        slots_map(s)[s[i].0] == s[i].1,
    decreases s.len(),
{
    if i < s.len() - 1 {
        lemma_slots_get(s.drop_last(), i);
        assert(s.drop_last()[i] == s[i]);
        assert(s.last().0 != s[i].0);
    }
}

proof fn lemma_slots_update(s: Seq<(U256, U256)>, i: int, v: U256)
    requires
        unique_slots(s),
        0 <= i < s.len(),
    ensures
        unique_slots(s.update(i, (s[i].0, v))),
        slots_map(s.update(i, (s[i].0, v))) == slots_map(s).insert(s[i].0, v),
    decreases s.len(),
{
    let s2 = s.update(i, (s[i].0, v));
    assert forall|p: int, q: int| 0 <= p < q < s2.len() implies (#[trigger] s2[p]).0 != (
    #[trigger] s2[q]).0 by {
        assert(s2[p].0 == s[p].0);
        assert(s2[q].0 == s[q].0);
    }
    if i == s.len() - 1 {
        assert(s2.drop_last() =~= s.drop_last());
        assert(slots_map(s2) =~= slots_map(s).insert(s[i].0, v));
    } else {
        lemma_slots_update(s.drop_last(), i, v);
        assert(s.drop_last()[i] == s[i]);
        assert(s2.drop_last() =~= s.drop_last().update(i, (s[i].0, v)));
        assert(s2.last() == s.last());
        assert(s.last().0 != s[i].0);
        assert(slots_map(s2) == slots_map(s.drop_last().update(i, (s[i].0, v))).insert(
            s.last().0,
            s.last().1,
        ));
        assert(slots_map(s2) =~= slots_map(s).insert(s[i].0, v));
    }
}

/// An in-memory map from slot key to value, each key at most once.
pub struct SlotMap {
    /// The entries, keyed uniquely.
    pub entries: Vec<(U256, U256)>,
}

impl SlotMap {
    /// The entries as a map.
    pub open spec fn view_map(self) -> Map<U256, U256> {
        slots_map(self.entries@)
    }

    /// Uniqueness of the keys.
    pub open spec fn wf(self) -> bool {
        unique_slots(self.entries@)
    }

    /// An empty map.
    pub fn new() -> (r: SlotMap)
        ensures
            r.wf(),
            r.view_map() =~= Map::<U256, U256>::empty(),
    {
        SlotMap { entries: Vec::new() }
    }

    /// Drops every entry.
    pub fn clear(&mut self)
        ensures
            final(self).wf(),
            final(self).view_map() =~= Map::<U256, U256>::empty(),
    {
        self.entries.clear();
    }

    /// Index of the entry holding `key`, if one does.
    fn find(&self, key: &U256) -> (r: Option<usize>)
        requires
            self.wf(),
        ensures
            match r {
                Some(i) => {
                    &&& i < self.entries@.len()
                    &&& self.entries@[i as int].0 == *key
                    &&& self.view_map().contains_key(*key)
                    &&& self.view_map()[*key] == self.entries@[i as int].1
                },
                None => {
                    &&& !self.view_map().contains_key(*key)
                    &&& forall|k: int|
                        0 <= k < self.entries@.len() ==> (#[trigger] self.entries@[k]).0 != *key
                },
            },
    {
        let mut i: usize = 0;
        let n = self.entries.len();
        while i < n
            invariant
                i <= n,
                n == self.entries@.len(),
                unique_slots(self.entries@),
                forall|k: int| 0 <= k < i ==> (#[trigger] self.entries@[k]).0 != *key,
            decreases n - i,
        {
            if self.entries[i].0 == *key {
                proof {
                    lemma_slots_get(self.entries@, i as int);
                }
                return Some(i);
            }
            i += 1;
        }
        proof {
            lemma_slots_absent(self.entries@, *key);
        }
        None
    }

    /// The value at `key`, if one is stored.
    pub fn get(&self, key: &U256) -> (r: Option<U256>)
        requires
            self.wf(),
        ensures
            match r {
                Some(v) => self.view_map().contains_key(*key) && self.view_map()[*key] == v,
                None => !self.view_map().contains_key(*key),
            },
    {
        match self.find(key) {
            Some(i) => Some(self.entries[i].1),
            None => None,
        }
    }

    /// Stores `value` at `key`, returning what was there.
    pub fn insert(&mut self, key: U256, value: U256) -> (r: Option<U256>)
        requires
            old(self).wf(),
        ensures
            final(self).wf(),
            final(self).view_map() == old(self).view_map().insert(key, value),
            match r {
                Some(v) => old(self).view_map().contains_key(key) && old(self).view_map()[key]
                    == v,
                None => !old(self).view_map().contains_key(key),
            },
    {
        match self.find(&key) {
            Some(i) => {
                let (k, prev) = self.entries.remove(i);
                self.entries.insert(i, (k, value));
                proof {
                    assert(self.entries@ =~= old(self).entries@.update(
                        i as int,
                        (old(self).entries@[i as int].0, value),
                    ));
                    lemma_slots_update(old(self).entries@, i as int, value);
                }
                Some(prev)
            },
            None => {
                self.entries.push((key, value));
                proof {
                    assert forall|p: int, q: int|
                        0 <= p < q < self.entries@.len() implies (#[trigger] self.entries@[p]).0
                        != (#[trigger] self.entries@[q]).0 by {
                        assert(self.entries@[p] == old(self).entries@[p]);
                        if q < self.entries@.len() - 1 {
                            assert(self.entries@[q] == old(self).entries@[q]);
                        }
                    }
                    assert(self.entries@.drop_last() =~= old(self).entries@);
                    assert(self.view_map() == slots_map(old(self).entries@).insert(key, value));
                }
                None
            },
        }
    }
}

/// A host over nothing: storage lives in memory, every account reads as
/// empty, and a cold mark is reported on the first touch of a slot only.
pub struct DummyHost {
    /// The execution environment.
    pub env: Env,
    /// Persistent storage, shared by every address.
    pub storage: SlotMap,
    /// Transient storage, shared by every address.
    pub transient_storage: SlotMap,
    /// Logs emitted so far.
    pub log: Vec<Log>,
}

impl DummyHost {
    /// A fresh host with the given environment and nothing stored.
    pub fn new(env: Env) -> (r: DummyHost)
        ensures
            r.env == env,
            r.storage.wf(),
            r.storage.view_map() =~= Map::<U256, U256>::empty(),
            r.transient_storage.wf(),
            r.transient_storage.view_map() =~= Map::<U256, U256>::empty(),
            r.log@.len() == 0,
    {
        DummyHost { env, storage: SlotMap::new(), transient_storage: SlotMap::new(), log: Vec::new() }
    }

    /// Clears the storage and logs of the host; transient storage stays.
    pub fn clear(&mut self)
        ensures
            final(self).env == old(self).env,
            final(self).storage.wf(),
            final(self).storage.view_map() =~= Map::<U256, U256>::empty(),
            final(self).transient_storage == old(self).transient_storage,
            final(self).log@.len() == 0,
    {
        self.storage.clear();
        self.log.clear();
    }

    /// The environment.
    pub fn env(&self) -> (r: &Env)
        ensures
            *r == self.env,
    {
        &self.env
    }

    /// The environment, for mutation.
    pub fn env_mut(&mut self) -> (r: &mut Env)
        ensures
            *r == old(self).env,
            final(self).env == *final(r),
            final(self).storage == old(self).storage,
            final(self).transient_storage == old(self).transient_storage,
            final(self).log == old(self).log,
    {
        &mut self.env
    }

    /// Every account loads as a warm account with code.
    pub fn load_account(&mut self, address: Address) -> (r: Option<LoadAccountResult>)
        ensures
            *final(self) == *old(self),
            r == Some(LoadAccountResult { is_cold: false, is_empty_code_hash: false }),
    {
        Some(LoadAccountResult::default())
    }

    /// Every block hashes to zero.
    pub fn block_hash(&mut self, number: u64) -> (r: Option<B256>)
        ensures
            *final(self) == *old(self),
            r == Some(B256 { hi: 0, lo: 0 }),
    {
        Some(B256::zero())
    }

    /// Every account's balance is zero and warm.
    pub fn balance(&mut self, address: Address) -> (r: Option<(U256, bool)>)
        ensures
            *final(self) == *old(self),
            r matches Some((v, cold)) && v.as_nat() == 0 && cold == false,
    {
        Some((U256::zero(), false))
    }

    /// Every account's code is empty and warm.
    pub fn code(&mut self, address: Address) -> (r: Option<(Vec<u8>, bool)>)
        ensures
            *final(self) == *old(self),
            r matches Some((c, cold)) && c@.len() == 0 && cold == false,
    {
        Some((Vec::new(), false))
    }

    /// Every account's code hash is the empty hash, warm.
    pub fn code_hash(&mut self, address: Address) -> (r: Option<(B256, bool)>)
        ensures
            *final(self) == *old(self),
            r == Some((keccak_empty_spec(), false)),
    {
        Some((keccak_empty(), false))
    }

    /// Reads a storage slot: the stored value warm, or zero cold on the
    /// first touch, which stores the zero.
    pub fn sload(&mut self, address: Address, index: U256) -> (r: Option<(U256, bool)>)
        requires
            old(self).storage.wf(),
        ensures
            final(self).storage.wf(),
            final(self).env == old(self).env,
            final(self).transient_storage == old(self).transient_storage,
            final(self).log == old(self).log,
            match r {
                Some((v, cold)) => {
                    if old(self).storage.view_map().contains_key(index) {
                        &&& v == old(self).storage.view_map()[index]
                        &&& cold == false
                        &&& final(self).storage.view_map() == old(self).storage.view_map()
                    } else {
                        &&& v.as_nat() == 0
                        &&& cold == true
                        &&& final(self).storage.view_map() == old(self).storage.view_map().insert(
                            index,
                            v,
                        )
                    }
                },
                None => false,
            },
    {
        match self.storage.get(&index) {
            Some(v) => Some((v, false)),
            None => {
                let z = U256::zero();
                let _ = self.storage.insert(index, z);
                Some((z, true))
            },
        }
    }

    /// Writes a storage slot; the reported original value is always zero.
    pub fn sstore(&mut self, address: Address, index: U256, value: U256) -> (r: Option<
        SStoreResult,
    >)
        requires
            old(self).storage.wf(),
        ensures
            final(self).storage.wf(),
            final(self).env == old(self).env,
            final(self).transient_storage == old(self).transient_storage,
            final(self).log == old(self).log,
            final(self).storage.view_map() == old(self).storage.view_map().insert(index, value),
            match r {
                Some(res) => {
                    &&& res.original_value.as_nat() == 0
                    &&& res.new_value == value
                    &&& if old(self).storage.view_map().contains_key(index) {
                        res.present_value == old(self).storage.view_map()[index] && res.is_cold
                            == false
                    } else {
                        res.present_value.as_nat() == 0 && res.is_cold == true
                    }
                },
                None => false,
            },
    {
        let (present, is_cold): (U256, bool) = match self.storage.insert(index, value) {
            Some(prev) => (prev, false),
            None => (U256::zero(), true),
        };
        Some(
            SStoreResult {
                original_value: U256::zero(),
                present_value: present,
                new_value: value,
                is_cold,
            },
        )
    }

    /// Reads a transient slot: the stored value, or zero.
    pub fn tload(&mut self, address: Address, index: U256) -> (r: U256)
        requires
            old(self).transient_storage.wf(),
        ensures
            *final(self) == *old(self),
            if old(self).transient_storage.view_map().contains_key(index) {
                r == old(self).transient_storage.view_map()[index]
            } else {
                r.as_nat() == 0
            },
    {
        match self.transient_storage.get(&index) {
            Some(v) => v,
            None => U256::zero(),
        }
    }

    /// Writes a transient slot.
    pub fn tstore(&mut self, address: Address, index: U256, value: U256)
        requires
            old(self).transient_storage.wf(),
        ensures
            final(self).transient_storage.wf(),
            final(self).transient_storage.view_map() == old(
                self,
            ).transient_storage.view_map().insert(index, value),
            final(self).env == old(self).env,
            final(self).storage == old(self).storage,
            final(self).log == old(self).log,
    {
        let _ = self.transient_storage.insert(index, value);
    }

    /// Appends a log record.
    pub fn log(&mut self, log: Log)
        ensures
            final(self).log@ == old(self).log@.push(log),
            final(self).env == old(self).env,
            final(self).storage == old(self).storage,
            final(self).transient_storage == old(self).transient_storage,
    {
        self.log.push(log);
    }
}

} // verus!
