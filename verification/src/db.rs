//! The read-oriented database beneath the journaled state, and two simple
//! implementations of it. The trait carries a mathematical view of what the
//! store holds, and each read is tied to that view; implementations are free
//! only in when they fail.

use vstd::prelude::*;
use crate::journaled_state::InfoModel;
use crate::primitives::{AccountInfo, Address, Bytecode, B256, U256};

verus! {

/// The backing store beneath the journaled state: read-oriented account,
/// code and storage access with an implementation-defined error type. What
/// the store holds is its `basic_view` and `code_view`; every successful
/// read answers from them, and no read changes them.
pub trait Database {
    /// The error the store reports.
    type Error;

    /// The account headers the store holds.
    spec fn basic_view(&self) -> Map<Address, InfoModel>;

    /// The code the store holds, by hash.
    spec fn code_view(&self) -> Map<B256, Seq<u8>>;

    /// Whether the store never fails; reads on such a store always answer.
    spec fn infallible(&self) -> bool;

    /// The account header at an address, if the account exists.
    fn basic(&mut self, address: Address) -> (r: Result<Option<AccountInfo>, Self::Error>)
        ensures
            final(self).basic_view() == old(self).basic_view(),
            final(self).code_view() == old(self).code_view(),
            final(self).infallible() == old(self).infallible(),
            old(self).infallible() ==> r is Ok,
            r matches Ok(Some(info)) ==> old(self).basic_view().contains_key(address) && info@
                == old(self).basic_view()[address],
            r matches Ok(None) ==> !old(self).basic_view().contains_key(address),
    ;

    /// The code whose hash is `code_hash`.
    fn code_by_hash(&mut self, code_hash: B256) -> (r: Result<Bytecode, Self::Error>)
        ensures
            final(self).basic_view() == old(self).basic_view(),
            final(self).code_view() == old(self).code_view(),
            final(self).infallible() == old(self).infallible(),
            old(self).infallible() ==> r is Ok,
            r matches Ok(c) ==> (old(self).code_view().contains_key(code_hash) ==> c@ == old(
                self,
            ).code_view()[code_hash]),
            r matches Ok(c) ==> (!old(self).code_view().contains_key(code_hash) ==> c@
                == Seq::<u8>::empty()),
    ;

    /// The value of one storage slot.
    fn storage(&mut self, address: Address, index: U256) -> (r: Result<U256, Self::Error>)
        ensures
            final(self).basic_view() == old(self).basic_view(),
            final(self).code_view() == old(self).code_view(),
            final(self).infallible() == old(self).infallible(),
            old(self).infallible() ==> r is Ok,
    ;

    /// The hash of the block with the given number.
    fn block_hash(&mut self, number: u64) -> (r: Result<B256, Self::Error>)
        ensures
            final(self).basic_view() == old(self).basic_view(),
            final(self).code_view() == old(self).code_view(),
            final(self).infallible() == old(self).infallible(),
            old(self).infallible() ==> r is Ok,
    ;
}

/// The error type of a database that cannot fail.
#[derive(Clone, Copy, Debug, PartialEq, Eq, Structural, Hash)]
pub struct EmptyDBError;

/// A database with no accounts, no code and no storage.
#[derive(Clone, Copy, Debug, PartialEq, Eq, Structural, Hash)]
pub struct EmptyDB;

impl EmptyDB {
    /// A fresh empty database.
    pub fn new() -> (r: EmptyDB)
        ensures
            r == EmptyDB,
    {
        EmptyDB
    }
}

impl Default for EmptyDB {
    /// The empty database.
    fn default() -> (r: Self)
        ensures
            r == EmptyDB,
    {
        EmptyDB
    }
}

impl Database for EmptyDB {
    type Error = EmptyDBError;

    open spec fn basic_view(&self) -> Map<Address, InfoModel> {
        Map::empty()
    }

    open spec fn code_view(&self) -> Map<B256, Seq<u8>> {
        Map::empty()
    }

    open spec fn infallible(&self) -> bool {
        true
    }

    fn basic(&mut self, address: Address) -> Result<Option<AccountInfo>, EmptyDBError> {
        Ok(None)
    }

    fn code_by_hash(&mut self, code_hash: B256) -> Result<Bytecode, EmptyDBError> {
        Ok(Bytecode::new())
    }

    fn storage(&mut self, address: Address, index: U256) -> Result<U256, EmptyDBError> {
        Ok(U256::zero())
    }

    fn block_hash(&mut self, number: u64) -> Result<B256, EmptyDBError> {
        Ok(B256::zero())
    }
}

/// A cached header list as a map; when an address repeats, the scan below
/// finds the first entry, so the first entry wins here too.
pub open spec fn cached_infos(s: Seq<(Address, AccountInfo)>) -> Map<Address, InfoModel>
    decreases s.len(),
{
    if s.len() == 0 {
        Map::empty()
    } else {
        cached_infos(s.drop_first()).insert(s.first().0, s.first().1@)
    }
}

proof fn lemma_cached_absent(s: Seq<(Address, AccountInfo)>, a: Address)
    requires
        forall|i: int| 0 <= i < s.len() ==> (#[trigger] s[i]).0 != a,
    ensures
        !cached_infos(s).contains_key(a),
    decreases s.len(),
{
    if s.len() > 0 {
        assert forall|i: int| 0 <= i < s.drop_first().len() implies (
        #[trigger] s.drop_first()[i]).0 != a by {
            assert(s.drop_first()[i] == s[i + 1]);
        }
        lemma_cached_absent(s.drop_first(), a);
    }
}

proof fn lemma_cached_first(s: Seq<(Address, AccountInfo)>, i: int)
    requires
        0 <= i < s.len(),
        forall|k: int| 0 <= k < i ==> (#[trigger] s[k]).0 != s[i].0,
    ensures
        cached_infos(s).contains_key(s[i].0),
        cached_infos(s)[s[i].0] == s[i].1@,
    decreases s.len(),
{
    if i > 0 {
        assert forall|k: int| 0 <= k < i - 1 implies (#[trigger] s.drop_first()[k]).0 != s.drop_first()[
            i - 1].0 by {
            assert(s.drop_first()[k] == s[k + 1]);
            assert(s.drop_first()[i - 1] == s[i]);
        }
        assert(s.drop_first()[i - 1] == s[i]);
        lemma_cached_first(s.drop_first(), i - 1);
        assert(s.first().0 != s[i].0);
    }
}

proof fn lemma_cached_update_first(s: Seq<(Address, AccountInfo)>, i: int, v: AccountInfo)
    requires
        0 <= i < s.len(),
        forall|k: int| 0 <= k < i ==> (#[trigger] s[k]).0 != s[i].0,
    ensures
        cached_infos(s.update(i, (s[i].0, v))) == cached_infos(s).insert(s[i].0, v@),
    decreases s.len(),
{
    let s2 = s.update(i, (s[i].0, v));
    if i == 0 {
        assert(s2.drop_first() =~= s.drop_first());
        assert(cached_infos(s2) =~= cached_infos(s).insert(s[0].0, v@));
    } else {
        assert forall|k: int| 0 <= k < i - 1 implies (#[trigger] s.drop_first()[k]).0 != s.drop_first()[
            i - 1].0 by {
            assert(s.drop_first()[k] == s[k + 1]);
            assert(s.drop_first()[i - 1] == s[i]);
        }
        assert(s.drop_first()[i - 1] == s[i]);
        lemma_cached_update_first(s.drop_first(), i - 1, v);
        assert(s2.drop_first() =~= s.drop_first().update(i - 1, (s[i].0, v)));
        assert(s2.first() == s.first());
        assert(s.first().0 != s[i].0);
        assert(cached_infos(s2) =~= cached_infos(s).insert(s[i].0, v@));
    }
}

proof fn lemma_cached_push_absent(s: Seq<(Address, AccountInfo)>, p: (Address, AccountInfo))
    requires
        forall|i: int| 0 <= i < s.len() ==> (#[trigger] s[i]).0 != p.0,
    ensures
        cached_infos(s.push(p)) == cached_infos(s).insert(p.0, p.1@),
    decreases s.len(),
{
    let s2 = s.push(p);
    if s.len() == 0 {
        assert(s2.first() == p);
        assert(s2.drop_first() =~= Seq::<(Address, AccountInfo)>::empty());
        assert(cached_infos(s2) == cached_infos(s2.drop_first()).insert(
            s2.first().0,
            s2.first().1@,
        ));
        assert(cached_infos(s2.drop_first()) =~= Map::<Address, InfoModel>::empty());
        assert(cached_infos(s2) =~= cached_infos(s).insert(p.0, p.1@));
    } else {
        assert forall|i: int| 0 <= i < s.drop_first().len() implies (
        #[trigger] s.drop_first()[i]).0 != p.0 by {
            assert(s.drop_first()[i] == s[i + 1]);
        }
        lemma_cached_push_absent(s.drop_first(), p);
        assert(s2.drop_first() =~= s.drop_first().push(p));
        assert(s2.first() == s.first());
        assert(s.first().0 != p.0);
        assert(cached_infos(s2) == cached_infos(s2.drop_first()).insert(
            s2.first().0,
            s2.first().1@,
        ));
        assert(cached_infos(s2.drop_first()) == cached_infos(s.drop_first()).insert(p.0, p.1@));
        assert(cached_infos(s2) =~= cached_infos(s).insert(p.0, p.1@));
    }
}

/// A database that caches account headers in memory in front of another
/// database; what it holds is the inner store's content overridden by the
/// cache.
pub struct CacheDB<ExtDB> {
    /// Cached account headers; the first entry for an address wins.
    pub accounts: Vec<(Address, AccountInfo)>,
    /// The store behind the cache.
    pub db: ExtDB,
}

impl<ExtDB> CacheDB<ExtDB> {
    /// A fresh cache in front of the given store.
    pub fn new(db: ExtDB) -> (r: CacheDB<ExtDB>)
        ensures
            r.accounts@.len() == 0,
            r.db == db,
    {
        CacheDB { accounts: Vec::new(), db }
    }

    /// Index of the first cached entry for `address`, if one exists.
    fn find_cached(&self, address: &Address) -> (r: Option<usize>)
        ensures
            match r {
                Some(i) => {
                    &&& i < self.accounts@.len()
                    &&& self.accounts@[i as int].0 == *address
                    &&& forall|k: int| 0 <= k < i ==> (#[trigger] self.accounts@[k]).0 != *address
                    &&& cached_infos(self.accounts@).contains_key(*address)
                    &&& cached_infos(self.accounts@)[*address] == self.accounts@[i as int].1@
                },
                None => {
                    &&& !cached_infos(self.accounts@).contains_key(*address)
                    &&& forall|k: int|
                        0 <= k < self.accounts@.len() ==> (#[trigger] self.accounts@[k]).0
                            != *address
                },
            },
    {
        let mut i: usize = 0;
        let n = self.accounts.len();
        while i < n
            invariant
                i <= n,
                n == self.accounts@.len(),
                forall|k: int| 0 <= k < i ==> (#[trigger] self.accounts@[k]).0 != *address,
            decreases n - i,
        {
            if self.accounts[i].0 == *address {
                proof {
                    lemma_cached_first(self.accounts@, i as int);
                }
                return Some(i);
            }
            i += 1;
        }
        proof {
            lemma_cached_absent(self.accounts@, *address);
        }
        None
    }

    /// Puts an account header into the cache, replacing any cached one.
    pub fn insert_account_info(&mut self, address: Address, info: AccountInfo)
        ensures
            cached_infos(final(self).accounts@) == cached_infos(old(self).accounts@).insert(
                address,
                info@,
            ),
            final(self).db == old(self).db,
    {
        match self.find_cached(&address) {
            Some(i) => {
                let _ = self.accounts.remove(i);
                self.accounts.insert(i, (address, info));
                proof {
                    assert(self.accounts@ =~= old(self).accounts@.update(
                        i as int,
                        (old(self).accounts@[i as int].0, info),
                    ));
                    lemma_cached_update_first(old(self).accounts@, i as int, info);
                }
            },
            None => {
                self.accounts.push((address, info));
                proof {
                    lemma_cached_push_absent(old(self).accounts@, (address, info));
                }
            },
        }
    }
}

impl<ExtDB: Database> Database for CacheDB<ExtDB> {
    type Error = ExtDB::Error;

    open spec fn basic_view(&self) -> Map<Address, InfoModel> {
        self.db.basic_view().union_prefer_right(cached_infos(self.accounts@))
    }

    open spec fn code_view(&self) -> Map<B256, Seq<u8>> {
        self.db.code_view()
    }

    open spec fn infallible(&self) -> bool {
        self.db.infallible()
    }

    fn basic(&mut self, address: Address) -> Result<Option<AccountInfo>, ExtDB::Error> {
        match self.find_cached(&address) {
            Some(i) => {
                let r = Ok(Some(self.accounts[i].1.duplicate()));
                proof {
                    assert(self.basic_view().contains_key(address));
                    assert(self.basic_view()[address] == cached_infos(self.accounts@)[address]);
                }
                r
            },
            None => {
                let r = self.db.basic(address);
                proof {
                    if self.db.basic_view().contains_key(address) {
                        assert(self.basic_view()[address] == self.db.basic_view()[address]);
                    }
                }
                r
            },
        }
    }

    fn code_by_hash(&mut self, code_hash: B256) -> Result<Bytecode, ExtDB::Error> {
        self.db.code_by_hash(code_hash)
    }

    fn storage(&mut self, address: Address, index: U256) -> Result<U256, ExtDB::Error> {
        self.db.storage(address, index)
    }

    fn block_hash(&mut self, number: u64) -> Result<B256, ExtDB::Error> {
        self.db.block_hash(number)
    }
}

} // verus!
