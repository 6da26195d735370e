//! The transactional world-state overlay: an account cache with per-depth
//! journals, checkpoint / commit / revert, warm-access tracking, touching,
//! balance transfer, and storage both persistent and transient. Every
//! mutation appends an entry that undoes it exactly, so reverting a
//! checkpoint restores the overlay bit for bit.

use vstd::prelude::*;
use crate::db::Database;
use crate::interpreter::{InstructionResult, SStoreResult};
use crate::primitives::{
    wrap_add256, wrap_sub256, keccak_empty, keccak_empty_spec, AccountInfo, Address, Bytecode, Log,
    B256, U256,
};
use crate::specification::SpecId;

verus! {

/// Mathematical content of an account header.
pub struct InfoModel {
    pub balance: int,
    pub nonce: u64,
    pub code_hash: B256,
    pub code: Option<Seq<u8>>,
}

/// Mathematical content of one cached account.
pub struct AccountModel {
    pub info: InfoModel,
    pub touched: bool,
}

/// Mathematical content of one log record.
pub struct LogModel {
    pub address: Address,
    pub topics: Seq<B256>,
    pub data: Seq<u8>,
}

impl View for AccountInfo {
    type V = InfoModel;

    open spec fn view(&self) -> InfoModel {
        InfoModel {
            balance: self.balance.as_nat() as int,
            nonce: self.nonce,
            code_hash: self.code_hash,
            code: match self.code {
                Some(c) => Some(c@),
                None => None,
            },
        }
    }
}

/// One cached account: its header and its touched mark.
#[derive(Clone, Debug, PartialEq, Eq, Hash)]
pub struct Account {
    /// The account header.
    pub info: AccountInfo,
    /// Whether the account was touched; a touched empty account is erased at
    /// transaction end.
    pub touched: bool,
}

impl View for Account {
    type V = AccountModel;

    open spec fn view(&self) -> AccountModel {
        AccountModel { info: self.info@, touched: self.touched }
    }
}

impl View for Log {
    type V = LogModel;

    open spec fn view(&self) -> LogModel {
        LogModel { address: self.address, topics: self.topics@, data: self.data@ }
    }
}

/// A storage slot named by its account and key together.
#[derive(Clone, Copy, Debug, PartialEq, Eq, Structural, Hash)]
pub struct SlotKey {
    pub address: Address,
    pub key: U256,
}

/// One storage slot of the overlay: the value at transaction start and the
/// present value.
#[derive(Clone, Copy, Debug, PartialEq, Eq, Structural, Hash)]
pub struct StorageSlot {
    pub original_value: U256,
    pub present_value: U256,
}

/// An atomic mutation record; each variant carries enough to exactly undo
/// its change.
#[derive(Clone, Copy, Debug, PartialEq, Eq, Structural, Hash)]
pub enum JournalEntry {
    /// An account was pulled into the overlay cache.
    AccountWarmed { address: Address },
    /// An account was first marked touched.
    AccountTouched { address: Address },
    /// `balance` moved from `from` to `to`.
    BalanceTransfer { from: Address, to: Address, balance: U256 },
    /// A storage slot was pulled into the overlay.
    StorageWarmed { key: SlotKey },
    /// A storage slot's present value changed from `had_value`.
    StorageChanged { key: SlotKey, had_value: U256 },
    /// A transient slot changed; it held `had_value` before, zero meaning it
    /// held nothing.
    TransientStorageChange { key: SlotKey, had_value: U256 },
}

/// A saved journal position from which all later mutations can be exactly
/// undone.
#[derive(Clone, Copy, Debug, PartialEq, Eq, Structural, Hash)]
pub struct JournalCheckpoint {
    pub log_i: usize,
    pub journal_i: usize,
}

/// No two entries of the cache hold the same address.
pub open spec fn unique_keys(s: Seq<(Address, Account)>) -> bool {
    forall|i: int, j: int|
        0 <= i < j < s.len() ==> (#[trigger] s[i]).0 != (#[trigger] s[j]).0
}

/// Every cached account has its code populated.
pub open spec fn codes_filled(s: Seq<(Address, Account)>) -> bool {
    forall|i: int| 0 <= i < s.len() ==> (#[trigger] s[i]).1.info.code is Some
}

/// The cache as a map from address to account content.
pub open spec fn accounts_map(s: Seq<(Address, Account)>) -> Map<Address, AccountModel>
    decreases s.len(),
{
    if s.len() == 0 {
        Map::empty()
    } else {
        accounts_map(s.drop_last()).insert(s.last().0, s.last().1@)
    }
}

proof fn lemma_map_absent(s: Seq<(Address, Account)>, a: Address)
    requires
        forall|i: int| 0 <= i < s.len() ==> (#[trigger] s[i]).0 != a,
    ensures
        !accounts_map(s).contains_key(a),
    decreases s.len(),
{
    if s.len() > 0 {
        lemma_map_absent(s.drop_last(), a);
    }
}

proof fn lemma_map_get(s: Seq<(Address, Account)>, i: int)
    requires
        unique_keys(s),
        0 <= i < s.len(),
    ensures
        accounts_map(s).contains_key(s[i].0),
        accounts_map(s)[s[i].0] == s[i].1@,
    decreases s.len(),
{
    if i < s.len() - 1 {
        lemma_map_get(s.drop_last(), i);
        assert(s.drop_last()[i] == s[i]);
        assert(s.last().0 != s[i].0);
    }
}

proof fn lemma_map_update(s: Seq<(Address, Account)>, i: int, acc: Account)
    requires
        unique_keys(s),
        0 <= i < s.len(),
    ensures
        unique_keys(s.update(i, (s[i].0, acc))),
        accounts_map(s.update(i, (s[i].0, acc))) == accounts_map(s).insert(s[i].0, acc@),
    decreases s.len(),
{
    let s2 = s.update(i, (s[i].0, acc));
    assert forall|p: int, q: int| 0 <= p < q < s2.len() implies (#[trigger] s2[p]).0 != (
    #[trigger] s2[q]).0 by {
        assert(s2[p].0 == s[p].0);
        assert(s2[q].0 == s[q].0);
    }
    if i == s.len() - 1 {
        assert(s2.drop_last() =~= s.drop_last());
        assert(accounts_map(s2) =~= accounts_map(s).insert(s[i].0, acc@)) by {
            assert(accounts_map(s2) == accounts_map(s.drop_last()).insert(s[i].0, acc@));
        }
    } else {
        lemma_map_update(s.drop_last(), i, acc);
        assert(s.drop_last()[i] == s[i]);
        assert(s2.drop_last() =~= s.drop_last().update(i, (s[i].0, acc)));
        assert(s2.last() == s.last());
        assert(s.last().0 != s[i].0);
        assert(accounts_map(s2) == accounts_map(s.drop_last().update(i, (s[i].0, acc))).insert(
            s.last().0,
            s.last().1@,
        ));
        assert(accounts_map(s2) =~= accounts_map(s).insert(s[i].0, acc@));
    }
}

proof fn lemma_map_remove(s: Seq<(Address, Account)>, i: int)
    requires
        unique_keys(s),
        0 <= i < s.len(),
    ensures
        unique_keys(s.remove(i)),
        accounts_map(s.remove(i)) == accounts_map(s).remove(s[i].0),
    decreases s.len(),
{
    let s2 = s.remove(i);
    assert forall|p: int, q: int| 0 <= p < q < s2.len() implies (#[trigger] s2[p]).0 != (
    #[trigger] s2[q]).0 by {
        assert(s2[p] == if p < i { s[p] } else { s[p + 1] });
        assert(s2[q] == if q < i { s[q] } else { s[q + 1] });
    }
    if i == s.len() - 1 {
        assert(s2 =~= s.drop_last());
        assert forall|k: int| 0 <= k < s.drop_last().len() implies (#[trigger] s.drop_last()[k]).0
            != s[i].0 by {
            assert(s.drop_last()[k] == s[k]);
        }
        lemma_map_absent(s.drop_last(), s[i].0);
        assert(accounts_map(s.remove(i)) =~= accounts_map(s).remove(s[i].0));
    } else {
        lemma_map_remove(s.drop_last(), i);
        assert(s.drop_last()[i] == s[i]);
        assert(s2.drop_last() =~= s.drop_last().remove(i));
        assert(s2.last() == s.last());
        assert(s.last().0 != s[i].0);
        assert(accounts_map(s2) == accounts_map(s.drop_last().remove(i)).insert(
            s.last().0,
            s.last().1@,
        ));
        assert(accounts_map(s2) =~= accounts_map(s).remove(s[i].0));
    }
}

/// No two entries of the transient slot list hold the same key.
pub open spec fn unique_tkeys(s: Seq<(SlotKey, U256)>) -> bool {
    forall|i: int, j: int| 0 <= i < j < s.len() ==> (#[trigger] s[i]).0 != (#[trigger] s[j]).0
}

/// Transient slots never store zero: writing zero erases the slot.
pub open spec fn tvalues_nonzero(s: Seq<(SlotKey, U256)>) -> bool {
    forall|i: int| 0 <= i < s.len() ==> (#[trigger] s[i]).1.as_nat() != 0
}

/// The transient slot list as a map.
pub open spec fn transient_map_of(s: Seq<(SlotKey, U256)>) -> Map<SlotKey, U256>
    decreases s.len(),
{
    if s.len() == 0 {
        Map::empty()
    } else {
        transient_map_of(s.drop_last()).insert(s.last().0, s.last().1)
    }
}

proof fn lemma_tmap_absent(s: Seq<(SlotKey, U256)>, k: SlotKey)
    requires
        forall|i: int| 0 <= i < s.len() ==> (#[trigger] s[i]).0 != k,
    ensures
        !transient_map_of(s).contains_key(k),
    decreases s.len(),
{
    if s.len() > 0 {
        lemma_tmap_absent(s.drop_last(), k);
    }
}

proof fn lemma_tmap_get(s: Seq<(SlotKey, U256)>, i: int)
    requires
        unique_tkeys(s),
        0 <= i < s.len(),
    ensures
        transient_map_of(s).contains_key(s[i].0),
        transient_map_of(s)[s[i].0] == s[i].1,
    decreases s.len(),
{
    if i < s.len() - 1 {
        lemma_tmap_get(s.drop_last(), i);
        assert(s.drop_last()[i] == s[i]);
        assert(s.last().0 != s[i].0);
    }
}

proof fn lemma_tmap_update(s: Seq<(SlotKey, U256)>, i: int, v: U256)
    requires
        unique_tkeys(s),
        0 <= i < s.len(),
    ensures
        unique_tkeys(s.update(i, (s[i].0, v))),
        transient_map_of(s.update(i, (s[i].0, v))) == transient_map_of(s).insert(s[i].0, v),
    decreases s.len(),
{
    let s2 = s.update(i, (s[i].0, v));
    assert forall|p: int, q: int| 0 <= p < q < s2.len() implies (#[trigger] s2[p]).0 != (
    #[trigger] s2[q]).0 by {
        assert(s2[p].0 == s[p].0);
        assert(s2[q].0 == s[q].0);
    }
    if i == s.len() - 1 {
        assert(s2.drop_last() =~= s.drop_last());
        assert(transient_map_of(s2) =~= transient_map_of(s).insert(s[i].0, v));
    } else {
        lemma_tmap_update(s.drop_last(), i, v);
        assert(s.drop_last()[i] == s[i]);
        assert(s2.drop_last() =~= s.drop_last().update(i, (s[i].0, v)));
        assert(s2.last() == s.last());
        assert(s.last().0 != s[i].0);
        assert(transient_map_of(s2) == transient_map_of(s.drop_last().update(i, (s[i].0, v))).insert(
            s.last().0,
            s.last().1,
        ));
        assert(transient_map_of(s2) =~= transient_map_of(s).insert(s[i].0, v));
    }
}

proof fn lemma_tmap_remove(s: Seq<(SlotKey, U256)>, i: int)
    requires
        unique_tkeys(s),
        0 <= i < s.len(),
    ensures
        unique_tkeys(s.remove(i)),
        transient_map_of(s.remove(i)) == transient_map_of(s).remove(s[i].0),
    decreases s.len(),
{
    let s2 = s.remove(i);
    assert forall|p: int, q: int| 0 <= p < q < s2.len() implies (#[trigger] s2[p]).0 != (
    #[trigger] s2[q]).0 by {
        assert(s2[p] == if p < i { s[p] } else { s[p + 1] });
        assert(s2[q] == if q < i { s[q] } else { s[q + 1] });
    }
    if i == s.len() - 1 {
        assert(s2 =~= s.drop_last());
        assert forall|k: int| 0 <= k < s.drop_last().len() implies (#[trigger] s.drop_last()[k]).0
            != s[i].0 by {
            assert(s.drop_last()[k] == s[k]);
        }
        lemma_tmap_absent(s.drop_last(), s[i].0);
        assert(transient_map_of(s.remove(i)) =~= transient_map_of(s).remove(s[i].0));
    } else {
        lemma_tmap_remove(s.drop_last(), i);
        assert(s.drop_last()[i] == s[i]);
        assert(s2.drop_last() =~= s.drop_last().remove(i));
        assert(s2.last() == s.last());
        assert(s.last().0 != s[i].0);
        assert(transient_map_of(s2) == transient_map_of(s.drop_last().remove(i)).insert(
            s.last().0,
            s.last().1,
        ));
        assert(transient_map_of(s2) =~= transient_map_of(s).remove(s[i].0));
    }
}

/// No two entries of the storage slot list hold the same key.
pub open spec fn unique_skeys(s: Seq<(SlotKey, StorageSlot)>) -> bool {
    forall|i: int, j: int| 0 <= i < j < s.len() ==> (#[trigger] s[i]).0 != (#[trigger] s[j]).0
}

/// The storage slot list as a map.
pub open spec fn storage_map_of(s: Seq<(SlotKey, StorageSlot)>) -> Map<SlotKey, StorageSlot>
    decreases s.len(),
{
    if s.len() == 0 {
        Map::empty()
    } else {
        storage_map_of(s.drop_last()).insert(s.last().0, s.last().1)
    }
}

proof fn lemma_smap_absent(s: Seq<(SlotKey, StorageSlot)>, k: SlotKey)
    requires
        forall|i: int| 0 <= i < s.len() ==> (#[trigger] s[i]).0 != k,
    ensures
        !storage_map_of(s).contains_key(k),
    decreases s.len(),
{
    if s.len() > 0 {
        lemma_smap_absent(s.drop_last(), k);
    }
}

proof fn lemma_smap_get(s: Seq<(SlotKey, StorageSlot)>, i: int)
    requires
        unique_skeys(s),
        0 <= i < s.len(),
    ensures
        storage_map_of(s).contains_key(s[i].0),
        storage_map_of(s)[s[i].0] == s[i].1,
    decreases s.len(),
{
    if i < s.len() - 1 {
        lemma_smap_get(s.drop_last(), i);
        assert(s.drop_last()[i] == s[i]);
        assert(s.last().0 != s[i].0);
    }
}

proof fn lemma_smap_update(s: Seq<(SlotKey, StorageSlot)>, i: int, v: StorageSlot)
    requires
        unique_skeys(s),
        0 <= i < s.len(),
    ensures
        unique_skeys(s.update(i, (s[i].0, v))),
        storage_map_of(s.update(i, (s[i].0, v))) == storage_map_of(s).insert(s[i].0, v),
    decreases s.len(),
{
    let s2 = s.update(i, (s[i].0, v));
    assert forall|p: int, q: int| 0 <= p < q < s2.len() implies (#[trigger] s2[p]).0 != (
    #[trigger] s2[q]).0 by {
        assert(s2[p].0 == s[p].0);
        assert(s2[q].0 == s[q].0);
    }
    if i == s.len() - 1 {
        assert(s2.drop_last() =~= s.drop_last());
        assert(storage_map_of(s2) =~= storage_map_of(s).insert(s[i].0, v));
    } else {
        lemma_smap_update(s.drop_last(), i, v);
        assert(s.drop_last()[i] == s[i]);
        assert(s2.drop_last() =~= s.drop_last().update(i, (s[i].0, v)));
        assert(s2.last() == s.last());
        assert(s.last().0 != s[i].0);
        assert(storage_map_of(s2) == storage_map_of(s.drop_last().update(i, (s[i].0, v))).insert(
            s.last().0,
            s.last().1,
        ));
        assert(storage_map_of(s2) =~= storage_map_of(s).insert(s[i].0, v));
    }
}

proof fn lemma_smap_remove(s: Seq<(SlotKey, StorageSlot)>, i: int)
    requires
        unique_skeys(s),
        0 <= i < s.len(),
    ensures
        unique_skeys(s.remove(i)),
        storage_map_of(s.remove(i)) == storage_map_of(s).remove(s[i].0),
    decreases s.len(),
{
    let s2 = s.remove(i);
    assert forall|p: int, q: int| 0 <= p < q < s2.len() implies (#[trigger] s2[p]).0 != (
    #[trigger] s2[q]).0 by {
        assert(s2[p] == if p < i { s[p] } else { s[p + 1] });
        assert(s2[q] == if q < i { s[q] } else { s[q + 1] });
    }
    if i == s.len() - 1 {
        assert(s2 =~= s.drop_last());
        assert forall|k: int| 0 <= k < s.drop_last().len() implies (#[trigger] s.drop_last()[k]).0
            != s[i].0 by {
            assert(s.drop_last()[k] == s[k]);
        }
        lemma_smap_absent(s.drop_last(), s[i].0);
        assert(storage_map_of(s.remove(i)) =~= storage_map_of(s).remove(s[i].0));
    } else {
        lemma_smap_remove(s.drop_last(), i);
        assert(s.drop_last()[i] == s[i]);
        assert(s2.drop_last() =~= s.drop_last().remove(i));
        assert(s2.last() == s.last());
        assert(s.last().0 != s[i].0);
        assert(storage_map_of(s2) == storage_map_of(s.drop_last().remove(i)).insert(
            s.last().0,
            s.last().1,
        ));
        assert(storage_map_of(s2) =~= storage_map_of(s).remove(s[i].0));
    }
}

/// The storage slots an entry's change is undone to.
pub open spec fn undo_sentry(m: Map<SlotKey, StorageSlot>, e: JournalEntry) -> Map<
    SlotKey,
    StorageSlot,
> {
    match e {
        JournalEntry::StorageWarmed { key } => m.remove(key),
        JournalEntry::StorageChanged { key, had_value } => {
            if m.contains_key(key) {
                m.insert(key, StorageSlot { present_value: had_value, ..m[key] })
            } else {
                m
            }
        },
        _ => m,
    }
}

/// The storage slots a whole frame of entries is undone to, last first.
pub open spec fn unwind_sentries(m: Map<SlotKey, StorageSlot>, es: Seq<JournalEntry>) -> Map<
    SlotKey,
    StorageSlot,
>
    decreases es.len(),
{
    if es.len() == 0 {
        m
    } else {
        unwind_sentries(undo_sentry(m, es.last()), es.drop_last())
    }
}

/// The storage slots a run of frames is undone to, last frame first.
pub open spec fn unwind_sframes(m: Map<SlotKey, StorageSlot>, fs: Seq<Seq<JournalEntry>>) -> Map<
    SlotKey,
    StorageSlot,
>
    decreases fs.len(),
{
    if fs.len() == 0 {
        m
    } else {
        unwind_sframes(unwind_sentries(m, fs.last()), fs.drop_last())
    }
}

/// The transient slots an entry's change is undone to.
pub open spec fn undo_tentry(t: Map<SlotKey, U256>, e: JournalEntry) -> Map<SlotKey, U256> {
    match e {
        JournalEntry::TransientStorageChange { key, had_value } => {
            if had_value.as_nat() == 0 {
                t.remove(key)
            } else {
                t.insert(key, had_value)
            }
        },
        _ => t,
    }
}

/// The transient slots a whole frame of entries is undone to, last first.
pub open spec fn unwind_tentries(t: Map<SlotKey, U256>, es: Seq<JournalEntry>) -> Map<SlotKey, U256>
    decreases es.len(),
{
    if es.len() == 0 {
        t
    } else {
        unwind_tentries(undo_tentry(t, es.last()), es.drop_last())
    }
}

/// The transient slots a run of frames is undone to, last frame first.
pub open spec fn unwind_tframes(t: Map<SlotKey, U256>, fs: Seq<Seq<JournalEntry>>) -> Map<
    SlotKey,
    U256,
>
    decreases fs.len(),
{
    if fs.len() == 0 {
        t
    } else {
        unwind_tframes(unwind_tentries(t, fs.last()), fs.drop_last())
    }
}

/// The state an entry's change is undone to.
pub open spec fn undo_entry(m: Map<Address, AccountModel>, e: JournalEntry) -> Map<
    Address,
    AccountModel,
> {
    match e {
        JournalEntry::StorageWarmed { .. } => m,
        JournalEntry::StorageChanged { .. } => m,
        JournalEntry::TransientStorageChange { .. } => m,
        JournalEntry::AccountWarmed { address } => m.remove(address),
        JournalEntry::AccountTouched { address } => {
            if m.contains_key(address) {
                m.insert(address, AccountModel { touched: false, ..m[address] })
            } else {
                m
            }
        },
        JournalEntry::BalanceTransfer { from, to, balance } => {
            let m1 = if m.contains_key(from) {
                m.insert(
                    from,
                    AccountModel {
                        info: InfoModel {
                            balance: wrap_add256(m[from].info.balance, balance.as_nat() as int),
                            ..m[from].info
                        },
                        ..m[from]
                    },
                )
            } else {
                m
            };
            if m1.contains_key(to) {
                m1.insert(
                    to,
                    AccountModel {
                        info: InfoModel {
                            balance: wrap_sub256(m1[to].info.balance, balance.as_nat() as int),
                            ..m1[to].info
                        },
                        ..m1[to]
                    },
                )
            } else {
                m1
            }
        },
    }
}

/// The state a whole frame of entries is undone to, last entry first.
pub open spec fn unwind_entries(m: Map<Address, AccountModel>, es: Seq<JournalEntry>) -> Map<
    Address,
    AccountModel,
>
    decreases es.len(),
{
    if es.len() == 0 {
        m
    } else {
        unwind_entries(undo_entry(m, es.last()), es.drop_last())
    }
}

/// The state a run of frames is undone to, last frame first.
pub open spec fn unwind_frames(m: Map<Address, AccountModel>, fs: Seq<Seq<JournalEntry>>) -> Map<
    Address,
    AccountModel,
>
    decreases fs.len(),
{
    if fs.len() == 0 {
        m
    } else {
        unwind_frames(unwind_entries(m, fs.last()), fs.drop_last())
    }
}

/// The transactional overlay of world state: account cache, logs, per-depth
/// journals, and warm-access bookkeeping.
pub struct JournaledState {
    /// Cached accounts, keyed by address, each address at most once.
    pub state: Vec<(Address, Account)>,
    /// Storage slots pulled into the overlay, keyed by account and key.
    pub storage: Vec<(SlotKey, StorageSlot)>,
    /// Transient slots, keyed by account and key, holding no zeros.
    pub transient_storage: Vec<(SlotKey, U256)>,
    /// Logs emitted so far, in emission order.
    pub logs: Vec<Log>,
    /// Number of open checkpoints.
    pub depth: u64,
    /// One frame of undo entries per checkpoint window, oldest first.
    pub journal: Vec<Vec<JournalEntry>>,
    /// The hardfork under which the transaction runs.
    pub spec_id: SpecId,
    /// Addresses warm before execution starts: precompiles and
    /// protocol-required ones.
    pub warm_preloaded_addresses: Vec<Address>,
}

impl JournaledState {
    /// The account cache as a map.
    pub open spec fn accounts(self) -> Map<Address, AccountModel> {
        accounts_map(self.state@)
    }

    /// The journal as a sequence of frames of entries.
    pub open spec fn frames(self) -> Seq<Seq<JournalEntry>> {
        self.journal@.map_values(|f: Vec<JournalEntry>| f@)
    }

    /// The logs as mathematical records.
    pub open spec fn logs_model(self) -> Seq<LogModel> {
        self.logs@.map_values(|l: Log| l@)
    }

    /// Whether the address was warm before execution started.
    pub open spec fn preloaded(self, address: Address) -> bool {
        self.warm_preloaded_addresses@.contains(address)
    }

    /// The balance the overlay sees for `a` once it is loaded: the cached
    /// one, the store's, or zero for an account the store does not know.
    pub open spec fn effective_balance<DB: Database>(self, db: &DB, a: Address) -> int {
        if self.accounts().contains_key(a) {
            self.accounts()[a].info.balance
        } else if db.basic_view().contains_key(a) {
            db.basic_view()[a].balance
        } else {
            0
        }
    }

    /// Whether the code the overlay sees for `a` once it is loaded is
    /// empty: the cached code, the store's header, the code its hash names,
    /// or no code at all.
    pub open spec fn effective_code_empty<DB: Database>(self, db: &DB, a: Address) -> bool {
        if self.accounts().contains_key(a) {
            self.accounts()[a].info.code matches Some(c) && c.len() == 0
        } else if db.basic_view().contains_key(a) {
            let hdr = db.basic_view()[a];
            if hdr.code is Some {
                hdr.code matches Some(c) && c.len() == 0
            } else if hdr.code_hash == keccak_empty_spec() {
                true
            } else if db.code_view().contains_key(hdr.code_hash) {
                db.code_view()[hdr.code_hash].len() == 0
            } else {
                true
            }
        } else {
            true
        }
    }

    /// The storage slots as a map.
    pub open spec fn storage_map(self) -> Map<SlotKey, StorageSlot> {
        storage_map_of(self.storage@)
    }

    /// The transient slots as a map.
    pub open spec fn transient_map(self) -> Map<SlotKey, U256> {
        transient_map_of(self.transient_storage@)
    }

    /// Well-formedness: unique cache and slot keys, populated code, no zero
    /// transient values, and at least the base journal frame.
    pub open spec fn wf(self) -> bool {
        &&& unique_keys(self.state@)
        &&& codes_filled(self.state@)
        &&& unique_skeys(self.storage@)
        &&& unique_tkeys(self.transient_storage@)
        &&& tvalues_nonzero(self.transient_storage@)
        &&& self.journal@.len() >= 1
    }

    /// The world state that unwinding the journal from frame `j` on yields:
    /// what a revert to a checkpoint at `j` restores.
    pub open spec fn rollback_to(self, j: int) -> Map<Address, AccountModel> {
        unwind_frames(self.accounts(), self.frames().subrange(j, self.frames().len() as int))
    }

    /// The storage slots that unwinding the journal from frame `j` on
    /// yields.
    pub open spec fn rollback_s_to(self, j: int) -> Map<SlotKey, StorageSlot> {
        unwind_sframes(self.storage_map(), self.frames().subrange(j, self.frames().len() as int))
    }

    /// The transient slots that unwinding the journal from frame `j` on
    /// yields.
    pub open spec fn rollback_t_to(self, j: int) -> Map<SlotKey, U256> {
        unwind_tframes(self.transient_map(), self.frames().subrange(j, self.frames().len() as int))
    }

    /// The parts a mutation may not disturb: everything but cache, journal
    /// and logs.
    pub open spec fn same_config(self, other: JournaledState) -> bool {
        &&& self.depth == other.depth
        &&& self.spec_id == other.spec_id
        &&& self.warm_preloaded_addresses == other.warm_preloaded_addresses
    }

    /// Every state a revert could restore is left unchanged: accounts and
    /// transient slots alike.
    pub open spec fn preserves_rollback(pre: JournaledState, post: JournaledState) -> bool {
        &&& post.frames().len() == pre.frames().len()
        &&& forall|j: int|
            0 <= j < pre.frames().len() ==> #[trigger] post.rollback_to(j) == pre.rollback_to(j)
        &&& forall|j: int|
            0 <= j < pre.frames().len() ==> #[trigger] post.rollback_s_to(j) == pre.rollback_s_to(
                j,
            )
        &&& forall|j: int|
            0 <= j < pre.frames().len() ==> #[trigger] post.rollback_t_to(j) == pre.rollback_t_to(
                j,
            )
    }

    /// Rollback preservation composes: a sequence of operations, each of
    /// which leaves every rollback target unchanged, leaves them unchanged
    /// as a whole. With `checkpoint`'s contract, which makes the fresh
    /// checkpoint's rollback target the current accounts, and
    /// `checkpoint_revert`'s, which restores exactly that target, any run of
    /// mutations between a checkpoint and its revert leaves the accounts
    /// identical to what they were when the checkpoint was taken.
    pub proof fn lemma_preserves_rollback_trans(
        a: JournaledState,
        b: JournaledState,
        c: JournaledState,
    )
        requires
            Self::preserves_rollback(a, b),
            Self::preserves_rollback(b, c),
        ensures
            Self::preserves_rollback(a, c),
    {
        assert forall|j: int| 0 <= j < a.frames().len() implies #[trigger] c.rollback_to(j)
            == a.rollback_to(j) by {
            assert(b.rollback_to(j) == a.rollback_to(j));
            assert(c.rollback_to(j) == b.rollback_to(j));
        }
        assert forall|j: int| 0 <= j < a.frames().len() implies #[trigger] c.rollback_s_to(j)
            == a.rollback_s_to(j) by {
            assert(b.rollback_s_to(j) == a.rollback_s_to(j));
            assert(c.rollback_s_to(j) == b.rollback_s_to(j));
        }
        assert forall|j: int| 0 <= j < a.frames().len() implies #[trigger] c.rollback_t_to(j)
            == a.rollback_t_to(j) by {
            assert(b.rollback_t_to(j) == a.rollback_t_to(j));
            assert(c.rollback_t_to(j) == b.rollback_t_to(j));
        }
    }

    /// A fresh overlay over nothing, at depth zero, with the given hardfork
    /// and pre-warmed addresses.
    pub fn new(spec_id: SpecId, warm_preloaded_addresses: Vec<Address>) -> (r: JournaledState)
        ensures
            r.wf(),
            r.state@.len() == 0,
            r.storage@.len() == 0,
            r.transient_storage@.len() == 0,
            r.logs@.len() == 0,
            r.depth == 0,
            r.frames() =~= seq![Seq::<JournalEntry>::empty()],
            r.spec_id == spec_id,
            r.warm_preloaded_addresses == warm_preloaded_addresses,
    {
        let mut journal: Vec<Vec<JournalEntry>> = Vec::new();
        journal.push(Vec::new());
        let r = JournaledState {
            state: Vec::new(),
            storage: Vec::new(),
            transient_storage: Vec::new(),
            logs: Vec::new(),
            depth: 0,
            journal,
            spec_id,
            warm_preloaded_addresses,
        };
        proof {
            assert(r.frames() =~= seq![Seq::<JournalEntry>::empty()]);
        }
        r
    }

    /// Number of open checkpoints.
    pub fn depth(&self) -> (r: u64)
        ensures
            r == self.depth,
    {
        self.depth
    }

    /// Index of the cache entry holding `address`, if the account is cached.
    fn find_account(&self, address: &Address) -> (r: Option<usize>)
        requires
            unique_keys(self.state@),
        ensures
            match r {
                Some(i) => {
                    &&& i < self.state@.len()
                    &&& self.state@[i as int].0 == *address
                    &&& self.accounts().contains_key(*address)
                    &&& self.accounts()[*address] == self.state@[i as int].1@
                },
                None => {
                    &&& !self.accounts().contains_key(*address)
                    &&& forall|k: int|
                        0 <= k < self.state@.len() ==> (#[trigger] self.state@[k]).0 != *address
                },
            },
    {
        let mut i: usize = 0;
        let n = self.state.len();
        while i < n
            invariant
                i <= n,
                n == self.state@.len(),
                unique_keys(self.state@),
                forall|k: int| 0 <= k < i ==> (#[trigger] self.state@[k]).0 != *address,
            decreases n - i,
        {
            if self.state[i].0 == *address {
                proof {
                    lemma_map_get(self.state@, i as int);
                }
                return Some(i);
            }
            i += 1;
        }
        proof {
            lemma_map_absent(self.state@, *address);
        }
        None
    }

    /// Index of the entry holding the storage slot `key`, if one does.
    fn find_storage(&self, key: &SlotKey) -> (r: Option<usize>)
        requires
            unique_skeys(self.storage@),
        ensures
            match r {
                Some(i) => {
                    &&& i < self.storage@.len()
                    &&& self.storage@[i as int].0 == *key
                    &&& self.storage_map().contains_key(*key)
                    &&& self.storage_map()[*key] == self.storage@[i as int].1
                },
                None => {
                    &&& !self.storage_map().contains_key(*key)
                    &&& forall|k: int|
                        0 <= k < self.storage@.len() ==> (#[trigger] self.storage@[k]).0 != *key
                },
            },
    {
        let mut i: usize = 0;
        let n = self.storage.len();
        while i < n
            invariant
                i <= n,
                n == self.storage@.len(),
                unique_skeys(self.storage@),
                forall|k: int| 0 <= k < i ==> (#[trigger] self.storage@[k]).0 != *key,
            decreases n - i,
        {
            if self.storage[i].0 == *key {
                proof {
                    lemma_smap_get(self.storage@, i as int);
                }
                return Some(i);
            }
            i += 1;
        }
        proof {
            lemma_smap_absent(self.storage@, *key);
        }
        None
    }

    /// Index of the entry holding the transient slot `key`, if one does.
    fn find_transient(&self, key: &SlotKey) -> (r: Option<usize>)
        requires
            unique_tkeys(self.transient_storage@),
        ensures
            match r {
                Some(i) => {
                    &&& i < self.transient_storage@.len()
                    &&& self.transient_storage@[i as int].0 == *key
                    &&& self.transient_map().contains_key(*key)
                    &&& self.transient_map()[*key] == self.transient_storage@[i as int].1
                },
                None => {
                    &&& !self.transient_map().contains_key(*key)
                    &&& forall|k: int|
                        0 <= k < self.transient_storage@.len() ==> (
                        #[trigger] self.transient_storage@[k]).0 != *key
                },
            },
    {
        let mut i: usize = 0;
        let n = self.transient_storage.len();
        while i < n
            invariant
                i <= n,
                n == self.transient_storage@.len(),
                unique_tkeys(self.transient_storage@),
                forall|k: int| 0 <= k < i ==> (#[trigger] self.transient_storage@[k]).0 != *key,
            decreases n - i,
        {
            if self.transient_storage[i].0 == *key {
                proof {
                    lemma_tmap_get(self.transient_storage@, i as int);
                }
                return Some(i);
            }
            i += 1;
        }
        proof {
            lemma_tmap_absent(self.transient_storage@, *key);
        }
        None
    }

    /// Whether the address was warm before execution started.
    fn is_preloaded(&self, address: &Address) -> (r: bool)
        ensures
            r == self.preloaded(*address),
    {
        let mut i: usize = 0;
        let n = self.warm_preloaded_addresses.len();
        while i < n
            invariant
                i <= n,
                n == self.warm_preloaded_addresses@.len(),
                forall|k: int|
                    0 <= k < i ==> #[trigger] self.warm_preloaded_addresses@[k] != *address,
            decreases n - i,
        {
            if self.warm_preloaded_addresses[i] == *address {
                return true;
            }
            i += 1;
        }
        false
    }

    /// Appends an undo entry to the open journal frame.
    fn push_entry(&mut self, e: JournalEntry)
        requires
            old(self).journal@.len() >= 1,
        ensures
            final(self).journal@.len() == old(self).journal@.len(),
            final(self).frames() == old(self).frames().update(
                old(self).frames().len() - 1,
                old(self).frames().last().push(e),
            ),
            final(self).state == old(self).state,
            final(self).storage == old(self).storage,
            final(self).transient_storage == old(self).transient_storage,
            final(self).logs == old(self).logs,
            final(self).depth == old(self).depth,
            final(self).spec_id == old(self).spec_id,
            final(self).warm_preloaded_addresses == old(self).warm_preloaded_addresses,
    {
        let mut frame = match self.journal.pop() {
            Some(f) => f,
            None => unreached(),
        };
        frame.push(e);
        self.journal.push(frame);
        proof {
            assert(self.frames() =~= old(self).frames().update(
                old(self).frames().len() - 1,
                old(self).frames().last().push(e),
            ));
        }
    }

    /// Sets the touched mark of the account at cache index `i`.
    fn set_touched_at(&mut self, i: usize, t: bool)
        requires
            unique_keys(old(self).state@),
            codes_filled(old(self).state@),
            i < old(self).state@.len(),
        ensures
            unique_keys(final(self).state@),
            codes_filled(final(self).state@),
            final(self).state@ == old(self).state@.update(
                i as int,
                (old(self).state@[i as int].0, final(self).state@[i as int].1),
            ),
            final(self).state@[i as int].1@ == (AccountModel {
                touched: t,
                ..old(self).state@[i as int].1@
            }),
            final(self).accounts() == old(self).accounts().insert(
                old(self).state@[i as int].0,
                AccountModel { touched: t, ..old(self).state@[i as int].1@ },
            ),
            final(self).journal == old(self).journal,
            final(self).storage == old(self).storage,
            final(self).transient_storage == old(self).transient_storage,
            final(self).logs == old(self).logs,
            final(self).depth == old(self).depth,
            final(self).spec_id == old(self).spec_id,
            final(self).warm_preloaded_addresses == old(self).warm_preloaded_addresses,
    {
        let (addr, mut acc) = self.state.remove(i);
        acc.touched = t;
        self.state.insert(i, (addr, acc));
        proof {
            assert(self.state@ =~= old(self).state@.update(
                i as int,
                (old(self).state@[i as int].0, self.state@[i as int].1),
            ));
            lemma_map_update(old(self).state@, i as int, self.state@[i as int].1);
            assert forall|k: int|
                0 <= k < self.state@.len() implies (#[trigger] self.state@[k]).1.info.code
                is Some by {
                if k != i {
                    assert(self.state@[k] == old(self).state@[k]);
                }
            }
        }
    }

    /// Sets the balance of the account at cache index `i`.
    fn set_balance_at(&mut self, i: usize, v: U256)
        requires
            unique_keys(old(self).state@),
            codes_filled(old(self).state@),
            i < old(self).state@.len(),
        ensures
            unique_keys(final(self).state@),
            codes_filled(final(self).state@),
            final(self).state@ == old(self).state@.update(
                i as int,
                (old(self).state@[i as int].0, final(self).state@[i as int].1),
            ),
            final(self).state@[i as int].1@ == (AccountModel {
                info: InfoModel {
                    balance: v.as_nat() as int,
                    ..old(self).state@[i as int].1@.info
                },
                ..old(self).state@[i as int].1@
            }),
            final(self).accounts() == old(self).accounts().insert(
                old(self).state@[i as int].0,
                AccountModel {
                    info: InfoModel {
                        balance: v.as_nat() as int,
                        ..old(self).state@[i as int].1@.info
                    },
                    ..old(self).state@[i as int].1@
                },
            ),
            final(self).journal == old(self).journal,
            final(self).storage == old(self).storage,
            final(self).transient_storage == old(self).transient_storage,
            final(self).logs == old(self).logs,
            final(self).depth == old(self).depth,
            final(self).spec_id == old(self).spec_id,
            final(self).warm_preloaded_addresses == old(self).warm_preloaded_addresses,
    {
        let (addr, mut acc) = self.state.remove(i);
        acc.info.balance = v;
        self.state.insert(i, (addr, acc));
        proof {
            assert(self.state@ =~= old(self).state@.update(
                i as int,
                (old(self).state@[i as int].0, self.state@[i as int].1),
            ));
            lemma_map_update(old(self).state@, i as int, self.state@[i as int].1);
            assert forall|k: int|
                0 <= k < self.state@.len() implies (#[trigger] self.state@[k]).1.info.code
                is Some by {
                if k != i {
                    assert(self.state@[k] == old(self).state@[k]);
                }
            }
        }
    }

    /// Undoes one journal entry on the cache.
    fn apply_undo(&mut self, e: &JournalEntry)
        requires
            unique_keys(old(self).state@),
            codes_filled(old(self).state@),
            unique_skeys(old(self).storage@),
            unique_tkeys(old(self).transient_storage@),
            tvalues_nonzero(old(self).transient_storage@),
        ensures
            unique_keys(final(self).state@),
            codes_filled(final(self).state@),
            unique_skeys(final(self).storage@),
            unique_tkeys(final(self).transient_storage@),
            tvalues_nonzero(final(self).transient_storage@),
            final(self).accounts() == undo_entry(old(self).accounts(), *e),
            final(self).storage_map() == undo_sentry(old(self).storage_map(), *e),
            final(self).transient_map() == undo_tentry(old(self).transient_map(), *e),
            final(self).journal == old(self).journal,
            final(self).logs == old(self).logs,
            final(self).depth == old(self).depth,
            final(self).spec_id == old(self).spec_id,
            final(self).warm_preloaded_addresses == old(self).warm_preloaded_addresses,
    {
        match e {
            JournalEntry::StorageWarmed { key } => {
                match self.find_storage(key) {
                    Some(i) => {
                        let _ = self.storage.remove(i);
                        proof {
                            lemma_smap_remove(old(self).storage@, i as int);
                        }
                    },
                    None => {
                        proof {
                            assert(old(self).storage_map().remove(*key) =~= old(self).storage_map());
                        }
                    },
                }
            },
            JournalEntry::StorageChanged { key, had_value } => {
                match self.find_storage(key) {
                    Some(i) => {
                        let (kk, mut slot) = self.storage.remove(i);
                        slot.present_value = *had_value;
                        self.storage.insert(i, (kk, slot));
                        proof {
                            assert(self.storage@ =~= old(self).storage@.update(
                                i as int,
                                (old(self).storage@[i as int].0, self.storage@[i as int].1),
                            ));
                            lemma_smap_update(
                                old(self).storage@,
                                i as int,
                                self.storage@[i as int].1,
                            );
                        }
                    },
                    None => {},
                }
            },
            JournalEntry::TransientStorageChange { key, had_value } => {
                if had_value.is_zero() {
                    match self.find_transient(key) {
                        Some(i) => {
                            let _ = self.transient_storage.remove(i);
                            proof {
                                lemma_tmap_remove(old(self).transient_storage@, i as int);
                                assert forall|k: int|
                                    0 <= k < self.transient_storage@.len() implies (
                                #[trigger] self.transient_storage@[k]).1.as_nat() != 0 by {
                                    assert(self.transient_storage@[k] == if k < i {
                                        old(self).transient_storage@[k]
                                    } else {
                                        old(self).transient_storage@[k + 1]
                                    });
                                }
                            }
                        },
                        None => {
                            proof {
                                assert(old(self).transient_map().remove(*key) =~= old(self).transient_map());
                            }
                        },
                    }
                } else {
                    match self.find_transient(key) {
                        Some(i) => {
                            let (kk, _prev) = self.transient_storage.remove(i);
                            self.transient_storage.insert(i, (kk, *had_value));
                            proof {
                                assert(self.transient_storage@ =~= old(self).transient_storage@.update(
                                    i as int,
                                    (old(self).transient_storage@[i as int].0, *had_value),
                                ));
                                lemma_tmap_update(
                                    old(self).transient_storage@,
                                    i as int,
                                    *had_value,
                                );
                                assert forall|k: int|
                                    0 <= k < self.transient_storage@.len() implies (
                                #[trigger] self.transient_storage@[k]).1.as_nat() != 0 by {
                                    if k != i {
                                        assert(self.transient_storage@[k] == old(self).transient_storage@[k]);
                                    }
                                }
                            }
                        },
                        None => {
                            self.transient_storage.push((*key, *had_value));
                            proof {
                                assert forall|p: int, q: int|
                                    0 <= p < q < self.transient_storage@.len() implies (
                                #[trigger] self.transient_storage@[p]).0 != (
                                #[trigger] self.transient_storage@[q]).0 by {
                                    assert(self.transient_storage@[p] == old(self).transient_storage@[p]);
                                    if q < self.transient_storage@.len() - 1 {
                                        assert(self.transient_storage@[q] == old(self).transient_storage@[q]);
                                    }
                                }
                                assert forall|k: int|
                                    0 <= k < self.transient_storage@.len() implies (
                                #[trigger] self.transient_storage@[k]).1.as_nat() != 0 by {
                                    if k < self.transient_storage@.len() - 1 {
                                        assert(self.transient_storage@[k] == old(self).transient_storage@[k]);
                                    }
                                }
                                assert(self.transient_storage@.drop_last() =~= old(self).transient_storage@);
                                assert(self.transient_map() == transient_map_of(
                                    self.transient_storage@.drop_last(),
                                ).insert(*key, *had_value));
                            }
                        },
                    }
                }
            },
            JournalEntry::AccountWarmed { address } => {
                match self.find_account(address) {
                    Some(i) => {
                        let _ = self.state.remove(i);
                        proof {
                            lemma_map_remove(old(self).state@, i as int);
                            assert forall|k: int|
                                0 <= k < self.state@.len() implies (
                            #[trigger] self.state@[k]).1.info.code is Some by {
                                assert(self.state@[k] == if k < i {
                                    old(self).state@[k]
                                } else {
                                    old(self).state@[k + 1]
                                });
                            }
                        }
                    },
                    None => {
                        proof {
                            assert(old(self).accounts().remove(*address) =~= old(self).accounts());
                        }
                    },
                }
            },
            JournalEntry::AccountTouched { address } => {
                match self.find_account(address) {
                    Some(i) => {
                        self.set_touched_at(i, false);
                    },
                    None => {},
                }
            },
            JournalEntry::BalanceTransfer { from, to, balance } => {
                let ghost m0 = self.accounts();
                match self.find_account(from) {
                    Some(i) => {
                        let nb = self.state[i].1.info.balance.wrapping_add(*balance);
                        self.set_balance_at(i, nb);
                    },
                    None => {},
                }
                let ghost m1 = self.accounts();
                proof {
                    assert(m1 == if m0.contains_key(*from) {
                        m0.insert(
                            *from,
                            AccountModel {
                                info: InfoModel {
                                    balance: wrap_add256(
                                        m0[*from].info.balance,
                                        balance.as_nat() as int,
                                    ),
                                    ..m0[*from].info
                                },
                                ..m0[*from]
                            },
                        )
                    } else {
                        m0
                    });
                }
                match self.find_account(to) {
                    Some(i) => {
                        let nb = self.state[i].1.info.balance.wrapping_sub(*balance);
                        self.set_balance_at(i, nb);
                    },
                    None => {},
                }
            },
        }
    }
}

/// Applying a change together with the journal entry that undoes it leaves
/// every rollback target unchanged.
proof fn lemma_append_preserves_unwind(
    m_old: Map<Address, AccountModel>,
    m_new: Map<Address, AccountModel>,
    fs_old: Seq<Seq<JournalEntry>>,
    fs_new: Seq<Seq<JournalEntry>>,
    e: JournalEntry,
)
    requires
        fs_old.len() >= 1,
        fs_new == fs_old.update(fs_old.len() - 1, fs_old.last().push(e)),
        undo_entry(m_new, e) == m_old,
    ensures
        forall|j: int|
            0 <= j < fs_old.len() ==> unwind_frames(
                m_new,
                #[trigger] fs_new.subrange(j, fs_new.len() as int),
            ) == unwind_frames(m_old, fs_old.subrange(j, fs_old.len() as int)),
{
    let n = fs_old.len() as int;
    let l = fs_old.last();
    assert forall|j: int|
        0 <= j < fs_old.len() implies unwind_frames(
        m_new,
        #[trigger] fs_new.subrange(j, fs_new.len() as int),
    ) == unwind_frames(m_old, fs_old.subrange(j, fs_old.len() as int)) by {
        let sub_new = fs_new.subrange(j, n);
        let sub_old = fs_old.subrange(j, n);
        assert(sub_new.last() == l.push(e));
        assert(sub_old.last() == l);
        assert(sub_new.drop_last() =~= sub_old.drop_last());
        assert(l.push(e).drop_last() =~= l);
        assert(l.push(e).last() == e);
        assert(unwind_entries(m_new, l.push(e)) == unwind_entries(m_old, l));
    }
}

/// The storage-slot counterpart of the lemma above.
proof fn lemma_append_preserves_s_unwind(
    m_old: Map<SlotKey, StorageSlot>,
    m_new: Map<SlotKey, StorageSlot>,
    fs_old: Seq<Seq<JournalEntry>>,
    fs_new: Seq<Seq<JournalEntry>>,
    e: JournalEntry,
)
    requires
        fs_old.len() >= 1,
        fs_new == fs_old.update(fs_old.len() - 1, fs_old.last().push(e)),
        undo_sentry(m_new, e) == m_old,
    ensures
        forall|j: int|
            0 <= j < fs_old.len() ==> unwind_sframes(
                m_new,
                #[trigger] fs_new.subrange(j, fs_new.len() as int),
            ) == unwind_sframes(m_old, fs_old.subrange(j, fs_old.len() as int)),
{
    let n = fs_old.len() as int;
    let l = fs_old.last();
    assert forall|j: int|
        0 <= j < fs_old.len() implies unwind_sframes(
        m_new,
        #[trigger] fs_new.subrange(j, fs_new.len() as int),
    ) == unwind_sframes(m_old, fs_old.subrange(j, fs_old.len() as int)) by {
        let sub_new = fs_new.subrange(j, n);
        let sub_old = fs_old.subrange(j, n);
        assert(sub_new.last() == l.push(e));
        assert(sub_old.last() == l);
        assert(sub_new.drop_last() =~= sub_old.drop_last());
        assert(l.push(e).drop_last() =~= l);
        assert(l.push(e).last() == e);
        assert(unwind_sentries(m_new, l.push(e)) == unwind_sentries(m_old, l));
    }
}

/// The transient-slot counterpart of the lemma above.
proof fn lemma_append_preserves_t_unwind(
    t_old: Map<SlotKey, U256>,
    t_new: Map<SlotKey, U256>,
    fs_old: Seq<Seq<JournalEntry>>,
    fs_new: Seq<Seq<JournalEntry>>,
    e: JournalEntry,
)
    requires
        fs_old.len() >= 1,
        fs_new == fs_old.update(fs_old.len() - 1, fs_old.last().push(e)),
        undo_tentry(t_new, e) == t_old,
    ensures
        forall|j: int|
            0 <= j < fs_old.len() ==> unwind_tframes(
                t_new,
                #[trigger] fs_new.subrange(j, fs_new.len() as int),
            ) == unwind_tframes(t_old, fs_old.subrange(j, fs_old.len() as int)),
{
    let n = fs_old.len() as int;
    let l = fs_old.last();
    assert forall|j: int|
        0 <= j < fs_old.len() implies unwind_tframes(
        t_new,
        #[trigger] fs_new.subrange(j, fs_new.len() as int),
    ) == unwind_tframes(t_old, fs_old.subrange(j, fs_old.len() as int)) by {
        let sub_new = fs_new.subrange(j, n);
        let sub_old = fs_old.subrange(j, n);
        assert(sub_new.last() == l.push(e));
        assert(sub_old.last() == l);
        assert(sub_new.drop_last() =~= sub_old.drop_last());
        assert(l.push(e).drop_last() =~= l);
        assert(l.push(e).last() == e);
        assert(unwind_tentries(t_new, l.push(e)) == unwind_tentries(t_old, l));
    }
}

impl JournaledState {
    /// Saves the current position as a rollback point and opens a new
    /// journal frame; reverting to the returned checkpoint restores the
    /// overlay exactly as it stands now.
    pub fn checkpoint(&mut self) -> (cp: JournalCheckpoint)
        requires
            old(self).wf(),
            old(self).depth < u64::MAX,
            old(self).journal@.len() < usize::MAX,
        ensures
            final(self).wf(),
            final(self).state == old(self).state,
            final(self).logs == old(self).logs,
            final(self).depth == old(self).depth + 1,
            final(self).spec_id == old(self).spec_id,
            final(self).warm_preloaded_addresses == old(self).warm_preloaded_addresses,
            final(self).frames() == old(self).frames().push(Seq::empty()),
            final(self).storage == old(self).storage,
            final(self).transient_storage == old(self).transient_storage,
            cp.journal_i == old(self).journal@.len(),
            cp.log_i == old(self).logs@.len(),
            final(self).checkpoint_open(cp),
            final(self).rollback_to(cp.journal_i as int) == old(self).accounts(),
            final(self).rollback_s_to(cp.journal_i as int) == old(self).storage_map(),
            final(self).rollback_t_to(cp.journal_i as int) == old(self).transient_map(),
    {
        let cp = JournalCheckpoint { log_i: self.logs.len(), journal_i: self.journal.len() };
        self.depth = self.depth + 1;
        self.journal.push(Vec::new());
        proof {
            assert(self.frames() =~= old(self).frames().push(Seq::<JournalEntry>::empty()));
            let tail = self.frames().subrange(cp.journal_i as int, self.frames().len() as int);
            assert(tail.len() == 1);
            assert(tail.last() =~= Seq::<JournalEntry>::empty());
            assert(unwind_entries(self.accounts(), tail.last()) == self.accounts());
            assert(tail.drop_last() =~= Seq::<Seq<JournalEntry>>::empty());
            assert(unwind_frames(self.accounts(), tail.drop_last()) == self.accounts());
            assert(unwind_frames(self.accounts(), tail) == self.accounts());
            assert(unwind_sentries(self.storage_map(), tail.last()) == self.storage_map());
            assert(unwind_sframes(self.storage_map(), tail.drop_last()) == self.storage_map());
            assert(unwind_sframes(self.storage_map(), tail) == self.storage_map());
            assert(unwind_tentries(self.transient_map(), tail.last()) == self.transient_map());
            assert(unwind_tframes(self.transient_map(), tail.drop_last()) == self.transient_map());
            assert(unwind_tframes(self.transient_map(), tail) == self.transient_map());
        }
        cp
    }

    /// Whether `cp` names a checkpoint the overlay can revert to.
    pub open spec fn checkpoint_open(self, cp: JournalCheckpoint) -> bool {
        &&& 1 <= cp.journal_i <= self.journal@.len()
        &&& cp.log_i <= self.logs@.len()
    }

    /// Closes the innermost checkpoint, keeping its changes: the entries of
    /// its journal frame stay in place, to be undone only by an enclosing
    /// revert.
    pub fn checkpoint_commit(&mut self)
        requires
            old(self).depth >= 1,
        ensures
            final(self).depth == old(self).depth - 1,
            final(self).state == old(self).state,
            final(self).storage == old(self).storage,
            final(self).transient_storage == old(self).transient_storage,
            final(self).logs == old(self).logs,
            final(self).journal == old(self).journal,
            final(self).spec_id == old(self).spec_id,
            final(self).warm_preloaded_addresses == old(self).warm_preloaded_addresses,
    {
        self.depth = self.depth - 1;
    }

    /// Reverts to a checkpoint: pops and undoes every journal entry made
    /// since it, last first, and drops the logs emitted since. The accounts
    /// come out exactly as unwinding the popped journal suffix prescribes;
    /// together with the contract of every mutating operation this restores
    /// the overlay to what it was when the checkpoint was taken.
    pub fn checkpoint_revert(&mut self, checkpoint: JournalCheckpoint)
        requires
            old(self).wf(),
            old(self).checkpoint_open(checkpoint),
            old(self).depth >= 1,
        ensures
            final(self).wf(),
            final(self).depth == old(self).depth - 1,
            final(self).spec_id == old(self).spec_id,
            final(self).warm_preloaded_addresses == old(self).warm_preloaded_addresses,
            final(self).frames() == old(self).frames().subrange(0, checkpoint.journal_i as int),
            final(self).logs@ == old(self).logs@.subrange(0, checkpoint.log_i as int),
            final(self).accounts() == old(self).rollback_to(checkpoint.journal_i as int),
            final(self).storage_map() == old(self).rollback_s_to(checkpoint.journal_i as int),
            final(self).transient_map() == old(self).rollback_t_to(checkpoint.journal_i as int),
    {
        let ghost orig = *self;
        while self.journal.len() > checkpoint.journal_i
            invariant
                unique_keys(self.state@),
                codes_filled(self.state@),
                unique_skeys(self.storage@),
                unique_tkeys(self.transient_storage@),
                tvalues_nonzero(self.transient_storage@),
                checkpoint.journal_i >= 1,
                self.journal@.len() >= checkpoint.journal_i,
                self.journal@.len() <= orig.journal@.len(),
                self.frames() == orig.frames().subrange(0, self.journal@.len() as int),
                unwind_frames(
                    self.accounts(),
                    self.frames().subrange(checkpoint.journal_i as int, self.frames().len() as int),
                ) == orig.rollback_to(checkpoint.journal_i as int),
                unwind_sframes(
                    self.storage_map(),
                    self.frames().subrange(checkpoint.journal_i as int, self.frames().len() as int),
                ) == orig.rollback_s_to(checkpoint.journal_i as int),
                unwind_tframes(
                    self.transient_map(),
                    self.frames().subrange(checkpoint.journal_i as int, self.frames().len() as int),
                ) == orig.rollback_t_to(checkpoint.journal_i as int),
                self.logs == orig.logs,
                self.depth == orig.depth,
                self.spec_id == orig.spec_id,
                self.warm_preloaded_addresses == orig.warm_preloaded_addresses,
            decreases self.journal@.len(),
        {
            let ghost pre = *self;
            let frame = match self.journal.pop() {
                Some(f) => f,
                None => unreached(),
            };
            proof {
                assert(self.journal@ =~= pre.journal@.drop_last());
                assert(self.frames() =~= pre.frames().drop_last());
                assert(self.frames() =~= orig.frames().subrange(0, self.journal@.len() as int));
                assert(frame@ =~= pre.frames().last());
                assert(frame@.subrange(0, frame@.len() as int) =~= frame@);
            }
            let ghost m_start = self.accounts();
            let ghost s_start = self.storage_map();
            let ghost t_start = self.transient_map();
            let mut k = frame.len();
            while k > 0
                invariant
                    unique_keys(self.state@),
                    codes_filled(self.state@),
                    unique_skeys(self.storage@),
                    unique_tkeys(self.transient_storage@),
                    tvalues_nonzero(self.transient_storage@),
                    k <= frame@.len(),
                    unwind_entries(self.accounts(), frame@.subrange(0, k as int)) == unwind_entries(
                        m_start,
                        frame@,
                    ),
                    unwind_sentries(self.storage_map(), frame@.subrange(0, k as int))
                        == unwind_sentries(s_start, frame@),
                    unwind_tentries(self.transient_map(), frame@.subrange(0, k as int))
                        == unwind_tentries(t_start, frame@),
                    self.journal@ == pre.journal@.drop_last(),
                    self.logs == pre.logs,
                    self.depth == pre.depth,
                    self.spec_id == pre.spec_id,
                    self.warm_preloaded_addresses == pre.warm_preloaded_addresses,
                decreases k,
            {
                k = k - 1;
                let ghost m_here = self.accounts();
                let ghost s_here = self.storage_map();
                let ghost t_here = self.transient_map();
                self.apply_undo(&frame[k]);
                proof {
                    let s = frame@.subrange(0, k + 1);
                    assert(s.last() == frame@[k as int]);
                    assert(s.drop_last() =~= frame@.subrange(0, k as int));
                    assert(unwind_entries(m_here, s) == unwind_entries(
                        undo_entry(m_here, frame@[k as int]),
                        frame@.subrange(0, k as int),
                    ));
                    assert(unwind_sentries(s_here, s) == unwind_sentries(
                        undo_sentry(s_here, frame@[k as int]),
                        frame@.subrange(0, k as int),
                    ));
                    assert(unwind_tentries(t_here, s) == unwind_tentries(
                        undo_tentry(t_here, frame@[k as int]),
                        frame@.subrange(0, k as int),
                    ));
                }
            }
            proof {
                assert(frame@.subrange(0, 0) =~= Seq::<JournalEntry>::empty());
                assert(self.accounts() == unwind_entries(m_start, frame@));
                assert(self.storage_map() == unwind_sentries(s_start, frame@));
                assert(self.transient_map() == unwind_tentries(t_start, frame@));
                let old_tail = pre.frames().subrange(
                    checkpoint.journal_i as int,
                    pre.frames().len() as int,
                );
                let new_tail = self.frames().subrange(
                    checkpoint.journal_i as int,
                    self.frames().len() as int,
                );
                assert(old_tail.last() == frame@);
                assert(old_tail.drop_last() =~= new_tail);
                assert(unwind_frames(self.accounts(), new_tail) == unwind_frames(
                    m_start,
                    old_tail,
                ));
                assert(unwind_sframes(self.storage_map(), new_tail) == unwind_sframes(
                    s_start,
                    old_tail,
                ));
                assert(unwind_tframes(self.transient_map(), new_tail) == unwind_tframes(
                    t_start,
                    old_tail,
                ));
            }
        }
        self.logs.truncate(checkpoint.log_i);
        self.depth = self.depth - 1;
        proof {
            assert(self.frames().subrange(
                checkpoint.journal_i as int,
                self.frames().len() as int,
            ) =~= Seq::<Seq<JournalEntry>>::empty());
            assert(self.logs@ == orig.logs@.subrange(0, checkpoint.log_i as int));
        }
    }

    /// The header the overlay caches for a database answer: the answered
    /// header, or the empty account's when the database knows no account;
    /// its code taken from the header itself, or empty for the empty code
    /// hash, or else from the separately fetched code.
    pub open spec fn loaded_info(base: Option<AccountInfo>, fetched: Option<Bytecode>) -> InfoModel {
        let i = match base {
            Some(info) => info@,
            None => InfoModel {
                balance: 0,
                nonce: 0,
                code_hash: crate::primitives::keccak_empty_spec(),
                code: Some(Seq::<u8>::empty()),
            },
        };
        InfoModel {
            code: if i.code is Some {
                i.code
            } else if i.code_hash == crate::primitives::keccak_empty_spec() {
                Some(Seq::<u8>::empty())
            } else {
                match fetched {
                    Some(c) => Some(c@),
                    None => None,
                }
            },
            ..i
        }
    }

    /// Caches what the database answered for an absent account: `base` is
    /// the answered header (nothing meaning the account does not exist), and
    /// `fetched` the code fetched by hash for a header that came without it.
    /// The cached account is exactly `loaded_info(base, fetched)`, untouched,
    /// and the warming is journaled so a revert removes it again.
    pub fn cache_loaded(&mut self, address: Address, base: Option<AccountInfo>, fetched: Option<
        Bytecode,
    >)
        requires
            old(self).wf(),
            !old(self).accounts().contains_key(address),
            (base matches Some(i) && i.code is None && i.code_hash
                != crate::primitives::keccak_empty_spec()) ==> fetched is Some,
        ensures
            final(self).wf(),
            Self::preserves_rollback(*old(self), *final(self)),
            final(self).same_config(*old(self)),
            final(self).logs == old(self).logs,
            final(self).storage == old(self).storage,
            final(self).transient_storage == old(self).transient_storage,
            final(self).accounts() == old(self).accounts().insert(
                address,
                AccountModel { info: Self::loaded_info(base, fetched), touched: false },
            ),
            final(self).frames() == old(self).frames().update(
                old(self).frames().len() - 1,
                old(self).frames().last().push(JournalEntry::AccountWarmed { address }),
            ),
    {
        let ghost gbase = base;
        let ghost gfetched = fetched;
        let mut info = match base {
            Some(info) => info,
            None => AccountInfo::empty(),
        };
        if info.code.is_none() {
            if info.code_hash == keccak_empty() {
                info.code = Some(Bytecode::new());
            } else {
                info.code = match fetched {
                    Some(c) => Some(c),
                    None => unreached(),
                };
            }
        }
        proof {
            match gbase {
                Some(b) => {
                    if b.code is None && b.code_hash == crate::primitives::keccak_empty_spec() {
                        assert(info@.code =~~= Some(Seq::<u8>::empty()));
                    }
                },
                None => {},
            }
            assert(info@ == Self::loaded_info(gbase, gfetched));
            assert forall|p: int|
                0 <= p < old(self).state@.len() implies (#[trigger] old(self).state@[p]).0
                != address by {
                if old(self).state@[p].0 == address {
                    lemma_map_get(old(self).state@, p);
                }
            }
        }
        self.state.push((address, Account { info, touched: false }));
        proof {
            assert forall|p: int, q: int| 0 <= p < q < self.state@.len() implies (
            #[trigger] self.state@[p]).0 != (#[trigger] self.state@[q]).0 by {
                if q < self.state@.len() - 1 {
                    assert(self.state@[p] == old(self).state@[p]);
                    assert(self.state@[q] == old(self).state@[q]);
                } else {
                    assert(self.state@[p] == old(self).state@[p]);
                    assert(old(self).state@[p].0 != address);
                }
            }
            assert forall|k: int|
                0 <= k < self.state@.len() implies (#[trigger] self.state@[k]).1.info.code
                is Some by {
                if k < self.state@.len() - 1 {
                    assert(self.state@[k] == old(self).state@[k]);
                }
            }
            assert(self.state@.drop_last() =~= old(self).state@);
            assert(self.accounts() == accounts_map(self.state@.drop_last()).insert(
                address,
                self.state@.last().1@,
            ));
        }
        self.push_entry(JournalEntry::AccountWarmed { address });
        proof {
            let e = JournalEntry::AccountWarmed { address };
            assert(undo_entry(self.accounts(), e) =~= old(self).accounts());
            assert(undo_sentry(self.storage_map(), e) == old(self).storage_map());
            assert(undo_tentry(self.transient_map(), e) == old(self).transient_map());
            self.lemma_entry_rollback(*old(self), e);
        }
    }

    /// Makes the account at `address` present in the overlay: an already
    /// cached account is returned as it stands and nothing fails; the first
    /// access asks the database for the header and, when the header comes
    /// without its code and the hash is not the empty one, for the code,
    /// and caches exactly what was answered through `cache_loaded`. Returns
    /// whether the access was cold.
    pub fn load_account<DB: Database>(&mut self, address: Address, db: &mut DB) -> (r: Result<
        bool,
        DB::Error,
    >)
        requires
            old(self).wf(),
        ensures
            old(self).accounts().contains_key(address) ==> r is Ok,
            old(db).infallible() ==> r is Ok,
            match r {
                Ok(was_cold) => {
                    &&& final(self).wf()
                    &&& Self::preserves_rollback(*old(self), *final(self))
                    &&& final(self).same_config(*old(self))
                    &&& final(self).logs == old(self).logs
                    &&& final(self).storage == old(self).storage
                    &&& final(self).transient_storage == old(self).transient_storage
                    &&& final(self).accounts().contains_key(address)
                    &&& was_cold == !(old(self).accounts().contains_key(address) || old(self).preloaded(address))
                    &&& (old(self).accounts().contains_key(address) ==> *final(self) == *old(self))
                    &&& (!old(self).accounts().contains_key(address) ==> {
                        &&& final(self).accounts() == old(self).accounts().insert(
                            address,
                            final(self).accounts()[address],
                        )
                        &&& final(self).accounts()[address].touched == false
                        &&& final(self).accounts()[address].info.code is Some
                        &&& final(self).frames() == old(self).frames().update(
                            old(self).frames().len() - 1,
                            old(self).frames().last().push(
                                JournalEntry::AccountWarmed { address },
                            ),
                        )
                        &&& (old(db).basic_view().contains_key(address) ==> {
                            &&& final(self).accounts()[address].info.balance == old(db).basic_view()[address].balance
                            &&& final(self).accounts()[address].info.nonce == old(db).basic_view()[address].nonce
                            &&& final(self).accounts()[address].info.code_hash == old(db).basic_view()[address].code_hash
                            &&& (old(db).basic_view()[address].code is Some ==> final(self).accounts()[address].info.code == old(db).basic_view()[address].code)
                            &&& ((old(db).basic_view()[address].code is None && old(db).basic_view()[address].code_hash == keccak_empty_spec()) ==> final(self).accounts()[address].info.code == Some(Seq::<u8>::empty()))
                            &&& ((old(db).basic_view()[address].code is None && old(db).basic_view()[address].code_hash != keccak_empty_spec() && old(db).code_view().contains_key(
                                old(db).basic_view()[address].code_hash,
                            )) ==> final(self).accounts()[address].info.code == Some(
                                old(db).code_view()[old(db).basic_view()[address].code_hash],
                            ))
                            &&& ((old(db).basic_view()[address].code is None && old(db).basic_view()[address].code_hash != keccak_empty_spec() && !old(db).code_view().contains_key(
                                old(db).basic_view()[address].code_hash,
                            )) ==> final(self).accounts()[address].info.code == Some(
                                Seq::<u8>::empty(),
                            ))
                        })
                        &&& (!old(db).basic_view().contains_key(address) ==> final(self).accounts()[address].info == (InfoModel {
                            balance: 0,
                            nonce: 0,
                            code_hash: keccak_empty_spec(),
                            code: Some(Seq::<u8>::empty()),
                        }))
                    })
                },
                Err(_) => *final(self) == *old(self),
            },
            final(db).basic_view() == old(db).basic_view(),
            final(db).code_view() == old(db).code_view(),
            final(db).infallible() == old(db).infallible(),
    {
        if let Some(_i) = self.find_account(&address) {
            return Ok(false);
        }
        let base = match db.basic(address) {
            Ok(b) => b,
            Err(e) => {
                return Err(e);
            },
        };
        let fetched: Option<Bytecode> = match &base {
            Some(info) => {
                if info.code.is_none() && !(info.code_hash == keccak_empty()) {
                    match db.code_by_hash(info.code_hash) {
                        Ok(c) => Some(c),
                        Err(e) => {
                            return Err(e);
                        },
                    }
                } else {
                    None
                }
            },
            None => None,
        };
        let was_cold = !self.is_preloaded(&address);
        self.cache_loaded(address, base, fetched);
        Ok(was_cold)
    }

    /// As `load_account`, and hands back the account's header, its code
    /// populated.
    pub fn load_code<DB: Database>(&mut self, address: Address, db: &mut DB) -> (r: Result<
        (AccountInfo, bool),
        DB::Error,
    >)
        requires
            old(self).wf(),
        ensures
            final(db).basic_view() == old(db).basic_view(),
            final(db).code_view() == old(db).code_view(),
            final(db).infallible() == old(db).infallible(),
            old(self).accounts().contains_key(address) ==> r is Ok,
            old(db).infallible() ==> r is Ok,
            match r {
                Ok((info, was_cold)) => {
                    &&& final(self).wf()
                    &&& Self::preserves_rollback(*old(self), *final(self))
                    &&& final(self).same_config(*old(self))
                    &&& final(self).logs == old(self).logs
                    &&& final(self).storage == old(self).storage
                    &&& final(self).transient_storage == old(self).transient_storage
                    &&& final(self).accounts().contains_key(address)
                    &&& was_cold == !(old(self).accounts().contains_key(address) || old(self).preloaded(address))
                    &&& info@ == final(self).accounts()[address].info
                    &&& info.code is Some
                    &&& (final(self).accounts()[address].info.code matches Some(c) && ((c.len()
                        == 0) <==> old(self).effective_code_empty(old(db), address)))
                    &&& final(self).accounts()[address].info.balance == old(
                        self,
                    ).effective_balance(old(db), address)
                    &&& (old(self).accounts().contains_key(address) ==> *final(self) == *old(self))
                    &&& (!old(self).accounts().contains_key(address) ==> {
                        &&& final(self).accounts() == old(self).accounts().insert(
                            address,
                            final(self).accounts()[address],
                        )
                        &&& final(self).accounts()[address].touched == false
                        &&& final(self).frames() == old(self).frames().update(
                            old(self).frames().len() - 1,
                            old(self).frames().last().push(
                                JournalEntry::AccountWarmed { address },
                            ),
                        )
                    })
                },
                Err(_) => *final(self) == *old(self),
            },
    {
        let was_cold = match self.load_account(address, db) {
            Ok(b) => b,
            Err(e) => {
                return Err(e);
            },
        };
        let i = match self.find_account(&address) {
            Some(i) => i,
            None => unreached(),
        };
        let info = self.state[i].1.info.duplicate();
        proof {
            assert(info@ == self.state@[i as int].1.info@);
        }
        Ok((info, was_cold))
    }

    /// Marks the account as touched, journaling the mark the first time; a
    /// touched empty account is erased at transaction end.
    pub fn touch(&mut self, address: &Address)
        requires
            old(self).wf(),
        ensures
            final(self).wf(),
            Self::preserves_rollback(*old(self), *final(self)),
            final(self).same_config(*old(self)),
            final(self).logs == old(self).logs,
            final(self).storage == old(self).storage,
            final(self).transient_storage == old(self).transient_storage,
            (old(self).accounts().contains_key(*address) && !old(self).accounts()[*address].touched)
                ==> {
                &&& final(self).accounts() == old(self).accounts().insert(
                    *address,
                    AccountModel { touched: true, ..old(self).accounts()[*address] },
                )
                &&& final(self).frames() == old(self).frames().update(
                    old(self).frames().len() - 1,
                    old(self).frames().last().push(
                        JournalEntry::AccountTouched { address: *address },
                    ),
                )
            },
            !(old(self).accounts().contains_key(*address) && !old(self).accounts()[*address].touched) ==> *final(self) == *old(self),
    {
        let i = match self.find_account(address) {
            Some(i) => i,
            None => {
                return ;
            },
        };
        if self.state[i].1.touched {
            return ;
        }
        self.set_touched_at(i, true);
        self.push_entry(JournalEntry::AccountTouched { address: *address });
        proof {
            let e = JournalEntry::AccountTouched { address: *address };
            assert(undo_entry(self.accounts(), e) =~= old(self).accounts());
            assert(undo_sentry(self.storage_map(), e) == old(self).storage_map());
            assert(undo_tentry(self.transient_map(), e) == old(self).transient_map());
            self.lemma_entry_rollback(*old(self), e);
        }
    }

    /// The transfer step on two already loaded accounts: either moves the
    /// value, touches both, and journals the transfer, or reports without
    /// mutating why it cannot.
    #[verifier::rlimit(100)]
    fn transfer_loaded(&mut self, from: &Address, to: &Address, balance: U256) -> (r: Option<
        InstructionResult,
    >)
        requires
            old(self).wf(),
            old(self).accounts().contains_key(*from),
            old(self).accounts().contains_key(*to),
        ensures
            final(self).wf(),
            Self::preserves_rollback(*old(self), *final(self)),
            final(self).same_config(*old(self)),
            final(self).logs == old(self).logs,
            final(self).storage == old(self).storage,
            final(self).transient_storage == old(self).transient_storage,
            final(self).frames().len() == old(self).frames().len(),
            forall|k: int|
                0 <= k < old(self).frames().len() - 1 ==> #[trigger] final(self).frames()[k] == old(
                    self,
                ).frames()[k],
            final(self).accounts().dom() == old(self).accounts().dom(),
            forall|a: Address|
                a != *from && a != *to ==> final(self).accounts()[a] == old(self).accounts()[a],
            match r {
                None => {
                    &&& old(self).accounts()[*from].info.balance >= balance.as_nat()
                    &&& (*from != *to ==> old(self).accounts()[*to].info.balance + balance.as_nat()
                        < crate::primitives::pow256())
                    &&& final(self).accounts()[*from].touched
                    &&& final(self).accounts()[*to].touched
                    &&& final(self).accounts()[*from].info.code == old(self).accounts()[*from].info.code
                    &&& final(self).accounts()[*from].info.code_hash == old(self).accounts()[*from].info.code_hash
                    &&& final(self).accounts()[*from].info.nonce == old(self).accounts()[*from].info.nonce
                    &&& final(self).accounts()[*to].info.code == old(self).accounts()[*to].info.code
                    &&& final(self).accounts()[*to].info.code_hash == old(self).accounts()[*to].info.code_hash
                    &&& final(self).accounts()[*to].info.nonce == old(self).accounts()[*to].info.nonce
                    &&& (*from != *to ==> final(self).accounts()[*from].info.balance == old(self).accounts()[*from].info.balance - balance.as_nat())
                    &&& (*from != *to ==> final(self).accounts()[*to].info.balance == old(self).accounts()[*to].info.balance + balance.as_nat())
                    &&& (*from == *to ==> final(self).accounts()[*from].info.balance == old(self).accounts()[*from].info.balance)
                },
                Some(code) => {
                    &&& *final(self) == *old(self)
                    &&& (code == InstructionResult::OutOfFunds || code
                        == InstructionResult::OverflowPayment)
                    &&& (code == InstructionResult::OutOfFunds <==> old(self).accounts()[*from].info.balance < balance.as_nat())
                    &&& (code == InstructionResult::OverflowPayment <==> {
                        &&& old(self).accounts()[*from].info.balance >= balance.as_nat()
                        &&& *from != *to
                        &&& old(self).accounts()[*to].info.balance + balance.as_nat()
                            >= crate::primitives::pow256()
                    })
                },
            },
    {
        let i_f = match self.find_account(from) {
            Some(i) => i,
            None => unreached(),
        };
        let bf = self.state[i_f].1.info.balance;
        if bf.checked_sub(balance).is_none() {
            return Some(InstructionResult::OutOfFunds);
        }
        let i_t = match self.find_account(to) {
            Some(i) => i,
            None => unreached(),
        };
        let bt = self.state[i_t].1.info.balance;
        if *from != *to && bt.checked_add(balance).is_none() {
            return Some(InstructionResult::OverflowPayment);
        }
        self.touch(from);
        self.touch(to);
        self.apply_transfer(from, to, balance);
        None
    }

    /// The journaled move itself, once both accounts are touched and the
    /// amounts are known to fit.
    #[verifier::rlimit(100)]
    fn apply_transfer(&mut self, from: &Address, to: &Address, balance: U256)
        requires
            old(self).wf(),
            old(self).accounts().contains_key(*from),
            old(self).accounts().contains_key(*to),
            old(self).accounts()[*from].info.balance >= balance.as_nat(),
            *from != *to ==> old(self).accounts()[*to].info.balance + balance.as_nat()
                < crate::primitives::pow256(),
        ensures
            final(self).wf(),
            Self::preserves_rollback(*old(self), *final(self)),
            final(self).same_config(*old(self)),
            final(self).logs == old(self).logs,
            final(self).storage == old(self).storage,
            final(self).transient_storage == old(self).transient_storage,
            final(self).frames() == old(self).frames().update(
                old(self).frames().len() - 1,
                old(self).frames().last().push(
                    JournalEntry::BalanceTransfer { from: *from, to: *to, balance },
                ),
            ),
            final(self).accounts().dom() == old(self).accounts().dom(),
            forall|a: Address|
                a != *from && a != *to ==> final(self).accounts()[a] == old(self).accounts()[a],
            *from != *to ==> final(self).accounts()[*from] == (AccountModel {
                info: InfoModel {
                    balance: old(self).accounts()[*from].info.balance - balance.as_nat(),
                    ..old(self).accounts()[*from].info
                },
                ..old(self).accounts()[*from]
            }),
            *from != *to ==> final(self).accounts()[*to] == (AccountModel {
                info: InfoModel {
                    balance: old(self).accounts()[*to].info.balance + balance.as_nat(),
                    ..old(self).accounts()[*to].info
                },
                ..old(self).accounts()[*to]
            }),
            *from == *to ==> final(self).accounts()[*from] == old(self).accounts()[*from],
    {
        let ghost touched = *old(self);
        let i1 = match self.find_account(from) {
            Some(i) => i,
            None => unreached(),
        };
        let nb1 = match self.state[i1].1.info.balance.checked_sub(balance) {
            Some(v) => v,
            None => unreached(),
        };
        self.set_balance_at(i1, nb1);
        let ghost debited = self.accounts();
        let i2 = match self.find_account(to) {
            Some(i) => i,
            None => unreached(),
        };
        let nb2 = match self.state[i2].1.info.balance.checked_add(balance) {
            Some(v) => v,
            None => unreached(),
        };
        self.set_balance_at(i2, nb2);
        proof {
            assert(self.accounts() == debited.insert(
                *to,
                AccountModel {
                    info: InfoModel { balance: nb2.as_nat() as int, ..debited[*to].info },
                    ..debited[*to]
                },
            ));
        }
        self.push_entry(JournalEntry::BalanceTransfer { from: *from, to: *to, balance });
        proof {
            let e = JournalEntry::BalanceTransfer { from: *from, to: *to, balance };
            let v = balance.as_nat() as int;
            let p = crate::primitives::pow256();
            let m_new = self.accounts();
            assert(undo_entry(m_new, e) =~= touched.accounts()) by {
                let m1 = m_new.insert(
                    *from,
                    AccountModel {
                        info: InfoModel {
                            balance: crate::primitives::wrap_add256(m_new[*from].info.balance, v),
                            ..m_new[*from].info
                        },
                        ..m_new[*from]
                    },
                );
                if *from != *to {
                    vstd::arithmetic::div_mod::lemma_small_mod(
                        (m_new[*from].info.balance + v) as nat,
                        p as nat,
                    );
                    vstd::arithmetic::div_mod::lemma_small_mod(
                        (m1[*to].info.balance - v) as nat,
                        p as nat,
                    );
                } else {
                    let b0 = touched.accounts()[*from].info.balance;
                    assert(m_new[*from].info.balance == b0);
                    let w = crate::primitives::wrap_add256(b0, v);
                    vstd::arithmetic::div_mod::lemma_mod_multiples_vanish(
                        -((b0 + v) / p),
                        b0 + v,
                        p,
                    );
                    vstd::arithmetic::div_mod::lemma_mod_multiples_vanish((b0 + v) / p, w - v, p);
                    vstd::arithmetic::div_mod::lemma_small_mod(b0 as nat, p as nat);
                }
            }
            assert(undo_sentry(self.storage_map(), e) == old(self).storage_map());
            assert(undo_tentry(self.transient_map(), e) == old(self).transient_map());
            self.lemma_entry_rollback(*old(self), e);
            assert(self.accounts().dom() =~= old(self).accounts().dom());
        }
    }

    /// Moves `balance` from `from` to `to`: loads both accounts, and either
    /// moves the value, touches both, and journals the transfer, or reports
    /// without mutating why it cannot.
    pub fn transfer<DB: Database>(
        &mut self,
        from: &Address,
        to: &Address,
        balance: U256,
        db: &mut DB,
    ) -> (r: Result<Option<InstructionResult>, DB::Error>)
        requires
            old(self).wf(),
        ensures
            final(self).wf(),
            Self::preserves_rollback(*old(self), *final(self)),
            final(self).same_config(*old(self)),
            final(self).logs == old(self).logs,
            final(self).storage == old(self).storage,
            final(self).transient_storage == old(self).transient_storage,
            (old(self).accounts().contains_key(*from) && old(self).accounts().contains_key(*to))
                ==> r is Ok,
            final(self).frames().len() == old(self).frames().len(),
            forall|k: int|
                0 <= k < old(self).frames().len() - 1 ==> #[trigger] final(self).frames()[k] == old(
                    self,
                ).frames()[k],
            final(db).basic_view() == old(db).basic_view(),
            final(db).code_view() == old(db).code_view(),
            final(db).infallible() == old(db).infallible(),
            old(db).infallible() ==> r is Ok,
            forall|a: Address|
                old(self).accounts().contains_key(a) ==> final(self).accounts().contains_key(a),
            forall|a: Address|
                final(self).accounts().contains_key(a) ==> (old(self).accounts().contains_key(a)
                    || a == *from || a == *to),
            forall|a: Address|
                old(self).accounts().contains_key(a) && a != *from && a != *to ==> final(self).accounts()[a] == old(self).accounts()[a],
            match r {
                Ok(outcome) => {
                    &&& final(self).accounts().contains_key(*from)
                    &&& final(self).accounts().contains_key(*to)
                    &&& ((outcome == Some(InstructionResult::OutOfFunds)) <==> old(
                        self,
                    ).effective_balance(old(db), *from) < balance.as_nat())
                    &&& ((outcome == Some(InstructionResult::OverflowPayment)) <==> {
                        &&& old(self).effective_balance(old(db), *from) >= balance.as_nat()
                        &&& *from != *to
                        &&& old(self).effective_balance(old(db), *to) + balance.as_nat()
                            >= crate::primitives::pow256()
                    })
                    &&& match outcome {
                        None => {
                            &&& final(self).accounts()[*from].touched
                            &&& final(self).accounts()[*to].touched
                            &&& (old(self).accounts().contains_key(*from) ==> old(self).accounts()[*from].info.balance >= balance.as_nat())
                            &&& ((*from != *to && old(self).accounts().contains_key(*to)) ==> old(self).accounts()[*to].info.balance + balance.as_nat()
                                < crate::primitives::pow256())
                            &&& (old(self).accounts().contains_key(*from) ==> {
                                &&& final(self).accounts()[*from].info.code == old(self).accounts()[*from].info.code
                                &&& final(self).accounts()[*from].info.code_hash == old(self).accounts()[*from].info.code_hash
                                &&& final(self).accounts()[*from].info.nonce == old(self).accounts()[*from].info.nonce
                                &&& (*from != *to ==> final(self).accounts()[*from].info.balance
                                    == old(self).accounts()[*from].info.balance - balance.as_nat())
                                &&& (*from == *to ==> final(self).accounts()[*from].info.balance
                                    == old(self).accounts()[*from].info.balance)
                            })
                            &&& (old(self).accounts().contains_key(*to) ==> {
                                &&& final(self).accounts()[*to].info.code == old(self).accounts()[*to].info.code
                                &&& final(self).accounts()[*to].info.code_hash == old(self).accounts()[*to].info.code_hash
                                &&& final(self).accounts()[*to].info.nonce == old(self).accounts()[*to].info.nonce
                                &&& (*from != *to ==> final(self).accounts()[*to].info.balance
                                    == old(self).accounts()[*to].info.balance + balance.as_nat())
                            })
                        },
                        Some(code) => {
                            &&& (code == InstructionResult::OutOfFunds || code
                                == InstructionResult::OverflowPayment)
                            &&& forall|a: Address|
                                old(self).accounts().contains_key(a) ==> final(self).accounts()[a]
                                    == old(self).accounts()[a]
                            &&& (code == InstructionResult::OutOfFunds <==> final(self).accounts()[*from].info.balance < balance.as_nat())
                            &&& (code == InstructionResult::OverflowPayment <==> {
                                &&& final(self).accounts()[*from].info.balance >= balance.as_nat()
                                &&& *from != *to
                                &&& final(self).accounts()[*to].info.balance + balance.as_nat()
                                    >= crate::primitives::pow256()
                            })
                        },
                    }
                },
                Err(_) => forall|a: Address|
                    old(self).accounts().contains_key(a) ==> final(self).accounts()[a] == old(self).accounts()[a],
            },
    {
        match self.load_account(*from, db) {
            Ok(_) => (),
            Err(e) => {
                return Err(e);
            },
        }
        match self.load_account(*to, db) {
            Ok(_) => (),
            Err(e) => {
                return Err(e);
            },
        }
        proof {
            assert(self.accounts()[*from].info.balance == old(self).effective_balance(
                old(db),
                *from,
            ));
            assert(self.accounts()[*to].info.balance == old(self).effective_balance(
                old(db),
                *to,
            ));
        }
        let outcome = self.transfer_loaded(from, to, balance);
        Ok(outcome)
    }

    /// Reads a storage slot through the overlay: the cached present value
    /// warm, or the database's value cold on the first access, which caches
    /// the slot and journals the warming. The account must already be
    /// loaded.
    pub fn sload<DB: Database>(&mut self, address: Address, key: U256, db: &mut DB) -> (r: Result<
        (U256, bool),
        DB::Error,
    >)
        requires
            old(self).wf(),
            old(self).accounts().contains_key(address),
        ensures
            final(db).basic_view() == old(db).basic_view(),
            final(db).code_view() == old(db).code_view(),
            final(db).infallible() == old(db).infallible(),
            old(self).storage_map().contains_key(SlotKey { address, key }) ==> r is Ok,
            old(db).infallible() ==> r is Ok,
            match r {
                Ok((v, was_cold)) => {
                    &&& final(self).wf()
                    &&& Self::preserves_rollback(*old(self), *final(self))
                    &&& final(self).same_config(*old(self))
                    &&& final(self).logs == old(self).logs
                    &&& final(self).state == old(self).state
                    &&& final(self).transient_storage == old(self).transient_storage
                    &&& was_cold == !old(self).storage_map().contains_key(
                        SlotKey { address, key },
                    )
                    &&& final(self).storage_map().contains_key(SlotKey { address, key })
                    &&& v == final(self).storage_map()[SlotKey { address, key }].present_value
                    &&& (old(self).storage_map().contains_key(SlotKey { address, key }) ==> *final(self) == *old(self))
                    &&& (!old(self).storage_map().contains_key(SlotKey { address, key }) ==> {
                        &&& final(self).storage_map() == old(self).storage_map().insert(
                            SlotKey { address, key },
                            StorageSlot { original_value: v, present_value: v },
                        )
                        &&& final(self).frames() == old(self).frames().update(
                            old(self).frames().len() - 1,
                            old(self).frames().last().push(
                                JournalEntry::StorageWarmed { key: SlotKey { address, key } },
                            ),
                        )
                    })
                },
                Err(_) => *final(self) == *old(self),
            },
    {
        let k = SlotKey { address, key };
        if let Some(i) = self.find_storage(&k) {
            return Ok((self.storage[i].1.present_value, false));
        }
        let value = match db.storage(address, key) {
            Ok(v) => v,
            Err(e) => {
                return Err(e);
            },
        };
        self.storage.push((k, StorageSlot { original_value: value, present_value: value }));
        proof {
            assert forall|p: int, q: int|
                0 <= p < q < self.storage@.len() implies (#[trigger] self.storage@[p]).0 != (
            #[trigger] self.storage@[q]).0 by {
                assert(self.storage@[p] == old(self).storage@[p]);
                if q < self.storage@.len() - 1 {
                    assert(self.storage@[q] == old(self).storage@[q]);
                }
            }
            assert(self.storage@.drop_last() =~= old(self).storage@);
            assert(self.storage_map() == storage_map_of(self.storage@.drop_last()).insert(
                k,
                StorageSlot { original_value: value, present_value: value },
            ));
        }
        self.push_entry(JournalEntry::StorageWarmed { key: k });
        proof {
            let e = JournalEntry::StorageWarmed { key: k };
            assert(undo_sentry(self.storage_map(), e) =~= old(self).storage_map());
            assert(undo_tentry(self.transient_map(), e) == old(self).transient_map());
            self.lemma_entry_rollback(*old(self), e);
        }
        Ok((value, true))
    }

    /// Writes a storage slot through the overlay: loads the slot first,
    /// journals its previous present value, and reports the original,
    /// previous and new values together with the access's coldness, so gas
    /// and refunds can be recomputed exactly. The account must already be
    /// loaded.
    pub fn sstore<DB: Database>(
        &mut self,
        address: Address,
        key: U256,
        new: U256,
        db: &mut DB,
    ) -> (r: Result<SStoreResult, DB::Error>)
        requires
            old(self).wf(),
            old(self).accounts().contains_key(address),
        ensures
            final(db).basic_view() == old(db).basic_view(),
            final(db).code_view() == old(db).code_view(),
            final(db).infallible() == old(db).infallible(),
            old(self).storage_map().contains_key(SlotKey { address, key }) ==> r is Ok,
            old(db).infallible() ==> r is Ok,
            match r {
                Ok(res) => {
                    &&& final(self).wf()
                    &&& Self::preserves_rollback(*old(self), *final(self))
                    &&& final(self).same_config(*old(self))
                    &&& final(self).logs == old(self).logs
                    &&& final(self).state == old(self).state
                    &&& final(self).transient_storage == old(self).transient_storage
                    &&& res.new_value == new
                    &&& res.is_cold == !old(self).storage_map().contains_key(
                        SlotKey { address, key },
                    )
                    &&& final(self).storage_map().contains_key(SlotKey { address, key })
                    &&& final(self).storage_map()[SlotKey { address, key }].present_value == new
                    &&& final(self).storage_map()[SlotKey { address, key }].original_value
                        == res.original_value
                    &&& (old(self).storage_map().contains_key(SlotKey { address, key }) ==> {
                        &&& res.present_value == old(self).storage_map()[SlotKey {
                            address,
                            key,
                        }].present_value
                        &&& res.original_value == old(self).storage_map()[SlotKey {
                            address,
                            key,
                        }].original_value
                    })
                },
                Err(_) => *final(self) == *old(self),
            },
    {
        let k = SlotKey { address, key };
        let (present, is_cold) = match self.sload(address, key, db) {
            Ok(p) => p,
            Err(e) => {
                return Err(e);
            },
        };
        let ghost loaded = *self;
        let i = match self.find_storage(&k) {
            Some(i) => i,
            None => unreached(),
        };
        let original = self.storage[i].1.original_value;
        if present == new {
            return Ok(
                SStoreResult {
                    original_value: original,
                    present_value: present,
                    new_value: new,
                    is_cold,
                },
            );
        }
        let (kk, mut slot) = self.storage.remove(i);
        slot.present_value = new;
        self.storage.insert(i, (kk, slot));
        proof {
            assert(self.storage@ =~= loaded.storage@.update(
                i as int,
                (loaded.storage@[i as int].0, self.storage@[i as int].1),
            ));
            lemma_smap_update(loaded.storage@, i as int, self.storage@[i as int].1);
        }
        self.push_entry(JournalEntry::StorageChanged { key: k, had_value: present });
        proof {
            let e = JournalEntry::StorageChanged { key: k, had_value: present };
            assert(undo_sentry(self.storage_map(), e) =~= loaded.storage_map());
            assert(undo_tentry(self.transient_map(), e) == loaded.transient_map());
            self.lemma_entry_rollback(loaded, e);
            Self::lemma_preserves_rollback_trans(*old(self), loaded, *self);
        }
        Ok(
            SStoreResult {
                original_value: original,
                present_value: present,
                new_value: new,
                is_cold,
            },
        )
    }

    /// Reads a transient slot: the stored value, or zero if nothing is
    /// stored.
    pub fn tload(&self, address: Address, key: U256) -> (r: U256)
        requires
            self.wf(),
        ensures
            if self.transient_map().contains_key(SlotKey { address, key }) {
                r == self.transient_map()[SlotKey { address, key }]
            } else {
                r.as_nat() == 0
            },
    {
        let k = SlotKey { address, key };
        match self.find_transient(&k) {
            Some(i) => self.transient_storage[i].1,
            None => U256::zero(),
        }
    }

    /// Writes a transient slot, journaling the previous value so a revert
    /// restores the slot exactly; writing zero erases the slot.
    pub fn tstore(&mut self, address: Address, key: U256, value: U256)
        requires
            old(self).wf(),
        ensures
            final(self).wf(),
            Self::preserves_rollback(*old(self), *final(self)),
            final(self).same_config(*old(self)),
            final(self).logs == old(self).logs,
            final(self).state == old(self).state,
            final(self).transient_map() == if value.as_nat() == 0 {
                old(self).transient_map().remove(SlotKey { address, key })
            } else {
                old(self).transient_map().insert(SlotKey { address, key }, value)
            },
    {
        let k = SlotKey { address, key };
        if value.is_zero() {
            let i = match self.find_transient(&k) {
                Some(i) => i,
                None => {
                    proof {
                        assert(old(self).transient_map().remove(k) =~= old(self).transient_map());
                    }
                    return ;
                },
            };
            let (_kk, had) = self.transient_storage.remove(i);
            proof {
                lemma_tmap_remove(old(self).transient_storage@, i as int);
                assert forall|p: int|
                    0 <= p < self.transient_storage@.len() implies (
                #[trigger] self.transient_storage@[p]).1.as_nat() != 0 by {
                    assert(self.transient_storage@[p] == if p < i {
                        old(self).transient_storage@[p]
                    } else {
                        old(self).transient_storage@[p + 1]
                    });
                }
            }
            self.push_entry(JournalEntry::TransientStorageChange { key: k, had_value: had });
            proof {
                let e = JournalEntry::TransientStorageChange { key: k, had_value: had };
                assert(had.as_nat() != 0);
                assert(undo_tentry(self.transient_map(), e) =~= old(self).transient_map());
                self.lemma_entry_rollback(*old(self), e);
            }
        } else {
            let had: U256 = match self.find_transient(&k) {
                Some(i) => {
                    let (kk, prev) = self.transient_storage.remove(i);
                    self.transient_storage.insert(i, (kk, value));
                    proof {
                        assert(self.transient_storage@ =~= old(self).transient_storage@.update(
                            i as int,
                            (old(self).transient_storage@[i as int].0, value),
                        ));
                        lemma_tmap_update(old(self).transient_storage@, i as int, value);
                        assert forall|p: int|
                            0 <= p < self.transient_storage@.len() implies (
                        #[trigger] self.transient_storage@[p]).1.as_nat() != 0 by {
                            if p != i {
                                assert(self.transient_storage@[p] == old(self).transient_storage@[p]);
                            }
                        }
                    }
                    prev
                },
                None => {
                    self.transient_storage.push((k, value));
                    proof {
                        assert forall|p: int, q: int|
                            0 <= p < q < self.transient_storage@.len() implies (
                        #[trigger] self.transient_storage@[p]).0 != (
                        #[trigger] self.transient_storage@[q]).0 by {
                            assert(self.transient_storage@[p] == old(self).transient_storage@[p]);
                            if q < self.transient_storage@.len() - 1 {
                                assert(self.transient_storage@[q] == old(self).transient_storage@[q]);
                            }
                        }
                        assert forall|p: int|
                            0 <= p < self.transient_storage@.len() implies (
                        #[trigger] self.transient_storage@[p]).1.as_nat() != 0 by {
                            if p < self.transient_storage@.len() - 1 {
                                assert(self.transient_storage@[p] == old(self).transient_storage@[p]);
                            }
                        }
                        assert(self.transient_storage@.drop_last() =~= old(self).transient_storage@);
                        assert(self.transient_map() == transient_map_of(
                            self.transient_storage@.drop_last(),
                        ).insert(k, value));
                    }
                    U256::zero()
                },
            };
            self.push_entry(JournalEntry::TransientStorageChange { key: k, had_value: had });
            proof {
                let e = JournalEntry::TransientStorageChange { key: k, had_value: had };
                assert(undo_tentry(self.transient_map(), e) =~= old(self).transient_map());
                self.lemma_entry_rollback(*old(self), e);
            }
        }
    }

    /// The rollback bookkeeping shared by every journaled mutation: once the
    /// appended entry undoes the change in each component, every rollback
    /// target is unchanged.
    proof fn lemma_entry_rollback(&self, pre: JournaledState, e: JournalEntry)
        requires
            pre.journal@.len() >= 1,
            self.frames() == pre.frames().update(
                pre.frames().len() - 1,
                pre.frames().last().push(e),
            ),
            undo_entry(self.accounts(), e) == pre.accounts(),
            undo_sentry(self.storage_map(), e) == pre.storage_map(),
            undo_tentry(self.transient_map(), e) == pre.transient_map(),
        ensures
            Self::preserves_rollback(pre, *self),
    {
        lemma_append_preserves_unwind(
            pre.accounts(),
            self.accounts(),
            pre.frames(),
            self.frames(),
            e,
        );
        lemma_append_preserves_s_unwind(
            pre.storage_map(),
            self.storage_map(),
            pre.frames(),
            self.frames(),
            e,
        );
        lemma_append_preserves_t_unwind(
            pre.transient_map(),
            self.transient_map(),
            pre.frames(),
            self.frames(),
            e,
        );
        assert forall|j: int| 0 <= j < pre.frames().len() implies #[trigger] self.rollback_to(j)
            == pre.rollback_to(j) by {
            assert(unwind_frames(
                self.accounts(),
                self.frames().subrange(j, self.frames().len() as int),
            ) == unwind_frames(
                pre.accounts(),
                pre.frames().subrange(j, pre.frames().len() as int),
            ));
        }
        assert forall|j: int| 0 <= j < pre.frames().len() implies #[trigger] self.rollback_s_to(j)
            == pre.rollback_s_to(j) by {
            assert(unwind_sframes(
                self.storage_map(),
                self.frames().subrange(j, self.frames().len() as int),
            ) == unwind_sframes(
                pre.storage_map(),
                pre.frames().subrange(j, pre.frames().len() as int),
            ));
        }
        assert forall|j: int| 0 <= j < pre.frames().len() implies #[trigger] self.rollback_t_to(j)
            == pre.rollback_t_to(j) by {
            assert(unwind_tframes(
                self.transient_map(),
                self.frames().subrange(j, self.frames().len() as int),
            ) == unwind_tframes(
                pre.transient_map(),
                pre.frames().subrange(j, pre.frames().len() as int),
            ));
        }
    }

    /// Appends a log record; a revert drops it with the window it was
    /// emitted in.
    pub fn log(&mut self, log: Log)
        ensures
            final(self).logs@ == old(self).logs@.push(log),
            final(self).state == old(self).state,
            final(self).storage == old(self).storage,
            final(self).transient_storage == old(self).transient_storage,
            final(self).journal == old(self).journal,
            final(self).depth == old(self).depth,
            final(self).spec_id == old(self).spec_id,
            final(self).warm_preloaded_addresses == old(self).warm_preloaded_addresses,
    {
        self.logs.push(log);
    }
}

} // verus!
