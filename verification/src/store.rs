//! The index store: a live ownership index keyed by token id, a
//! pending-mint register keyed by transaction hash, an append-only log of
//! redeemed-content records, and per-creator redemption counters.
//!
//! Each table is an association vector with a `Map` view; every mutation's
//! contract states the exact new view, in terms of the transitions of
//! [`crate::model`].

use vstd::prelude::*;

use crate::bytes::{bytes_eq, copy_bytes, is_zero_address};
use crate::model::{
    counter_of, promote_outcome_spec, promote_spec, redeem_commit_spec, token_live,
    transfer_outcome_spec, transfer_spec, count_for, MintOutcome, PendingV, RecordV,
    RedeemOutcome, StoreModel, TokenRowV, TransferOutcome,
};

verus! {

/// One row of the live ownership index.
pub struct TokenRow {
    /// Current holder's chain address.
    pub owner: Vec<u8>,
    /// The content creator's application user id, fixed at promotion.
    pub creator: Vec<u8>,
    /// The creator's social account handle, fixed at promotion.
    pub handle: Vec<u8>,
    /// Monotonic redemption flag; a committed redemption removes the row.
    pub redeemed: bool,
}

impl View for TokenRow {
    type V = TokenRowV;

    open spec fn view(&self) -> TokenRowV {
        TokenRowV {
            owner: self.owner@,
            creator: self.creator@,
            handle: self.handle@,
            redeemed: self.redeemed,
        }
    }
}

/// Creator metadata registered when a mint transaction is submitted.
pub struct PendingMint {
    /// The creator's application user id.
    pub creator: Vec<u8>,
    /// The creator's social account handle.
    pub handle: Vec<u8>,
}

impl View for PendingMint {
    type V = PendingV;

    open spec fn view(&self) -> PendingV {
        PendingV { creator: self.creator@, handle: self.handle@ }
    }
}

/// One immutable redeemed-content record.
pub struct RedeemedRecord {
    /// Freshly generated unique id.
    pub id: Vec<u8>,
    /// The content creator's application user id.
    pub creator: Vec<u8>,
    /// The redeemed token.
    pub token_id: u64,
    /// External publication reference, empty when publication was skipped.
    pub publication: Vec<u8>,
    /// The creator's social account handle.
    pub handle: Vec<u8>,
    /// The safety policy the redeemer supplied.
    pub policy: Vec<u8>,
    /// The redeemed raw content.
    pub content: Vec<u8>,
}

impl View for RedeemedRecord {
    type V = RecordV;

    open spec fn view(&self) -> RecordV {
        RecordV {
            id: self.id@,
            creator: self.creator@,
            token_id: self.token_id,
            publication: self.publication@,
            handle: self.handle@,
            policy: self.policy@,
            content: self.content@,
        }
    }
}

// ---------------------------------------------------------------------------
// Token table: association vector keyed by token id.
// ---------------------------------------------------------------------------

/// Entry `i` of `s` carries key `k`.
pub open spec fn tok_keyed(s: Seq<(u64, TokenRow)>, k: u64, i: int) -> bool {
    0 <= i < s.len() && s[i].0 == k
}

/// Some entry of `s` carries key `k`.
pub open spec fn tok_has(s: Seq<(u64, TokenRow)>, k: u64) -> bool {
    exists|i: int| tok_keyed(s, k, i)
}

/// The index of the entry carrying key `k`.
pub open spec fn tok_at(s: Seq<(u64, TokenRow)>, k: u64) -> int {
    choose|i: int| tok_keyed(s, k, i)
}

/// All keys of `s` are distinct.
pub open spec fn tok_wf(s: Seq<(u64, TokenRow)>) -> bool {
    forall|i: int, j: int| 0 <= i < j < s.len() ==> (#[trigger] s[i]).0 != (#[trigger] s[j]).0
}

/// The map that `s` represents.
pub open spec fn tok_map(s: Seq<(u64, TokenRow)>) -> Map<u64, TokenRowV> {
    Map::new(|k: u64| tok_has(s, k), |k: u64| s[tok_at(s, k)].1@)
}

proof fn tok_unique(s: Seq<(u64, TokenRow)>, k: u64, i: int, j: int)
    requires
        tok_wf(s),
        tok_keyed(s, k, i),
        tok_keyed(s, k, j),
    ensures
        i == j,
{
    if i < j {
        assert(s[i].0 != s[j].0);
    }
    if j < i {
        assert(s[j].0 != s[i].0);
    }
}

proof fn tok_map_at(s: Seq<(u64, TokenRow)>, i: int)
    requires
        tok_wf(s),
        0 <= i < s.len(),
    ensures
        tok_map(s).dom().contains(s[i].0),
        tok_map(s)[s[i].0] == s[i].1@,
{
    assert(tok_keyed(s, s[i].0, i));
    let j = tok_at(s, s[i].0);
    assert(tok_keyed(s, s[i].0, j));
    tok_unique(s, s[i].0, i, j);
}

proof fn tok_map_push(s: Seq<(u64, TokenRow)>, k: u64, v: TokenRow)
    requires
        tok_wf(s),
        !tok_has(s, k),
    ensures
        tok_wf(s.push((k, v))),
        tok_map(s.push((k, v))) == tok_map(s).insert(k, v@),
{
    let t = s.push((k, v));
    assert forall|i: int, j: int| 0 <= i < j < t.len() implies (#[trigger] t[i]).0 != (
    #[trigger] t[j]).0 by {
        if j == s.len() {
            assert(!tok_keyed(s, k, i));
        } else {
            assert(s[i].0 != s[j].0);
        }
    }
    assert forall|k2: u64| #[trigger]
        tok_map(t).dom().contains(k2) == tok_map(s).insert(k, v@).dom().contains(k2) by {
        if k2 == k {
            assert(tok_keyed(t, k, s.len() as int));
        } else {
            if tok_has(t, k2) {
                let i = tok_at(t, k2);
                assert(tok_keyed(t, k2, i));
                assert(tok_keyed(s, k2, i));
            }
            if tok_has(s, k2) {
                let i = tok_at(s, k2);
                assert(tok_keyed(s, k2, i));
                assert(tok_keyed(t, k2, i));
            }
        }
    }
    assert forall|k2: u64|
        tok_map(t).dom().contains(k2) implies #[trigger] tok_map(t)[k2] == tok_map(s).insert(
        k,
        v@,
    )[k2] by {
        let i = tok_at(t, k2);
        assert(tok_keyed(t, k2, i));
        if k2 == k {
            assert(tok_keyed(t, k, s.len() as int));
            tok_unique(t, k, i, s.len() as int);
        } else {
            assert(tok_keyed(s, k2, i));
            let j = tok_at(s, k2);
            assert(tok_keyed(s, k2, j));
            tok_unique(s, k2, i, j);
        }
    }
    assert(tok_map(t) =~= tok_map(s).insert(k, v@));
}

proof fn tok_map_remove(s: Seq<(u64, TokenRow)>, i: int)
    requires
        tok_wf(s),
        0 <= i < s.len(),
    ensures
        tok_wf(s.remove(i)),
        tok_map(s.remove(i)) == tok_map(s).remove(s[i].0),
{
    let t = s.remove(i);
    s.remove_ensures(i);
    let k = s[i].0;
    assert forall|a: int, b: int| 0 <= a < b < t.len() implies (#[trigger] t[a]).0 != (
    #[trigger] t[b]).0 by {
        let a2: int = if a < i { a } else { a + 1 };
        let b2: int = if b < i { b } else { b + 1 };
        assert(t[a] == s[a2]);
        assert(t[b] == s[b2]);
        assert(s[a2].0 != s[b2].0);
    }
    assert forall|k2: u64| #[trigger]
        tok_map(t).dom().contains(k2) == tok_map(s).remove(k).dom().contains(k2) by {
        if tok_has(t, k2) {
            let j = tok_at(t, k2);
            assert(tok_keyed(t, k2, j));
            let j2: int = if j < i { j } else { j + 1 };
            assert(t[j] == s[j2]);
            assert(tok_keyed(s, k2, j2));
            if k2 == k {
                tok_unique(s, k, j2, i);
                assert(false);
            }
        }
        if k2 != k && tok_has(s, k2) {
            let j = tok_at(s, k2);
            assert(tok_keyed(s, k2, j));
            if j < i {
                assert(t[j] == s[j]);
                assert(tok_keyed(t, k2, j));
            } else {
                assert(j != i);
                assert(t[j - 1] == s[j]);
                assert(tok_keyed(t, k2, j - 1));
            }
        }
    }
    assert forall|k2: u64|
        tok_map(t).dom().contains(k2) implies #[trigger] tok_map(t)[k2] == tok_map(s).remove(
        k,
    )[k2] by {
        let j = tok_at(t, k2);
        assert(tok_keyed(t, k2, j));
        let j2: int = if j < i { j } else { j + 1 };
        assert(t[j] == s[j2]);
        assert(tok_keyed(s, k2, j2));
        let j3 = tok_at(s, k2);
        assert(tok_keyed(s, k2, j3));
        tok_unique(s, k2, j2, j3);
    }
    assert(tok_map(t) =~= tok_map(s).remove(k));
}

/// The live ownership index, keyed by token id.
pub struct TokenTable {
    entries: Vec<(u64, TokenRow)>,
}

impl View for TokenTable {
    type V = Map<u64, TokenRowV>;

    closed spec fn view(&self) -> Map<u64, TokenRowV> {
        tok_map(self.entries@)
    }
}

impl TokenTable {
    /// Keys are distinct.
    pub closed spec fn wf(&self) -> bool {
        tok_wf(self.entries@)
    }

    /// An empty table.
    pub fn new() -> (r: Self)
        ensures
            r.wf(),
            r@ == Map::<u64, TokenRowV>::empty(),
    {
        let r = TokenTable { entries: Vec::new() };
        proof {
            assert(r@ =~= Map::<u64, TokenRowV>::empty());
        }
        r
    }

    fn find(&self, k: u64) -> (r: Option<usize>)
        ensures
            match r {
                Option::Some(i) => tok_keyed(self.entries@, k, i as int),
                Option::None => !tok_has(self.entries@, k),
            },
    {
        let mut i: usize = 0;
        while i < self.entries.len()
            invariant
                i <= self.entries@.len(),
                forall|j: int| 0 <= j < i ==> !tok_keyed(self.entries@, k, j),
            decreases self.entries@.len() - i,
        {
            if self.entries[i].0 == k {
                return Some(i);
            }
            i = i + 1;
        }
        None
    }

    /// The row for `k`, when present.
    pub fn get(&self, k: u64) -> (r: Option<&TokenRow>)
        requires
            self.wf(),
        ensures
            match r {
                Option::Some(row) => self@.dom().contains(k) && row@ == self@[k],
                Option::None => !self@.dom().contains(k),
            },
    {
        match self.find(k) {
            Some(i) => {
                proof {
                    tok_map_at(self.entries@, i as int);
                }
                Some(&self.entries[i].1)
            }
            None => None,
        }
    }

    /// Remove and return the row for `k`, when present.
    pub fn take(&mut self, k: u64) -> (r: Option<TokenRow>)
        requires
            old(self).wf(),
        ensures
            final(self).wf(),
            match r {
                Option::Some(row) => old(self)@.dom().contains(k) && row@ == old(self)@[k]
                    && final(self)@ == old(self)@.remove(k),
                Option::None => !old(self)@.dom().contains(k) && final(self)@ == old(self)@,
            },
    {
        match self.find(k) {
            Some(i) => {
                proof {
                    tok_map_at(self.entries@, i as int);
                    tok_map_remove(self.entries@, i as int);
                }
                let e = self.entries.remove(i);
                Some(e.1)
            }
            None => None,
        }
    }

    /// Insert or overwrite the row for `k`.
    pub fn upsert(&mut self, k: u64, v: TokenRow)
        requires
            old(self).wf(),
        ensures
            final(self).wf(),
            final(self)@ == old(self)@.insert(k, v@),
    {
        match self.find(k) {
            Some(i) => {
                proof {
                    tok_map_at(self.entries@, i as int);
                    tok_map_remove(self.entries@, i as int);
                }
                self.entries.remove(i);
                proof {
                    tok_map_push(self.entries@, k, v);
                }
                self.entries.push((k, v));
                proof {
                    assert(self@ =~= old(self)@.insert(k, v@));
                }
            }
            None => {
                proof {
                    tok_map_push(self.entries@, k, v);
                }
                self.entries.push((k, v));
            }
        }
    }
}

// ---------------------------------------------------------------------------
// Byte-keyed table: association vector keyed by a byte vector, generic in
// the value; used for the pending-mint register and the counters.
// ---------------------------------------------------------------------------

/// Entry `i` of `s` carries key `k`.
pub open spec fn bt_keyed<V>(s: Seq<(Vec<u8>, V)>, k: Seq<u8>, i: int) -> bool {
    0 <= i < s.len() && s[i].0@ == k
}

/// Some entry of `s` carries key `k`.
pub open spec fn bt_has<V>(s: Seq<(Vec<u8>, V)>, k: Seq<u8>) -> bool {
    exists|i: int| bt_keyed(s, k, i)
}

/// The index of the entry carrying key `k`.
pub open spec fn bt_at<V>(s: Seq<(Vec<u8>, V)>, k: Seq<u8>) -> int {
    choose|i: int| bt_keyed(s, k, i)
}

/// All keys of `s` are distinct.
pub open spec fn bt_wf<V>(s: Seq<(Vec<u8>, V)>) -> bool {
    forall|i: int, j: int| 0 <= i < j < s.len() ==> (#[trigger] s[i]).0@ != (#[trigger] s[j]).0@
}

/// The map that `s` represents.
pub open spec fn bt_map<V: View>(s: Seq<(Vec<u8>, V)>) -> Map<Seq<u8>, V::V> {
    Map::new(|k: Seq<u8>| bt_has(s, k), |k: Seq<u8>| s[bt_at(s, k)].1@)
}

proof fn bt_unique<V>(s: Seq<(Vec<u8>, V)>, k: Seq<u8>, i: int, j: int)
    requires
        bt_wf(s),
        bt_keyed(s, k, i),
        bt_keyed(s, k, j),
    ensures
        i == j,
{
    if i < j {
        assert(s[i].0@ != s[j].0@);
    }
    if j < i {
        assert(s[j].0@ != s[i].0@);
    }
}

proof fn bt_map_at<V: View>(s: Seq<(Vec<u8>, V)>, i: int)
    requires
        bt_wf(s),
        0 <= i < s.len(),
    ensures
        bt_map(s).dom().contains(s[i].0@),
        bt_map(s)[s[i].0@] == s[i].1@,
{
    assert(bt_keyed(s, s[i].0@, i));
    let j = bt_at(s, s[i].0@);
    assert(bt_keyed(s, s[i].0@, j));
    bt_unique(s, s[i].0@, i, j);
}

proof fn bt_map_push<V: View>(s: Seq<(Vec<u8>, V)>, k: Vec<u8>, v: V)
    requires
        bt_wf(s),
        !bt_has(s, k@),
    ensures
        bt_wf(s.push((k, v))),
        bt_map(s.push((k, v))) == bt_map(s).insert(k@, v@),
{
    let t = s.push((k, v));
    assert forall|i: int, j: int| 0 <= i < j < t.len() implies (#[trigger] t[i]).0@ != (
    #[trigger] t[j]).0@ by {
        if j == s.len() {
            assert(!bt_keyed(s, k@, i));
        } else {
            assert(s[i].0@ != s[j].0@);
        }
    }
    assert forall|k2: Seq<u8>| #[trigger]
        bt_map(t).dom().contains(k2) == bt_map(s).insert(k@, v@).dom().contains(k2) by {
        if k2 == k@ {
            assert(bt_keyed(t, k@, s.len() as int));
        } else {
            if bt_has(t, k2) {
                let i = bt_at(t, k2);
                assert(bt_keyed(t, k2, i));
                assert(bt_keyed(s, k2, i));
            }
            if bt_has(s, k2) {
                let i = bt_at(s, k2);
                assert(bt_keyed(s, k2, i));
                assert(bt_keyed(t, k2, i));
            }
        }
    }
    assert forall|k2: Seq<u8>|
        bt_map(t).dom().contains(k2) implies #[trigger] bt_map(t)[k2] == bt_map(s).insert(
        k@,
        v@,
    )[k2] by {
        let i = bt_at(t, k2);
        assert(bt_keyed(t, k2, i));
        if k2 == k@ {
            assert(bt_keyed(t, k@, s.len() as int));
            bt_unique(t, k@, i, s.len() as int);
        } else {
            assert(bt_keyed(s, k2, i));
            let j = bt_at(s, k2);
            assert(bt_keyed(s, k2, j));
            bt_unique(s, k2, i, j);
        }
    }
    assert(bt_map(t) =~= bt_map(s).insert(k@, v@));
}

proof fn bt_map_remove<V: View>(s: Seq<(Vec<u8>, V)>, i: int)
    requires
        bt_wf(s),
        0 <= i < s.len(),
    ensures
        bt_wf(s.remove(i)),
        bt_map(s.remove(i)) == bt_map(s).remove(s[i].0@),
{
    let t = s.remove(i);
    s.remove_ensures(i);
    let k = s[i].0@;
    assert forall|a: int, b: int| 0 <= a < b < t.len() implies (#[trigger] t[a]).0@ != (
    #[trigger] t[b]).0@ by {
        let a2: int = if a < i { a } else { a + 1 };
        let b2: int = if b < i { b } else { b + 1 };
        assert(t[a] == s[a2]);
        assert(t[b] == s[b2]);
        assert(s[a2].0@ != s[b2].0@);
    }
    assert forall|k2: Seq<u8>| #[trigger]
        bt_map(t).dom().contains(k2) == bt_map(s).remove(k).dom().contains(k2) by {
        if bt_has(t, k2) {
            let j = bt_at(t, k2);
            assert(bt_keyed(t, k2, j));
            let j2: int = if j < i { j } else { j + 1 };
            assert(t[j] == s[j2]);
            assert(bt_keyed(s, k2, j2));
            if k2 == k {
                bt_unique(s, k, j2, i);
                assert(false);
            }
        }
        if k2 != k && bt_has(s, k2) {
            let j = bt_at(s, k2);
            assert(bt_keyed(s, k2, j));
            if j < i {
                assert(t[j] == s[j]);
                assert(bt_keyed(t, k2, j));
            } else {
                assert(j != i);
                assert(t[j - 1] == s[j]);
                assert(bt_keyed(t, k2, j - 1));
            }
        }
    }
    assert forall|k2: Seq<u8>|
        bt_map(t).dom().contains(k2) implies #[trigger] bt_map(t)[k2] == bt_map(s).remove(
        k,
    )[k2] by {
        let j = bt_at(t, k2);
        assert(bt_keyed(t, k2, j));
        let j2: int = if j < i { j } else { j + 1 };
        assert(t[j] == s[j2]);
        assert(bt_keyed(s, k2, j2));
        let j3 = bt_at(s, k2);
        assert(bt_keyed(s, k2, j3));
        bt_unique(s, k2, j2, j3);
    }
    assert(bt_map(t) =~= bt_map(s).remove(k));
}

/// An association table keyed by a byte vector.
pub struct ByteTable<V> {
    entries: Vec<(Vec<u8>, V)>,
}

impl<V: View> View for ByteTable<V> {
    type V = Map<Seq<u8>, V::V>;

    closed spec fn view(&self) -> Map<Seq<u8>, V::V> {
        bt_map(self.entries@)
    }
}

impl<V: View> ByteTable<V> {
    /// Keys are distinct.
    pub closed spec fn wf(&self) -> bool {
        bt_wf(self.entries@)
    }

    /// An empty table.
    pub fn new() -> (r: Self)
        ensures
            r.wf(),
            r@ == Map::<Seq<u8>, V::V>::empty(),
    {
        let r = ByteTable { entries: Vec::new() };
        proof {
            assert(r@ =~= Map::<Seq<u8>, V::V>::empty());
        }
        r
    }

    fn find(&self, k: &Vec<u8>) -> (r: Option<usize>)
        ensures
            match r {
                Option::Some(i) => bt_keyed(self.entries@, k@, i as int),
                Option::None => !bt_has(self.entries@, k@),
            },
    {
        let mut i: usize = 0;
        while i < self.entries.len()
            invariant
                i <= self.entries@.len(),
                forall|j: int| 0 <= j < i ==> !bt_keyed(self.entries@, k@, j),
            decreases self.entries@.len() - i,
        {
            if bytes_eq(&self.entries[i].0, k) {
                return Some(i);
            }
            i = i + 1;
        }
        None
    }

    /// The value for `k`, when present.
    pub fn get(&self, k: &Vec<u8>) -> (r: Option<&V>)
        requires
            self.wf(),
        ensures
            match r {
                Option::Some(v) => self@.dom().contains(k@) && v@ == self@[k@],
                Option::None => !self@.dom().contains(k@),
            },
    {
        match self.find(k) {
            Some(i) => {
                proof {
                    bt_map_at(self.entries@, i as int);
                }
                Some(&self.entries[i].1)
            }
            None => None,
        }
    }

    /// Remove and return the value for `k`, when present.
    pub fn take(&mut self, k: &Vec<u8>) -> (r: Option<V>)
        requires
            old(self).wf(),
        ensures
            final(self).wf(),
            match r {
                Option::Some(v) => old(self)@.dom().contains(k@) && v@ == old(self)@[k@]
                    && final(self)@ == old(self)@.remove(k@),
                Option::None => !old(self)@.dom().contains(k@) && final(self)@ == old(self)@,
            },
    {
        match self.find(k) {
            Some(i) => {
                proof {
                    bt_map_at(self.entries@, i as int);
                    bt_map_remove(self.entries@, i as int);
                }
                let e = self.entries.remove(i);
                Some(e.1)
            }
            None => None,
        }
    }

    /// Insert or overwrite the value for `k`.
    pub fn upsert(&mut self, k: Vec<u8>, v: V)
        requires
            old(self).wf(),
        ensures
            final(self).wf(),
            final(self)@ == old(self)@.insert(k@, v@),
    {
        match self.find(&k) {
            Some(i) => {
                proof {
                    bt_map_at(self.entries@, i as int);
                    bt_map_remove(self.entries@, i as int);
                }
                self.entries.remove(i);
                proof {
                    bt_map_push(self.entries@, k, v);
                }
                self.entries.push((k, v));
                proof {
                    assert(self@ =~= old(self)@.insert(k@, v@));
                }
            }
            None => {
                proof {
                    bt_map_push(self.entries@, k, v);
                }
                self.entries.push((k, v));
            }
        }
    }
}

// ---------------------------------------------------------------------------
// The store.
// ---------------------------------------------------------------------------

/// The reconciled off-chain state, mutated only by the verified transitions
/// below, one event at a time.
pub struct IndexStore {
    tokens: TokenTable,
    pending: ByteTable<PendingMint>,
    counters: ByteTable<u64>,
    records: Vec<RedeemedRecord>,
}

impl View for IndexStore {
    type V = StoreModel;

    closed spec fn view(&self) -> StoreModel {
        StoreModel {
            tokens: self.tokens@,
            pending: self.pending@,
            records: self.records@.map_values(|r: RedeemedRecord| r@),
            counters: self.counters@,
        }
    }
}

impl IndexStore {
    /// The tables' keys are distinct.
    pub closed spec fn wf(&self) -> bool {
        self.tokens.wf() && self.pending.wf() && self.counters.wf()
    }

    /// An empty store.
    pub fn new() -> (r: Self)
        ensures
            r.wf(),
            r@ == (StoreModel {
                tokens: Map::empty(),
                pending: Map::empty(),
                records: Seq::empty(),
                counters: Map::empty(),
            }),
    {
        let r = IndexStore {
            tokens: TokenTable::new(),
            pending: ByteTable::new(),
            counters: ByteTable::new(),
            records: Vec::new(),
        };
        proof {
            assert(r@.records =~= Seq::<RecordV>::empty());
        }
        r
    }

    /// Register a pending mint under the hash of its submission transaction.
    ///
    /// An existing record for the same hash is overwritten, keeping at most
    /// one pending record per transaction hash.
    pub fn register_pending(&mut self, tx_hash: Vec<u8>, pending: PendingMint)
        requires
            old(self).wf(),
        ensures
            final(self).wf(),
            final(self)@ == (StoreModel {
                pending: old(self)@.pending.insert(tx_hash@, pending@),
                ..old(self)@
            }),
    {
        self.pending.upsert(tx_hash, pending);
    }

    /// Apply a mint confirmation: promote the pending mint bearing the
    /// event's transaction hash into a token row owned by the recipient.
    ///
    /// Promotion is idempotent: with no pending record the event was already
    /// promoted and the store is unchanged.
    pub fn apply_mint_confirmed(
        &mut self,
        tx_hash: &Vec<u8>,
        token_id: u64,
        recipient: Vec<u8>,
    ) -> (r: MintOutcome)
        requires
            old(self).wf(),
        ensures
            final(self).wf(),
            final(self)@ == promote_spec(old(self)@, tx_hash@, token_id, recipient@),
            r == promote_outcome_spec(old(self)@, tx_hash@),
    {
        match self.pending.take(tx_hash) {
            Some(p) => {
                self.tokens.upsert(
                    token_id,
                    TokenRow {
                        owner: recipient,
                        creator: p.creator,
                        handle: p.handle,
                        redeemed: false,
                    },
                );
                proof {
                    assert(self@ =~= promote_spec(old(self)@, tx_hash@, token_id, recipient@));
                }
                MintOutcome::Promoted
            }
            None => MintOutcome::AlreadyPromoted,
        }
    }

    /// Apply an ownership transfer.
    ///
    /// A transfer from the zero address is ignored (the mint leg); a
    /// transfer to the zero address burns the token; otherwise the owner of
    /// an existing row is rewritten, and a missing row is a benign no-op.
    pub fn apply_transfer(&mut self, token_id: u64, from: &Vec<u8>, to: Vec<u8>) -> (r:
        TransferOutcome)
        requires
            old(self).wf(),
        ensures
            final(self).wf(),
            final(self)@ == transfer_spec(old(self)@, token_id, from@, to@),
            r == transfer_outcome_spec(old(self)@, token_id, from@, to@),
    {
        if is_zero_address(from) {
            return TransferOutcome::IgnoredMintLeg;
        }
        if is_zero_address(&to) {
            match self.tokens.take(token_id) {
                Some(_row) => {
                    proof {
                        assert(self@ =~= transfer_spec(old(self)@, token_id, from@, to@));
                    }
                    TransferOutcome::Burned
                }
                None => {
                    proof {
                        assert(old(self)@.tokens.remove(token_id) =~= old(self)@.tokens);
                        assert(self@ =~= transfer_spec(old(self)@, token_id, from@, to@));
                    }
                    TransferOutcome::MissingToken
                }
            }
        } else {
            match self.tokens.take(token_id) {
                Some(row) => {
                    self.tokens.upsert(
                        token_id,
                        TokenRow {
                            owner: to,
                            creator: row.creator,
                            handle: row.handle,
                            redeemed: row.redeemed,
                        },
                    );
                    proof {
                        assert(self@.tokens =~= transfer_spec(
                            old(self)@,
                            token_id,
                            from@,
                            to@,
                        ).tokens);
                        assert(self@ =~= transfer_spec(old(self)@, token_id, from@, to@));
                    }
                    TransferOutcome::OwnerUpdated
                }
                None => TransferOutcome::MissingToken,
            }
        }
    }

    /// Commit an approved redemption: append the redeemed record, bump the
    /// creator's counter, and delete the token row.
    ///
    /// With the token absent or already redeemed the event is a replay and
    /// the store is unchanged.
    pub(crate) fn commit_redemption(
        &mut self,
        token_id: u64,
        record_id: Vec<u8>,
        publication: Vec<u8>,
        policy: Vec<u8>,
        content: Vec<u8>,
    ) -> (r: RedeemOutcome)
        requires
            old(self).wf(),
        ensures
            final(self).wf(),
            final(self)@ == redeem_commit_spec(
                old(self)@,
                token_id,
                record_id@,
                publication@,
                policy@,
                content@,
            ),
            r == (if token_live(old(self)@, token_id) {
                RedeemOutcome::Redeemed
            } else {
                RedeemOutcome::AlreadyRedeemed
            }),
    {
        let live = match self.tokens.get(token_id) {
            Some(row) => !row.redeemed,
            None => false,
        };
        if !live {
            return RedeemOutcome::AlreadyRedeemed;
        }
        let row = match self.tokens.take(token_id) {
            Some(row) => row,
            None => {
                proof {
                    assert(false);
                }
                return RedeemOutcome::AlreadyRedeemed;
            }
        };
        let creator_key = copy_bytes(&row.creator);
        let ghost mid = self@;
        self.records.push(
            RedeemedRecord {
                id: record_id,
                creator: row.creator,
                token_id: token_id,
                publication: publication,
                handle: row.handle,
                policy: policy,
                content: content,
            },
        );
        let cur: u64 = match self.counters.get(&creator_key) {
            Some(c) => *c,
            None => 0,
        };
        let newv: u64 = if cur == u64::MAX {
            cur
        } else {
            cur + 1
        };
        self.counters.upsert(creator_key, newv);
        proof {
            let spec_after = redeem_commit_spec(
                old(self)@,
                token_id,
                record_id@,
                publication@,
                policy@,
                content@,
            );
            assert(self@.records =~= spec_after.records);
            assert(self@.counters =~= spec_after.counters);
            assert(self@ =~= spec_after);
        }
        RedeemOutcome::Redeemed
    }

    /// The row for `token_id`, when present in the live index.
    pub fn token_of(&self, token_id: u64) -> (r: Option<&TokenRow>)
        requires
            self.wf(),
        ensures
            match r {
                Option::Some(row) => self@.tokens.dom().contains(token_id) && row@
                    == self@.tokens[token_id],
                Option::None => !self@.tokens.dom().contains(token_id),
            },
    {
        self.tokens.get(token_id)
    }

    /// Whether a pending mint is registered under `tx_hash`.
    pub fn pending_contains(&self, tx_hash: &Vec<u8>) -> (r: bool)
        requires
            self.wf(),
        ensures
            r == self@.pending.dom().contains(tx_hash@),
    {
        match self.pending.get(tx_hash) {
            Some(_) => true,
            None => false,
        }
    }

    /// The creator's redemption counter, zero when no counter row exists.
    pub fn counter_of(&self, user: &Vec<u8>) -> (r: u64)
        requires
            self.wf(),
        ensures
            r == counter_of(self@, user@),
    {
        match self.counters.get(user) {
            Some(c) => *c,
            None => 0,
        }
    }

    /// How many redeemed records have been committed.
    pub fn records_len(&self) -> (r: usize)
        ensures
            r == self@.records.len(),
    {
        self.records.len()
    }

    /// The `i`-th redeemed record, in commit order.
    pub fn record_at(&self, i: usize) -> (r: &RedeemedRecord)
        requires
            i < self@.records.len(),
        ensures
            r@ == self@.records[i as int],
    {
        &self.records[i]
    }

    /// How many redeemed records exist for one token.
    pub fn records_for_token(&self, token_id: u64) -> (r: usize)
        ensures
            r == count_for(self@.records, token_id),
    {
        let mut count: usize = 0;
        let mut i: usize = 0;
        while i < self.records.len()
            invariant
                i <= self.records@.len(),
                count <= i,
                count == count_for(self@.records.take(i as int), token_id),
            decreases self.records@.len() - i,
        {
            proof {
                assert(self@.records.take(i as int + 1).drop_last() =~= self@.records.take(
                    i as int,
                ));
                assert(self@.records.take(i as int + 1).last() == self@.records[i as int]);
            }
            if self.records[i].token_id == token_id {
                count = count + 1;
            }
            i = i + 1;
        }
        proof {
            assert(self@.records.take(self.records@.len() as int) =~= self@.records);
        }
        count
    }
}

} // verus!
