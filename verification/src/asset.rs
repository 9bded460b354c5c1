//! Custodial asset balances as explicit values.
//!
//! The ledger's settlement logic only ever moves fungible balances between
//! holder identities and reads them back. An [`AssetBook`] models that
//! capability: a finite table of non-negative balances, one per asset and
//! holder pair, viewed abstractly as a total map from `(asset, holder)` to
//! the held amount (zero where no entry exists).

use vstd::prelude::*;

use crate::errors::Error;

verus! {

/// One custodial balance: `holder`'s balance of `asset`.
#[derive(Clone, Copy)]
pub struct AssetEntry {
    pub asset: u64,
    pub holder: u64,
    pub amount: i128,
}

/// Entry `i` of `s` records the balance of `holder` in `asset`.
pub open spec fn entry_at(s: Seq<AssetEntry>, asset: u64, holder: u64, i: int) -> bool {
    &&& 0 <= i < s.len()
    &&& s[i].asset == asset
    &&& s[i].holder == holder
}

/// The balance of `holder` in `asset` recorded by `s`: the amount of the
/// entry for that pair, or zero where there is none.
pub open spec fn bal_in(s: Seq<AssetEntry>, asset: u64, holder: u64) -> int {
    if exists|i: int| entry_at(s, asset, holder, i) {
        s[choose|i: int| entry_at(s, asset, holder, i)].amount as int
    } else {
        0
    }
}

/// Each `(asset, holder)` pair has at most one entry, and no balance is
/// negative.
pub open spec fn wf_entries(s: Seq<AssetEntry>) -> bool {
    &&& forall|i: int, j: int|
        #![trigger s[i], s[j]]
        0 <= i < j < s.len() ==> !(s[i].asset == s[j].asset && s[i].holder == s[j].holder)
    &&& forall|i: int| #![trigger s[i]] 0 <= i < s.len() ==> s[i].amount >= 0
}

/// The abstract balance map recorded by `s`: total over all pairs, zero
/// where `s` holds no entry.
pub open spec fn map_of(s: Seq<AssetEntry>) -> Map<(u64, u64), int> {
    Map::new(|k: (u64, u64)| true, |k: (u64, u64)| bal_in(s, k.0, k.1))
}

/// Moving `amount` of `asset` from `from` to `to` succeeds on `m`: the
/// amount is non-negative, the sender holds it, and the recipient's
/// balance stays representable.
pub open spec fn xfer_ok(m: Map<(u64, u64), int>, asset: u64, from: u64, to: u64, amount: int) -> bool {
    &&& 0 <= amount <= m[(asset, from)]
    &&& (from != to ==> m[(asset, to)] + amount <= i128::MAX)
}

/// The balance map after moving `amount` of `asset` from `from` to `to`:
/// the sender is debited, then the recipient credited, so a transfer to
/// oneself leaves every balance unchanged.
pub open spec fn xfer(m: Map<(u64, u64), int>, asset: u64, from: u64, to: u64, amount: int) -> Map<(u64, u64), int> {
    let debited = m.insert((asset, from), m[(asset, from)] - amount);
    debited.insert((asset, to), debited[(asset, to)] + amount)
}

proof fn lemma_bal_at(s: Seq<AssetEntry>, asset: u64, holder: u64, i: int)
    requires
        wf_entries(s),
        entry_at(s, asset, holder, i),
    ensures
        bal_in(s, asset, holder) == s[i].amount,
{
    let j = choose|j: int| entry_at(s, asset, holder, j);
    assert(entry_at(s, asset, holder, j));
    if i != j {
        assert(s[i].asset == s[j].asset && s[i].holder == s[j].holder);
        assert(false);
    }
}

proof fn lemma_wf_update(s: Seq<AssetEntry>, i: int, e: AssetEntry)
    requires
        wf_entries(s),
        0 <= i < s.len(),
        e.asset == s[i].asset,
        e.holder == s[i].holder,
        e.amount >= 0,
    ensures
        wf_entries(s.update(i, e)),
{
    let s2 = s.update(i, e);
    assert forall|p: int, q: int|
        #![trigger s2[p], s2[q]]
        0 <= p < q < s2.len() implies !(s2[p].asset == s2[q].asset && s2[p].holder
        == s2[q].holder) by {
        assert(s2[p].asset == s[p].asset && s2[p].holder == s[p].holder);
        assert(s2[q].asset == s[q].asset && s2[q].holder == s[q].holder);
    }
    assert forall|p: int| #![trigger s2[p]] 0 <= p < s2.len() implies s2[p].amount >= 0 by {
        if p != i {
            assert(s2[p] == s[p]);
        }
    }
}

proof fn lemma_bal_update_other(s: Seq<AssetEntry>, i: int, e: AssetEntry, a2: u64, h2: u64)
    requires
        wf_entries(s),
        0 <= i < s.len(),
        e.asset == s[i].asset,
        e.holder == s[i].holder,
        e.amount >= 0,
        !(a2 == e.asset && h2 == e.holder),
    ensures
        bal_in(s.update(i, e), a2, h2) == bal_in(s, a2, h2),
{
    let s2 = s.update(i, e);
    lemma_wf_update(s, i, e);
    if exists|w: int| entry_at(s2, a2, h2, w) {
        let w = choose|w: int| entry_at(s2, a2, h2, w);
        assert(w != i);
        assert(entry_at(s, a2, h2, w));
        lemma_bal_at(s2, a2, h2, w);
        lemma_bal_at(s, a2, h2, w);
    } else {
        if exists|w: int| entry_at(s, a2, h2, w) {
            let w = choose|w: int| entry_at(s, a2, h2, w);
            assert(w != i);
            assert(entry_at(s2, a2, h2, w));
            assert(false);
        }
    }
}

proof fn lemma_wf_push(s: Seq<AssetEntry>, e: AssetEntry)
    requires
        wf_entries(s),
        !exists|w: int| entry_at(s, e.asset, e.holder, w),
        e.amount >= 0,
    ensures
        wf_entries(s.push(e)),
{
    let s2 = s.push(e);
    assert forall|p: int, q: int|
        #![trigger s2[p], s2[q]]
        0 <= p < q < s2.len() implies !(s2[p].asset == s2[q].asset && s2[p].holder
        == s2[q].holder) by {
        if q == s.len() {
            assert(s2[q] == e);
            assert(s2[p] == s[p]);
            if s2[p].asset == e.asset && s2[p].holder == e.holder {
                assert(entry_at(s, e.asset, e.holder, p));
            }
        } else {
            assert(s2[p] == s[p]);
            assert(s2[q] == s[q]);
        }
    }
    assert forall|p: int| #![trigger s2[p]] 0 <= p < s2.len() implies s2[p].amount >= 0 by {
        if p < s.len() {
            assert(s2[p] == s[p]);
        }
    }
}

proof fn lemma_bal_push_other(s: Seq<AssetEntry>, e: AssetEntry, a2: u64, h2: u64)
    requires
        wf_entries(s),
        !exists|w: int| entry_at(s, e.asset, e.holder, w),
        e.amount >= 0,
        !(a2 == e.asset && h2 == e.holder),
    ensures
        bal_in(s.push(e), a2, h2) == bal_in(s, a2, h2),
{
    let s2 = s.push(e);
    lemma_wf_push(s, e);
    if exists|w: int| entry_at(s2, a2, h2, w) {
        let w = choose|w: int| entry_at(s2, a2, h2, w);
        assert(w != s.len());
        assert(entry_at(s, a2, h2, w));
        lemma_bal_at(s2, a2, h2, w);
        lemma_bal_at(s, a2, h2, w);
    } else {
        if exists|w: int| entry_at(s, a2, h2, w) {
            let w = choose|w: int| entry_at(s, a2, h2, w);
            assert(entry_at(s2, a2, h2, w));
            assert(false);
        }
    }
}

/// The custodial balance book: which holder owns how much of which asset.
pub struct AssetBook {
    entries: Vec<AssetEntry>,
}

impl View for AssetBook {
    type V = Map<(u64, u64), int>;

    closed spec fn view(&self) -> Map<(u64, u64), int> {
        map_of(self.entries@)
    }
}

impl AssetBook {
    /// The book's entry table has one entry per pair and no negative
    /// balance.
    pub closed spec fn wf(&self) -> bool {
        wf_entries(self.entries@)
    }

    /// An empty book: every balance is zero.
    pub fn new() -> (book: Self)
        ensures
            book.wf(),
            forall|k: (u64, u64)| #[trigger] book@[k] == 0,
    {
        AssetBook { entries: Vec::new() }
    }

    /// The index of the entry for `(asset, holder)`, if one exists.
    fn find(&self, asset: u64, holder: u64) -> (found: Option<usize>)
        ensures
            match found {
                Some(i) => entry_at(self.entries@, asset, holder, i as int),
                None => !exists|i: int| entry_at(self.entries@, asset, holder, i),
            },
    {
        let n = self.entries.len();
        for i in 0..n
            invariant
                n == self.entries@.len(),
                forall|j: int|
                    0 <= j < i ==> !(#[trigger] self.entries@[j].asset == asset
                        && self.entries@[j].holder == holder),
        {
            if self.entries[i].asset == asset && self.entries[i].holder == holder {
                return Some(i);
            }
        }
        assert forall|i: int| !entry_at(self.entries@, asset, holder, i) by {
            if 0 <= i < self.entries@.len() {
                assert(!(self.entries@[i].asset == asset && self.entries@[i].holder == holder));
            }
        }
        None
    }

    /// Issues `amount` fresh units of `asset` to `to`, the capability an
    /// asset's administrator holds. Fails, changing nothing, when the
    /// amount is negative or the credited balance would not be
    /// representable.
    pub fn mint(&mut self, asset: u64, to: u64, amount: i128) -> (minted: Result<(), Error>)
        requires
            old(self).wf(),
        ensures
            final(self).wf(),
            minted is Ok <==> 0 <= amount && old(self)@[(asset, to)] + amount <= i128::MAX,
            minted is Ok ==> final(self)@ == old(self)@.insert(
                (asset, to),
                old(self)@[(asset, to)] + amount,
            ),
            minted is Err ==> final(self)@ == old(self)@ && minted == Err::<(), Error>(
                Error::TransferFailed,
            ),
    {
        if amount < 0 {
            return Err(Error::TransferFailed);
        }
        let ghost s0 = self.entries@;
        let ghost m0 = self@;
        let to_idx = self.find(asset, to);
        match to_idx {
            Some(j) => {
                proof {
                    lemma_bal_at(s0, asset, to, j as int);
                }
                let to_bal = self.entries[j].amount;
                if to_bal > i128::MAX - amount {
                    return Err(Error::TransferFailed);
                }
                let credited = AssetEntry { asset, holder: to, amount: to_bal + amount };
                self.entries[j] = credited;
                proof {
                    lemma_wf_update(s0, j as int, credited);
                    lemma_bal_at(self.entries@, asset, to, j as int);
                    assert forall|k: (u64, u64)| #[trigger] self@[k] == m0.insert(
                        (asset, to),
                        m0[(asset, to)] + amount,
                    )[k] by {
                        if k != (asset, to) {
                            lemma_bal_update_other(s0, j as int, credited, k.0, k.1);
                        }
                    }
                    assert(self@ =~= m0.insert((asset, to), m0[(asset, to)] + amount));
                }
                Ok(())
            },
            None => {
                let fresh = AssetEntry { asset, holder: to, amount };
                self.entries.push(fresh);
                proof {
                    lemma_wf_push(s0, fresh);
                    lemma_bal_at(self.entries@, asset, to, s0.len() as int);
                    assert forall|k: (u64, u64)| #[trigger] self@[k] == m0.insert(
                        (asset, to),
                        m0[(asset, to)] + amount,
                    )[k] by {
                        if k != (asset, to) {
                            lemma_bal_push_other(s0, fresh, k.0, k.1);
                        }
                    }
                    assert(self@ =~= m0.insert((asset, to), m0[(asset, to)] + amount));
                }
                Ok(())
            },
        }
    }

    /// Moves `amount` of `asset` from `from` to `to`. Fails, changing
    /// nothing, when the amount is negative, the sender's balance is
    /// insufficient, or the credited balance would not be representable.
    pub fn transfer(&mut self, asset: u64, from: u64, to: u64, amount: i128) -> (moved: Result<
        (),
        Error,
    >)
        requires
            old(self).wf(),
        ensures
            final(self).wf(),
            moved is Ok <==> xfer_ok(old(self)@, asset, from, to, amount as int),
            moved is Ok ==> final(self)@ == xfer(old(self)@, asset, from, to, amount as int),
            moved is Err ==> final(self)@ == old(self)@ && moved == Err::<(), Error>(
                Error::TransferFailed,
            ),
    {
        if amount < 0 {
            return Err(Error::TransferFailed);
        }
        let ghost s0 = self.entries@;
        let ghost m0 = self@;
        let from_idx = self.find(asset, from);
        let from_bal: i128 = match from_idx {
            Some(i) => {
                proof {
                    lemma_bal_at(s0, asset, from, i as int);
                }
                self.entries[i].amount
            },
            None => 0,
        };
        assert(from_bal == m0[(asset, from)]);
        if from_bal < amount {
            return Err(Error::TransferFailed);
        }
        if from == to {
            proof {
                assert(self@ =~= xfer(m0, asset, from, to, amount as int));
            }
            return Ok(());
        }
        let to_idx = self.find(asset, to);
        let to_bal: i128 = match to_idx {
            Some(j) => {
                proof {
                    lemma_bal_at(s0, asset, to, j as int);
                }
                self.entries[j].amount
            },
            None => 0,
        };
        assert(to_bal == m0[(asset, to)]);
        if to_bal > i128::MAX - amount {
            return Err(Error::TransferFailed);
        }
        if amount == 0 {
            proof {
                assert(self@ =~= xfer(m0, asset, from, to, amount as int));
            }
            return Ok(());
        }
        // The sender's balance is at least the positive amount, so it has
        // an entry.
        assert(from_idx is Some);
        let i = from_idx.unwrap();
        let debited = AssetEntry { asset, holder: from, amount: from_bal - amount };
        self.entries[i] = debited;
        let ghost s1 = self.entries@;
        proof {
            lemma_wf_update(s0, i as int, debited);
        }
        match to_idx {
            Some(j) => {
                proof {
                    assert(i != j);
                    assert(entry_at(s1, asset, to, j as int));
                }
                let credited = AssetEntry { asset, holder: to, amount: to_bal + amount };
                self.entries[j] = credited;
                proof {
                    lemma_wf_update(s1, j as int, credited);
                    lemma_bal_at(self.entries@, asset, to, j as int);
                    assert(entry_at(self.entries@, asset, from, i as int));
                    lemma_bal_at(self.entries@, asset, from, i as int);
                    assert forall|k: (u64, u64)| #[trigger] self@[k] == xfer(
                        m0,
                        asset,
                        from,
                        to,
                        amount as int,
                    )[k] by {
                        if k != (asset, to) && k != (asset, from) {
                            lemma_bal_update_other(s1, j as int, credited, k.0, k.1);
                            lemma_bal_update_other(s0, i as int, debited, k.0, k.1);
                        }
                    }
                    assert(self@ =~= xfer(m0, asset, from, to, amount as int));
                }
            },
            None => {
                proof {
                    assert forall|w: int| !entry_at(s1, asset, to, w) by {
                        if 0 <= w < s1.len() && w != i {
                            assert(s1[w] == s0[w]);
                            assert(!entry_at(s0, asset, to, w));
                        }
                    }
                }
                let credited = AssetEntry { asset, holder: to, amount };
                self.entries.push(credited);
                proof {
                    lemma_wf_push(s1, credited);
                    lemma_bal_at(self.entries@, asset, to, s1.len() as int);
                    assert(entry_at(self.entries@, asset, from, i as int));
                    lemma_bal_at(self.entries@, asset, from, i as int);
                    assert forall|k: (u64, u64)| #[trigger] self@[k] == xfer(
                        m0,
                        asset,
                        from,
                        to,
                        amount as int,
                    )[k] by {
                        if k != (asset, to) && k != (asset, from) {
                            lemma_bal_push_other(s1, credited, k.0, k.1);
                            lemma_bal_update_other(s0, i as int, debited, k.0, k.1);
                        }
                    }
                    assert(self@ =~= xfer(m0, asset, from, to, amount as int));
                }
            },
        }
        Ok(())
    }

    /// A copy of the book's entry table, taken before a multi-step
    /// settlement so a failed later step can roll the book back.
    pub(crate) fn snapshot(&self) -> (saved: Vec<AssetEntry>)
        requires
            self.wf(),
        ensures
            wf_entries(saved@),
            map_of(saved@) == self@,
    {
        let n = self.entries.len();
        let mut saved: Vec<AssetEntry> = Vec::new();
        for i in 0..n
            invariant
                n == self.entries@.len(),
                saved@.len() == i,
                forall|j: int| 0 <= j < i ==> saved@[j] == self.entries@[j],
        {
            saved.push(self.entries[i]);
        }
        proof {
            assert(saved@ =~= self.entries@);
        }
        saved
    }

    /// Replaces the book's entry table with a previously taken copy.
    pub(crate) fn restore(&mut self, saved: Vec<AssetEntry>)
        requires
            wf_entries(saved@),
        ensures
            final(self).wf(),
            final(self)@ == map_of(saved@),
    {
        self.entries = saved;
    }

    /// Reports `holder`'s balance of `asset`.
    pub fn balance(&self, asset: u64, holder: u64) -> (bal: i128)
        requires
            self.wf(),
        ensures
            bal == self@[(asset, holder)],
    {
        match self.find(asset, holder) {
            Some(i) => {
                proof {
                    lemma_bal_at(self.entries@, asset, holder, i as int);
                }
                self.entries[i].amount
            },
            None => 0,
        }
    }
}

} // verus!
