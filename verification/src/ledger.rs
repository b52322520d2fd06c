//! A model of the asset ledger the custody protocol acts on: per-asset,
//! per-holder balances with an atomic transfer primitive that either moves
//! the full amount or reports failure and changes nothing.
//!
//! The auction operations are verified against this model; the host
//! environment that owns the real balances supplies the same primitive.

use vstd::prelude::*;

verus! {

struct Entry {
    asset: u32,
    holder: u32,
    amount: i128,
}

spec fn key_match(e: Entry, asset: int, holder: int) -> bool {
    e.asset == asset && e.holder == holder
}

spec fn bal_of(s: Seq<Entry>, asset: int, holder: int) -> int
    decreases s.len(),
{
    if s.len() == 0 {
        0
    } else if key_match(s[0], asset, holder) {
        s[0].amount as int
    } else {
        bal_of(s.drop_first(), asset, holder)
    }
}

spec fn unique_keys(s: Seq<Entry>) -> bool {
    forall|i: int, j: int|
        0 <= i < j < s.len() ==> !(#[trigger] s[i].asset == #[trigger] s[j].asset
            && s[i].holder == s[j].holder)
}

spec fn nonneg_amounts(s: Seq<Entry>) -> bool {
    forall|i: int| 0 <= i < s.len() ==> #[trigger] s[i].amount >= 0
}

/// All balances of one asset ledger, keyed by asset then holder. Every
/// balance is non-negative; accounts never touched hold zero.
pub struct TokenLedger {
    entries: Vec<Entry>,
}

/// Both ledgers hold the same balance on every account.
pub open spec fn same_balances(l0: TokenLedger, l1: TokenLedger) -> bool {
    forall|qa: int, qh: int| #[trigger] l1.bal(qa, qh) == l0.bal(qa, qh)
}

/// `l1` is `l0` after moving `amount` of `asset` from `from` to `to`: the
/// two accounts shift by the amount, every other balance is unchanged. When
/// `from == to` the shifts cancel and nothing moves.
pub open spec fn transfer_deltas(
    l0: TokenLedger,
    l1: TokenLedger,
    asset: int,
    from: int,
    to: int,
    amount: int,
) -> bool {
    forall|qa: int, qh: int|
        #[trigger] l1.bal(qa, qh) == l0.bal(qa, qh)
            + (if qa == asset && qh == from { -amount } else { 0 })
            + (if qa == asset && qh == to { amount } else { 0 })
}

impl TokenLedger {
    /// The balance of `holder` in `asset`.
    pub closed spec fn bal(self, asset: int, holder: int) -> int {
        bal_of(self.entries@, asset, holder)
    }

    /// Internal well-formedness: one entry per account, no negative amounts.
    pub closed spec fn wf(self) -> bool {
        unique_keys(self.entries@) && nonneg_amounts(self.entries@)
    }

    /// A transfer of `amount` of `asset` from `from` to `to` succeeds: the
    /// amount is non-negative, the payer covers it, and the payee's balance
    /// stays representable.
    pub open spec fn can_transfer(self, asset: int, from: int, to: int, amount: int) -> bool {
        &&& 0 <= amount
        &&& amount <= self.bal(asset, from)
        &&& (from == to || self.bal(asset, to) + amount <= i128::MAX)
    }

    /// An empty ledger: every balance is zero.
    pub fn new() -> (r: TokenLedger)
        ensures
            r.wf(),
            forall|qa: int, qh: int| #[trigger] r.bal(qa, qh) == 0,
    {
        TokenLedger { entries: Vec::new() }
    }

    fn find(&self, asset: u32, holder: u32) -> (r: Option<usize>)
        ensures
            match r {
                Some(i) => i < self.entries@.len()
                    && key_match(self.entries@[i as int], asset as int, holder as int),
                None => forall|i: int|
                    0 <= i < self.entries@.len()
                        ==> !key_match(#[trigger] self.entries@[i], asset as int, holder as int),
            },
    {
        let n: usize = self.entries.len();
        let mut i: usize = 0;
        while i < n
            invariant
                n == self.entries@.len(),
                i <= n,
                forall|j: int|
                    0 <= j < i
                        ==> !key_match(#[trigger] self.entries@[j], asset as int, holder as int),
            decreases n - i,
        {
            if self.entries[i].asset == asset && self.entries[i].holder == holder {
                return Some(i);
            }
            i = i + 1;
        }
        None
    }

    /// The read-only balance query.
    pub fn balance(&self, asset: u32, holder: u32) -> (r: i128)
        requires
            self.wf(),
        ensures
            r == self.bal(asset as int, holder as int),
    {
        match self.find(asset, holder) {
            Some(i) => {
                proof {
                    lemma_bal_of_at(self.entries@, asset as int, holder as int, i as int);
                }
                self.entries[i].amount
            },
            None => {
                proof {
                    lemma_bal_of_absent(self.entries@, asset as int, holder as int);
                }
                0
            },
        }
    }

    fn set_bal(&mut self, asset: u32, holder: u32, amount: i128)
        requires
            old(self).wf(),
            amount >= 0,
        ensures
            final(self).wf(),
            forall|qa: int, qh: int|
                #[trigger] final(self).bal(qa, qh) == (if qa == asset as int
                    && qh == holder as int {
                    amount as int
                } else {
                    old(self).bal(qa, qh)
                }),
    {
        let e = Entry { asset, holder, amount };
        match self.find(asset, holder) {
            Some(i) => {
                let ghost s0 = self.entries@;
                self.entries.set(i, e);
                proof {
                    lemma_unique_update(s0, i as int, e);
                    assert forall|qa: int, qh: int|
                        #[trigger] self.bal(qa, qh) == (if qa == asset as int
                            && qh == holder as int {
                            amount as int
                        } else {
                            old(self).bal(qa, qh)
                        }) by {
                        lemma_bal_of_update(s0, i as int, e, qa, qh);
                        if qa == asset as int && qh == holder as int {
                            lemma_bal_of_at(s0, qa, qh, i as int);
                        }
                    }
                }
            },
            None => {
                let ghost s0 = self.entries@;
                self.entries.push(e);
                proof {
                    assert forall|qa: int, qh: int|
                        #[trigger] self.bal(qa, qh) == (if qa == asset as int
                            && qh == holder as int {
                            amount as int
                        } else {
                            old(self).bal(qa, qh)
                        }) by {
                        lemma_bal_of_push(s0, e, qa, qh);
                    }
                }
            },
        }
    }

    /// Credit `amount` of `asset` to `to` out of thin air; the issuing
    /// primitive of the model, for building initial holdings.
    pub fn mint(&mut self, asset: u32, to: u32, amount: i128)
        requires
            old(self).wf(),
            amount >= 0,
            old(self).bal(asset as int, to as int) + amount <= i128::MAX,
        ensures
            final(self).wf(),
            forall|qa: int, qh: int|
                #[trigger] final(self).bal(qa, qh) == old(self).bal(qa, qh)
                    + (if qa == asset as int && qh == to as int { amount as int } else { 0 }),
    {
        proof {
            lemma_bal_in_range(*self, asset as int, to as int);
        }
        let b = self.balance(asset, to);
        self.set_bal(asset, to, b + amount);
    }

    /// Move `amount` of `asset` from `from` to `to`. Returns whether the
    /// transfer went through; on failure nothing changes. Never partially
    /// applied.
    pub fn try_transfer(&mut self, asset: u32, from: u32, to: u32, amount: i128) -> (r: bool)
        requires
            old(self).wf(),
        ensures
            final(self).wf(),
            r == old(self).can_transfer(asset as int, from as int, to as int, amount as int),
            r ==> transfer_deltas(
                *old(self),
                *final(self),
                asset as int,
                from as int,
                to as int,
                amount as int,
            ),
            !r ==> *final(self) == *old(self),
    {
        if amount < 0 {
            return false;
        }
        let bf = self.balance(asset, from);
        if amount > bf {
            return false;
        }
        if from == to {
            return true;
        }
        let bt = self.balance(asset, to);
        if bt > i128::MAX - amount {
            return false;
        }
        proof {
            lemma_bal_in_range(*self, asset as int, to as int);
        }
        self.set_bal(asset, from, bf - amount);
        self.set_bal(asset, to, bt + amount);
        true
    }
}

/// Under well-formedness every balance is a representable, non-negative
/// amount.
pub proof fn lemma_bal_in_range(l: TokenLedger, asset: int, holder: int)
    requires
        l.wf(),
    ensures
        0 <= l.bal(asset, holder) <= i128::MAX,
{
    lemma_bal_of_range(l.entries@, asset, holder);
}

proof fn lemma_bal_of_range(s: Seq<Entry>, asset: int, holder: int)
    requires
        nonneg_amounts(s),
    ensures
        0 <= bal_of(s, asset, holder) <= i128::MAX,
    decreases s.len(),
{
    if s.len() > 0 && !key_match(s[0], asset, holder) {
        assert forall|i: int| 0 <= i < s.drop_first().len()
            implies #[trigger] s.drop_first()[i].amount >= 0 by {
            assert(s.drop_first()[i] == s[i + 1]);
        }
        lemma_bal_of_range(s.drop_first(), asset, holder);
    }
}

proof fn lemma_bal_of_absent(s: Seq<Entry>, asset: int, holder: int)
    requires
        forall|i: int| 0 <= i < s.len() ==> !key_match(#[trigger] s[i], asset, holder),
    ensures
        bal_of(s, asset, holder) == 0,
    decreases s.len(),
{
    if s.len() > 0 {
        assert forall|i: int| 0 <= i < s.drop_first().len()
            implies !key_match(#[trigger] s.drop_first()[i], asset, holder) by {
            assert(s.drop_first()[i] == s[i + 1]);
        }
        lemma_bal_of_absent(s.drop_first(), asset, holder);
    }
}

proof fn lemma_unique_drop_first(s: Seq<Entry>)
    requires
        unique_keys(s),
        s.len() > 0,
    ensures
        unique_keys(s.drop_first()),
{
    assert forall|i: int, j: int| 0 <= i < j < s.drop_first().len()
        implies !(#[trigger] s.drop_first()[i].asset == #[trigger] s.drop_first()[j].asset
            && s.drop_first()[i].holder == s.drop_first()[j].holder) by {
        assert(s.drop_first()[i] == s[i + 1]);
        assert(s.drop_first()[j] == s[j + 1]);
    }
}

proof fn lemma_bal_of_at(s: Seq<Entry>, asset: int, holder: int, i: int)
    requires
        unique_keys(s),
        0 <= i < s.len(),
        key_match(s[i], asset, holder),
    ensures
        bal_of(s, asset, holder) == s[i].amount,
    decreases s.len(),
{
    if i == 0 {
    } else {
        assert(!key_match(s[0], asset, holder));
        lemma_unique_drop_first(s);
        assert(s.drop_first()[i - 1] == s[i]);
        lemma_bal_of_at(s.drop_first(), asset, holder, i - 1);
    }
}

proof fn lemma_unique_update(s: Seq<Entry>, i: int, e: Entry)
    requires
        unique_keys(s),
        nonneg_amounts(s),
        0 <= i < s.len(),
        e.asset == s[i].asset,
        e.holder == s[i].holder,
        e.amount >= 0,
    ensures
        unique_keys(s.update(i, e)),
        nonneg_amounts(s.update(i, e)),
{
    let s2 = s.update(i, e);
    assert forall|p: int, q: int| 0 <= p < q < s2.len()
        implies !(#[trigger] s2[p].asset == #[trigger] s2[q].asset
            && s2[p].holder == s2[q].holder) by {
        assert(s[p].asset == s2[p].asset && s[p].holder == s2[p].holder);
        assert(s[q].asset == s2[q].asset && s[q].holder == s2[q].holder);
    }
    assert forall|p: int| 0 <= p < s2.len() implies #[trigger] s2[p].amount >= 0 by {
        if p != i {
            assert(s2[p] == s[p]);
        }
    }
}

proof fn lemma_bal_of_update(s: Seq<Entry>, i: int, e: Entry, asset: int, holder: int)
    requires
        unique_keys(s),
        0 <= i < s.len(),
        e.asset == s[i].asset,
        e.holder == s[i].holder,
    ensures
        bal_of(s.update(i, e), asset, holder) == (if key_match(s[i], asset, holder) {
            e.amount as int
        } else {
            bal_of(s, asset, holder)
        }),
    decreases s.len(),
{
    let s2 = s.update(i, e);
    if i == 0 {
        assert(s2[0] == e);
        if !key_match(s[0], asset, holder) {
            assert(s2.drop_first() =~= s.drop_first());
        }
    } else {
        assert(s2[0] == s[0]);
        if key_match(s[0], asset, holder) {
            assert(!key_match(s[i], asset, holder));
        } else {
            lemma_unique_drop_first(s);
            assert(s2.drop_first() =~= s.drop_first().update(i - 1, e));
            assert(s.drop_first()[i - 1] == s[i]);
            lemma_bal_of_update(s.drop_first(), i - 1, e, asset, holder);
        }
    }
}

proof fn lemma_bal_of_push(s: Seq<Entry>, e: Entry, asset: int, holder: int)
    requires
        unique_keys(s),
        nonneg_amounts(s),
        e.amount >= 0,
        forall|i: int| 0 <= i < s.len() ==> !key_match(#[trigger] s[i], e.asset as int, e.holder as int),
    ensures
        unique_keys(s.push(e)),
        nonneg_amounts(s.push(e)),
        bal_of(s.push(e), asset, holder) == (if key_match(e, asset, holder) {
            e.amount as int
        } else {
            bal_of(s, asset, holder)
        }),
    decreases s.len(),
{
    let s2 = s.push(e);
    assert forall|p: int, q: int| 0 <= p < q < s2.len()
        implies !(#[trigger] s2[p].asset == #[trigger] s2[q].asset
            && s2[p].holder == s2[q].holder) by {
        if q < s.len() {
            assert(s2[p] == s[p] && s2[q] == s[q]);
        } else {
            assert(s2[q] == e);
            assert(s2[p] == s[p]);
        }
    }
    assert forall|p: int| 0 <= p < s2.len() implies #[trigger] s2[p].amount >= 0 by {
        if p < s.len() {
            assert(s2[p] == s[p]);
        } else {
            assert(s2[p] == e);
        }
    }
    if s.len() == 0 {
        assert(s2[0] == e);
        if !key_match(e, asset, holder) {
            assert forall|i: int| 0 <= i < s2.drop_first().len()
                implies !key_match(#[trigger] s2.drop_first()[i], asset, holder) by {}
            lemma_bal_of_absent(s2.drop_first(), asset, holder);
        }
    } else {
        assert(s2[0] == s[0]);
        if key_match(s[0], asset, holder) {
            assert(!key_match(e, asset, holder));
        } else {
            lemma_unique_drop_first(s);
            assert forall|i: int| 0 <= i < s.drop_first().len()
                implies !key_match(
                #[trigger] s.drop_first()[i],
                e.asset as int,
                e.holder as int,
            ) by {
                assert(s.drop_first()[i] == s[i + 1]);
            }
            assert forall|i: int| 0 <= i < s.drop_first().len()
                implies #[trigger] s.drop_first()[i].amount >= 0 by {
                assert(s.drop_first()[i] == s[i + 1]);
            }
            assert(s2.drop_first() =~= s.drop_first().push(e));
            lemma_bal_of_push(s.drop_first(), e, asset, holder);
        }
    }
}

} // verus!
