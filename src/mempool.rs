//! The mempool: transactions observed but not yet committed, keyed by hash.

use std::collections::BTreeMap;
use vstd::prelude::*;
use crate::blockchain::{tx_hash_spec, Transaction};
use crate::crypto::CryptoHash;
use vstd::std_specs::cmp::OrdSpec;
use vstd::std_specs::iter::IteratorSpec;

verus! {

/// Transactions observed but not yet committed, keyed by the word of their hash.
#[derive(Debug)]
pub struct Mempool {
    txs: BTreeMap<u64, Transaction>,
}

/// The hashes of `keys`, in order.
pub open spec fn as_hashes(keys: Seq<u64>) -> Seq<CryptoHash> {
    keys.map_values(|k: u64| CryptoHash(k))
}

impl Mempool {
    /// The pending transactions, by the word of their hash.
    pub closed spec fn view(&self) -> Map<u64, Transaction> {
        self.txs@
    }

    /// Each transaction is filed under its own hash.
    pub open spec fn wf(&self) -> bool {
        forall|k: u64| #[trigger] self@.contains_key(k) ==> tx_hash_spec(self@[k]).0 == k
    }

    /// Whether a transaction with hash `h` is pending.
    pub open spec fn has(&self, h: CryptoHash) -> bool {
        self@.contains_key(h.0)
    }

    /// Creates an empty mempool.
    pub fn new() -> (r: Mempool)
        ensures
            r@ == Map::<u64, Transaction>::empty(),
            r.wf(),
    {
        Mempool { txs: BTreeMap::new() }
    }

    /// Number of pending transactions.
    pub fn len(&self) -> (r: usize)
        ensures
            r == self@.len(),
    {
        broadcast use vstd::std_specs::btree::group_btree_axioms, vstd::laws_cmp::group_laws_cmp;
        self.txs.len()
    }

    /// Whether a transaction with hash `h` is pending.
    pub fn contains_key(&self, h: &CryptoHash) -> (r: bool)
        ensures
            r == self.has(*h),
    {
        broadcast use vstd::std_specs::btree::group_btree_axioms, vstd::laws_cmp::group_laws_cmp;
        self.txs.contains_key(&h.0)
    }

    /// The pending transaction with hash `h`, if any.
    pub fn get(&self, h: &CryptoHash) -> (r: Option<Transaction>)
        ensures
            self.has(*h) ==> r == Some(self@[h.0]),
            !self.has(*h) ==> r is None,
    {
        broadcast use vstd::std_specs::btree::group_btree_axioms, vstd::laws_cmp::group_laws_cmp;
        match self.txs.get(&h.0) {
            Some(t) => Some(*t),
            None => None,
        }
    }

    /// Files a transaction under its hash.
    pub fn insert(&mut self, tx: Transaction)
        requires
            old(self).wf(),
        ensures
            final(self).wf(),
            final(self)@ == old(self)@.insert(tx_hash_spec(tx).0, tx),
    {
        let h = tx.hash();
        assert(vstd::laws_cmp::obeys_cmp::<u64>()) by {
            broadcast use vstd::laws_cmp::group_laws_cmp;
        }
        self.txs.insert(h.0, tx);
        assert forall|k: u64| #[trigger] self@.contains_key(k) implies tx_hash_spec(self@[k]).0 == k by {
            if k != h.0 {
                assert(old(self)@.contains_key(k));
            }
        }
    }

    /// Drops the transaction with hash `h`, if it is pending.
    pub fn remove(&mut self, h: &CryptoHash)
        requires
            old(self).wf(),
        ensures
            final(self).wf(),
            final(self)@ == old(self)@.remove(h.0),
    {
        assert(vstd::laws_cmp::obeys_cmp::<u64>()) by {
            broadcast use vstd::laws_cmp::group_laws_cmp;
        }
        broadcast use vstd::std_specs::btree::group_btree_axioms;
        self.txs.remove(&h.0);
        assert forall|k: u64| #[trigger] self@.contains_key(k) implies tx_hash_spec(self@[k]).0 == k by {
            assert(old(self)@.contains_key(k));
        }
    }

    /// Drops the transactions with the given hashes, those that are pending.
    pub fn remove_all(&mut self, hashes: &[CryptoHash])
        requires
            old(self).wf(),
        ensures
            final(self).wf(),
            forall|k: u64| #[trigger] final(self)@.contains_key(k) <==> (old(self)@.contains_key(k)
                && forall|j: int| 0 <= j < hashes@.len() ==> hashes@[j].0 != k),
    {
        let mut i: usize = 0;
        while i < hashes.len()
            invariant
                i <= hashes@.len(),
                self.wf(),
                forall|k: u64| #[trigger] self@.contains_key(k) <==> (old(self)@.contains_key(k)
                    && forall|j: int| 0 <= j < i ==> hashes@[j].0 != k),
            decreases hashes@.len() - i,
        {
            self.remove(&hashes[i]);
            i = i + 1;
        }
    }

    /// The hashes of the pending transactions, in increasing order.
    pub fn keys(&self) -> (r: Vec<CryptoHash>)
        ensures
            r@.len() == self@.len(),
            forall|h: CryptoHash| #[trigger] r@.contains(h) <==> self.has(h),
            forall|i: int, j: int| 0 <= i < j < r@.len() ==> r@[i].0 < r@[j].0,
    {
        broadcast use vstd::std_specs::btree::group_btree_axioms, vstd::laws_cmp::group_laws_cmp;
        let keys = self.txs.keys();
        let mut out: Vec<CryptoHash> = Vec::new();
        for k in it: keys
            invariant
                out@ == as_hashes(it.seq().subrange(0, it.index() as int).map_values(|x: &u64| *x)),
                it.seq() == vstd::std_specs::btree::spec_keys_iter(&self.txs).remaining(),
        {
            out.push(CryptoHash(*k));
        }
        let ghost rem = vstd::std_specs::btree::spec_keys_iter(&self.txs).remaining();
        assert(out@ =~= as_hashes(rem.unref()));
        assert(vstd::std_specs::btree::increasing_seq(rem));
        proof {
            assert(vstd::laws_cmp::obeys_cmp::<u64>());
            assert(vstd::laws_cmp::obeys_cmp::<&u64>());
            vstd::std_specs::btree::axiom_increasing_seq_meaning(rem);
        }
        assert forall|i: int, j: int| 0 <= i < j < out@.len() implies out@[i].0 < out@[j].0 by {
            assert(<&u64 as OrdSpec>::cmp_spec(&rem[i], &rem[j]) is Less);
            assert(out@[i].0 == *rem[i] && out@[j].0 == *rem[j]);
        }
        assert(rem.unref().to_set() == self@.dom());
        assert forall|h: CryptoHash| #[trigger] out@.contains(h) <==> self.has(h) by {
            if self.has(h) {
                assert(rem.unref().to_set().contains(h.0));
                let i = choose|i: int| 0 <= i < rem.unref().len() && rem.unref()[i] == h.0;
                assert(out@[i] == h);
            }
            if out@.contains(h) {
                let i = choose|i: int| 0 <= i < out@.len() && out@[i] == h;
                assert(rem.unref()[i] == h.0);
                assert(rem.unref().to_set().contains(h.0));
            }
        }
        assert(rem.unref().len() == self@.dom().len());
        out
    }
}

} // verus!
