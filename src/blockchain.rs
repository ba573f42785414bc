//! The in-memory chain the harness drives: committed blocks, the set of committed
//! transactions, the state those transactions wrote, and the stored configurations.

use vstd::prelude::*;
use crate::config::{GenesisConfig, ServiceConfig, StoredConfiguration};
use crate::crypto::{digest, digest_spec, CryptoHash};
use crate::node::{copy_hashes, Precommit};
use crate::types::{Height, ValidatorId};

verus! {

/// A transaction: it writes `value` under `key` in the chain's state.
#[derive(Debug, Copy, Clone, PartialEq, Eq, Structural)]
pub struct Transaction {
    /// Key written.
    pub key: u64,
    /// Value written.
    pub value: u64,
}

/// The hash of a transaction.
pub open spec fn tx_hash_spec(t: Transaction) -> CryptoHash {
    CryptoHash(digest_spec(seq![t.key, t.value]))
}

impl Transaction {
    /// Hash of the transaction, by which the mempool and the chain know it.
    pub fn hash(&self) -> (r: CryptoHash)
        ensures
            r == tx_hash_spec(*self),
    {
        let words: Vec<u64> = vec![self.key, self.value];
        digest(&words)
    }
}

/// One write to the chain's state.
#[derive(Debug, Copy, Clone, PartialEq, Eq, Structural)]
pub struct Write {
    /// Key written.
    pub key: u64,
    /// Value written.
    pub value: u64,
}

/// The value of the last write to `key` in `writes`, if any.
pub open spec fn value_at(writes: Seq<Write>, key: u64) -> Option<u64>
    decreases writes.len(),
{
    if writes.len() == 0 {
        None
    } else if writes.last().key == key {
        Some(writes.last().value)
    } else {
        value_at(writes.drop_last(), key)
    }
}

/// The writes that executing `txs` in order makes.
pub open spec fn writes_of(txs: Seq<Transaction>) -> Seq<Write> {
    txs.map_values(|t: Transaction| Write { key: t.key, value: t.value })
}

/// The words a block's hash covers.
pub open spec fn block_words(
    proposer: ValidatorId,
    height: Height,
    prev_hash: CryptoHash,
    tx_hashes: Seq<CryptoHash>,
) -> Seq<u64> {
    seq![proposer.0 as u64, height.0, prev_hash.0] + tx_hashes.map_values(|h: CryptoHash| h.0)
}

/// The hash of a block.
pub open spec fn block_hash_spec(
    proposer: ValidatorId,
    height: Height,
    prev_hash: CryptoHash,
    tx_hashes: Seq<CryptoHash>,
) -> CryptoHash {
    CryptoHash(digest_spec(block_words(proposer, height, prev_hash, tx_hashes)))
}

/// Hashes a block.
pub fn block_hash(
    proposer: ValidatorId,
    height: Height,
    prev_hash: CryptoHash,
    tx_hashes: &[CryptoHash],
) -> (r: CryptoHash)
    ensures
        r == block_hash_spec(proposer, height, prev_hash, tx_hashes@),
{
    let mut words: Vec<u64> = vec![proposer.0 as u64, height.0, prev_hash.0];
    let ghost head = words@;
    let mut i: usize = 0;
    while i < tx_hashes.len()
        invariant
            i <= tx_hashes@.len(),
            head == seq![proposer.0 as u64, height.0, prev_hash.0],
            words@ == head + tx_hashes@.subrange(0, i as int).map_values(|h: CryptoHash| h.0),
        decreases tx_hashes@.len() - i,
    {
        words.push(tx_hashes[i].0);
        i = i + 1;
        assert(words@ =~= head + tx_hashes@.subrange(0, i as int).map_values(|h: CryptoHash| h.0));
    }
    assert(tx_hashes@.subrange(0, i as int) =~= tx_hashes@);
    assert(words@ =~= block_words(proposer, height, prev_hash, tx_hashes@));
    digest(&words)
}

/// The changes one block makes: the transactions it commits and what they write.
#[derive(Debug)]
pub struct Patch {
    /// Height of the block.
    pub height: Height,
    /// Hash of the block.
    pub block_hash: CryptoHash,
    /// Transactions of the block, in order.
    pub tx_hashes: Vec<CryptoHash>,
    /// What the transactions write, in order.
    pub writes: Vec<Write>,
}

/// A read-only view of the chain at one moment.
#[derive(Debug)]
pub struct Snapshot {
    /// Height of the next block, one more than the last committed one.
    pub height: Height,
    /// Hash of the last committed block.
    pub last_hash: CryptoHash,
    /// Hashes of the committed transactions, in order of commit.
    pub committed: Vec<CryptoHash>,
    /// Every write made so far, in order.
    pub writes: Vec<Write>,
}

/// `s` after `p` is merged into `old`.
pub open spec fn merged(old: Snapshot, p: Patch, s: Snapshot) -> bool {
    &&& s.height.0 == old.height.0 + 1
    &&& s.last_hash == p.block_hash
    &&& s.committed@ == old.committed@ + p.tx_hashes@
    &&& s.writes@ == old.writes@ + p.writes@
}

impl Snapshot {
    /// `self` and `o` are the same view of the chain.
    pub open spec fn same_as(&self, o: Snapshot) -> bool {
        &&& self.height == o.height
        &&& self.last_hash == o.last_hash
        &&& self.committed@ == o.committed@
        &&& self.writes@ == o.writes@
    }

    /// Returns a copy of the snapshot.
    pub fn copy(&self) -> (r: Snapshot)
        ensures
            r.same_as(*self),
    {
        let mut writes: Vec<Write> = Vec::new();
        let mut i: usize = 0;
        while i < self.writes.len()
            invariant
                i <= self.writes@.len(),
                writes@ == self.writes@.subrange(0, i as int),
            decreases self.writes@.len() - i,
        {
            writes.push(self.writes[i]);
            i = i + 1;
            assert(writes@ =~= self.writes@.subrange(0, i as int));
        }
        assert(writes@ =~= self.writes@);
        Snapshot {
            height: self.height,
            last_hash: self.last_hash,
            committed: copy_hashes(self.committed.as_slice()),
            writes,
        }
    }

    /// Whether the transaction with hash `h` is committed.
    pub fn contains_transaction(&self, h: &CryptoHash) -> (r: bool)
        ensures
            r == self.committed@.contains(*h),
    {
        let mut i: usize = 0;
        while i < self.committed.len()
            invariant
                i <= self.committed@.len(),
                forall|k: int| 0 <= k < i ==> self.committed@[k] != *h,
            decreases self.committed@.len() - i,
        {
            if self.committed[i] == *h {
                return true;
            }
            i = i + 1;
        }
        false
    }

    /// The value last written under `key`, if any.
    pub fn get(&self, key: u64) -> (r: Option<u64>)
        ensures
            r == value_at(self.writes@, key),
    {
        let mut i: usize = self.writes.len();
        assert(self.writes@.subrange(0, i as int) =~= self.writes@);
        while i > 0
            invariant
                i <= self.writes@.len(),
                value_at(self.writes@, key) == value_at(self.writes@.subrange(0, i as int), key),
            decreases i,
        {
            assert(self.writes@.subrange(0, i as int).drop_last() =~= self.writes@.subrange(
                0,
                i as int - 1,
            ));
            if self.writes[i - 1].key == key {
                return Some(self.writes[i - 1].value);
            }
            i = i - 1;
        }
        None
    }

    /// Merges a patch: the block it describes becomes the last one.
    pub fn merge(&mut self, patch: &Patch)
        requires
            old(self).height.0 < u64::MAX,
        ensures
            merged(*old(self), *patch, *final(self)),
    {
        let mut i: usize = 0;
        let ghost start = self.committed@;
        while i < patch.tx_hashes.len()
            invariant
                i <= patch.tx_hashes@.len(),
                self.committed@ == start + patch.tx_hashes@.subrange(0, i as int),
                self.height == old(self).height,
                self.writes@ == old(self).writes@,
                start == old(self).committed@,
            decreases patch.tx_hashes@.len() - i,
        {
            self.committed.push(patch.tx_hashes[i]);
            i = i + 1;
            assert(self.committed@ =~= start + patch.tx_hashes@.subrange(0, i as int));
        }
        assert(patch.tx_hashes@.subrange(0, i as int) =~= patch.tx_hashes@);
        let mut j: usize = 0;
        let ghost wstart = self.writes@;
        while j < patch.writes.len()
            invariant
                j <= patch.writes@.len(),
                self.writes@ == wstart + patch.writes@.subrange(0, j as int),
                self.height == old(self).height,
                self.committed@ == old(self).committed@ + patch.tx_hashes@,
                wstart == old(self).writes@,
            decreases patch.writes@.len() - j,
        {
            self.writes.push(patch.writes[j]);
            j = j + 1;
            assert(self.writes@ =~= wstart + patch.writes@.subrange(0, j as int));
        }
        assert(patch.writes@.subrange(0, j as int) =~= patch.writes@);
        self.height = Height(self.height.0 + 1);
        self.last_hash = patch.block_hash;
    }
}

/// The index of the live configuration among `cfgs` at height `h`: the last one whose
/// `actual_from` is not above `h`, the first one if none after it qualifies.
pub open spec fn actual_index(cfgs: Seq<StoredConfiguration>, h: u64) -> int
    decreases cfgs.len(),
{
    if cfgs.len() <= 1 {
        0
    } else if cfgs.last().actual_from.0 <= h {
        cfgs.len() - 1
    } else {
        actual_index(cfgs.drop_last(), h)
    }
}

proof fn lemma_actual_index_bound(cfgs: Seq<StoredConfiguration>, h: u64)
    requires
        cfgs.len() >= 1,
    ensures
        0 <= actual_index(cfgs, h) < cfgs.len(),
    decreases cfgs.len(),
{
    if cfgs.len() > 1 {
        lemma_actual_index_bound(cfgs.drop_last(), h);
    }
}

/// A committed block.
#[derive(Debug)]
pub struct Block {
    /// Validator that proposed it.
    pub proposer: ValidatorId,
    /// Its height.
    pub height: Height,
    /// Hash of the block before it.
    pub prev_hash: CryptoHash,
    /// Its transactions, in order.
    pub tx_hashes: Vec<CryptoHash>,
    /// Its hash.
    pub hash: CryptoHash,
    /// The votes that committed it.
    pub precommits: Vec<Precommit>,
}

/// The chain: its current state, its blocks and its stored configurations.
#[derive(Debug)]
pub struct Blockchain {
    head: Snapshot,
    blocks: Vec<Block>,
    configs: Vec<StoredConfiguration>,
}

impl Blockchain {
    /// The current state.
    pub closed spec fn head_spec(&self) -> Snapshot {
        self.head
    }

    /// The committed blocks, genesis first.
    pub closed spec fn blocks_spec(&self) -> Seq<Block> {
        self.blocks@
    }

    /// The stored configurations, in order of commit.
    pub closed spec fn configs_spec(&self) -> Seq<StoredConfiguration> {
        self.configs@
    }

    /// At least one configuration is stored, and the height counts the blocks.
    pub closed spec fn wf(&self) -> bool {
        &&& self.configs@.len() >= 1
        &&& self.head.height.0 == self.blocks@.len()
    }

    /// Creates a chain with only its genesis block, at height zero; the genesis
    /// configuration is the first stored one.
    pub fn new(genesis: &GenesisConfig, services: Vec<ServiceConfig>) -> (r: Blockchain)
        ensures
            r.wf(),
            r.head_spec().height == Height(1),
            r.head_spec().committed@.len() == 0,
            r.head_spec().writes@.len() == 0,
            r.configs_spec().len() == 1,
            r.configs_spec()[0].validator_keys@ == genesis.validator_keys@,
            r.configs_spec()[0].consensus == genesis.consensus,
            r.configs_spec()[0].actual_from == Height(0),
            r.configs_spec()[0].services@ == services@,
            r.blocks_spec().len() == 1,
    {
        let empty: Vec<CryptoHash> = Vec::new();
        let hash = block_hash(ValidatorId(0), Height(0), CryptoHash(0), empty.as_slice());
        let genesis_block = Block {
            proposer: ValidatorId(0),
            height: Height(0),
            prev_hash: CryptoHash(0),
            tx_hashes: empty,
            hash,
            precommits: Vec::new(),
        };
        let mut blocks: Vec<Block> = Vec::new();
        blocks.push(genesis_block);
        let mut configs: Vec<StoredConfiguration> = Vec::new();
        configs.push(StoredConfiguration::from_genesis(genesis, services));
        Blockchain {
            head: Snapshot {
                height: Height(1),
                last_hash: hash,
                committed: Vec::new(),
                writes: Vec::new(),
            },
            blocks,
            configs,
        }
    }

    /// Returns a snapshot of the current state.
    pub fn snapshot(&self) -> (r: Snapshot)
        ensures
            r.same_as(self.head_spec()),
    {
        self.head.copy()
    }

    /// Returns the current height: that of the next block.
    pub fn current_height(&self) -> (r: Height)
        ensures
            r == self.head_spec().height,
    {
        self.head.height
    }

    /// Returns the hash of the last committed block.
    pub fn last_hash(&self) -> (r: CryptoHash)
        ensures
            r == self.head_spec().last_hash,
    {
        self.head.last_hash
    }

    /// Whether the transaction with hash `h` is committed.
    pub fn contains_transaction(&self, h: &CryptoHash) -> (r: bool)
        ensures
            r == self.head_spec().committed@.contains(*h),
    {
        self.head.contains_transaction(h)
    }

    /// The configuration that is live: the last stored one whose `actual_from` is not
    /// above the current height.
    pub fn actual_configuration(&self) -> (r: StoredConfiguration)
        requires
            self.wf(),
        ensures
            r.same_as(
                self.configs_spec()[actual_index(self.configs_spec(), self.head_spec().height.0)],
            ),
    {
        let height = self.head.height;
        let mut best: usize = 0;
        let mut i: usize = 1;
        while i < self.configs.len()
            invariant
                1 <= i <= self.configs@.len(),
                height == self.head.height,
                best as int == actual_index(self.configs@.subrange(0, i as int), height.0),
            decreases self.configs@.len() - i,
        {
            if self.configs[i].actual_from.0 <= height.0 {
                best = i;
            }
            i = i + 1;
            assert(self.configs@.subrange(0, i as int).drop_last() =~= self.configs@.subrange(
                0,
                i as int - 1,
            ));
        }
        assert(self.configs@.subrange(0, i as int) =~= self.configs@);
        proof {
            lemma_actual_index_bound(self.configs@, height.0);
        }
        let r = self.configs[best].copy();
        assert(r.same_as(self.configs@[best as int]));
        r
    }

    /// Stores a configuration; it becomes live at its `actual_from` height.
    pub fn commit_configuration(&mut self, cfg: StoredConfiguration)
        requires
            old(self).wf(),
        ensures
            final(self).wf(),
            final(self).configs_spec() == old(self).configs_spec().push(cfg),
            final(self).head_spec() == old(self).head_spec(),
            final(self).blocks_spec() == old(self).blocks_spec(),
    {
        self.configs.push(cfg);
    }

    /// Builds the patch of a block of the given transactions on top of the current state.
    pub fn create_patch(
        &self,
        proposer: ValidatorId,
        height: Height,
        tx_hashes: &[CryptoHash],
        txs: &Vec<Transaction>,
    ) -> (r: Patch)
        requires
            txs@.len() == tx_hashes@.len(),
        ensures
            r.height == height,
            r.block_hash == block_hash_spec(proposer, height, self.head_spec().last_hash, tx_hashes@),
            r.tx_hashes@ == tx_hashes@,
            r.writes@ == writes_of(txs@),
    {
        let hash = block_hash(proposer, height, self.head.last_hash, tx_hashes);
        let mut writes: Vec<Write> = Vec::new();
        let mut i: usize = 0;
        while i < txs.len()
            invariant
                i <= txs@.len(),
                writes@ == writes_of(txs@.subrange(0, i as int)),
            decreases txs@.len() - i,
        {
            writes.push(Write { key: txs[i].key, value: txs[i].value });
            i = i + 1;
            assert(writes@ =~= writes_of(txs@.subrange(0, i as int)));
        }
        assert(txs@.subrange(0, i as int) =~= txs@);
        Patch { height, block_hash: hash, tx_hashes: copy_hashes(tx_hashes), writes }
    }

    /// Commits a block: its patch is merged and the block is recorded with its votes.
    pub fn commit(&mut self, patch: Patch, prev_hash: CryptoHash, proposer: ValidatorId, precommits: Vec<Precommit>)
        requires
            old(self).wf(),
            old(self).head_spec().height.0 < u64::MAX,
        ensures
            final(self).wf(),
            merged(old(self).head_spec(), patch, final(self).head_spec()),
            final(self).configs_spec() == old(self).configs_spec(),
            final(self).blocks_spec().len() == old(self).blocks_spec().len() + 1,
            final(self).blocks_spec().drop_last() == old(self).blocks_spec(),
            final(self).blocks_spec().last().proposer == proposer,
            final(self).blocks_spec().last().height == patch.height,
            final(self).blocks_spec().last().prev_hash == prev_hash,
            final(self).blocks_spec().last().tx_hashes@ == patch.tx_hashes@,
            final(self).blocks_spec().last().hash == patch.block_hash,
            final(self).blocks_spec().last().precommits@ == precommits@,
    {
        self.head.merge(&patch);
        let block = Block {
            proposer,
            height: patch.height,
            prev_hash,
            tx_hashes: patch.tx_hashes,
            hash: patch.block_hash,
            precommits,
        };
        self.blocks.push(block);
        assert(self.blocks@.drop_last() =~= old(self).blocks@);
    }
}

} // verus!
