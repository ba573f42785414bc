//! The emulated network: an ordered list of validators and the node under test.

use vstd::prelude::*;
use crate::config::{ConsensusConfig, GenesisConfig, keys_of};
use crate::crypto::PublicKey;
use crate::crypto::CryptoHash;
use crate::node::{propose_hash_spec, Precommit, Propose, TestNode, ValidatorKeys};
use crate::types::ValidatorId;

verus! {

/// Largest number of validators: their indices are `u16`.
pub open spec fn max_validators() -> nat {
    u16::MAX as nat + 1
}

/// The index of the last node of `vs` whose consensus key is `key`, if any.
pub open spec fn role_in(key: PublicKey, vs: Seq<TestNode>) -> Option<ValidatorId>
    decreases vs.len(),
{
    if vs.len() == 0 {
        None
    } else if vs.last().consensus_pk() == key {
        Some(ValidatorId((vs.len() - 1) as u16))
    } else {
        role_in(key, vs.drop_last())
    }
}

/// `out` is `vs` with each node's index set to its position.
pub open spec fn reindexed(vs: Seq<TestNode>, out: Seq<TestNode>) -> bool {
    &&& out.len() == vs.len()
    &&& forall|i: int| 0 <= i < vs.len() ==> #[trigger] out[i].with_role(vs[i], Some(ValidatorId(i as u16)))
}

/// Each node of `vs` holds its own position as index.
pub open spec fn indexed_by_position(vs: Seq<TestNode>) -> bool {
    forall|i: int| 0 <= i < vs.len() ==> #[trigger] vs[i].role() == Some(ValidatorId(i as u16))
}

/// No two nodes of `vs` share a consensus key.
pub open spec fn distinct_consensus_keys(vs: Seq<TestNode>) -> bool {
    forall|i: int, j: int|
        0 <= i < vs.len() && 0 <= j < vs.len() && i != j ==> #[trigger] vs[i].consensus_pk()
            != #[trigger] vs[j].consensus_pk()
}

/// The index that `role_in` finds is that of the one node with the key, if there is one.
pub proof fn lemma_role_in(key: PublicKey, vs: Seq<TestNode>)
    requires
        vs.len() <= max_validators(),
        distinct_consensus_keys(vs),
    ensures
        role_in(key, vs) matches Some(v) ==> (v.0 as int) < vs.len(),
        forall|i: int|
            0 <= i < vs.len() ==> (role_in(key, vs) == Some(ValidatorId(i as u16)) <==> (
            #[trigger] vs[i]).consensus_pk() == key),
    decreases vs.len(),
{
    if vs.len() > 0 {
        let prefix = vs.drop_last();
        assert(distinct_consensus_keys(prefix)) by {
            assert forall|i: int, j: int|
                0 <= i < prefix.len() && 0 <= j < prefix.len() && i != j implies #[trigger] prefix[i].consensus_pk()
                    != #[trigger] prefix[j].consensus_pk() by {
                assert(prefix[i] == vs[i] && prefix[j] == vs[j]);
            }
        }
        lemma_role_in(key, prefix);
        assert forall|i: int|
            0 <= i < vs.len() implies (role_in(key, vs) == Some(ValidatorId(i as u16)) <==> (
            #[trigger] vs[i]).consensus_pk() == key) by {
            if i < vs.len() - 1 {
                assert(prefix[i] == vs[i]);
                assert(vs[i].consensus_pk() != vs[vs.len() - 1].consensus_pk());
            }
        }
    }
}

/// A list indexed anew by position is indexed by position.
pub proof fn lemma_reindexed_indexed(vs: Seq<TestNode>, out: Seq<TestNode>)
    requires
        reindexed(vs, out),
    ensures
        indexed_by_position(out),
        out.len() == vs.len(),
{
    assert forall|i: int| 0 <= i < out.len() implies #[trigger] out[i].role() == Some(ValidatorId(i as u16)) by {
        assert(out[i].with_role(vs[i], Some(ValidatorId(i as u16))));
    }
}

/// `p` is the vote of validator `v` for `propose` and the block with hash `block_hash`.
pub open spec fn voted(p: Precommit, v: ValidatorId, propose: Propose, block_hash: CryptoHash) -> bool {
    &&& p.validator == v
    &&& p.height == propose.height
    &&& p.round == propose.round
    &&& p.propose_hash == propose_hash_spec(propose)
    &&& p.block_hash == block_hash
}

/// Copies a list of nodes.
pub fn copy_nodes(src: &[TestNode]) -> (r: Vec<TestNode>)
    ensures
        r@ == src@,
{
    let mut out: Vec<TestNode> = Vec::new();
    let mut i: usize = 0;
    while i < src.len()
        invariant
            i <= src@.len(),
            out@ == src@.subrange(0, i as int),
        decreases src@.len() - i,
    {
        out.push(src[i]);
        i = i + 1;
        assert(out@ =~= src@.subrange(0, i as int));
    }
    assert(out@ =~= src@);
    out
}

/// Emulated test network.
pub struct TestNetwork {
    us: TestNode,
    validators: Vec<TestNode>,
}

impl TestNetwork {
    /// The node from whose perspective the harness operates.
    pub closed spec fn us_spec(&self) -> TestNode {
        self.us
    }

    /// The validators, in order.
    pub closed spec fn validators_spec(&self) -> Seq<TestNode> {
        self.validators@
    }

    /// At least one validator, no more than indices can count, each indexed by position.
    pub open spec fn wf(&self) -> bool {
        &&& 1 <= self.validators_spec().len() <= max_validators()
        &&& indexed_by_position(self.validators_spec())
    }

    /// Assembles a network from its parts as they are.
    pub fn from_parts(us: TestNode, validators: Vec<TestNode>) -> (r: Self)
        ensures
            r.us_spec() == us,
            r.validators_spec() == validators@,
    {
        TestNetwork { us, validators }
    }

    /// Creates a new emulated network of `validator_count` fresh validators; the node under
    /// test is the first of them.
    pub fn new(validator_count: u16) -> (r: Self)
        requires
            validator_count >= 1,
        ensures
            r.wf(),
            r.validators_spec().len() == validator_count,
            r.us_spec() == r.validators_spec()[0],
    {
        let mut validators: Vec<TestNode> = Vec::new();
        let mut i: u16 = 0;
        while i < validator_count
            invariant
                i <= validator_count,
                validators@.len() == i,
                indexed_by_position(validators@),
            decreases validator_count - i,
        {
            validators.push(TestNode::new_validator(ValidatorId(i)));
            i = i + 1;
        }
        let us = validators[0];
        TestNetwork { us, validators }
    }

    /// Returns the node in the emulated network, from whose perspective the harness operates.
    pub fn us(&self) -> (r: &TestNode)
        ensures
            *r == self.us_spec(),
    {
        &self.us
    }

    /// Returns all validators in the network.
    pub fn validators(&self) -> (r: &[TestNode])
        ensures
            r@ == self.validators_spec(),
    {
        self.validators.as_slice()
    }

    /// Returns the config that describes the network, for the genesis block.
    pub fn genesis_config(&self) -> (r: GenesisConfig)
        ensures
            r.validator_keys@ == keys_of(self.validators_spec()),
            r.consensus == ConsensusConfig::default_spec(),
    {
        let mut keys: Vec<ValidatorKeys> = Vec::new();
        let mut i: usize = 0;
        while i < self.validators.len()
            invariant
                i <= self.validators@.len(),
                keys@ == keys_of(self.validators@.subrange(0, i as int)),
            decreases self.validators@.len() - i,
        {
            keys.push(self.validators[i].public_keys());
            i = i + 1;
            assert(keys@ =~= keys_of(self.validators@.subrange(0, i as int)));
        }
        assert(self.validators@.subrange(0, i as int) =~= self.validators@);
        GenesisConfig { consensus: ConsensusConfig::default_config(), validator_keys: keys }
    }

    /// Updates the network by a new set of nodes: each validator gets its position as index,
    /// and the node under test gets the index of the validator with its consensus key, or none.
    pub fn update(&mut self, us: TestNode, validators: Vec<TestNode>)
        requires
            validators@.len() <= max_validators(),
        ensures
            reindexed(validators@, final(self).validators_spec()),
            final(self).us_spec().with_role(us, role_in(us.consensus_pk(), validators@)),
    {
        let key = us.consensus_public_key();
        let mut out: Vec<TestNode> = Vec::new();
        let mut role: Option<ValidatorId> = None;
        let mut i: usize = 0;
        while i < validators.len()
            invariant
                i <= validators@.len() <= max_validators(),
                key == us.consensus_pk(),
                reindexed(validators@.subrange(0, i as int), out@),
                role == role_in(key, validators@.subrange(0, i as int)),
            decreases validators@.len() - i,
        {
            let mut node = validators[i];
            node.change_role(Some(ValidatorId(i as u16)));
            if node.consensus_public_key() == key {
                role = Some(ValidatorId(i as u16));
            }
            out.push(node);
            i = i + 1;
            assert(validators@.subrange(0, i as int).drop_last() =~= validators@.subrange(
                0,
                i as int - 1,
            ));
        }
        assert(validators@.subrange(0, i as int) =~= validators@);
        let mut us = us;
        us.change_role(role);
        self.validators = out;
        self.us = us;
    }

    /// A vote of every validator, in order, for the given propose and block.
    pub fn create_precommits(&self, propose: &Propose, block_hash: &CryptoHash) -> (r: Vec<Precommit>)
        requires
            self.wf(),
        ensures
            r@.len() == self.validators_spec().len(),
            forall|i: int| 0 <= i < r@.len() ==> voted(#[trigger] r@[i], ValidatorId(i as u16), *propose, *block_hash),
    {
        let mut precommits: Vec<Precommit> = Vec::new();
        let mut v: usize = 0;
        while v < self.validators.len()
            invariant
                v <= self.validators@.len(),
                self.wf(),
                precommits@.len() == v,
                forall|i: int| 0 <= i < v ==> voted(#[trigger] precommits@[i], ValidatorId(i as u16), *propose, *block_hash),
            decreases self.validators@.len() - v,
        {
            assert(self.validators@[v as int].role() == Some(ValidatorId(v as u16)));
            precommits.push(self.validators[v].create_precommit(propose, block_hash));
            v = v + 1;
        }
        precommits
    }

    /// Returns service public key of the validator with given id.
    pub fn service_public_key_of(&self, id: ValidatorId) -> (r: Option<PublicKey>)
        ensures
            (id.0 as int) < self.validators_spec().len() ==> r == Some(
                self.validators_spec()[id.0 as int].service_pk(),
            ),
            (id.0 as int) >= self.validators_spec().len() ==> r is None,
    {
        if (id.0 as usize) < self.validators.len() {
            Some(self.validators[id.0 as usize].public_keys().service_key)
        } else {
            None
        }
    }

    /// Returns consensus public key of the validator with given id.
    pub fn consensus_public_key_of(&self, id: ValidatorId) -> (r: Option<PublicKey>)
        ensures
            (id.0 as int) < self.validators_spec().len() ==> r == Some(
                self.validators_spec()[id.0 as int].consensus_pk(),
            ),
            (id.0 as int) >= self.validators_spec().len() ==> r is None,
    {
        if (id.0 as usize) < self.validators.len() {
            Some(self.validators[id.0 as usize].consensus_public_key())
        } else {
            None
        }
    }
}

/// After an update, every validator holds its position as index, and the node under test
/// holds index `i` exactly when validator `i` has its consensus key (where no two of the
/// new validators share a consensus key).
pub proof fn lemma_update_keeps_roles_coherent(us: TestNode, validators: Seq<TestNode>, after: TestNetwork)
    requires
        validators.len() <= max_validators(),
        distinct_consensus_keys(validators),
        reindexed(validators, after.validators_spec()),
        after.us_spec().with_role(us, role_in(us.consensus_pk(), validators)),
    ensures
        indexed_by_position(after.validators_spec()),
        forall|i: int|
            0 <= i < after.validators_spec().len() ==> (after.us_spec().role() == Some(
                ValidatorId(i as u16),
            ) <==> (#[trigger] after.validators_spec()[i]).consensus_pk()
                == after.us_spec().consensus_pk()),
{
    lemma_role_in(us.consensus_pk(), validators);
    let out = after.validators_spec();
    assert forall|i: int| 0 <= i < out.len() implies #[trigger] out[i].role() == Some(ValidatorId(i as u16)) by {
        assert(out[i].with_role(validators[i], Some(ValidatorId(i as u16))));
    }
    assert forall|i: int| 0 <= i < out.len() implies (after.us_spec().role() == Some(
        ValidatorId(i as u16),
    ) <==> (#[trigger] out[i]).consensus_pk() == after.us_spec().consensus_pk()) by {
        assert(out[i].with_role(validators[i], Some(ValidatorId(i as u16))));
        assert(validators[i].consensus_pk() == out[i].consensus_pk());
    }
}

} // verus!
