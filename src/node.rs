//! Emulated nodes and the consensus messages they sign.

use vstd::prelude::*;
use crate::crypto::{digest, digest_spec, gen_keypair, sign, sign_spec, CryptoHash, PublicKey, SecretKey};
use crate::types::{Height, Round, ValidatorId};

verus! {

/// Relies on std's `SystemTime` as an opaque value: the harness stores it, never reads it.
#[verifier::external_type_specification]
#[verifier::external_body]
pub struct ExSystemTime(std::time::SystemTime);

/// Relies on std's `SystemTime::now`: the host clock, read at the moment of the call.
/// Nothing is promised of the value.
pub assume_specification[ std::time::SystemTime::now ]() -> std::time::SystemTime;

/// Public keys of a node, as the genesis block and stored configurations list them.
#[derive(Debug, Copy, Clone, PartialEq, Eq, Structural)]
pub struct ValidatorKeys {
    /// Key that signs consensus messages.
    pub consensus_key: PublicKey,
    /// Key that signs service transactions.
    pub service_key: PublicKey,
}

/// An emulated node in the test network.
#[derive(Debug, Copy, Clone, PartialEq, Eq, Structural)]
pub struct TestNode {
    consensus_secret_key: SecretKey,
    consensus_public_key: PublicKey,
    service_secret_key: SecretKey,
    service_public_key: PublicKey,
    validator_id: Option<ValidatorId>,
}

/// A proposal of the next block, signed by the leader.
#[derive(Debug, Clone)]
pub struct Propose {
    /// Validator that proposes.
    pub validator: ValidatorId,
    /// Height of the proposed block.
    pub height: Height,
    /// Consensus round.
    pub round: Round,
    /// CryptoHash of the block the proposed one follows.
    pub prev_hash: CryptoHash,
    /// Transactions of the proposed block, in order.
    pub tx_hashes: Vec<CryptoHash>,
    /// Signature by the proposer's consensus key.
    pub signature: CryptoHash,
}

/// A vote of one validator for a proposed block.
#[derive(Debug)]
pub struct Precommit {
    /// Validator that votes.
    pub validator: ValidatorId,
    /// Height of the block.
    pub height: Height,
    /// Consensus round.
    pub round: Round,
    /// CryptoHash of the propose voted for.
    pub propose_hash: CryptoHash,
    /// CryptoHash of the block voted for.
    pub block_hash: CryptoHash,
    /// Wall time of the vote.
    pub time: std::time::SystemTime,
    /// Signature by the voter's consensus key.
    pub signature: CryptoHash,
}

/// The words a propose's hash covers, signature excluded.
pub open spec fn propose_words(
    validator: ValidatorId,
    height: Height,
    round: Round,
    prev_hash: CryptoHash,
    tx_hashes: Seq<CryptoHash>,
) -> Seq<u64> {
    seq![validator.0 as u64, height.0, round.0 as u64, prev_hash.0] + tx_hashes.map_values(
        |h: CryptoHash| h.0,
    )
}

/// The hash of a propose.
pub open spec fn propose_hash_spec(p: Propose) -> CryptoHash {
    CryptoHash(digest_spec(propose_words(p.validator, p.height, p.round, p.prev_hash, p.tx_hashes@)))
}

/// The hash of a precommit, signature and time excluded.
pub open spec fn precommit_hash_spec(
    validator: ValidatorId,
    height: Height,
    round: Round,
    propose_hash: CryptoHash,
    block_hash: CryptoHash,
) -> CryptoHash {
    CryptoHash(
        digest_spec(
            seq![validator.0 as u64, height.0, round.0 as u64, propose_hash.0, block_hash.0],
        ),
    )
}

/// Copies a list of hashes.
pub fn copy_hashes(src: &[CryptoHash]) -> (r: Vec<CryptoHash>)
    ensures
        r@ == src@,
{
    let mut out: Vec<CryptoHash> = Vec::new();
    let mut i: usize = 0;
    while i < src.len()
        invariant
            i <= src@.len(),
            out@ == src@.subrange(0, i as int),
        decreases src@.len() - i,
    {
        out.push(src[i]);
        i = i + 1;
        assert(out@ =~= src@.subrange(0, i as int));
    }
    assert(out@ =~= src@);
    out
}

impl Propose {
    /// CryptoHash of the propose, which precommits refer to.
    pub fn hash(&self) -> (r: CryptoHash)
        ensures
            r == propose_hash_spec(*self),
    {
        let mut words: Vec<u64> = vec![
            self.validator.0 as u64,
            self.height.0,
            self.round.0 as u64,
            self.prev_hash.0,
        ];
        let ghost head = words@;
        let mut i: usize = 0;
        while i < self.tx_hashes.len()
            invariant
                i <= self.tx_hashes@.len(),
                head == seq![
                    self.validator.0 as u64,
                    self.height.0,
                    self.round.0 as u64,
                    self.prev_hash.0,
                ],
                words@ == head + self.tx_hashes@.subrange(0, i as int).map_values(|h: CryptoHash| h.0),
            decreases self.tx_hashes@.len() - i,
        {
            words.push(self.tx_hashes[i].0);
            i = i + 1;
            assert(words@ =~= head + self.tx_hashes@.subrange(0, i as int).map_values(
                |h: CryptoHash| h.0,
            ));
        }
        assert(self.tx_hashes@.subrange(0, i as int) =~= self.tx_hashes@);
        assert(words@ =~= propose_words(
            self.validator,
            self.height,
            self.round,
            self.prev_hash,
            self.tx_hashes@,
        ));
        digest(&words)
    }
}

impl TestNode {
    /// Consensus public key.
    pub closed spec fn consensus_pk(&self) -> PublicKey {
        self.consensus_public_key
    }

    /// Consensus secret key.
    pub closed spec fn consensus_sk(&self) -> SecretKey {
        self.consensus_secret_key
    }

    /// Service public key.
    pub closed spec fn service_pk(&self) -> PublicKey {
        self.service_public_key
    }

    /// Service secret key.
    pub closed spec fn service_sk(&self) -> SecretKey {
        self.service_secret_key
    }

    /// Validator index, `None` for an auditor.
    pub closed spec fn role(&self) -> Option<ValidatorId> {
        self.validator_id
    }

    /// `self` and `other` hold the same four keys.
    pub open spec fn same_keys(&self, other: TestNode) -> bool {
        &&& self.consensus_pk() == other.consensus_pk()
        &&& self.consensus_sk() == other.consensus_sk()
        &&& self.service_pk() == other.service_pk()
        &&& self.service_sk() == other.service_sk()
    }

    /// `self` is `other` with its validator index set to `role`.
    pub open spec fn with_role(&self, other: TestNode, role: Option<ValidatorId>) -> bool {
        self.same_keys(other) && self.role() == role
    }

    /// Creates a new auditor.
    pub fn new_auditor() -> (r: Self)
        ensures
            r.role() is None,
    {
        let (consensus_public_key, consensus_secret_key) = gen_keypair();
        let (service_public_key, service_secret_key) = gen_keypair();
        TestNode {
            consensus_secret_key,
            consensus_public_key,
            service_secret_key,
            service_public_key,
            validator_id: None,
        }
    }

    /// Creates a new validator with the given id.
    pub fn new_validator(validator_id: ValidatorId) -> (r: Self)
        ensures
            r.role() == Some(validator_id),
    {
        let (consensus_public_key, consensus_secret_key) = gen_keypair();
        let (service_public_key, service_secret_key) = gen_keypair();
        TestNode {
            consensus_secret_key,
            consensus_public_key,
            service_secret_key,
            service_public_key,
            validator_id: Some(validator_id),
        }
    }

    /// Creates a `Propose` message signed by this validator, in the first round.
    /// Only a validator can propose.
    pub fn create_propose(&self, height: Height, last_hash: &CryptoHash, tx_hashes: &[CryptoHash]) -> (r:
        Propose)
        requires
            self.role() is Some,
        ensures
            r.validator == self.role()->0,
            r.height == height,
            r.round == Round(1),
            r.prev_hash == *last_hash,
            r.tx_hashes@ == tx_hashes@,
            r.signature == sign_spec(self.consensus_sk(), propose_hash_spec(r)),
    {
        let validator = match self.validator_id {
            Some(id) => id,
            None => ValidatorId(0),
        };
        let mut propose = Propose {
            validator,
            height,
            round: Round::first(),
            prev_hash: *last_hash,
            tx_hashes: copy_hashes(tx_hashes),
            signature: CryptoHash(0),
        };
        let h = propose.hash();
        propose.signature = sign(&self.consensus_secret_key, &h);
        assert(propose_hash_spec(propose) == h);
        propose
    }

    /// Creates a `Precommit` message signed by this validator for the given propose and block.
    /// Only a validator can vote.
    pub fn create_precommit(&self, propose: &Propose, block_hash: &CryptoHash) -> (r: Precommit)
        requires
            self.role() is Some,
        ensures
            r.validator == self.role()->0,
            r.height == propose.height,
            r.round == propose.round,
            r.propose_hash == propose_hash_spec(*propose),
            r.block_hash == *block_hash,
            r.signature == sign_spec(
                self.consensus_sk(),
                precommit_hash_spec(r.validator, r.height, r.round, r.propose_hash, r.block_hash),
            ),
    {
        let validator = match self.validator_id {
            Some(id) => id,
            None => ValidatorId(0),
        };
        let propose_hash = propose.hash();
        let words: Vec<u64> = vec![
            validator.0 as u64,
            propose.height.0,
            propose.round.0 as u64,
            propose_hash.0,
            block_hash.0,
        ];
        let content = digest(&words);
        let signature = sign(&self.consensus_secret_key, &content);
        Precommit {
            validator,
            height: propose.height,
            round: propose.round,
            propose_hash,
            block_hash: *block_hash,
            time: std::time::SystemTime::now(),
            signature,
        }
    }

    /// Returns public keys of the node.
    pub fn public_keys(&self) -> (r: ValidatorKeys)
        ensures
            r.consensus_key == self.consensus_pk(),
            r.service_key == self.service_pk(),
    {
        ValidatorKeys {
            consensus_key: self.consensus_public_key,
            service_key: self.service_public_key,
        }
    }

    /// Returns the current validator id of node if it is validator of the test network.
    pub fn validator_id(&self) -> (r: Option<ValidatorId>)
        ensures
            r == self.role(),
    {
        self.validator_id
    }

    /// Changes the node's role; its keys stay.
    pub fn change_role(&mut self, role: Option<ValidatorId>)
        ensures
            final(self).with_role(*old(self), role),
    {
        self.validator_id = role;
    }

    /// Returns the service keypair.
    pub fn service_keypair(&self) -> (r: (PublicKey, SecretKey))
        ensures
            r.0 == self.service_pk(),
            r.1 == self.service_sk(),
    {
        (self.service_public_key, self.service_secret_key)
    }

    /// Returns the consensus public key.
    pub fn consensus_public_key(&self) -> (r: PublicKey)
        ensures
            r == self.consensus_pk(),
    {
        self.consensus_public_key
    }
}

impl ValidatorKeys {
    /// The public keys of `node`.
    pub fn from_node(node: &TestNode) -> (r: ValidatorKeys)
        ensures
            r.consensus_key == node.consensus_pk(),
            r.service_key == node.service_pk(),
    {
        node.public_keys()
    }
}

} // verus!
