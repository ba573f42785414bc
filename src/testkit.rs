//! The harness: a builder, the block manufacturing engine, the event pump and the
//! configuration change state machine.

use vstd::prelude::*;
use futures::channel::mpsc::{UnboundedReceiver, UnboundedSender};
use crate::blockchain::{
    block_hash_spec, merged, tx_hash_spec, writes_of, Blockchain, Patch, Snapshot, Transaction,
};
use crate::config::{config_words, ServiceConfig, TestNetworkConfiguration};
use crate::crypto::{digest_spec, CryptoHash, PublicKey};
use crate::mempool::Mempool;
use crate::network::{copy_nodes, indexed_by_position, lemma_reindexed_indexed, max_validators, reindexed, role_in, TestNetwork};
use crate::node::{propose_hash_spec, propose_words, TestNode};
use crate::types::{Height, Round, ValidatorId};

verus! {

/// A message from outside that the event pump handles.
#[derive(Debug)]
pub enum ExternalMessage {
    /// A transaction for the mempool.
    Transaction(Transaction),
    /// A peer to connect to; the harness has no network and ignores it.
    PeerAdd(PublicKey),
}

/// A service registered with the harness: its name and its initial configuration.
#[derive(Debug)]
pub struct Service {
    /// Name of the service.
    pub name: String,
    /// Initial configuration, stored in the genesis configuration.
    pub config: serde_json::Value,
}

/// A scheduled configuration change.
#[derive(Debug)]
pub enum ConfigurationProposalState {
    /// Not yet stored on chain.
    Uncommitted(TestNetworkConfiguration),
    /// Stored on chain, waiting for its height.
    Committed(TestNetworkConfiguration),
}

/// A proposal can be scheduled: it names one to 65536 validators.
pub open spec fn proposal_ok(p: TestNetworkConfiguration) -> bool {
    1 <= p.validators_spec().len() <= max_validators()
}

/// Builder for `TestKit`.
pub struct TestKitBuilder {
    us: TestNode,
    validators: Vec<TestNode>,
    services: Vec<Service>,
}

impl TestKitBuilder {
    /// The node under test.
    pub closed spec fn us_spec(&self) -> TestNode {
        self.us
    }

    /// The validators so far.
    pub closed spec fn validators_spec(&self) -> Seq<TestNode> {
        self.validators@
    }

    /// The services so far.
    pub closed spec fn services_spec(&self) -> Seq<Service> {
        self.services@
    }

    /// Starts with the node under test as the only validator, index zero.
    pub fn validator() -> (r: Self)
        ensures
            r.validators_spec().len() == 1,
            r.us_spec() == r.validators_spec()[0],
            r.us_spec().role() == Some(ValidatorId(0)),
            indexed_by_position(r.validators_spec()),
            r.services_spec().len() == 0,
    {
        let us = TestNode::new_validator(ValidatorId(0));
        let mut validators: Vec<TestNode> = Vec::new();
        validators.push(us);
        TestKitBuilder { us, validators, services: Vec::new() }
    }

    /// Starts with the node under test as an auditor beside one fresh validator, index zero.
    pub fn auditor() -> (r: Self)
        ensures
            r.validators_spec().len() == 1,
            r.validators_spec()[0].role() == Some(ValidatorId(0)),
            indexed_by_position(r.validators_spec()),
            r.us_spec().role() is None,
            r.services_spec().len() == 0,
    {
        let us = TestNode::new_auditor();
        let mut validators: Vec<TestNode> = Vec::new();
        validators.push(TestNode::new_validator(ValidatorId(0)));
        TestKitBuilder { us, validators, services: Vec::new() }
    }

    /// Appends fresh validators with indices `1..validators_count`. There must be at least one.
    pub fn with_validators(self, validators_count: u16) -> (r: Self)
        requires
            validators_count > 0,
            self.validators_spec().len() + validators_count - 1 <= max_validators(),
        ensures
            r.us_spec() == self.us_spec(),
            r.services_spec() == self.services_spec(),
            r.validators_spec().len() == self.validators_spec().len() + validators_count - 1,
            r.validators_spec().subrange(0, self.validators_spec().len() as int)
                == self.validators_spec(),
            forall|i: int|
                1 <= i < validators_count ==> (#[trigger] r.validators_spec()[self.validators_spec().len()
                    + i - 1]).role() == Some(ValidatorId(i as u16)),
            self.validators_spec().len() == 1 && indexed_by_position(self.validators_spec())
                ==> indexed_by_position(r.validators_spec()),
    {
        let mut b = self;
        let ghost start = b.validators@;
        let mut i: u16 = 1;
        while i < validators_count
            invariant
                1 <= i <= validators_count,
                b.validators@.len() == start.len() + i - 1,
                b.validators@.subrange(0, start.len() as int) == start,
                b.us == self.us,
                b.services@ == self.services@,
                start == self.validators@,
                forall|k: int|
                    1 <= k < i ==> (#[trigger] b.validators@[start.len() + k - 1]).role() == Some(
                        ValidatorId(k as u16),
                    ),
            decreases validators_count - i,
        {
            b.validators.push(TestNode::new_validator(ValidatorId(i)));
            assert(b.validators@.subrange(0, start.len() as int) =~= start);
            i = i + 1;
        }
        proof {
            if start.len() == 1 && indexed_by_position(start) {
                assert forall|k: int| 0 <= k < b.validators@.len() implies #[trigger] b.validators@[k].role()
                    == Some(ValidatorId(k as u16)) by {
                    if k == 0 {
                        assert(b.validators@.subrange(0, start.len() as int)[0] == b.validators@[0]);
                        assert(start[0].role() == Some(ValidatorId(0)));
                    } else {
                        assert(1 <= k < validators_count);
                        assert(b.validators@[start.len() + k - 1].role() == Some(ValidatorId(k as u16)));
                    }
                }
            }
        }
        b
    }

    /// Registers a service.
    pub fn with_service(self, service: Service) -> (r: Self)
        ensures
            r.us_spec() == self.us_spec(),
            r.validators_spec() == self.validators_spec(),
            r.services_spec() == self.services_spec().push(service),
    {
        let mut b = self;
        b.services.push(service);
        b
    }

    /// Creates the harness: the network is the builder's nodes as they are; the chain
    /// holds its genesis block only; the mempool is empty; no configuration change is
    /// scheduled.
    pub fn create(self) -> (r: TestKit)
        requires
            1 <= self.validators_spec().len() <= max_validators(),
            indexed_by_position(self.validators_spec()),
        ensures
            r.wf(),
            r.network_spec().validators_spec() == self.validators_spec(),
            r.network_spec().us_spec() == self.us_spec(),
            r.current_height_spec() == 1,
            r.mempool_spec()@.len() == 0,
            r.proposal_spec() is None,
    {
        let TestKitBuilder { us, validators, services } = self;
        let network = TestNetwork::from_parts(us, validators);
        let mut service_configs: Vec<ServiceConfig> = Vec::new();
        let mut services = services;
        while services.len() > 0
            decreases services@.len(),
        {
            let s = services.remove(0);
            service_configs.push(ServiceConfig { name: s.name, value: s.config });
        }
        let genesis = network.genesis_config();
        let blockchain = Blockchain::new(&genesis, service_configs);
        let (api_sender, events) = futures::channel::mpsc::unbounded();
        TestKit {
            blockchain,
            events,
            network,
            api_sender,
            mempool: Mempool::new(),
            cfg_proposal: None,
        }
    }
}

/// The message that carries `transaction` to the event pump.
pub fn transaction_message(transaction: Transaction) -> (r: ExternalMessage)
    ensures
        r == ExternalMessage::Transaction(transaction),
{
    ExternalMessage::Transaction(transaction)
}

/// Sends transactions to the harness's event pump.
pub struct TestKitApi {
    api_sender: UnboundedSender<ExternalMessage>,
}

impl TestKitApi {
    /// Sends `transaction_message(transaction)` to the node; the next poll of the event pump
    /// picks it up. Returns whether the channel took it, which the channel alone decides.
    pub fn send(&self, transaction: Transaction) -> bool {
        match self.api_sender.unbounded_send(transaction_message(transaction)) {
            Ok(()) => true,
            Err(_) => false,
        }
    }
}

/// Most events the pump handles in one poll.
pub const POLL_LIMIT: usize = 1_000_000;

/// Harness for testing blockchain services: an emulated network, a chain whose blocks are
/// made on demand, and a mempool fed by a channel.
pub struct TestKit {
    blockchain: Blockchain,
    events: UnboundedReceiver<ExternalMessage>,
    network: TestNetwork,
    api_sender: UnboundedSender<ExternalMessage>,
    mempool: Mempool,
    cfg_proposal: Option<ConfigurationProposalState>,
}

/// Every hash pending in `before` is still pending in `after`, and each hash added is that
/// of a transaction that `chain` has not committed.
pub open spec fn mempool_grew(before: Map<u64, Transaction>, after: Map<u64, Transaction>, chain: Snapshot) -> bool {
    &&& forall|k: u64| #[trigger] before.contains_key(k) ==> after.contains_key(k)
    &&& forall|k: u64| #[trigger] after.contains_key(k) && !before.contains_key(k) ==> !chain.committed@.contains(CryptoHash(k))
}

proof fn lemma_mempool_grew_trans(
    a: Map<u64, Transaction>,
    b: Map<u64, Transaction>,
    c: Map<u64, Transaction>,
    chain: Snapshot,
)
    requires
        mempool_grew(a, b, chain),
        mempool_grew(b, c, chain),
    ensures
        mempool_grew(a, c, chain),
{
    assert forall|k: u64| #[trigger] c.contains_key(k) && !a.contains_key(k) implies !chain.committed@.contains(CryptoHash(k)) by {
        if b.contains_key(k) {
        } else {
        }
    }
}

/// The step of the configuration change state machine that a block at height `h` makes:
/// a proposal not yet stored is stored; a stored one whose height is `h` is applied to the
/// network and cleared; any other stays as it is.
pub open spec fn ticked(
    before: Option<ConfigurationProposalState>,
    after: Option<ConfigurationProposalState>,
    h: u64,
    net_before: TestNetwork,
    net_after: TestNetwork,
) -> bool {
    match before {
        None => after is None && net_after == net_before,
        Some(ConfigurationProposalState::Uncommitted(p)) => after == Some(
            ConfigurationProposalState::Committed(p),
        ) && net_after == net_before,
        Some(ConfigurationProposalState::Committed(p)) => if p.stored_spec().actual_from.0 == h {
            &&& after is None
            &&& applied(p, net_after)
        } else {
            after == before && net_after == net_before
        },
    }
}

/// `net` is the network that proposal `p` describes: its validators indexed by position,
/// and its node under test indexed by the validator with its consensus key.
pub open spec fn applied(p: TestNetworkConfiguration, net: TestNetwork) -> bool {
    &&& reindexed(p.validators_spec(), net.validators_spec())
    &&& net.us_spec().with_role(
        p.us_spec(),
        role_in(p.us_spec().consensus_pk(), p.validators_spec()),
    )
}

/// The configurations stored on `after` are those of `before`, plus that of `p` if the
/// step stored it.
pub open spec fn configs_ticked(
    before: Option<ConfigurationProposalState>,
    chain_before: Blockchain,
    chain_after: Blockchain,
) -> bool {
    match before {
        Some(ConfigurationProposalState::Uncommitted(p)) => {
            &&& chain_after.configs_spec().len() == chain_before.configs_spec().len() + 1
            &&& chain_after.configs_spec().drop_last() == chain_before.configs_spec()
            &&& chain_after.configs_spec().last().same_as(p.stored_spec())
        },
        _ => chain_after.configs_spec() == chain_before.configs_spec(),
    }
}

/// `after` is `before` with one block of `tx_hashes` made, as `block_committed` says, and the
/// chain's state holds the writes of the pending transactions with those hashes.
pub open spec fn block_made(before: TestKit, after: TestKit, tx_hashes: Seq<CryptoHash>) -> bool {
    &&& block_committed(before, after, tx_hashes)
    &&& after.chain_spec().head_spec().writes@ == before.chain_spec().head_spec().writes@
        + writes_of(tx_hashes.map_values(|h: CryptoHash| before.mempool_spec()@[h.0]))
}

/// The hash of the round-one propose of validator zero at height `h`, after the block with
/// hash `prev`, of the transactions `tx_hashes`.
pub open spec fn leader_propose_hash(h: Height, prev: CryptoHash, tx_hashes: Seq<CryptoHash>) -> CryptoHash {
    CryptoHash(digest_spec(propose_words(ValidatorId(0), h, Round(1), prev, tx_hashes)))
}

/// `after` records one block more than `before`: proposed by validator zero at the height and
/// after the last hash of `before`, of `tx_hashes`, with the new last hash, and with one vote
/// of each of `validators`, in order, for the leader's propose and that block.
#[verifier::opaque]
pub open spec fn block_recorded(
    before: Blockchain,
    after: Blockchain,
    tx_hashes: Seq<CryptoHash>,
    validators: Seq<TestNode>,
) -> bool {
    let h = before.head_spec().height;
    let prev = before.head_spec().last_hash;
    let b = after.blocks_spec().last();
    &&& after.blocks_spec().len() == before.blocks_spec().len() + 1
    &&& after.blocks_spec().drop_last() == before.blocks_spec()
    &&& b.proposer == ValidatorId(0)
    &&& b.height == h
    &&& b.prev_hash == prev
    &&& b.tx_hashes@ == tx_hashes
    &&& b.hash == after.head_spec().last_hash
    &&& b.precommits@.len() == validators.len()
    &&& forall|i: int|
        0 <= i < validators.len() ==> {
            let v = #[trigger] b.precommits@[i];
            &&& v.validator == ValidatorId(i as u16)
            &&& v.height == h
            &&& v.round == Round(1)
            &&& v.propose_hash == leader_propose_hash(h, prev, tx_hashes)
            &&& v.block_hash == b.hash
        }
}

proof fn lemma_pruned_not_committed(
    before: Map<u64, Transaction>,
    after: Map<u64, Transaction>,
    committed_before: Seq<CryptoHash>,
    committed_after: Seq<CryptoHash>,
    tx_hashes: Seq<CryptoHash>,
)
    requires
        forall|k: u64| #[trigger] before.contains_key(k) ==> !committed_before.contains(CryptoHash(k)),
        forall|k: u64| #[trigger] after.contains_key(k) <==> (before.contains_key(k)
            && forall|j: int| 0 <= j < tx_hashes.len() ==> tx_hashes[j].0 != k),
        committed_after == committed_before + tx_hashes,
    ensures
        forall|k: u64| #[trigger] after.contains_key(k) ==> !committed_after.contains(CryptoHash(k)),
{
    assert forall|k: u64| #[trigger] after.contains_key(k) implies !committed_after.contains(CryptoHash(k)) by {
        assert(before.contains_key(k));
        if committed_after.contains(CryptoHash(k)) {
            let j = choose|j: int| 0 <= j < committed_after.len() && committed_after[j] == CryptoHash(k);
            if j >= committed_before.len() {
                assert(tx_hashes[j - committed_before.len()] == CryptoHash(k));
            } else {
                assert(committed_before[j] == CryptoHash(k));
            }
        }
    }
}

proof fn lemma_included_gone(
    pruned: Map<u64, Transaction>,
    after: Map<u64, Transaction>,
    committed_before: Seq<CryptoHash>,
    committed_after: Seq<CryptoHash>,
    tx_hashes: Seq<CryptoHash>,
)
    requires
        forall|k: u64| #[trigger] pruned.contains_key(k) ==> forall|j: int| 0 <= j < tx_hashes.len() ==> tx_hashes[j].0 != k,
        committed_after == committed_before + tx_hashes,
        forall|k: u64| #[trigger] after.contains_key(k) && !pruned.contains_key(k) ==> !committed_after.contains(CryptoHash(k)),
    ensures
        forall|i: int| 0 <= i < tx_hashes.len() ==> !after.contains_key(#[trigger] tx_hashes[i].0),
{
    assert forall|i: int| 0 <= i < tx_hashes.len() implies !after.contains_key(#[trigger] tx_hashes[i].0) by {
        let k = tx_hashes[i].0;
        assert(committed_after[committed_before.len() + i] == tx_hashes[i]);
        assert(committed_after.contains(CryptoHash(k)));
        if pruned.contains_key(k) {
            assert(tx_hashes[i].0 != k);
        }
    }
}

/// `after` is `before` with one block of `tx_hashes` made: the height grows by one; the
/// configuration state machine took its step, on the network and on the stored
/// configurations; the chain committed the transactions under the leader's block hash and
/// recorded the block with the votes of the network's validators; none of the transactions
/// is pending any more, and every other pending one still is.
#[verifier::opaque]
pub open spec fn block_committed(before: TestKit, after: TestKit, tx_hashes: Seq<CryptoHash>) -> bool {
    &&& after.current_height_spec() == before.current_height_spec() + 1
    &&& ticked(
        before.proposal_spec(),
        after.proposal_spec(),
        before.current_height_spec() as u64,
        before.network_spec(),
        after.network_spec(),
    )
    &&& configs_ticked(before.proposal_spec(), before.chain_spec(), after.chain_spec())
    &&& after.chain_spec().head_spec().committed@ == before.chain_spec().head_spec().committed@
        + tx_hashes
    &&& after.chain_spec().head_spec().last_hash == block_hash_spec(
        ValidatorId(0),
        before.chain_spec().head_spec().height,
        before.chain_spec().head_spec().last_hash,
        tx_hashes,
    )
    &&& block_recorded(
        before.chain_spec(),
        after.chain_spec(),
        tx_hashes,
        after.network_spec().validators_spec(),
    )
    &&& forall|i: int| 0 <= i < tx_hashes.len() ==> !after.mempool_spec()@.contains_key(#[trigger] tx_hashes[i].0)
    &&& forall|k: u64|
        #[trigger] before.mempool_spec()@.contains_key(k) && (forall|j: int|
            0 <= j < tx_hashes.len() ==> tx_hashes[j].0 != k) ==> after.mempool_spec()@.contains_key(k)
}

/// A block made after steps that change only the mempool, and only by adding to it, is a
/// block made from the state before those steps.
proof fn lemma_block_committed_after_growth(
    before: TestKit,
    mid: TestKit,
    after: TestKit,
    tx_hashes: Seq<CryptoHash>,
)
    requires
        mid.chain_spec() == before.chain_spec(),
        mid.network_spec() == before.network_spec(),
        mid.proposal_spec() == before.proposal_spec(),
        forall|k: u64| #[trigger] before.mempool_spec()@.contains_key(k) ==> mid.mempool_spec()@.contains_key(k),
        block_committed(mid, after, tx_hashes),
    ensures
        block_committed(before, after, tx_hashes),
{
    reveal(block_committed);
}

/// The hashes of `txs`, in order.
pub open spec fn hashes_of(txs: Seq<Transaction>) -> Seq<CryptoHash> {
    txs.map_values(|t: Transaction| tx_hash_spec(t))
}

/// The transactions of `txs` that `committed` does not hold, in order.
pub open spec fn uncommitted(txs: Seq<Transaction>, committed: Seq<CryptoHash>) -> Seq<Transaction>
    decreases txs.len(),
{
    if txs.len() == 0 {
        Seq::empty()
    } else if committed.contains(tx_hash_spec(txs.last())) {
        uncommitted(txs.drop_last(), committed)
    } else {
        uncommitted(txs.drop_last(), committed).push(txs.last())
    }
}

/// Two entries of `s` are equal.
pub open spec fn has_duplicates(s: Seq<CryptoHash>) -> bool {
    exists|i: int, j: int| 0 <= i < j < s.len() && #[trigger] s[i] == #[trigger] s[j]
}

/// Whether two entries of `s` are equal.
pub fn find_duplicates(s: &Vec<CryptoHash>) -> (r: bool)
    ensures
        r == has_duplicates(s@),
{
    let mut i: usize = 0;
    while i < s.len()
        invariant
            i <= s@.len(),
            forall|a: int, b: int| 0 <= a < i && a < b < s@.len() ==> s@[a] != s@[b],
        decreases s@.len() - i,
    {
        let mut j: usize = i + 1;
        while j < s.len()
            invariant
                i < s@.len(),
                i + 1 <= j <= s@.len(),
                forall|a: int, b: int| 0 <= a < i && a < b < s@.len() ==> s@[a] != s@[b],
                forall|b: int| i < b < j ==> s@[i as int] != s@[b],
            decreases s@.len() - j,
        {
            if s[i] == s[j] {
                assert(s@[i as int] == s@[j as int]);
                return true;
            }
            j = j + 1;
        }
        i = i + 1;
    }
    false
}

/// The configuration change slot holds at most one proposal, in exactly one of its two
/// states, and each step of the state machine leaves it so.
pub proof fn lemma_proposal_single_state(
    before: Option<ConfigurationProposalState>,
    after: Option<ConfigurationProposalState>,
    h: u64,
    net_before: TestNetwork,
    net_after: TestNetwork,
)
    requires
        ticked(before, after, h, net_before, net_after),
    ensures
        !(after matches Some(ConfigurationProposalState::Uncommitted(_)) && after matches Some(
            ConfigurationProposalState::Committed(_),
        )),
        before matches Some(ConfigurationProposalState::Uncommitted(p)) ==> after == Some(
            ConfigurationProposalState::Committed(p),
        ),
        before is None ==> after is None,
{
}

/// Why a probe was refused.
#[derive(Debug, Copy, Clone, PartialEq, Eq, Structural)]
pub enum ProbeError {
    /// The node under test is an auditor: it cannot make a block.
    NotValidator,
    /// Two of the transactions to probe have the same hash.
    DuplicateTransactions,
}

/// `p` is scheduled in `state` and its height is not yet passed at height `h`.
pub open spec fn pending(state: Option<ConfigurationProposalState>, p: TestNetworkConfiguration, h: nat) -> bool {
    ||| state == Some(ConfigurationProposalState::Uncommitted(p)) && h < p.stored_spec().actual_from.0
    ||| state == Some(ConfigurationProposalState::Committed(p)) && h <= p.stored_spec().actual_from.0
}

impl TestKit {
    /// The emulated network.
    pub closed spec fn network_spec(&self) -> TestNetwork {
        self.network
    }

    /// The chain.
    pub closed spec fn chain_spec(&self) -> Blockchain {
        self.blockchain
    }

    /// The mempool.
    pub closed spec fn mempool_spec(&self) -> Mempool {
        self.mempool
    }

    /// The scheduled configuration change, if any.
    pub closed spec fn proposal_spec(&self) -> Option<ConfigurationProposalState> {
        self.cfg_proposal
    }

    /// The current height: that of the next block.
    pub open spec fn current_height_spec(&self) -> nat {
        self.chain_spec().head_spec().height.0 as nat
    }

    /// The network and chain are well formed, every pending transaction is filed under its
    /// hash and none is committed, and a scheduled change names one to 65536 validators.
    pub open spec fn wf(&self) -> bool {
        &&& self.network_spec().wf()
        &&& self.chain_spec().wf()
        &&& self.mempool_spec().wf()
        &&& forall|k: u64|
            #[trigger] self.mempool_spec()@.contains_key(k)
                ==> !self.chain_spec().head_spec().committed@.contains(CryptoHash(k))
        &&& match self.proposal_spec() {
            Some(ConfigurationProposalState::Uncommitted(p)) => proposal_ok(p),
            Some(ConfigurationProposalState::Committed(p)) => proposal_ok(p),
            None => true,
        }
    }

    /// Returns a handle that sends transactions to this harness.
    pub fn api(&self) -> TestKitApi {
        TestKitApi { api_sender: self.api_sender.clone() }
    }

    /// Handles one message: a transaction goes into the mempool unless it is committed;
    /// anything else is ignored.
    pub fn handle_event(&mut self, event: ExternalMessage)
        requires
            old(self).wf(),
        ensures
            final(self).wf(),
            final(self).chain_spec() == old(self).chain_spec(),
            final(self).network_spec() == old(self).network_spec(),
            final(self).proposal_spec() == old(self).proposal_spec(),
            mempool_grew(
                old(self).mempool_spec()@,
                final(self).mempool_spec()@,
                old(self).chain_spec().head_spec(),
            ),
            match event {
                ExternalMessage::Transaction(tx) => final(self).mempool_spec()@ == if old(
                    self,
                ).chain_spec().head_spec().committed@.contains(tx_hash_spec(tx)) {
                    old(self).mempool_spec()@
                } else {
                    old(self).mempool_spec()@.insert(tx_hash_spec(tx).0, tx)
                },
                ExternalMessage::PeerAdd(_) => final(self).mempool_spec()@ == old(
                    self,
                ).mempool_spec()@,
            },
    {
        match event {
            ExternalMessage::Transaction(tx) => {
                let hash = tx.hash();
                if !self.blockchain.contains_transaction(&hash) {
                    self.mempool.insert(tx);
                }
            },
            ExternalMessage::PeerAdd(_) => {},
        }
    }

    /// Drains the events that are waiting, without waiting for new ones: each transaction
    /// that is not committed goes into the mempool. One call handles at most `POLL_LIMIT`
    /// events; any beyond that wait for the next poll.
    pub fn poll_events(&mut self)
        requires
            old(self).wf(),
        ensures
            final(self).wf(),
            final(self).chain_spec() == old(self).chain_spec(),
            final(self).network_spec() == old(self).network_spec(),
            final(self).proposal_spec() == old(self).proposal_spec(),
            mempool_grew(
                old(self).mempool_spec()@,
                final(self).mempool_spec()@,
                old(self).chain_spec().head_spec(),
            ),
    {
        let mut budget: usize = POLL_LIMIT;
        while budget > 0
            invariant
                self.wf(),
                self.chain_spec() == old(self).chain_spec(),
                self.network_spec() == old(self).network_spec(),
                self.proposal_spec() == old(self).proposal_spec(),
                mempool_grew(
                    old(self).mempool_spec()@,
                    self.mempool_spec()@,
                    old(self).chain_spec().head_spec(),
                ),
            decreases budget,
        {
            match self.events.try_recv() {
                Ok(event) => {
                    let ghost before = self.mempool_spec()@;
                    self.handle_event(event);
                    proof {
                        lemma_mempool_grew_trans(
                            old(self).mempool_spec()@,
                            before,
                            self.mempool_spec()@,
                            old(self).chain_spec().head_spec(),
                        );
                    }
                },
                Err(_) => break,
            }
            budget = budget - 1;
        }
    }

    /// Advances the configuration change state machine by the step of a block at the
    /// current height.
    pub fn update_configuration(&mut self)
        requires
            old(self).wf(),
        ensures
            final(self).wf(),
            ticked(
                old(self).proposal_spec(),
                final(self).proposal_spec(),
                old(self).current_height_spec() as u64,
                old(self).network_spec(),
                final(self).network_spec(),
            ),
            configs_ticked(old(self).proposal_spec(), old(self).chain_spec(), final(self).chain_spec()),
            final(self).chain_spec().head_spec() == old(self).chain_spec().head_spec(),
            final(self).chain_spec().blocks_spec() == old(self).chain_spec().blocks_spec(),
            final(self).mempool_spec() == old(self).mempool_spec(),
    {
        let height = self.blockchain.current_height();
        let state = self.cfg_proposal.take();
        match state {
            None => {},
            Some(ConfigurationProposalState::Uncommitted(p)) => {
                let stored = p.stored_configuration().copy();
                self.blockchain.commit_configuration(stored);
                self.cfg_proposal = Some(ConfigurationProposalState::Committed(p));
                assert(self.chain_spec().configs_spec().drop_last() =~= old(self).chain_spec().configs_spec());
            },
            Some(ConfigurationProposalState::Committed(p)) => {
                if p.actual_from().0 == height.0 {
                    let us = *p.us();
                    let validators = copy_nodes(p.validators());
                    self.network.update(us, validators);
                    proof {
                        lemma_reindexed_indexed(p.validators_spec(), self.network.validators_spec());
                    }
                } else {
                    self.cfg_proposal = Some(ConfigurationProposalState::Committed(p));
                }
            },
        }
    }

    /// The pending transactions with the given hashes, in order.
    fn pending_transactions(&self, tx_hashes: &[CryptoHash]) -> (r: Vec<Transaction>)
        requires
            forall|i: int| 0 <= i < tx_hashes@.len() ==> self.mempool_spec().has(#[trigger] tx_hashes@[i]),
        ensures
            r@.len() == tx_hashes@.len(),
            forall|i: int| 0 <= i < tx_hashes@.len() ==> #[trigger] r@[i] == self.mempool_spec()@[tx_hashes@[i].0],
    {
        let mut out: Vec<Transaction> = Vec::new();
        let mut i: usize = 0;
        while i < tx_hashes.len()
            invariant
                i <= tx_hashes@.len(),
                out@.len() == i,
                forall|i: int| 0 <= i < tx_hashes@.len() ==> self.mempool_spec().has(#[trigger] tx_hashes@[i]),
                forall|k: int| 0 <= k < i ==> #[trigger] out@[k] == self.mempool_spec()@[tx_hashes@[k].0],
            decreases tx_hashes@.len() - i,
        {
            let tx = self.mempool.get(&tx_hashes[i]);
            match tx {
                Some(t) => out.push(t),
                None => {
                    assert(false);
                },
            }
            i = i + 1;
        }
        out
    }

    /// Makes and commits a block of the given pending transactions, in order: the
    /// configuration state machine steps, the leader proposes, every validator votes, the
    /// transactions leave the mempool, and the events that arrived meanwhile are drained.
    #[verifier::rlimit(40)]
    fn do_create_block(&mut self, tx_hashes: &[CryptoHash])
        requires
            old(self).wf(),
            old(self).current_height_spec() < u64::MAX,
            forall|i: int| 0 <= i < tx_hashes@.len() ==> old(self).mempool_spec().has(#[trigger] tx_hashes@[i]),
        ensures
            final(self).wf(),
            block_made(*old(self), *final(self), tx_hashes@),
    {
        let height = self.blockchain.current_height();
        let last_hash = self.blockchain.last_hash();
        let ghost start = *self;
        self.update_configuration();
        let ghost ticked_state = *self;
        let leader = *self.leader();
        let validator_id = match leader.validator_id() {
            Some(id) => id,
            None => ValidatorId(0),
        };
        assert(validator_id == ValidatorId(0));
        let txs = self.pending_transactions(tx_hashes);
        let patch = self.blockchain.create_patch(validator_id, height, tx_hashes, &txs);
        self.mempool.remove_all(tx_hashes);
        let propose = leader.create_propose(height, &last_hash, tx_hashes);
        let precommits = self.network.create_precommits(&propose, &patch.block_hash);
        assert(txs@ =~= tx_hashes@.map_values(|h: CryptoHash| start.mempool_spec()@[h.0]));
        assert(propose_hash_spec(propose) == leader_propose_hash(height, last_hash, tx_hashes@));
        self.blockchain.commit(patch, last_hash, validator_id, precommits);
        proof {
            lemma_pruned_not_committed(
                ticked_state.mempool_spec()@,
                self.mempool_spec()@,
                start.chain_spec().head_spec().committed@,
                self.chain_spec().head_spec().committed@,
                tx_hashes@,
            );
        }
        assert(block_recorded(
            start.chain_spec(),
            self.chain_spec(),
            tx_hashes@,
            self.network_spec().validators_spec(),
        )) by {
            reveal(block_recorded);
        }
        let ghost committed_state = *self;
        self.poll_events();
        proof {
            reveal(block_committed);
            lemma_included_gone(
                committed_state.mempool_spec()@,
                self.mempool_spec()@,
                start.chain_spec().head_spec().committed@,
                self.chain_spec().head_spec().committed@,
                tx_hashes@,
            );
            assert(self.chain_spec().configs_spec() == ticked_state.chain_spec().configs_spec());
            assert(configs_ticked(start.proposal_spec(), start.chain_spec(), self.chain_spec()));
            assert forall|k: u64|
                #[trigger] start.mempool_spec()@.contains_key(k) && (forall|j: int|
                    0 <= j < tx_hashes@.len() ==> tx_hashes@[j].0 != k) implies self.mempool_spec()@.contains_key(k) by {
                assert(committed_state.mempool_spec()@.contains_key(k));
            }
            assert(ticked(
                start.proposal_spec(),
                self.proposal_spec(),
                start.current_height_spec() as u64,
                start.network_spec(),
                self.network_spec(),
            ));
        }
    }

    /// Makes a block of the given transactions, which are put into the mempool first. None of
    /// them may be committed already.
    pub fn create_block_with_transactions(&mut self, txs: Vec<Transaction>)
        requires
            old(self).wf(),
            old(self).current_height_spec() < u64::MAX,
            forall|i: int| 0 <= i < txs@.len() ==> !old(self).chain_spec().head_spec().committed@.contains(
                #[trigger] tx_hash_spec(txs@[i]),
            ),
        ensures
            final(self).wf(),
            block_committed(*old(self), *final(self), hashes_of(txs@)),
    {
        let mut tx_hashes: Vec<CryptoHash> = Vec::new();
        let mut i: usize = 0;
        while i < txs.len()
            invariant
                i <= txs@.len(),
                self.wf(),
                self.chain_spec() == old(self).chain_spec(),
                self.network_spec() == old(self).network_spec(),
                self.proposal_spec() == old(self).proposal_spec(),
                tx_hashes@ == hashes_of(txs@.subrange(0, i as int)),
                forall|k: int| 0 <= k < i ==> self.mempool_spec().has(#[trigger] tx_hashes@[k]),
                forall|k: u64| #[trigger] old(self).mempool_spec()@.contains_key(k) ==> self.mempool_spec()@.contains_key(k),
                forall|i: int| 0 <= i < txs@.len() ==> !old(self).chain_spec().head_spec().committed@.contains(
                    #[trigger] tx_hash_spec(txs@[i]),
                ),
            decreases txs@.len() - i,
        {
            let h = txs[i].hash();
            self.mempool.insert(txs[i]);
            tx_hashes.push(h);
            i = i + 1;
            assert(tx_hashes@ =~= hashes_of(txs@.subrange(0, i as int)));
        }
        assert(txs@.subrange(0, i as int) =~= txs@);
        let ghost filled = *self;
        self.create_block_with_tx_hashes(tx_hashes.as_slice());
        proof {
            lemma_block_committed_after_growth(*old(self), filled, *self, tx_hashes@);
        }
    }

    /// Makes a block of the given pending transactions, in order, after draining the events
    /// that are waiting.
    pub fn create_block_with_tx_hashes(&mut self, tx_hashes: &[CryptoHash])
        requires
            old(self).wf(),
            old(self).current_height_spec() < u64::MAX,
            forall|i: int| 0 <= i < tx_hashes@.len() ==> old(self).mempool_spec().has(#[trigger] tx_hashes@[i]),
        ensures
            final(self).wf(),
            block_committed(*old(self), *final(self), tx_hashes@),
    {
        self.poll_events();
        let ghost polled = *self;
        assert forall|i: int| 0 <= i < tx_hashes@.len() implies self.mempool_spec().has(#[trigger] tx_hashes@[i]) by {
            assert(old(self).mempool_spec()@.contains_key(tx_hashes@[i].0));
        }
        self.do_create_block(tx_hashes);
        proof {
            lemma_block_committed_after_growth(*old(self), polled, *self, tx_hashes@);
        }
    }

    /// Drains the events that are waiting, then makes a block of the given transactions, in
    /// order, if every one of them is pending; otherwise makes none and returns `false`.
    pub fn checked_create_block_with_tx_hashes(&mut self, tx_hashes: &[CryptoHash]) -> (r: bool)
        requires
            old(self).wf(),
            old(self).current_height_spec() < u64::MAX,
        ensures
            final(self).wf(),
            r ==> block_committed(*old(self), *final(self), tx_hashes@),
            !r ==> {
                &&& final(self).chain_spec() == old(self).chain_spec()
                &&& final(self).network_spec() == old(self).network_spec()
                &&& final(self).proposal_spec() == old(self).proposal_spec()
                &&& mempool_grew(
                    old(self).mempool_spec()@,
                    final(self).mempool_spec()@,
                    old(self).chain_spec().head_spec(),
                )
                &&& exists|i: int| 0 <= i < tx_hashes@.len() && !final(self).mempool_spec().has(#[trigger] tx_hashes@[i])
            },
    {
        self.poll_events();
        let ghost polled = *self;
        let mut i: usize = 0;
        while i < tx_hashes.len()
            invariant
                i <= tx_hashes@.len(),
                self.wf(),
                self.chain_spec() == polled.chain_spec(),
                self.network_spec() == polled.network_spec(),
                self.proposal_spec() == polled.proposal_spec(),
                self.mempool_spec() == polled.mempool_spec(),
                self.chain_spec() == old(self).chain_spec(),
                self.network_spec() == old(self).network_spec(),
                self.proposal_spec() == old(self).proposal_spec(),
                mempool_grew(
                    old(self).mempool_spec()@,
                    self.mempool_spec()@,
                    old(self).chain_spec().head_spec(),
                ),
                forall|k: int| 0 <= k < i ==> self.mempool_spec().has(#[trigger] tx_hashes@[k]),
            decreases tx_hashes@.len() - i,
        {
            if !self.mempool.contains_key(&tx_hashes[i]) {
                assert(!self.mempool_spec().has(tx_hashes@[i as int]));
                return false;
            }
            i = i + 1;
        }
        self.do_create_block(tx_hashes);
        proof {
            lemma_block_committed_after_growth(*old(self), polled, *self, tx_hashes@);
        }
        true
    }

    /// Makes a block of every pending transaction, in increasing order of hash, after draining
    /// the events that are waiting. Every transaction pending before the call is committed,
    /// and the block's transactions come in increasing order of hash.
    pub fn create_block(&mut self)
        requires
            old(self).wf(),
            old(self).current_height_spec() < u64::MAX,
        ensures
            final(self).wf(),
            final(self).current_height_spec() == old(self).current_height_spec() + 1,
            ticked(
                old(self).proposal_spec(),
                final(self).proposal_spec(),
                old(self).current_height_spec() as u64,
                old(self).network_spec(),
                final(self).network_spec(),
            ),
            forall|k: u64| #[trigger] old(self).mempool_spec()@.contains_key(k) ==> (
                final(self).chain_spec().head_spec().committed@.contains(CryptoHash(k))
                && !final(self).mempool_spec()@.contains_key(k)),
            final(self).chain_spec().head_spec().committed@.len() >= old(self).chain_spec().head_spec().committed@.len(),
            final(self).chain_spec().head_spec().committed@.subrange(
                0,
                old(self).chain_spec().head_spec().committed@.len() as int,
            ) == old(self).chain_spec().head_spec().committed@,
            forall|i: int, j: int|
                old(self).chain_spec().head_spec().committed@.len() <= i < j
                    < final(self).chain_spec().head_spec().committed@.len() ==> (
                #[trigger] final(self).chain_spec().head_spec().committed@[i]).0 < (
                #[trigger] final(self).chain_spec().head_spec().committed@[j]).0,
            block_committed(
                *old(self),
                *final(self),
                final(self).chain_spec().head_spec().committed@.subrange(
                    old(self).chain_spec().head_spec().committed@.len() as int,
                    final(self).chain_spec().head_spec().committed@.len() as int,
                ),
            ),
            forall|i: int|
                old(self).chain_spec().head_spec().committed@.len() <= i
                    < final(self).chain_spec().head_spec().committed@.len() ==> {
                    let h = #[trigger] final(self).chain_spec().head_spec().committed@[i];
                    old(self).mempool_spec()@.contains_key(h.0)
                        || !old(self).chain_spec().head_spec().committed@.contains(h)
                },
    {
        self.poll_events();
        let ghost polled = *self;
        let tx_hashes = self.mempool.keys();
        assert forall|i: int| 0 <= i < tx_hashes@.len() implies self.mempool_spec().has(#[trigger] tx_hashes@[i]) by {
            assert(tx_hashes@.contains(tx_hashes@[i]));
        }
        let ghost committed_before = self.chain_spec().head_spec().committed@;
        self.do_create_block(tx_hashes.as_slice());
        reveal(block_committed);
        assert(self.chain_spec().head_spec().committed@.subrange(0, committed_before.len() as int)
            =~= committed_before);
        assert forall|i: int, j: int|
            committed_before.len() <= i < j < self.chain_spec().head_spec().committed@.len() implies (
            #[trigger] self.chain_spec().head_spec().committed@[i]).0 < (
            #[trigger] self.chain_spec().head_spec().committed@[j]).0 by {
            assert(self.chain_spec().head_spec().committed@[i] == tx_hashes@[i - committed_before.len()]);
            assert(self.chain_spec().head_spec().committed@[j] == tx_hashes@[j - committed_before.len()]);
        }
        assert forall|k: u64| #[trigger] old(self).mempool_spec()@.contains_key(k) implies (
            self.chain_spec().head_spec().committed@.contains(CryptoHash(k))
            && !self.mempool_spec()@.contains_key(k)) by {
            assert(polled.mempool_spec().has(CryptoHash(k)));
            assert(tx_hashes@.contains(CryptoHash(k)));
            let i = choose|i: int| 0 <= i < tx_hashes@.len() && tx_hashes@[i] == CryptoHash(k);
            assert(self.chain_spec().head_spec().committed@[committed_before.len() + i] == CryptoHash(k));
        }
        assert(self.chain_spec().head_spec().committed@.subrange(
            committed_before.len() as int,
            self.chain_spec().head_spec().committed@.len() as int,
        ) =~= tx_hashes@);
        proof {
            lemma_block_committed_after_growth(*old(self), polled, *self, tx_hashes@);
        }
        assert forall|i: int|
            committed_before.len() <= i < self.chain_spec().head_spec().committed@.len() implies {
                let h = #[trigger] self.chain_spec().head_spec().committed@[i];
                old(self).mempool_spec()@.contains_key(h.0)
                    || !old(self).chain_spec().head_spec().committed@.contains(h)
            } by {
            let h = self.chain_spec().head_spec().committed@[i];
            assert(h == tx_hashes@[i - committed_before.len()]);
            assert(tx_hashes@.contains(h));
            assert(polled.mempool_spec()@.contains_key(h.0));
            assert(CryptoHash(h.0) == h);
        }
    }

    /// Makes blocks until the current height is above `height`. A configuration change that
    /// is scheduled for a height not above `height` is live afterwards.
    pub fn create_blocks_until(&mut self, height: Height)
        requires
            old(self).wf(),
            height.0 < u64::MAX - 1,
        ensures
            final(self).wf(),
            old(self).current_height_spec() > height.0 ==> *final(self) == *old(self),
            final(self).current_height_spec() == if old(self).current_height_spec() > height.0 {
                old(self).current_height_spec()
            } else {
                (height.0 + 1) as nat
            },
            forall|p: TestNetworkConfiguration|
                #[trigger] pending(old(self).proposal_spec(), p, old(self).current_height_spec())
                    && p.stored_spec().actual_from.0 <= height.0 ==> applied(p, final(self).network_spec())
                    && final(self).proposal_spec() is None,
    {
        let ghost start = *self;
        while self.current_height().0 <= height.0
            invariant
                self.wf(),
                height.0 < u64::MAX - 1,
                self.current_height_spec() >= start.current_height_spec(),
                start.current_height_spec() > height.0 ==> *self == start,
                self.current_height_spec() <= if start.current_height_spec() > height.0 {
                    start.current_height_spec()
                } else {
                    (height.0 + 1) as nat
                },
                forall|p: TestNetworkConfiguration|
                    #[trigger] pending(start.proposal_spec(), p, start.current_height_spec())
                        && p.stored_spec().actual_from.0 <= height.0 ==> (pending(self.proposal_spec(), p, self.current_height_spec())
                        || (applied(p, self.network_spec()) && self.proposal_spec() is None)),
            decreases height.0 + 1 - self.current_height_spec(),
        {
            let ghost before = *self;
            self.create_block();
            assert forall|p: TestNetworkConfiguration|
                #[trigger] pending(start.proposal_spec(), p, start.current_height_spec())
                    && p.stored_spec().actual_from.0 <= height.0 implies (pending(self.proposal_spec(), p, self.current_height_spec())
                    || (applied(p, self.network_spec()) && self.proposal_spec() is None)) by {
                if pending(before.proposal_spec(), p, before.current_height_spec()) {
                } else {
                    assert(before.proposal_spec() is None);
                }
            }
        }
    }

    /// Executes the transactions on top of the current state, as a block of the node under
    /// test would, and returns the resulting state without committing it. Transactions that
    /// are committed already are left out.
    pub fn probe_all(&self, transactions: Vec<Transaction>) -> (r: Snapshot)
        requires
            self.wf(),
            self.current_height_spec() < u64::MAX,
            self.network_spec().us_spec().role() is Some,
            !has_duplicates(
                hashes_of(uncommitted(transactions@, self.chain_spec().head_spec().committed@)),
            ),
        ensures
            ({
                let head = self.chain_spec().head_spec();
                let fresh = uncommitted(transactions@, head.committed@);
                &&& r.height.0 == head.height.0 + 1
                &&& r.committed@ == head.committed@ + hashes_of(fresh)
                &&& r.writes@ == head.writes@ + writes_of(fresh)
                &&& r.last_hash == block_hash_spec(
                    self.network_spec().us_spec().role()->0,
                    head.height,
                    head.last_hash,
                    hashes_of(fresh),
                )
            }),
    {
        let validator_id = match self.network.us().validator_id() {
            Some(id) => id,
            None => ValidatorId(0),
        };
        let height = self.blockchain.current_height();
        let ghost committed = self.chain_spec().head_spec().committed@;
        let mut fresh: Vec<Transaction> = Vec::new();
        let mut hashes: Vec<CryptoHash> = Vec::new();
        let mut i: usize = 0;
        while i < transactions.len()
            invariant
                i <= transactions@.len(),
                committed == self.chain_spec().head_spec().committed@,
                fresh@ == uncommitted(transactions@.subrange(0, i as int), committed),
                hashes@ == hashes_of(fresh@),
            decreases transactions@.len() - i,
        {
            let tx = transactions[i];
            let hash = tx.hash();
            assert(transactions@.subrange(0, i as int + 1).drop_last() =~= transactions@.subrange(
                0,
                i as int,
            ));
            if !self.blockchain.contains_transaction(&hash) {
                fresh.push(tx);
                hashes.push(hash);
            }
            i = i + 1;
            assert(hashes@ =~= hashes_of(fresh@));
        }
        assert(transactions@.subrange(0, i as int) =~= transactions@);
        let patch = self.blockchain.create_patch(validator_id, height, hashes.as_slice(), &fresh);
        let mut fork = self.blockchain.snapshot();
        fork.merge(&patch);
        fork
    }

    /// `probe_all` of one transaction.
    pub fn probe(&self, transaction: Transaction) -> (r: Snapshot)
        requires
            self.wf(),
            self.current_height_spec() < u64::MAX,
            self.network_spec().us_spec().role() is Some,
        ensures
            ({
                let head = self.chain_spec().head_spec();
                let fresh = uncommitted(seq![transaction], head.committed@);
                &&& r.height.0 == head.height.0 + 1
                &&& r.committed@ == head.committed@ + hashes_of(fresh)
                &&& r.writes@ == head.writes@ + writes_of(fresh)
                &&& r.last_hash == block_hash_spec(
                    self.network_spec().us_spec().role()->0,
                    head.height,
                    head.last_hash,
                    hashes_of(fresh),
                )
            }),
    {
        let txs: Vec<Transaction> = vec![transaction];
        assert(txs@ =~= seq![transaction]);
        proof {
            let committed = self.chain_spec().head_spec().committed@;
            assert(seq![transaction].drop_last() =~= Seq::<Transaction>::empty());
            assert(uncommitted(Seq::<Transaction>::empty(), committed) == Seq::<Transaction>::empty());
            assert(uncommitted(seq![transaction], committed).len() <= 1);
            assert(hashes_of(uncommitted(seq![transaction], committed)).len() <= 1);
        }
        self.probe_all(txs)
    }

    /// `probe_all`, or the reason it cannot run: an auditor under test, or two transactions
    /// with the same hash among those not committed.
    pub fn checked_probe_all(&self, transactions: Vec<Transaction>) -> (r: Result<Snapshot, ProbeError>)
        requires
            self.wf(),
            self.current_height_spec() < u64::MAX,
        ensures
            self.network_spec().us_spec().role() is None ==> r == Err::<Snapshot, ProbeError>(ProbeError::NotValidator),
            self.network_spec().us_spec().role() is Some ==> (r is Err <==> has_duplicates(
                hashes_of(uncommitted(transactions@, self.chain_spec().head_spec().committed@)),
            )),
            r matches Err(e) ==> (e == ProbeError::NotValidator <==> self.network_spec().us_spec().role() is None),
    {
        if self.network.us().validator_id().is_none() {
            return Err(ProbeError::NotValidator);
        }
        let ghost committed = self.chain_spec().head_spec().committed@;
        let mut hashes: Vec<CryptoHash> = Vec::new();
        let ghost mut fresh: Seq<Transaction> = Seq::empty();
        let mut i: usize = 0;
        while i < transactions.len()
            invariant
                i <= transactions@.len(),
                committed == self.chain_spec().head_spec().committed@,
                fresh == uncommitted(transactions@.subrange(0, i as int), committed),
                hashes@ == hashes_of(fresh),
            decreases transactions@.len() - i,
        {
            let hash = transactions[i].hash();
            assert(transactions@.subrange(0, i as int + 1).drop_last() =~= transactions@.subrange(
                0,
                i as int,
            ));
            if !self.blockchain.contains_transaction(&hash) {
                hashes.push(hash);
                proof {
                    fresh = fresh.push(transactions@[i as int]);
                }
            }
            i = i + 1;
            assert(hashes@ =~= hashes_of(fresh));
        }
        assert(transactions@.subrange(0, i as int) =~= transactions@);
        if find_duplicates(&hashes) {
            Err(ProbeError::DuplicateTransactions)
        } else {
            Ok(self.probe_all(transactions))
        }
    }

    /// Returns a copy of the live configuration, as a proposal to modify and schedule with
    /// `commit_configuration_change`.
    pub fn configuration_change_proposal(&self) -> (r: TestNetworkConfiguration)
        requires
            self.wf(),
        ensures
            ({
                let live = self.chain_spec().configs_spec()[crate::blockchain::actual_index(
                    self.chain_spec().configs_spec(),
                    self.chain_spec().head_spec().height.0,
                )];
                &&& r.us_spec() == self.network_spec().us_spec()
                &&& r.validators_spec() == self.network_spec().validators_spec()
                &&& r.stored_spec().actual_from == live.actual_from
                &&& r.stored_spec().validator_keys@ == live.validator_keys@
                &&& r.stored_spec().consensus == live.consensus
                &&& r.stored_spec().services@ == live.services@
                &&& exists|parts: Seq<Seq<u8>>|
                    parts.len() == 2 * live.services@.len()
                        && r.stored_spec().previous_cfg_hash.0 == digest_spec(
                        #[trigger] config_words(live, parts),
                    )
            }),
    {
        let stored = self.blockchain.actual_configuration();
        let ghost copy = stored;
        let r = TestNetworkConfiguration::from_parts(
            *self.network.us(),
            copy_nodes(self.network.validators()),
            stored,
        );
        proof {
            let live = self.chain_spec().configs_spec()[crate::blockchain::actual_index(
                self.chain_spec().configs_spec(),
                self.chain_spec().head_spec().height.0,
            )];
            let parts = choose|parts: Seq<Seq<u8>>|
                parts.len() == 2 * copy.services@.len()
                    && r.stored_spec().previous_cfg_hash.0 == digest_spec(
                    #[trigger] config_words(copy, parts),
                );
            assert(config_words(copy, parts) == config_words(live, parts));
        }
        r
    }

    /// Schedules a configuration change. Its height must be above the current one, no other
    /// change may be scheduled, and it names one to 65536 validators.
    pub fn commit_configuration_change(&mut self, proposal: TestNetworkConfiguration)
        requires
            old(self).wf(),
            old(self).current_height_spec() < proposal.stored_spec().actual_from.0,
            old(self).proposal_spec() is None,
            proposal_ok(proposal),
        ensures
            final(self).wf(),
            final(self).proposal_spec() == Some(ConfigurationProposalState::Uncommitted(proposal)),
            pending(final(self).proposal_spec(), proposal, final(self).current_height_spec()),
            final(self).chain_spec() == old(self).chain_spec(),
            final(self).network_spec() == old(self).network_spec(),
            final(self).mempool_spec() == old(self).mempool_spec(),
    {
        self.cfg_proposal = Some(ConfigurationProposalState::Uncommitted(proposal));
    }

    /// Returns a snapshot of the current state of the chain.
    pub fn snapshot(&self) -> (r: Snapshot)
        ensures
            r.same_as(self.chain_spec().head_spec()),
    {
        self.blockchain.snapshot()
    }

    /// Returns the current height: that of the next block.
    pub fn current_height(&self) -> (r: Height)
        ensures
            r == self.chain_spec().head_spec().height,
    {
        self.blockchain.current_height()
    }

    /// Returns the hash of the last committed block.
    pub fn last_hash(&self) -> (r: CryptoHash)
        ensures
            r == self.chain_spec().head_spec().last_hash,
    {
        self.blockchain.last_hash()
    }

    /// Returns the mempool.
    pub fn mempool(&self) -> (r: &Mempool)
        ensures
            *r == self.mempool_spec(),
    {
        &self.mempool
    }

    /// Returns the network.
    pub fn network(&self) -> (r: &TestNetwork)
        ensures
            *r == self.network_spec(),
    {
        &self.network
    }

    /// Returns the leader: always the first validator.
    pub fn leader(&self) -> (r: &TestNode)
        requires
            self.wf(),
        ensures
            *r == self.network_spec().validators_spec()[0],
    {
        &self.network.validators()[0]
    }

    /// Returns the number of votes that a Byzantine-fault-tolerant majority of the
    /// validators needs: more than two thirds.
    pub fn majority_count(&self) -> (r: usize)
        requires
            self.wf(),
        ensures
            r == self.network_spec().validators_spec().len() * 2 / 3 + 1,
    {
        let n = self.network.validators().len();
        n * 2 / 3 + 1
    }
}

} // verus!
