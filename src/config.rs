//! Consensus parameters, stored configurations and configuration proposals.

use vstd::prelude::*;
use crate::crypto::{digest, digest_spec, CryptoHash, PublicKey};
use crate::network::{max_validators, reindexed};
use crate::node::{TestNode, ValidatorKeys};
use crate::types::{Height, ValidatorId};

verus! {

/// The public keys of each node of `vs`, in order.
pub open spec fn keys_of(vs: Seq<TestNode>) -> Seq<ValidatorKeys> {
    vs.map_values(|n: TestNode| ValidatorKeys { consensus_key: n.consensus_pk(), service_key: n.service_pk() })
}

/// Consensus algorithm parameters.
#[derive(Debug, Copy, Clone, PartialEq, Eq, Structural)]
pub struct ConsensusConfig {
    /// Interval between rounds, in milliseconds.
    pub round_timeout: u64,
    /// Period of sending a status message, in milliseconds.
    pub status_timeout: u64,
    /// Peer exchange timeout, in milliseconds.
    pub peers_timeout: u64,
    /// Maximum number of transactions per block.
    pub txs_block_limit: u32,
}

impl ConsensusConfig {
    /// The parameters a new network starts with.
    pub open spec fn default_spec() -> ConsensusConfig {
        ConsensusConfig {
            round_timeout: 3000,
            status_timeout: 5000,
            peers_timeout: 10000,
            txs_block_limit: 1000,
        }
    }

    /// Returns the parameters a new network starts with.
    pub fn default_config() -> (r: ConsensusConfig)
        ensures
            r == ConsensusConfig::default_spec(),
    {
        ConsensusConfig {
            round_timeout: 3000,
            status_timeout: 5000,
            peers_timeout: 10000,
            txs_block_limit: 1000,
        }
    }
}

/// What the genesis block is made from.
#[derive(Debug, Clone)]
pub struct GenesisConfig {
    /// Consensus parameters.
    pub consensus: ConsensusConfig,
    /// Keys of the validators, in order.
    pub validator_keys: Vec<ValidatorKeys>,
}

/// Relies on serde_json's `Value` as an opaque JSON document: the harness stores and
/// hands back such values, never looks inside.
#[verifier::external_type_specification]
#[verifier::external_body]
pub struct ExJsonValue(serde_json::Value);

/// Relies on the `Clone` that serde_json derives for `Value`: the copy is the same document.
pub assume_specification[ <serde_json::Value as Clone>::clone ](v: &serde_json::Value) -> (r:
    serde_json::Value)
    ensures
        r == *v,
;

/// The configuration of one service, by its name.
#[derive(Debug)]
pub struct ServiceConfig {
    /// Name of the service.
    pub name: String,
    /// Its configuration, as JSON.
    pub value: serde_json::Value,
}

/// The value of the first entry of `s` named `id`, if any.
pub open spec fn service_lookup(s: Seq<ServiceConfig>, id: Seq<char>) -> Option<serde_json::Value>
    decreases s.len(),
{
    if s.len() == 0 {
        None
    } else if s[0].name@ == id {
        Some(s[0].value)
    } else {
        service_lookup(s.drop_first(), id)
    }
}

proof fn lemma_lookup_suffix(s: Seq<ServiceConfig>, i: int, id: Seq<char>)
    requires
        0 <= i < s.len(),
        s[i].name@ != id,
    ensures
        service_lookup(s.subrange(i, s.len() as int), id) == service_lookup(
            s.subrange(i + 1, s.len() as int),
            id,
        ),
{
    assert(s.subrange(i, s.len() as int).drop_first() =~= s.subrange(i + 1, s.len() as int));
}

proof fn lemma_lookup_update(s: Seq<ServiceConfig>, j: int, e: ServiceConfig, id: Seq<char>)
    requires
        0 <= j < s.len(),
        s[j].name@ == e.name@,
        forall|k: int| 0 <= k < j ==> (#[trigger] s[k]).name@ != e.name@,
    ensures
        service_lookup(s.update(j, e), id) == if id == e.name@ {
            Some(e.value)
        } else {
            service_lookup(s, id)
        },
    decreases j,
{
    if j > 0 {
        assert(s.update(j, e).drop_first() =~= s.drop_first().update(j - 1, e));
        assert forall|k: int| 0 <= k < j - 1 implies (#[trigger] s.drop_first()[k]).name@
            != e.name@ by {
            assert(s.drop_first()[k] == s[k + 1]);
        }
        lemma_lookup_update(s.drop_first(), j - 1, e, id);
        assert(s[0].name@ != e.name@);
    } else {
        assert(s.update(j, e).drop_first() =~= s.drop_first());
    }
}

proof fn lemma_lookup_push(s: Seq<ServiceConfig>, e: ServiceConfig, id: Seq<char>)
    requires
        forall|k: int| 0 <= k < s.len() ==> (#[trigger] s[k]).name@ != e.name@,
    ensures
        service_lookup(s.push(e), id) == if id == e.name@ {
            Some(e.value)
        } else {
            service_lookup(s, id)
        },
    decreases s.len(),
{
    if s.len() > 0 {
        assert(s.push(e).drop_first() =~= s.drop_first().push(e));
        assert forall|k: int| 0 <= k < s.drop_first().len() implies (
        #[trigger] s.drop_first()[k]).name@ != e.name@ by {
            assert(s.drop_first()[k] == s[k + 1]);
        }
        lemma_lookup_push(s.drop_first(), e, id);
    } else {
        assert(s.push(e).drop_first() =~= s);
    }
}

/// The on-chain record of a configuration: consensus parameters, validator keys and the
/// configuration of each service, linked to its predecessor by hash.
#[derive(Debug)]
pub struct StoredConfiguration {
    /// Hash of the configuration this one follows.
    pub previous_cfg_hash: CryptoHash,
    /// Height from which this configuration is the live one.
    pub actual_from: Height,
    /// Keys of the validators, in order.
    pub validator_keys: Vec<ValidatorKeys>,
    /// Consensus parameters.
    pub consensus: ConsensusConfig,
    /// Service configurations; a name's first entry is the one that counts.
    pub services: Vec<ServiceConfig>,
}

/// Appends the length of `bytes`, then each byte, to `words`.
fn push_bytes(words: &mut Vec<u64>, bytes: &[u8])
    ensures
        final(words)@ == old(words)@ + bytes_words(bytes@),
{
    words.push(bytes.len() as u64);
    let ghost start = words@;
    let mut i: usize = 0;
    while i < bytes.len()
        invariant
            i <= bytes@.len(),
            words@ == start + bytes@.subrange(0, i as int).map_values(|b: u8| b as u64),
        decreases bytes@.len() - i,
    {
        words.push(bytes[i] as u64);
        i = i + 1;
        assert(words@ =~= start + bytes@.subrange(0, i as int).map_values(|b: u8| b as u64));
    }
    assert(bytes@.subrange(0, i as int) =~= bytes@);
    assert(words@ =~= old(words)@ + bytes_words(bytes@));
}

impl StoredConfiguration {
    /// `self` and `o` hold the same configuration.
    pub open spec fn same_as(&self, o: StoredConfiguration) -> bool {
        &&& self.previous_cfg_hash == o.previous_cfg_hash
        &&& self.actual_from == o.actual_from
        &&& self.validator_keys@ == o.validator_keys@
        &&& self.consensus == o.consensus
        &&& self.services@ == o.services@
    }

    /// The first configuration of a chain: no predecessor, live from height zero, with the
    /// services' initial configurations.
    pub fn from_genesis(genesis: &GenesisConfig, services: Vec<ServiceConfig>) -> (r:
        StoredConfiguration)
        ensures
            r.previous_cfg_hash == CryptoHash(0),
            r.actual_from == Height(0),
            r.validator_keys@ == genesis.validator_keys@,
            r.consensus == genesis.consensus,
            r.services@ == services@,
    {
        StoredConfiguration {
            previous_cfg_hash: CryptoHash(0),
            actual_from: Height(0),
            validator_keys: copy_keys(&genesis.validator_keys),
            consensus: genesis.consensus,
            services,
        }
    }

    /// Returns a copy of the configuration.
    pub fn copy(&self) -> (r: StoredConfiguration)
        ensures
            r.same_as(*self),
    {
        let mut services: Vec<ServiceConfig> = Vec::new();
        let mut i: usize = 0;
        while i < self.services.len()
            invariant
                i <= self.services@.len(),
                services@ == self.services@.subrange(0, i as int),
            decreases self.services@.len() - i,
        {
            let entry = ServiceConfig {
                name: self.services[i].name.clone(),
                value: self.services[i].value.clone(),
            };
            services.push(entry);
            i = i + 1;
            assert(services@ =~= self.services@.subrange(0, i as int));
        }
        assert(self.services@.subrange(0, i as int) =~= self.services@);
        StoredConfiguration {
            previous_cfg_hash: self.previous_cfg_hash,
            actual_from: self.actual_from,
            validator_keys: copy_keys(&self.validator_keys),
            consensus: self.consensus,
            services,
        }
    }

    /// Hash of the configuration: the fold of `config_words`, where each service's name and
    /// JSON text enter as their bytes.
    pub fn hash(&self) -> (r: CryptoHash)
        ensures
            exists|parts: Seq<Seq<u8>>|
                parts.len() == 2 * self.services@.len() && r.0 == digest_spec(
                    #[trigger] config_words(*self, parts),
                ),
    {
        let mut words: Vec<u64> = vec![
            self.previous_cfg_hash.0,
            self.actual_from.0,
            self.consensus.round_timeout,
            self.consensus.status_timeout,
            self.consensus.peers_timeout,
            self.consensus.txs_block_limit as u64,
        ];
        let ghost head = words@;
        let mut i: usize = 0;
        while i < self.validator_keys.len()
            invariant
                i <= self.validator_keys@.len(),
                words@ == head + key_words(self.validator_keys@.subrange(0, i as int)),
            decreases self.validator_keys@.len() - i,
        {
            words.push(self.validator_keys[i].consensus_key.0);
            words.push(self.validator_keys[i].service_key.0);
            i = i + 1;
            assert(self.validator_keys@.subrange(0, i as int).drop_last() =~= self.validator_keys@.subrange(0, i as int - 1));
            assert(words@ =~= head + key_words(self.validator_keys@.subrange(0, i as int)));
        }
        assert(self.validator_keys@.subrange(0, i as int) =~= self.validator_keys@);
        let ghost keyed = words@;
        let ghost mut parts: Seq<Seq<u8>> = Seq::empty();
        let mut j: usize = 0;
        while j < self.services.len()
            invariant
                j <= self.services@.len(),
                parts.len() == 2 * j,
                words@ == keyed + parts_words(parts),
            decreases self.services@.len() - j,
        {
            let ghost p0 = parts;
            let ghost w0 = words@;
            let name = self.services[j].name.as_str().as_bytes();
            push_bytes(&mut words, name);
            let ghost p1 = p0.push(name@);
            assert(p1.drop_last() =~= p0);
            assert(parts_words(p1) == parts_words(p0) + bytes_words(name@));
            assert(words@ =~= keyed + parts_words(p1));
            let text = self.services[j].value.to_string();
            let bytes = text.as_str().as_bytes();
            push_bytes(&mut words, bytes);
            let ghost p2 = p1.push(bytes@);
            assert(p2.drop_last() =~= p1);
            assert(parts_words(p2) == parts_words(p1) + bytes_words(bytes@));
            assert(words@ =~= keyed + parts_words(p2));
            proof {
                parts = p2;
            }
            j = j + 1;
        }
        assert(words@ =~= config_words(*self, parts));
        digest(&words)
    }
}

/// The words of a list of keys: each key's consensus then service key.
pub open spec fn key_words(keys: Seq<ValidatorKeys>) -> Seq<u64>
    decreases keys.len(),
{
    if keys.len() == 0 {
        Seq::empty()
    } else {
        key_words(keys.drop_last()) + seq![keys.last().consensus_key.0, keys.last().service_key.0]
    }
}

/// The words of a byte string: its length, then each byte.
pub open spec fn bytes_words(b: Seq<u8>) -> Seq<u64> {
    seq![b.len() as u64] + b.map_values(|x: u8| x as u64)
}

/// The words of byte strings, one after the other.
pub open spec fn parts_words(parts: Seq<Seq<u8>>) -> Seq<u64>
    decreases parts.len(),
{
    if parts.len() == 0 {
        Seq::empty()
    } else {
        parts_words(parts.drop_last()) + bytes_words(parts.last())
    }
}

/// The words a configuration's hash covers: its previous hash, its height, its consensus
/// parameters, its validator keys, then `parts`, the bytes of each service's name and
/// JSON text.
pub open spec fn config_words(c: StoredConfiguration, parts: Seq<Seq<u8>>) -> Seq<u64> {
    seq![
        c.previous_cfg_hash.0,
        c.actual_from.0,
        c.consensus.round_timeout,
        c.consensus.status_timeout,
        c.consensus.peers_timeout,
        c.consensus.txs_block_limit as u64,
    ] + key_words(c.validator_keys@) + parts_words(parts)
}

/// Copies a list of keys.
pub fn copy_keys(src: &Vec<ValidatorKeys>) -> (r: Vec<ValidatorKeys>)
    ensures
        r@ == src@,
{
    let mut out: Vec<ValidatorKeys> = Vec::new();
    let mut i: usize = 0;
    while i < src.len()
        invariant
            i <= src@.len(),
            out@ == src@.subrange(0, i as int),
        decreases src@.len() - i,
    {
        out.push(src[i]);
        i = i + 1;
        assert(out@ =~= src@.subrange(0, i as int));
    }
    assert(out@ =~= src@);
    out
}

/// The index of the first node of `vs` whose service key is `key`, if any.
pub open spec fn service_role_in(key: PublicKey, vs: Seq<TestNode>) -> Option<ValidatorId>
    decreases vs.len(),
{
    if vs.len() == 0 {
        None
    } else {
        match service_role_in(key, vs.drop_last()) {
            Some(v) => Some(v),
            None => if vs.last().service_pk() == key {
                Some(ValidatorId((vs.len() - 1) as u16))
            } else {
                None
            },
        }
    }
}

proof fn lemma_service_role_same_keys(key: PublicKey, a: Seq<TestNode>, b: Seq<TestNode>)
    requires
        a.len() == b.len(),
        forall|i: int| 0 <= i < a.len() ==> (#[trigger] a[i]).service_pk() == b[i].service_pk(),
    ensures
        service_role_in(key, a) == service_role_in(key, b),
    decreases a.len(),
{
    if a.len() > 0 {
        assert forall|i: int| 0 <= i < a.drop_last().len() implies (#[trigger] a.drop_last()[i]).service_pk()
            == b.drop_last()[i].service_pk() by {
            assert(a.drop_last()[i] == a[i] && b.drop_last()[i] == b[i]);
        }
        lemma_service_role_same_keys(key, a.drop_last(), b.drop_last());
    }
}

/// A configuration of the test network: the node under test, the validators, and the
/// stored configuration that goes on chain.
#[derive(Debug)]
pub struct TestNetworkConfiguration {
    us: TestNode,
    validators: Vec<TestNode>,
    stored_configuration: StoredConfiguration,
}

impl TestNetworkConfiguration {
    /// The node under test.
    pub closed spec fn us_spec(&self) -> TestNode {
        self.us
    }

    /// The validators, in order.
    pub closed spec fn validators_spec(&self) -> Seq<TestNode> {
        self.validators@
    }

    /// The stored configuration.
    pub closed spec fn stored_spec(&self) -> StoredConfiguration {
        self.stored_configuration
    }

    /// Assembles a configuration that follows `stored_configuration`: the result's
    /// `previous_cfg_hash` is the hash of `stored_configuration`.
    pub fn from_parts(
        us: TestNode,
        validators: Vec<TestNode>,
        stored_configuration: StoredConfiguration,
    ) -> (r: Self)
        ensures
            r.us_spec() == us,
            r.validators_spec() == validators@,
            r.stored_spec().actual_from == stored_configuration.actual_from,
            r.stored_spec().validator_keys@ == stored_configuration.validator_keys@,
            r.stored_spec().consensus == stored_configuration.consensus,
            r.stored_spec().services@ == stored_configuration.services@,
            exists|parts: Seq<Seq<u8>>|
                parts.len() == 2 * stored_configuration.services@.len()
                    && r.stored_spec().previous_cfg_hash.0 == digest_spec(
                    #[trigger] config_words(stored_configuration, parts),
                ),
    {
        let prev_hash = stored_configuration.hash();
        let mut stored_configuration = stored_configuration;
        stored_configuration.previous_cfg_hash = prev_hash;
        TestNetworkConfiguration { us, validators, stored_configuration }
    }

    /// Returns the node under test.
    pub fn us(&self) -> (r: &TestNode)
        ensures
            *r == self.us_spec(),
    {
        &self.us
    }

    /// Sets the node under test; its index becomes that of the first validator with its
    /// service key, or none.
    pub fn set_us(&mut self, us: TestNode)
        requires
            old(self).validators_spec().len() <= max_validators(),
        ensures
            final(self).us_spec().with_role(
                us,
                service_role_in(us.service_pk(), old(self).validators_spec()),
            ),
            final(self).validators_spec() == old(self).validators_spec(),
            final(self).stored_spec().same_as(old(self).stored_spec()),
    {
        self.us = us;
        self.update_our_role();
    }

    /// Returns the validators.
    pub fn validators(&self) -> (r: &[TestNode])
        ensures
            r@ == self.validators_spec(),
    {
        self.validators.as_slice()
    }

    /// Returns the consensus parameters.
    pub fn consensus_configuration(&self) -> (r: &ConsensusConfig)
        ensures
            *r == self.stored_spec().consensus,
    {
        &self.stored_configuration.consensus
    }

    /// Returns the height from which this configuration is the live one.
    pub fn actual_from(&self) -> (r: Height)
        ensures
            r == self.stored_spec().actual_from,
    {
        self.stored_configuration.actual_from
    }

    /// Sets the height from which this configuration is the live one.
    pub fn set_actual_from(&mut self, actual_from: Height)
        ensures
            final(self).stored_spec().actual_from == actual_from,
            final(self).stored_spec().previous_cfg_hash == old(self).stored_spec().previous_cfg_hash,
            final(self).stored_spec().validator_keys@ == old(self).stored_spec().validator_keys@,
            final(self).stored_spec().consensus == old(self).stored_spec().consensus,
            final(self).stored_spec().services@ == old(self).stored_spec().services@,
            final(self).us_spec() == old(self).us_spec(),
            final(self).validators_spec() == old(self).validators_spec(),
    {
        self.stored_configuration.actual_from = actual_from;
    }

    /// Sets the consensus parameters.
    pub fn set_consensus_configuration(&mut self, consensus: ConsensusConfig)
        ensures
            final(self).stored_spec().consensus == consensus,
            final(self).stored_spec().previous_cfg_hash == old(self).stored_spec().previous_cfg_hash,
            final(self).stored_spec().actual_from == old(self).stored_spec().actual_from,
            final(self).stored_spec().validator_keys@ == old(self).stored_spec().validator_keys@,
            final(self).stored_spec().services@ == old(self).stored_spec().services@,
            final(self).us_spec() == old(self).us_spec(),
            final(self).validators_spec() == old(self).validators_spec(),
    {
        self.stored_configuration.consensus = consensus;
    }

    /// Sets the validators: each gets its position as index, the stored configuration lists
    /// their keys, and the node under test gets the index of the first validator with its
    /// service key, or none.
    pub fn set_validators(&mut self, validators: Vec<TestNode>)
        requires
            validators@.len() <= max_validators(),
        ensures
            reindexed(validators@, final(self).validators_spec()),
            final(self).stored_spec().validator_keys@ == keys_of(validators@),
            final(self).us_spec().with_role(
                old(self).us_spec(),
                service_role_in(old(self).us_spec().service_pk(), validators@),
            ),
            final(self).stored_spec().previous_cfg_hash == old(self).stored_spec().previous_cfg_hash,
            final(self).stored_spec().actual_from == old(self).stored_spec().actual_from,
            final(self).stored_spec().consensus == old(self).stored_spec().consensus,
            final(self).stored_spec().services@ == old(self).stored_spec().services@,
    {
        let ghost us_node = self.us;
        let mut out: Vec<TestNode> = Vec::new();
        let mut keys: Vec<ValidatorKeys> = Vec::new();
        let mut i: usize = 0;
        while i < validators.len()
            invariant
                i <= validators@.len() <= max_validators(),
                reindexed(validators@.subrange(0, i as int), out@),
                keys@ == keys_of(validators@.subrange(0, i as int)),
            decreases validators@.len() - i,
        {
            let mut node = validators[i];
            node.change_role(Some(ValidatorId(i as u16)));
            keys.push(ValidatorKeys::from_node(&node));
            out.push(node);
            i = i + 1;
            assert(keys@ =~= keys_of(validators@.subrange(0, i as int)));
        }
        assert(validators@.subrange(0, i as int) =~= validators@);
        proof {
            assert forall|k: int| 0 <= k < validators@.len() implies (#[trigger] validators@[k]).service_pk()
                == out@[k].service_pk() by {
                assert(out@[k].with_role(validators@[k], Some(ValidatorId(k as u16))));
            }
            lemma_service_role_same_keys(us_node.service_pk(), validators@, out@);
        }
        self.validators = out;
        self.stored_configuration.validator_keys = keys;
        self.update_our_role();
    }

    /// Returns the configuration of the service named `id`, if there is one.
    pub fn service_config(&self, id: &str) -> (r: Option<&serde_json::Value>)
        ensures
            service_lookup(self.stored_spec().services@, id@) == match r {
                Some(v) => Some(*v),
                None => None,
            },
    {
        let key = id.to_owned();
        let mut i: usize = 0;
        let ghost all = self.stored_configuration.services@;
        assert(all.subrange(0, all.len() as int) =~= all);
        while i < self.stored_configuration.services.len()
            invariant
                i <= all.len(),
                all == self.stored_configuration.services@,
                key@ == id@,
                service_lookup(all, id@) == service_lookup(all.subrange(i as int, all.len() as int), id@),
            decreases all.len() - i,
        {
            if self.stored_configuration.services[i].name == key {
                let ghost rest = all.subrange(i as int, all.len() as int);
                assert(rest[0] == all[i as int]);
                return Some(&self.stored_configuration.services[i].value);
            }
            proof {
                lemma_lookup_suffix(all, i as int, id@);
            }
            i = i + 1;
        }
        None
    }

    /// Sets the configuration of the service named `id`; the others stay.
    pub fn set_service_config(&mut self, id: &str, config: serde_json::Value)
        ensures
            forall|name: Seq<char>|
                #[trigger] service_lookup(final(self).stored_spec().services@, name) == if name
                    == id@ {
                    Some(config)
                } else {
                    service_lookup(old(self).stored_spec().services@, name)
                },
            final(self).stored_spec().previous_cfg_hash == old(self).stored_spec().previous_cfg_hash,
            final(self).stored_spec().actual_from == old(self).stored_spec().actual_from,
            final(self).stored_spec().validator_keys@ == old(self).stored_spec().validator_keys@,
            final(self).stored_spec().consensus == old(self).stored_spec().consensus,
            final(self).us_spec() == old(self).us_spec(),
            final(self).validators_spec() == old(self).validators_spec(),
    {
        let entry = ServiceConfig { name: id.to_owned(), value: config };
        let mut i: usize = 0;
        while i < self.stored_configuration.services.len()
            invariant
                i <= self.stored_configuration.services@.len(),
                entry.name@ == id@,
                entry.value == config,
                *self == *old(self),
                forall|k: int| 0 <= k < i ==> (#[trigger] self.stored_configuration.services@[k]).name@ != id@,
            decreases self.stored_configuration.services@.len() - i,
        {
            if self.stored_configuration.services[i].name == entry.name {
                let ghost before = self.stored_configuration.services@;
                proof {
                    assert forall|name: Seq<char>| #[trigger] service_lookup(before.update(i as int, entry), name) == if name == id@ {
                        Some(config)
                    } else {
                        service_lookup(before, name)
                    } by {
                        lemma_lookup_update(before, i as int, entry, name);
                    }
                }
                self.stored_configuration.services.set(i, entry);
                return;
            }
            i = i + 1;
        }
        let ghost before = self.stored_configuration.services@;
        proof {
            assert forall|name: Seq<char>| #[trigger] service_lookup(before.push(entry), name) == if name == id@ {
                Some(config)
            } else {
                service_lookup(before, name)
            } by {
                lemma_lookup_push(before, entry, name);
            }
        }
        self.stored_configuration.services.push(entry);
    }

    /// Returns the stored configuration.
    pub fn stored_configuration(&self) -> (r: &StoredConfiguration)
        ensures
            *r == self.stored_spec(),
    {
        &self.stored_configuration
    }

    /// Gives the node under test the index of the first validator with its service key, or none.
    pub fn update_our_role(&mut self)
        requires
            old(self).validators_spec().len() <= max_validators(),
        ensures
            final(self).us_spec().with_role(
                old(self).us_spec(),
                service_role_in(old(self).us_spec().service_pk(), old(self).validators_spec()),
            ),
            final(self).validators_spec() == old(self).validators_spec(),
            final(self).stored_spec() == old(self).stored_spec(),
    {
        let key = self.us.service_keypair().0;
        let mut role: Option<ValidatorId> = None;
        let mut i: usize = 0;
        while i < self.validators.len()
            invariant
                i <= self.validators@.len() <= max_validators(),
                key == self.us.service_pk(),
                role == service_role_in(key, self.validators@.subrange(0, i as int)),
            decreases self.validators@.len() - i,
        {
            if role.is_none() && self.validators[i].service_keypair().0 == key {
                role = Some(ValidatorId(i as u16));
            }
            i = i + 1;
            assert(self.validators@.subrange(0, i as int).drop_last() =~= self.validators@.subrange(
                0,
                i as int - 1,
            ));
        }
        assert(self.validators@.subrange(0, i as int) =~= self.validators@);
        self.us.change_role(role);
    }
}

/// A service configuration written with `set_service_config` is what `service_config`
/// reads back under the same name, and the configurations under other names stay.
pub proof fn lemma_service_config_round_trip(
    before: TestNetworkConfiguration,
    after: TestNetworkConfiguration,
    id: Seq<char>,
    config: serde_json::Value,
    other: Seq<char>,
)
    requires
        forall|name: Seq<char>|
            #[trigger] service_lookup(after.stored_spec().services@, name) == if name == id {
                Some(config)
            } else {
                service_lookup(before.stored_spec().services@, name)
            },
        other != id,
    ensures
        service_lookup(after.stored_spec().services@, id) == Some(config),
        service_lookup(after.stored_spec().services@, other) == service_lookup(
            before.stored_spec().services@,
            other,
        ),
{
    assert(service_lookup(after.stored_spec().services@, id) == Some(config));
    assert(service_lookup(after.stored_spec().services@, other) == service_lookup(
        before.stored_spec().services@,
        other,
    ));
}

} // verus!
