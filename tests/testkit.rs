use exonum_testkit::api::ApiKind;
use exonum_testkit::blockchain::Transaction;
use exonum_testkit::network::TestNetwork;
use exonum_testkit::node::TestNode;
use exonum_testkit::testkit::{ProbeError, Service, TestKitBuilder};
use exonum_testkit::types::{Height, Round, ValidatorId};

fn tx(key: u64, value: u64) -> Transaction {
    Transaction { key, value }
}

#[test]
fn test_create_block_heights() {
    let mut testkit = TestKitBuilder::validator().create();
    assert_eq!(Height(1), testkit.current_height());
    testkit.create_block();
    assert_eq!(Height(2), testkit.current_height());
    testkit.create_blocks_until(Height(6));
    assert_eq!(Height(7), testkit.current_height());
}

#[test]
fn auditor_fixture() {
    let testkit = TestKitBuilder::auditor().create();
    let network = testkit.network();
    assert_eq!(network.us().validator_id(), None);
    assert_eq!(network.validators().len(), 1);
    assert_eq!(network.validators()[0].validator_id(), Some(ValidatorId(0)));
}

#[test]
fn with_validators_indexes_by_position() {
    let testkit = TestKitBuilder::validator().with_validators(4).create();
    let network = testkit.network();
    assert_eq!(network.validators().len(), 4);
    for (i, v) in network.validators().iter().enumerate() {
        assert_eq!(v.validator_id(), Some(ValidatorId(i as u16)));
    }
    assert_eq!(network.us().validator_id(), Some(ValidatorId(0)));
    assert_eq!(testkit.majority_count(), 3);
}

#[test]
fn probe_isolation() {
    let mut testkit = TestKitBuilder::validator().create();
    let t = tx(7, 42);
    assert!(testkit.api().send(t));
    testkit.poll_events();
    assert!(testkit.mempool().contains_key(&t.hash()));
    let height = testkit.current_height();
    let last_hash = testkit.last_hash();
    let snapshot = testkit.probe(t);
    assert_eq!(snapshot.get(7), Some(42));
    assert_eq!(snapshot.height, Height(2));
    assert_eq!(testkit.current_height(), height);
    assert_eq!(testkit.last_hash(), last_hash);
    assert!(testkit.mempool().contains_key(&t.hash()));
    assert_eq!(testkit.snapshot().get(7), None);
}

#[test]
fn probe_skips_committed_transactions() {
    let mut testkit = TestKitBuilder::validator().create();
    let t = tx(1, 10);
    testkit.create_block_with_transactions(vec![t]);
    let snapshot = testkit.probe_all(vec![tx(1, 11), t]);
    assert_eq!(snapshot.get(1), Some(11));
    assert_eq!(snapshot.committed.len(), 2);
}

#[test]
fn mempool_pruning() {
    let mut testkit = TestKitBuilder::validator().create();
    let t1 = tx(1, 1);
    let t2 = tx(2, 2);
    let api = testkit.api();
    assert!(api.send(t1));
    assert!(api.send(t2));
    testkit.poll_events();
    testkit.create_block_with_tx_hashes(&[t1.hash()]);
    assert!(!testkit.mempool().contains_key(&t1.hash()));
    assert!(testkit.mempool().contains_key(&t2.hash()));
    assert_eq!(testkit.snapshot().get(1), Some(1));
    assert_eq!(testkit.snapshot().get(2), None);
}

#[test]
fn duplicate_probe_is_refused() {
    let testkit = TestKitBuilder::validator().create();
    let t = tx(3, 3);
    let r = testkit.checked_probe_all(vec![t, t]);
    assert_eq!(r.err(), Some(ProbeError::DuplicateTransactions));
    let ok = testkit.checked_probe_all(vec![t]);
    assert!(ok.is_ok());
}

#[test]
fn auditor_cannot_probe() {
    let testkit = TestKitBuilder::auditor().create();
    let r = testkit.checked_probe_all(vec![tx(1, 1)]);
    assert_eq!(r.err(), Some(ProbeError::NotValidator));
}

#[test]
fn create_block_takes_whole_mempool() {
    let mut testkit = TestKitBuilder::validator().create();
    let api = testkit.api();
    assert!(api.send(tx(5, 50)));
    assert!(api.send(tx(6, 60)));
    testkit.create_block();
    assert_eq!(testkit.mempool().len(), 0);
    assert_eq!(testkit.snapshot().get(5), Some(50));
    assert_eq!(testkit.snapshot().get(6), Some(60));
    assert_eq!(testkit.current_height(), Height(2));
}

#[test]
fn committed_transaction_is_not_pooled_again() {
    let mut testkit = TestKitBuilder::validator().create();
    let t = tx(9, 9);
    testkit.create_block_with_transactions(vec![t]);
    assert!(testkit.snapshot().contains_transaction(&t.hash()));
    assert!(testkit.api().send(t));
    testkit.poll_events();
    assert!(!testkit.mempool().contains_key(&t.hash()));
}

#[test]
fn configuration_activation_timing() {
    let mut testkit = TestKitBuilder::validator().create();
    let h = testkit.current_height();
    let mut proposal = testkit.configuration_change_proposal();
    let us = *testkit.network().us();
    let newcomer = TestNode::new_validator(ValidatorId(1));
    proposal.set_validators(vec![us, newcomer]);
    proposal.set_actual_from(Height(h.0 + 1));
    testkit.commit_configuration_change(proposal);
    testkit.create_block();
    assert_eq!(testkit.network().validators().len(), 1);
    testkit.create_block();
    let network = testkit.network();
    assert_eq!(network.validators().len(), 2);
    assert_eq!(network.validators()[1], {
        let mut n = newcomer;
        n.change_role(Some(ValidatorId(1)));
        n
    });
    assert_eq!(network.us().validator_id(), Some(ValidatorId(0)));
}

#[test]
fn configuration_applied_after_blocks_until() {
    let mut testkit = TestKitBuilder::validator().with_validators(3).create();
    let mut proposal = testkit.configuration_change_proposal();
    let validators: Vec<TestNode> = testkit.network().validators().iter().rev().cloned().collect();
    proposal.set_validators(validators.clone());
    proposal.set_actual_from(Height(5));
    testkit.commit_configuration_change(proposal);
    testkit.create_blocks_until(Height(5));
    assert_eq!(testkit.current_height(), Height(6));
    let network = testkit.network();
    assert_eq!(network.validators()[0].consensus_public_key(), validators[0].consensus_public_key());
    assert_eq!(network.validators()[2].validator_id(), Some(ValidatorId(2)));
    assert_eq!(network.us().validator_id(), Some(ValidatorId(2)));
}

#[test]
fn service_config_round_trip() {
    let service = Service { name: "cfg".to_owned(), config: serde_json::Value::from(1) };
    let testkit = TestKitBuilder::validator().with_service(service).create();
    let mut proposal = testkit.configuration_change_proposal();
    assert_eq!(proposal.service_config("cfg"), Some(&serde_json::Value::from(1)));
    let value = serde_json::Value::String("hello".to_owned());
    proposal.set_service_config("id", value.clone());
    assert_eq!(proposal.service_config("id"), Some(&value));
    assert_eq!(proposal.service_config("cfg"), Some(&serde_json::Value::from(1)));
    proposal.set_service_config("cfg", serde_json::Value::Bool(true));
    assert_eq!(proposal.service_config("cfg"), Some(&serde_json::Value::Bool(true)));
    assert_eq!(proposal.service_config("missing"), None);
}

#[test]
fn proposal_links_to_live_configuration() {
    let testkit = TestKitBuilder::validator().create();
    let a = testkit.configuration_change_proposal();
    let b = testkit.configuration_change_proposal();
    assert_eq!(a.stored_configuration().previous_cfg_hash, b.stored_configuration().previous_cfg_hash);
    assert_ne!(a.stored_configuration().previous_cfg_hash.0, 0);
}

#[test]
fn network_update_roles() {
    let mut network = TestNetwork::new(3);
    let us = *network.us();
    let others: Vec<TestNode> = network.validators().iter().rev().cloned().collect();
    network.update(us, others);
    assert_eq!(network.us().validator_id(), Some(ValidatorId(2)));
    let auditor = TestNode::new_auditor();
    let list: Vec<TestNode> = network.validators().to_vec();
    network.update(auditor, list);
    assert_eq!(network.us().validator_id(), None);
    assert_eq!(network.service_public_key_of(ValidatorId(3)), None);
    assert_eq!(
        network.consensus_public_key_of(ValidatorId(0)),
        Some(network.validators()[0].consensus_public_key())
    );
}

#[test]
fn fresh_nodes_have_distinct_keys() {
    let a = TestNode::new_auditor();
    let b = TestNode::new_auditor();
    assert_ne!(a.consensus_public_key(), b.consensus_public_key());
    assert_ne!(a.service_keypair().0, b.service_keypair().0);
}

#[test]
fn height_and_round_helpers() {
    assert_eq!(Height::zero().0, 0);
    assert_eq!(Height(10).next().0, 11);
    assert_eq!(Height(10).previous().0, 9);
    let mut h = Height::zero();
    h.increment();
    assert_eq!(h.0, 1);
    let mut h = Height(20);
    h.decrement();
    assert_eq!(h.0, 19);
    assert_eq!(Round(20).next().0, 21);
    assert_eq!(Round(10).previous().0, 9);
    let mut r = Round(20);
    r.decrement();
    assert_eq!(r.0, 19);
    assert_eq!(ValidatorId::zero().0, 0);
    let mut iter = Round::zero().iter_to(Round(2));
    assert_eq!(iter.next(), Some(Round(0)));
    assert_eq!(iter.next(), Some(Round(1)));
    assert_eq!(iter.next(), None);
}

#[test]
fn api_prefixes() {
    assert_eq!(ApiKind::System.into_prefix(), "api/system");
    assert_eq!(ApiKind::Explorer.into_prefix(), "api/explorer");
    assert_eq!(ApiKind::Service("cryptocurrency").into_prefix(), "api/services/cryptocurrency");
}

#[test]
fn propose_is_signed_in_first_round() {
    let node = TestNode::new_validator(ValidatorId(0));
    let hashes = [tx(1, 2).hash()];
    let propose = node.create_propose(Height(3), &tx(0, 0).hash(), &hashes);
    assert_eq!(propose.round, Round(1));
    assert_eq!(propose.height, Height(3));
    assert_eq!(propose.tx_hashes, hashes.to_vec());
    let precommit = node.create_precommit(&propose, &tx(4, 4).hash());
    assert_eq!(precommit.propose_hash, propose.hash());
    assert_eq!(precommit.validator, ValidatorId(0));
}

#[test]
fn checked_block_drains_before_testing_hashes() {
    let mut testkit = TestKitBuilder::validator().create();
    let t1 = tx(11, 1);
    let t2 = tx(12, 2);
    assert!(testkit.api().send(t1));
    assert!(testkit.api().send(t2));
    assert!(testkit.checked_create_block_with_tx_hashes(&[t1.hash()]));
    assert_eq!(testkit.current_height(), Height(2));
    assert!(!testkit.mempool().contains_key(&t1.hash()));
    assert!(testkit.mempool().contains_key(&t2.hash()));
    assert!(!testkit.checked_create_block_with_tx_hashes(&[tx(13, 3).hash()]));
    assert_eq!(testkit.current_height(), Height(2));
    assert!(testkit.mempool().contains_key(&t2.hash()));
}

#[test]
fn blocks_until_below_current_height_makes_nothing() {
    let mut testkit = TestKitBuilder::validator().create();
    testkit.create_blocks_until(Height(3));
    let last_hash = testkit.last_hash();
    testkit.create_blocks_until(Height(2));
    assert_eq!(testkit.current_height(), Height(4));
    assert_eq!(testkit.last_hash(), last_hash);
}

#[test]
fn transaction_message_carries_the_transaction() {
    let t = tx(21, 22);
    match exonum_testkit::testkit::transaction_message(t) {
        exonum_testkit::testkit::ExternalMessage::Transaction(inner) => assert_eq!(inner, t),
        _ => panic!("wrong message"),
    }
}
