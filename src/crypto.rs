//! Keys and content hashes of the emulated network.
//!
//! A hash here is a 64-bit word folded over the words that describe a value; a
//! signature is the hash of a message folded with the signer's secret key.

use std::collections::hash_map::RandomState;
use std::hash::BuildHasher;
use vstd::prelude::*;

verus! {

/// CryptoHash of a transaction, block, message or configuration.
#[derive(Debug, Copy, Clone, PartialEq, Eq, Structural, PartialOrd, Ord, Hash)]
pub struct CryptoHash(pub u64);

/// Public half of a keypair.
#[derive(Debug, Copy, Clone, PartialEq, Eq, Structural, PartialOrd, Ord, Hash)]
pub struct PublicKey(pub u64);

/// Secret half of a keypair.
#[derive(Debug, Copy, Clone, PartialEq, Eq, Structural, PartialOrd, Ord, Hash)]
pub struct SecretKey(pub u64);

/// Multiplier of the word fold.
pub const MIX_FACTOR: u64 = 0x100000001b3;

/// Offset the word fold starts from.
pub const MIX_SEED: u64 = 0xcbf29ce484222325;

/// One step of the word fold.
pub open spec fn mix(acc: u64, word: u64) -> u64 {
    acc.wrapping_mul(MIX_FACTOR).wrapping_add(word)
}

/// The fold of `words` from `acc`, first word first.
pub open spec fn fold_words(acc: u64, words: Seq<u64>) -> u64
    decreases words.len(),
{
    if words.len() == 0 {
        acc
    } else {
        mix(fold_words(acc, words.drop_last()), words.last())
    }
}

/// The hash of a sequence of words.
pub open spec fn digest_spec(words: Seq<u64>) -> u64 {
    fold_words(MIX_SEED, words)
}

/// Hashes a sequence of words.
pub fn digest(words: &Vec<u64>) -> (r: CryptoHash)
    ensures
        r.0 == digest_spec(words@),
{
    let mut acc: u64 = MIX_SEED;
    let mut i: usize = 0;
    while i < words.len()
        invariant
            i <= words@.len(),
            acc == fold_words(MIX_SEED, words@.subrange(0, i as int)),
        decreases words@.len() - i,
    {
        assert(words@.subrange(0, i as int + 1).drop_last() == words@.subrange(0, i as int));
        acc = acc.wrapping_mul(MIX_FACTOR).wrapping_add(words[i]);
        i = i + 1;
    }
    assert(words@.subrange(0, i as int) == words@);
    CryptoHash(acc)
}

/// The signature of the message with hash `msg` under the secret key `key`.
pub open spec fn sign_spec(key: SecretKey, msg: CryptoHash) -> CryptoHash {
    CryptoHash(digest_spec(seq![key.0, msg.0]))
}

/// Signs the message with hash `msg` under the secret key `key`.
pub fn sign(key: &SecretKey, msg: &CryptoHash) -> (r: CryptoHash)
    ensures
        r == sign_spec(*key, *msg),
{
    let words = vec![key.0, msg.0];
    digest(&words)
}

/// Relies on std's `RandomState::new`: a state seeded with fresh random keys.
pub assume_specification[ std::collections::hash_map::RandomState::new ]() -> RandomState;

/// Relies on std's `BuildHasher::hash_one` on a `RandomState`: the hash of one value under
/// the state's random keys. Nothing is promised of it.
#[verifier::external_body]
fn hash_zero(state: &RandomState) -> (r: u64) {
    state.hash_one(0u8)
}

/// A word that nobody can tell in advance: zero hashed under a freshly seeded state.
fn random_word() -> (r: u64) {
    let state = RandomState::new();
    hash_zero(&state)
}

/// Generates a fresh keypair. The keys are random: nothing is promised of them.
pub fn gen_keypair() -> (r: (PublicKey, SecretKey)) {
    let public_word = random_word();
    let secret_word = random_word();
    (PublicKey(public_word), SecretKey(secret_word))
}

} // verus!
