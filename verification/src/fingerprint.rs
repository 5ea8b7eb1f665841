//! 64-bit FNV-1a fingerprints of label names and label values.
//!
//! A fingerprint is the hash of the UTF-8 bytes of a sequence of strings,
//! fed to the hasher one string after the other. It is order-sensitive and
//! it is the identity under which configurations and queues are filed.
use fnv::FnvHasher;
use std::hash::Hasher;
use vstd::prelude::*;
use vstd::utf8::encode_utf8;

verus! {

/// The state of an FNV-1a hasher that has seen no input.
pub const FNV_OFFSET_BASIS: u64 = 0xcbf29ce484222325;

/// The multiplier of 64-bit FNV-1a.
pub const FNV_PRIME: u64 = 0x100000001b3;

/// One round of FNV-1a: xor the byte into the state, then multiply by the
/// prime, keeping the low 64 bits.
pub open spec fn fnv1a_step(hash: u64, byte: u8) -> u64 {
    (((hash ^ (byte as u64)) * FNV_PRIME) % 0x1_0000_0000_0000_0000) as u64
}

/// The state after `bytes` have been fed, in order, to a hasher in state `hash`.
pub open spec fn fnv1a(hash: u64, bytes: Seq<u8>) -> u64
    decreases bytes.len(),
{
    if bytes.len() == 0 {
        hash
    } else {
        fnv1a_step(fnv1a(hash, bytes.drop_last()), bytes.last())
    }
}

/// The state after the UTF-8 bytes of each string of `parts` have been fed,
/// in order, to a hasher in state `hash`.
pub open spec fn fingerprint_from(hash: u64, parts: Seq<Seq<char>>) -> u64
    decreases parts.len(),
{
    if parts.len() == 0 {
        hash
    } else {
        fnv1a(fingerprint_from(hash, parts.drop_last()), encode_utf8(parts.last()))
    }
}

/// The fingerprint of a sequence of strings.
pub open spec fn fingerprint(parts: Seq<Seq<char>>) -> u64 {
    fingerprint_from(FNV_OFFSET_BASIS, parts)
}

/// The bytes of the strings of `parts`, one string after the other.
pub open spec fn bytes_of(parts: Seq<Seq<char>>) -> Seq<u8>
    decreases parts.len(),
{
    if parts.len() == 0 {
        Seq::empty()
    } else {
        bytes_of(parts.drop_last()) + encode_utf8(parts.last())
    }
}

/// Feeding bytes in two runs is feeding them in one.
pub proof fn lemma_fnv1a_concat(hash: u64, head: Seq<u8>, tail: Seq<u8>)
    ensures
        fnv1a(hash, head + tail) == fnv1a(fnv1a(hash, head), tail),
    decreases tail.len(),
{
    if tail.len() == 0 {
        assert(head + tail =~= head);
    } else {
        lemma_fnv1a_concat(hash, head, tail.drop_last());
        assert((head + tail).drop_last() =~= head + tail.drop_last());
        assert((head + tail).last() == tail.last());
    }
}

/// A fingerprint reads the strings as one run of bytes: it does not tell
/// where one string ends and the next begins. Sequences of strings with
/// the same bytes in the same order have the same fingerprint.
pub proof fn lemma_fingerprint_of_bytes(hash: u64, parts: Seq<Seq<char>>)
    ensures
        fingerprint_from(hash, parts) == fnv1a(hash, bytes_of(parts)),
    decreases parts.len(),
{
    if parts.len() > 0 {
        lemma_fingerprint_of_bytes(hash, parts.drop_last());
        lemma_fnv1a_concat(hash, bytes_of(parts.drop_last()), encode_utf8(parts.last()));
    }
}

/// The strings of a slice of string slices, as sequences of characters.
pub open spec fn strs_view(labels: Seq<&str>) -> Seq<Seq<char>> {
    Seq::new(labels.len(), |i: int| labels[i]@)
}

/// The strings of a vector of strings, as sequences of characters.
pub open spec fn strings_view(labels: Seq<String>) -> Seq<Seq<char>> {
    Seq::new(labels.len(), |i: int| labels[i]@)
}

/// `FnvHasher::default` followed by `finish`: the state of a fresh hasher,
/// which the fnv crate fixes as the 64-bit FNV offset basis.
#[verifier::external_body]
fn fnv_initial() -> (state: u64)
    ensures
        state == FNV_OFFSET_BASIS,
{
    FnvHasher::default().finish()
}

/// `FnvHasher::write` on a hasher made by `with_key(state)`, read back with
/// `finish`: for every byte in order the crate xors the byte into the state
/// and multiplies by the FNV prime with wrap-around.
#[verifier::external_body]
fn fnv_write(state: u64, bytes: &[u8]) -> (next: u64)
    ensures
        next == fnv1a(state, bytes@),
{
    let mut hasher = FnvHasher::with_key(state);
    hasher.write(bytes);
    hasher.finish()
}

/// Feeds one string to a hasher in state `state`.
pub(crate) fn hash_str(state: u64, text: &str) -> (next: u64)
    ensures
        next == fnv1a(state, encode_utf8(text@)),
{
    fnv_write(state, text.as_bytes())
}

/// The state of a fresh hasher.
pub(crate) fn hash_start() -> (state: u64)
    ensures
        state == FNV_OFFSET_BASIS,
{
    fnv_initial()
}

/// Feeds every string of `labels`, in order, to a hasher in state `state`.
pub(crate) fn hash_strs(state: u64, labels: &[&str]) -> (next: u64)
    ensures
        next == fingerprint_from(state, strs_view(labels@)),
{
    let mut hash: u64 = state;
    let mut i: usize = 0;
    while i < labels.len()
        invariant
            i <= labels.len(),
            hash == fingerprint_from(state, strs_view(labels@).take(i as int)),
        decreases labels.len() - i,
    {
        proof {
            let next = strs_view(labels@).take(i + 1);
            assert(next.drop_last() == strs_view(labels@).take(i as int));
            assert(next.last() == labels@[i as int]@);
        }
        hash = hash_str(hash, labels[i]);
        i += 1;
    }
    proof {
        assert(strs_view(labels@).take(i as int) == strs_view(labels@));
    }
    hash
}

/// Feeds every string of `labels`, in order, to a hasher in state `state`.
pub(crate) fn hash_strings(state: u64, labels: &Vec<String>) -> (next: u64)
    ensures
        next == fingerprint_from(state, strings_view(labels@)),
{
    let mut hash: u64 = state;
    let mut i: usize = 0;
    while i < labels.len()
        invariant
            i <= labels.len(),
            hash == fingerprint_from(state, strings_view(labels@).take(i as int)),
        decreases labels.len() - i,
    {
        proof {
            let next = strings_view(labels@).take(i + 1);
            assert(next.drop_last() == strings_view(labels@).take(i as int));
            assert(next.last() == labels@[i as int]@);
        }
        hash = hash_str(hash, labels[i].as_str());
        i += 1;
    }
    proof {
        assert(strings_view(labels@).take(i as int) == strings_view(labels@));
    }
    hash
}

/// The fingerprint of the label values of one queue.
pub fn labels_fingerprint(labels: &[&str]) -> (key: u64)
    ensures
        key == fingerprint(strs_view(labels@)),
{
    hash_strs(hash_start(), labels)
}

} // verus!
