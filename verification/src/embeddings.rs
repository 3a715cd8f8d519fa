//! Embedding vectors as bytes.
//!
//! A vector is kept as the bit patterns of its numbers, each a word of 32
//! bits. It is stored as four bytes for each word, the least significant
//! byte first. What the numbers mean is not this module's business.

use byteorder::{ByteOrder, LittleEndian};
use vstd::prelude::*;

verus! {

/// The four bytes of a word, the least significant first.
pub open spec fn le_bytes(word: u32) -> Seq<u8> {
    seq![
        (word % 256) as u8,
        (word / 256 % 256) as u8,
        (word / 65536 % 256) as u8,
        (word / 16777216) as u8,
    ]
}

/// The word whose bytes, the least significant first, are the first four
/// of `bytes`.
pub open spec fn le_word(bytes: Seq<u8>) -> u32 {
    (bytes[0] + 256 * bytes[1] + 65536 * bytes[2] + 16777216 * bytes[3]) as u32
}

/// The bytes of a vector: those of its words, one word after the other.
pub open spec fn encoded(words: Seq<u32>) -> Seq<u8>
    decreases words.len(),
{
    if words.len() == 0 {
        Seq::empty()
    } else {
        encoded(words.drop_last()) + le_bytes(words.last())
    }
}

/// The vector that `bytes` hold: one word for every four bytes; up to
/// three bytes at the end that make no word are left out.
pub open spec fn decoded(bytes: Seq<u8>) -> Seq<u32> {
    Seq::new((bytes.len() / 4) as nat, |i: int| le_word(bytes.subrange(4 * i, 4 * i + 4)))
}

/// `byteorder::LittleEndian::write_u32` into a buffer of four bytes: the
/// bytes of the word, the least significant first.
#[verifier::external_body]
fn write_word(word: u32) -> (r: [u8; 4])
    ensures
        r@ == le_bytes(word),
{
    let mut buf = [0u8; 4];
    LittleEndian::write_u32(&mut buf, word);
    buf
}

/// `byteorder::LittleEndian::read_u32` on the bytes from `at` on: the word
/// whose bytes, the least significant first, are the four bytes at `at`.
#[verifier::external_body]
fn read_word(bytes: &[u8], at: usize) -> (r: u32)
    requires
        at + 4 <= bytes@.len(),
    ensures
        r == le_word(bytes@.subrange(at as int, at + 4)),
{
    LittleEndian::read_u32(&bytes[at..])
}

/// A word is read back from its bytes.
pub proof fn lemma_word_round_trip(word: u32)
    ensures
        le_word(le_bytes(word)) == word,
{
    let w = word as int;
    assert(w == w % 256 + 256 * (w / 256 % 256) + 65536 * (w / 65536 % 256) + 16777216 * (w
        / 16777216));
}

/// A vector takes four bytes for each word.
pub proof fn lemma_encoded_len(words: Seq<u32>)
    ensures
        encoded(words).len() == 4 * words.len(),
    decreases words.len(),
{
    if words.len() > 0 {
        lemma_encoded_len(words.drop_last());
    }
}

/// The bytes of word `i` of a vector stand at `4 * i`.
pub proof fn lemma_encoded_at(words: Seq<u32>, i: int)
    requires
        0 <= i < words.len(),
    ensures
        encoded(words).len() == 4 * words.len(),
        encoded(words).subrange(4 * i, 4 * i + 4) == le_bytes(words[i]),
    decreases words.len(),
{
    lemma_encoded_len(words);
    lemma_encoded_len(words.drop_last());
    let head = encoded(words.drop_last());
    if i < words.len() - 1 {
        lemma_encoded_at(words.drop_last(), i);
        assert(encoded(words).subrange(4 * i, 4 * i + 4) =~= head.subrange(4 * i, 4 * i + 4));
    } else {
        assert(encoded(words).subrange(4 * i, 4 * i + 4) =~= le_bytes(words.last()));
    }
}

/// A stored vector is read back as it was stored.
pub proof fn law_round_trip(words: Seq<u32>)
    ensures
        decoded(encoded(words)) == words,
{
    lemma_encoded_len(words);
    assert forall|i: int| 0 <= i < words.len() implies decoded(encoded(words))[i] == words[i] by {
        lemma_encoded_at(words, i);
        lemma_word_round_trip(words[i]);
    }
    assert(decoded(encoded(words)) =~= words);
}

/// The bytes that store the vector `embedding`.
pub fn embedding_to_bytes(embedding: &[u32]) -> (r: Vec<u8>)
    ensures
        r@ == encoded(embedding@),
{
    let mut bytes: Vec<u8> = Vec::new();
    let mut i: usize = 0;
    assert(embedding@.take(0) =~= Seq::<u32>::empty());
    while i < embedding.len()
        invariant
            i <= embedding.len(),
            bytes@ == encoded(embedding@.take(i as int)),
        decreases embedding.len() - i,
    {
        let word = write_word(embedding[i]);
        let ghost before = bytes@;
        bytes.push(word[0]);
        bytes.push(word[1]);
        bytes.push(word[2]);
        bytes.push(word[3]);
        proof {
            assert(embedding@.take(i + 1).drop_last() == embedding@.take(i as int));
            assert(embedding@.take(i + 1).last() == embedding@[i as int]);
            assert(bytes@ =~= before + le_bytes(embedding@[i as int]));
        }
        i += 1;
    }
    assert(embedding@.take(embedding.len() as int) == embedding@);
    bytes
}

/// The vector that `bytes` store.
pub fn bytes_to_embedding(bytes: &[u8]) -> (r: Vec<u32>)
    ensures
        r@ == decoded(bytes@),
{
    let mut embedding: Vec<u32> = Vec::new();
    let n = bytes.len();
    let count = n / 4;
    let mut i: usize = 0;
    while i < count
        invariant
            i <= count,
            n == bytes@.len(),
            count == n / 4,
            embedding@ == decoded(bytes@).take(i as int),
        decreases count - i,
    {
        let word = read_word(bytes, 4 * i);
        embedding.push(word);
        assert(embedding@ =~= decoded(bytes@).take(i + 1));
        i += 1;
    }
    assert(decoded(bytes@).take(count as int) == decoded(bytes@));
    embedding
}

} // verus!
