use crate::model::{decode_result, encode_result, key_schedule, seq_result, Error, Params};
use vstd::prelude::*;

verus! {

/// An unsigned machine word of 16, 32 or 64 bits, with the arithmetic the
/// cipher is built from.
///
/// Every operation comes in two forms: a `spec_` function that says what the
/// operation means, and an executable method whose result is that value. The
/// `lemma_` functions are the algebraic laws the cipher's invertibility rests
/// on; each implementation proves them for its own width.
pub trait Unsigned16To64: Sized + Copy {
    /// The bytes of one word, least significant byte first.
    type Bytes: Copy + View<V = Seq<u8>>;

    /// Number of bytes in a word.
    spec fn spec_size() -> nat;

    /// The word all of whose bits are zero.
    spec fn spec_min() -> Self;

    /// The word that holds `n` modulo two to the word's width.
    spec fn spec_from_nat(n: nat) -> Self;

    /// The word whose little-endian bytes are the first `spec_size()` items of `bytes`.
    spec fn spec_from_le_bytes(bytes: Seq<u8>) -> Self;

    /// The little-endian bytes of the word.
    spec fn spec_to_le_bytes(self) -> Seq<u8>;

    /// Sum modulo two to the word's width.
    spec fn spec_wrapping_add(self, other: Self) -> Self;

    /// Difference modulo two to the word's width.
    spec fn spec_wrapping_sub(self, other: Self) -> Self;

    /// Product modulo two to the word's width.
    spec fn spec_wrapping_mul(self, other: Self) -> Self;

    /// The bits of `self` moved up by `other` places, modulo the width; those
    /// that leave at the top come back in at the bottom.
    spec fn spec_rotate_left(self, other: Self) -> Self;

    /// The bits of `self` moved down by `other` places, modulo the width; those
    /// that leave at the bottom come back in at the top.
    spec fn spec_rotate_right(self, other: Self) -> Self;

    /// Bitwise exclusive or.
    spec fn spec_xor(self, other: Self) -> Self;

    /// A word has two, four or eight bytes, and that is its size in memory.
    proof fn lemma_size()
        ensures
            Self::spec_size() == 2 || Self::spec_size() == 4 || Self::spec_size() == 8,
            Self::spec_size() == vstd::layout::size_of::<Self>(),
    ;

    /// Decoding undoes encoding.
    proof fn lemma_from_to_le_bytes(word: Self)
        ensures
            word.spec_to_le_bytes().len() == Self::spec_size(),
            Self::spec_from_le_bytes(word.spec_to_le_bytes()) == word,
    ;

    /// Encoding undoes decoding.
    proof fn lemma_to_from_le_bytes(bytes: Seq<u8>)
        requires
            bytes.len() == Self::spec_size(),
        ensures
            Self::spec_from_le_bytes(bytes).spec_to_le_bytes() == bytes,
    ;

    /// Addition and subtraction of the same word undo each other.
    proof fn lemma_add_sub(a: Self, b: Self)
        ensures
            a.spec_wrapping_add(b).spec_wrapping_sub(b) == a,
            a.spec_wrapping_sub(b).spec_wrapping_add(b) == a,
    ;

    /// Rotations by the same amount in opposite directions undo each other.
    proof fn lemma_rotate(a: Self, n: Self)
        ensures
            a.spec_rotate_left(n).spec_rotate_right(n) == a,
            a.spec_rotate_right(n).spec_rotate_left(n) == a,
    ;

    /// Exclusive or with the same word twice changes nothing.
    proof fn lemma_xor_twice(a: Self, b: Self)
        ensures
            a.spec_xor(b).spec_xor(b) == a,
    ;

    /// Copies `plaintext[start..end]`, which must be one word long.
    fn copy_from_slice(plaintext: &[u8], start: usize, end: usize) -> (r: Self::Bytes)
        requires
            start <= end <= plaintext@.len(),
            end - start == Self::spec_size(),
        ensures
            r@ == plaintext@.subrange(start as int, end as int),
    ;

    /// The bytes as a slice.
    fn bytes_as_slice(bytes: &Self::Bytes) -> (r: &[u8])
        ensures
            r@ == bytes@,
    ;

    /// The word with these little-endian bytes.
    fn from_le_bytes(bytes: Self::Bytes) -> (r: Self)
        ensures
            r == Self::spec_from_le_bytes(bytes@),
    ;

    /// The word's bytes, least significant first.
    fn to_le_bytes(self) -> (r: Self::Bytes)
        ensures
            r@ == self.spec_to_le_bytes(),
    ;

    /// Addition that wraps round at the word's width.
    fn wrapping_add(self, other: Self) -> (r: Self)
        ensures
            r == self.spec_wrapping_add(other),
    ;

    /// Subtraction that wraps round at the word's width.
    fn wrapping_sub(self, other: Self) -> (r: Self)
        ensures
            r == self.spec_wrapping_sub(other),
    ;

    /// Multiplication that wraps round at the word's width.
    fn wrapping_mul(self, other: Self) -> (r: Self)
        ensures
            r == self.spec_wrapping_mul(other),
    ;

    /// Rotation to the left; of `other` only its value modulo the width counts.
    fn rotate_left(self, other: Self) -> (r: Self)
        ensures
            r == self.spec_rotate_left(other),
    ;

    /// Rotation to the right; of `other` only its value modulo the width counts.
    fn rotate_right(self, other: Self) -> (r: Self)
        ensures
            r == self.spec_rotate_right(other),
    ;

    /// Bitwise exclusive or.
    fn xor(self, other: Self) -> (r: Self)
        ensures
            r == self.spec_xor(other),
    ;

    /// The smallest word, zero.
    fn min() -> (r: Self)
        ensures
            r == Self::spec_min(),
    ;

    /// The low bits of `val`.
    fn from_usize(val: usize) -> (r: Self)
        ensures
            r == Self::spec_from_nat(val as nat),
    ;
}

/// The two constants from which the key schedule starts, one pair for each
/// word width: `P_W` comes from Euler's number, `Q_W` from the golden ratio.
///
/// | width | `P_W`              | `Q_W`              |
/// |-------|--------------------|--------------------|
/// | 16    | `b7e1`             | `9e37`             |
/// | 32    | `b7e15163`         | `9e3779b9`         |
/// | 64    | `b7e151628aed2a6b` | `9e3779b97f47c15`  |
///
/// `words::lemma_magic_constants` states these values for proofs.
pub trait CipherMagicConstants: Sized {
    const P_W: Self;

    const Q_W: Self;
}

/// A block cipher stream over words of type `T`: one block in, one block out.
pub trait Rc5CipherStream<T: Unsigned16To64 + CipherMagicConstants> {
    /// The key and the parameters that the stream works with.
    spec fn params(&self) -> Params;

    /// Encrypts one block of two words.
    fn encode(&self, plaintext: Vec<u8>) -> (r: Result<Vec<u8>, Error>)
        ensures
            seq_result(r) == encode_result::<T>(self.params(), plaintext@),
            r matches Ok(ciphertext) ==> ciphertext@.len() == plaintext@.len(),
    ;

    /// Decrypts one block of two words.
    fn decode(&self, plaintext: Vec<u8>) -> (r: Result<Vec<u8>, Error>)
        ensures
            seq_result(r) == decode_result::<T>(self.params(), plaintext@),
            r matches Ok(block) ==> block@.len() == plaintext@.len(),
    ;

    /// Derives the round subkeys from the key.
    fn generate_block_cipher(&self) -> (s_table: Vec<T>)
        requires
            self.params().key.len() % T::spec_size() == 0,
        ensures
            s_table@ == key_schedule::<T>(self.params().key, self.params().rounds),
            s_table@.len() == 2 * (self.params().rounds + 1),
    ;
}

} // verus!
