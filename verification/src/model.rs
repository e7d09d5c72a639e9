use crate::traits::{CipherMagicConstants, Unsigned16To64};
use vstd::prelude::*;

verus! {

/// Why a block was not processed.
#[derive(Clone, Copy, Debug, PartialEq, Eq, Structural)]
pub enum Error {
    /// The key is not as long as the engine was told it would be, or cannot
    /// be split into whole words.
    InvalidKeyLength,
    /// The block is not exactly two words long, or the engine's word size is
    /// not that of its word type.
    InvalidBlockLength,
}

/// What an engine is made of: the view of an `RC5`.
pub struct Params {
    /// The raw key.
    pub key: Seq<u8>,
    /// Bytes per word.
    pub words: nat,
    /// Number of rounds.
    pub rounds: nat,
    /// The length the key must have.
    pub bytes: nat,
}

/// The key is as long as announced and splits into whole words of `T`.
pub open spec fn key_ok<T: Unsigned16To64>(p: Params) -> bool {
    p.key.len() == p.bytes && p.key.len() % T::spec_size() == 0
}

/// The engine's word size is that of `T`, and the block holds two words.
pub open spec fn block_ok<T: Unsigned16To64>(p: Params, block: Seq<u8>) -> bool {
    p.words == T::spec_size() && block.len() == 2 * p.words
}

/// The key cut into words, little-endian, in order. An empty key gives the
/// single word zero.
pub open spec fn key_words<T: Unsigned16To64>(key: Seq<u8>) -> Seq<T> {
    if key.len() == 0 {
        seq![T::spec_min()]
    } else {
        Seq::new(
            key.len() / T::spec_size(),
            |i: int|
                T::spec_from_le_bytes(key.subrange(i * T::spec_size(), (i + 1) * T::spec_size())),
        )
    }
}

/// The table before mixing: entry `i` is `i * Q_W + P_W`. The values of the
/// two constants are stated by `words::lemma_magic_constants`.
pub open spec fn initial_table<T: Unsigned16To64 + CipherMagicConstants>(rounds: nat) -> Seq<T> {
    Seq::new(
        2 * (rounds + 1),
        |i: int| T::spec_from_nat(i as nat).spec_wrapping_mul(T::Q_W).spec_wrapping_add(T::P_W),
    )
}

/// The state of the key mixing: the table, the key words and the two
/// accumulators.
pub struct Mix<T> {
    pub s: Seq<T>,
    pub l: Seq<T>,
    pub a: T,
    pub b: T,
}

/// The state after `n` mixing steps, starting from table `s`, key words `l`
/// and both accumulators at zero. Step `k` (counting from zero) works on
/// entry `i = k mod s.len()` of the table and on key word `j = k mod l.len()`:
/// first `a` becomes `s[i] + a + b` rotated left by three, then `b` becomes
/// `l[j] + a + b` rotated left by `a + b`, with the new `a` and the old `b`;
/// `s[i]` takes the new `a` and `l[j]` the new `b`.
pub open spec fn mix<T: Unsigned16To64>(s: Seq<T>, l: Seq<T>, n: nat) -> Mix<T>
    decreases n,
{
    if n == 0 {
        Mix { s, l, a: T::spec_min(), b: T::spec_min() }
    } else {
        let m = mix(s, l, (n - 1) as nat);
        let i = (n - 1) % (s.len() as int);
        let j = (n - 1) % (l.len() as int);
        let a = m.s[i].spec_wrapping_add(m.a).spec_wrapping_add(m.b).spec_rotate_left(
            T::spec_from_nat(3),
        );
        let b = m.l[j].spec_wrapping_add(a).spec_wrapping_add(m.b).spec_rotate_left(
            a.spec_wrapping_add(m.b),
        );
        Mix { s: m.s.update(i, a), l: m.l.update(j, b), a, b }
    }
}

/// Number of mixing steps: three times the longer of the two sequences.
pub open spec fn mix_steps(table_len: nat, key_len: nat) -> nat {
    if table_len >= key_len {
        3 * table_len
    } else {
        3 * key_len
    }
}

/// The round subkeys: `2 * (rounds + 1)` words derived from the key.
pub open spec fn key_schedule<T: Unsigned16To64 + CipherMagicConstants>(
    key: Seq<u8>,
    rounds: nat,
) -> Seq<T> {
    let s = initial_table::<T>(rounds);
    let l = key_words::<T>(key);
    mix(s, l, mix_steps(s.len(), l.len())).s
}

/// The two words of a block after the first `r` rounds of encryption with
/// subkeys `s`. Round zero adds the first two subkeys.
pub open spec fn encrypt_words<T: Unsigned16To64>(s: Seq<T>, a: T, b: T, r: nat) -> (T, T)
    decreases r,
{
    if r == 0 {
        (a.spec_wrapping_add(s[0]), b.spec_wrapping_add(s[1]))
    } else {
        let (a0, b0) = encrypt_words(s, a, b, (r - 1) as nat);
        let a1 = a0.spec_xor(b0).spec_rotate_left(b0).spec_wrapping_add(s[2 * r as int]);
        let b1 = b0.spec_xor(a1).spec_rotate_left(a1).spec_wrapping_add(s[2 * r as int + 1]);
        (a1, b1)
    }
}

/// The two words of a block after rounds `r` down to zero have been undone.
pub open spec fn decrypt_words<T: Unsigned16To64>(s: Seq<T>, a: T, b: T, r: nat) -> (T, T)
    decreases r,
{
    if r == 0 {
        (a.spec_wrapping_sub(s[0]), b.spec_wrapping_sub(s[1]))
    } else {
        let b0 = b.spec_wrapping_sub(s[2 * r as int + 1]).spec_rotate_right(a).spec_xor(a);
        let a0 = a.spec_wrapping_sub(s[2 * r as int]).spec_rotate_right(b0).spec_xor(b0);
        decrypt_words(s, a0, b0, (r - 1) as nat)
    }
}

/// The first word of a block.
pub open spec fn block_a<T: Unsigned16To64>(block: Seq<u8>) -> T {
    T::spec_from_le_bytes(block.subrange(0, T::spec_size() as int))
}

/// The second word of a block.
pub open spec fn block_b<T: Unsigned16To64>(block: Seq<u8>) -> T {
    T::spec_from_le_bytes(block.subrange(T::spec_size() as int, 2 * T::spec_size() as int))
}

/// The block made of two words.
pub open spec fn block_of<T: Unsigned16To64>(words: (T, T)) -> Seq<u8> {
    words.0.spec_to_le_bytes() + words.1.spec_to_le_bytes()
}

/// The ciphertext of a block of two words under `key` with `rounds` rounds.
pub open spec fn encrypt_block<T: Unsigned16To64 + CipherMagicConstants>(
    key: Seq<u8>,
    rounds: nat,
    block: Seq<u8>,
) -> Seq<u8> {
    block_of(encrypt_words(key_schedule::<T>(key, rounds), block_a(block), block_b(block), rounds))
}

/// The plaintext of a block of two words under `key` with `rounds` rounds.
pub open spec fn decrypt_block<T: Unsigned16To64 + CipherMagicConstants>(
    key: Seq<u8>,
    rounds: nat,
    block: Seq<u8>,
) -> Seq<u8> {
    block_of(decrypt_words(key_schedule::<T>(key, rounds), block_a(block), block_b(block), rounds))
}

/// What encryption gives: the key is judged first, then the block.
pub open spec fn encode_result<T: Unsigned16To64 + CipherMagicConstants>(
    p: Params,
    block: Seq<u8>,
) -> Result<Seq<u8>, Error> {
    if !key_ok::<T>(p) {
        Err(Error::InvalidKeyLength)
    } else if !block_ok::<T>(p, block) {
        Err(Error::InvalidBlockLength)
    } else {
        Ok(encrypt_block::<T>(p.key, p.rounds, block))
    }
}

/// What decryption gives: the key is judged first, then the block.
pub open spec fn decode_result<T: Unsigned16To64 + CipherMagicConstants>(
    p: Params,
    block: Seq<u8>,
) -> Result<Seq<u8>, Error> {
    if !key_ok::<T>(p) {
        Err(Error::InvalidKeyLength)
    } else if !block_ok::<T>(p, block) {
        Err(Error::InvalidBlockLength)
    } else {
        Ok(decrypt_block::<T>(p.key, p.rounds, block))
    }
}

/// A result with its block seen as a sequence of bytes.
pub open spec fn seq_result(r: Result<Vec<u8>, Error>) -> Result<Seq<u8>, Error> {
    match r {
        Ok(block) => Ok(block@),
        Err(e) => Err(e),
    }
}

} // verus!
