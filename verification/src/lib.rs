//! The RC5 block cipher, generic over the word width.
//!
//! An [`RC5`] engine holds a key and its parameters. Through
//! [`traits::Rc5CipherStream`] it encrypts and decrypts single blocks of two
//! words and derives the round subkeys. What each operation computes is
//! defined in [`model`]; [`laws`] proves that decryption inverts encryption.
use crate::model::{
    block_a, block_b, decrypt_words, encrypt_words, initial_table, key_words, mix, Error, Mix, Params,
};
use crate::traits::{CipherMagicConstants, Rc5CipherStream, Unsigned16To64};
use std::marker::PhantomData;
use vstd::arithmetic::div_mod::lemma_add_mod_noop_right;
use vstd::prelude::*;

pub mod laws;
pub mod model;
pub mod traits;
pub mod words;

verus! {

/// The RC5 block cipher over words of type `T`: a key, the number of rounds,
/// and the sizes that the key and the words are expected to have.
pub struct RC5<T: Unsigned16To64> {
    key: Vec<u8>,
    words: usize,
    rounds: usize,
    bytes: usize,
    data: PhantomData<T>,
}

impl<T: Unsigned16To64> View for RC5<T> {
    type V = Params;

    closed spec fn view(&self) -> Params {
        Params {
            key: self.key@,
            words: self.words as nat,
            rounds: self.rounds as nat,
            bytes: self.bytes as nat,
        }
    }
}

impl<T: Unsigned16To64> RC5<T> {
    /// An engine for `key`, which is to be `bytes` long, with words of `words`
    /// bytes and `rounds` rounds. Nothing is judged here: a key or a word size
    /// that does not fit shows when a block is processed.
    pub fn new(key: Vec<u8>, words: usize, rounds: usize, bytes: usize) -> (r: Self)
        ensures
            r@ == (Params {
                key: key@,
                words: words as nat,
                rounds: rounds as nat,
                bytes: bytes as nat,
            }),
    {
        RC5 { key, words, rounds, bytes, data: PhantomData }
    }
}

/// The step after `n` works on the entry after that of step `n`, going round.
proof fn lemma_next_index(n: int, len: int)
    requires
        n >= 0,
        len > 0,
    ensures
        (n + 1) % len == (n % len + 1) % len,
{
    lemma_add_mod_noop_right(1, n, len);
}

/// Chunk `c` of a sequence cut into `count` pieces of `size` items lies inside it.
proof fn lemma_chunk_bounds(len: int, size: int, count: int, c: int)
    by (nonlinear_arith)
    requires
        size > 0,
        len % size == 0,
        count == len / size,
        0 <= c < count,
    ensures
        0 <= c * size,
        c * size + size == (c + 1) * size,
        (c + 1) * size <= len,
{
}

impl<T: Unsigned16To64 + CipherMagicConstants + Copy> Rc5CipherStream<T> for RC5<T> {
    open spec fn params(&self) -> Params {
        self@
    }

    fn encode(&self, plaintext: Vec<u8>) -> (r: Result<Vec<u8>, Error>) {
        let size = std::mem::size_of::<T>();
        proof {
            T::lemma_size();
        }
        if self.key.len() != self.bytes || self.key.len() % size != 0 {
            return Err(Error::InvalidKeyLength);
        }
        if self.words != size || plaintext.len() != 2 * size {
            return Err(Error::InvalidBlockLength);
        }
        // get A block
        let mut a_block = T::copy_from_slice(plaintext.as_slice(), 0usize, self.words);
        let mut a_from_le_bytes = T::from_le_bytes(a_block);

        // get B block
        let mut b_block = T::copy_from_slice(plaintext.as_slice(), self.words, plaintext.len());
        let mut b_from_le_bytes = T::from_le_bytes(b_block);

        let s_table = self.generate_block_cipher();

        // round zero
        a_from_le_bytes = a_from_le_bytes.wrapping_add(s_table[0]);
        b_from_le_bytes = b_from_le_bytes.wrapping_add(s_table[1]);

        let mut i: usize = 1;
        while i <= self.rounds
            invariant
                1 <= i <= self.rounds + 1,
                s_table.len() == 2 * (self.rounds + 1),
                (a_from_le_bytes, b_from_le_bytes) == encrypt_words(
                    s_table@,
                    block_a::<T>(plaintext@),
                    block_b::<T>(plaintext@),
                    (i - 1) as nat,
                ),
            decreases self.rounds + 1 - i,
        {
            a_from_le_bytes = (a_from_le_bytes.xor(b_from_le_bytes)).rotate_left(
                b_from_le_bytes,
            ).wrapping_add(s_table[2 * i]);
            b_from_le_bytes = (b_from_le_bytes.xor(a_from_le_bytes)).rotate_left(
                a_from_le_bytes,
            ).wrapping_add(s_table[2 * i + 1]);
            i += 1;
        }

        a_block = a_from_le_bytes.to_le_bytes();
        b_block = b_from_le_bytes.to_le_bytes();

        let mut ciphertext = Vec::new();
        ciphertext.extend_from_slice(T::bytes_as_slice(&a_block));
        ciphertext.extend_from_slice(T::bytes_as_slice(&b_block));
        proof {
            T::lemma_from_to_le_bytes(a_from_le_bytes);
            T::lemma_from_to_le_bytes(b_from_le_bytes);
        }
        assert(ciphertext@ =~= a_block@ + b_block@);
        Ok(ciphertext)
    }

    fn decode(&self, plaintext: Vec<u8>) -> (r: Result<Vec<u8>, Error>) {
        let size = std::mem::size_of::<T>();
        proof {
            T::lemma_size();
        }
        if self.key.len() != self.bytes || self.key.len() % size != 0 {
            return Err(Error::InvalidKeyLength);
        }
        if self.words != size || plaintext.len() != 2 * size {
            return Err(Error::InvalidBlockLength);
        }
        // get A block
        let mut a_block = T::copy_from_slice(plaintext.as_slice(), 0usize, self.words);
        let mut a_from_le_bytes = T::from_le_bytes(a_block);

        // get B block
        let mut b_block = T::copy_from_slice(plaintext.as_slice(), self.words, plaintext.len());
        let mut b_from_le_bytes = T::from_le_bytes(b_block);

        let s_table = self.generate_block_cipher();

        let mut i: usize = self.rounds;
        while i >= 1
            invariant
                i <= self.rounds,
                s_table.len() == 2 * (self.rounds + 1),
                decrypt_words(
                    s_table@,
                    block_a::<T>(plaintext@),
                    block_b::<T>(plaintext@),
                    self.rounds as nat,
                ) == decrypt_words(s_table@, a_from_le_bytes, b_from_le_bytes, i as nat),
            decreases i,
        {
            b_from_le_bytes = b_from_le_bytes.wrapping_sub(s_table[2 * i + 1]).rotate_right(
                a_from_le_bytes,
            ).xor(a_from_le_bytes);
            a_from_le_bytes = a_from_le_bytes.wrapping_sub(s_table[2 * i]).rotate_right(
                b_from_le_bytes,
            ).xor(b_from_le_bytes);
            i -= 1;
        }

        // round zero
        a_from_le_bytes = a_from_le_bytes.wrapping_sub(s_table[0]);
        b_from_le_bytes = b_from_le_bytes.wrapping_sub(s_table[1]);

        a_block = a_from_le_bytes.to_le_bytes();
        b_block = b_from_le_bytes.to_le_bytes();

        let mut plaintext = Vec::new();
        plaintext.extend_from_slice(T::bytes_as_slice(&a_block));
        plaintext.extend_from_slice(T::bytes_as_slice(&b_block));
        proof {
            T::lemma_from_to_le_bytes(a_from_le_bytes);
            T::lemma_from_to_le_bytes(b_from_le_bytes);
        }
        assert(plaintext@ =~= a_block@ + b_block@);
        Ok(plaintext)
    }

    fn generate_block_cipher(&self) -> (s_table: Vec<T>) {
        let size = std::mem::size_of::<T>();
        proof {
            T::lemma_size();
        }
        let mut l: Vec<T> = Vec::new();
        if self.key.is_empty() {
            l.push(T::min());
            assert(l@ =~= key_words::<T>(self.key@));
        } else {
            let count = self.key.len() / size;
            let mut c: usize = 0;
            while c < count
                invariant
                    size == T::spec_size(),
                    size == 2 || size == 4 || size == 8,
                    0 < self.key@.len() <= usize::MAX,
                    self.key@.len() % (size as nat) == 0,
                    count == self.key@.len() / (size as nat),
                    c <= count,
                    l@.len() == c,
                    forall|k: int| 0 <= k < c ==> l@[k] == #[trigger] key_words::<T>(self.key@)[k],
                decreases count - c,
            {
                proof {
                    lemma_chunk_bounds(self.key@.len() as int, size as int, count as int, c as int);
                }
                let slice = T::copy_from_slice(self.key.as_slice(), c * size, c * size + size);
                l.push(T::from_le_bytes(slice));
                c += 1;
            }
            assert(l@ =~= key_words::<T>(self.key@));
        }

        let p_w = T::P_W;  // first magic number
        let q_w = T::Q_W;  // second magic number

        // two entries for each round and two for round zero; the table grows
        // until it has them, so its length is never computed ahead
        let mut s_table: Vec<T> = Vec::new();
        while s_table.len() / 2 <= self.rounds
            invariant
                s_table@.len() <= 2 * (self.rounds + 1),
                p_w == T::P_W,
                q_w == T::Q_W,
                forall|k: int|
                    0 <= k < s_table@.len() ==> s_table@[k] == #[trigger] initial_table::<T>(
                        self.rounds as nat,
                    )[k],
            decreases 2 * (self.rounds + 1) - s_table@.len(),
        {
            let x = s_table.len();
            s_table.push(T::from_usize(x).wrapping_mul(q_w).wrapping_add(p_w));
        }
        assert(s_table@ =~= initial_table::<T>(self.rounds as nat));
        let s_len = s_table.len();

        let mut i: usize = 0;
        let mut j: usize = 0;

        let mut a_block = T::min();
        let mut b_block = T::min();

        let l_len = l.len();
        let max_iters = if s_len >= l_len {
            s_len
        } else {
            l_len
        };

        let ghost s0 = s_table@;
        let ghost l0 = l@;
        let ghost mut done: nat = 0;
        let three = T::from_usize(3usize);

        let mut pass: usize = 0;
        while pass < 3
            invariant
                pass <= 3,
                done == pass * max_iters,
                s0.len() == s_len,
                l0.len() == l_len,
                s_len > 0,
                l_len > 0,
                three == T::spec_from_nat(3),
                s_table@.len() == s_len,
                l@.len() == l_len,
                i == done % (s_len as nat),
                j == done % (l_len as nat),
                mix(s0, l0, done) == (Mix { s: s_table@, l: l@, a: a_block, b: b_block }),
            decreases 3 - pass,
        {
            let mut k: usize = 0;
            while k < max_iters
                invariant
                    k <= max_iters,
                    done == pass * max_iters + k,
                    s0.len() == s_len,
                    l0.len() == l_len,
                    s_len > 0,
                    l_len > 0,
                    three == T::spec_from_nat(3),
                    s_table@.len() == s_len,
                    l@.len() == l_len,
                    i == done % (s_len as nat),
                    j == done % (l_len as nat),
                    mix(s0, l0, done) == (Mix { s: s_table@, l: l@, a: a_block, b: b_block }),
                decreases max_iters - k,
            {
                a_block = s_table[i].wrapping_add(a_block).wrapping_add(b_block).rotate_left(
                    three,
                );
                b_block = (l[j].wrapping_add(a_block).wrapping_add(b_block)).rotate_left(
                    a_block.wrapping_add(b_block),
                );

                s_table.set(i, a_block);
                l.set(j, b_block);

                proof {
                    lemma_next_index(done as int, s_len as int);
                    lemma_next_index(done as int, l_len as int);
                    done = done + 1;
                }
                i = (i + 1) % s_len;
                j = (j + 1) % l_len;
                k += 1;
            }
            pass += 1;
            assert(done == pass * max_iters) by (nonlinear_arith)
                requires
                    done == (pass - 1) * max_iters + max_iters,
            ;
        }

        s_table
    }
}

} // verus!
