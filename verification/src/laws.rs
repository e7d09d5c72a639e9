use crate::model::{
    block_a, block_b, block_of, block_ok, decode_result, decrypt_block, decrypt_words,
    encode_result, encrypt_block, encrypt_words, initial_table, key_ok, key_schedule, key_words,
    mix, mix_steps, Error, Params,
};
use crate::traits::{CipherMagicConstants, Unsigned16To64};
use vstd::prelude::*;

verus! {

/// Mixing changes the entries of the table and of the key words, never how
/// many there are.
pub proof fn lemma_mix_len<T: Unsigned16To64>(s: Seq<T>, l: Seq<T>, n: nat)
    ensures
        s.len() > 0 ==> mix(s, l, n).s.len() == s.len(),
        l.len() > 0 ==> mix(s, l, n).l.len() == l.len(),
    decreases n,
{
    if n > 0 {
        lemma_mix_len(s, l, (n - 1) as nat);
    }
}

/// Cutting a key into words loses nothing of it: two keys of the same whole
/// number of words that give the same words are the same key. So every bit of
/// the key reaches the mixing; what the mixing makes of it, no law here says.
pub proof fn lemma_key_words_one_to_one<T: Unsigned16To64>(first: Seq<u8>, second: Seq<u8>)
    requires
        first.len() == second.len(),
        first.len() % T::spec_size() == 0,
        key_words::<T>(first) == key_words::<T>(second),
    ensures
        first == second,
{
    T::lemma_size();
    let size = T::spec_size() as int;
    assert forall|x: int| 0 <= x < first.len() implies first[x] == second[x] by {
        let i = x / size;
        let len = first.len() as int;
        assert(0 <= i * size <= x < (i + 1) * size <= len && i < len / size)
            by (nonlinear_arith)
            requires
                size > 0,
                0 <= x < len,
                len % size == 0,
                i == x / size,
        ;
        let a = first.subrange(i * size, (i + 1) * size);
        let b = second.subrange(i * size, (i + 1) * size);
        assert(key_words::<T>(first)[i] == T::spec_from_le_bytes(a));
        assert(key_words::<T>(second)[i] == T::spec_from_le_bytes(b));
        T::lemma_to_from_le_bytes(a);
        T::lemma_to_from_le_bytes(b);
        assert(a[x - i * size] == first[x]);
        assert(b[x - i * size] == second[x]);
    }
    assert(first =~= second);
}

/// The key schedule has two subkeys for each round and two for round zero.
pub proof fn lemma_key_schedule_len<T: Unsigned16To64 + CipherMagicConstants>(
    key: Seq<u8>,
    rounds: nat,
)
    ensures
        key_schedule::<T>(key, rounds).len() == 2 * (rounds + 1),
{
    let s = initial_table::<T>(rounds);
    let l = key_words::<T>(key);
    lemma_mix_len(s, l, mix_steps(s.len(), l.len()));
}

/// Undoing `r` rounds after doing them gives the two words back, whatever
/// the subkeys are.
pub proof fn lemma_decrypt_encrypt_words<T: Unsigned16To64>(s: Seq<T>, a: T, b: T, r: nat)
    ensures
        ({
            let c = encrypt_words(s, a, b, r);
            decrypt_words(s, c.0, c.1, r) == (a, b)
        }),
    decreases r,
{
    if r == 0 {
        T::lemma_add_sub(a, s[0]);
        T::lemma_add_sub(b, s[1]);
    } else {
        let (a0, b0) = encrypt_words(s, a, b, (r - 1) as nat);
        let a1 = a0.spec_xor(b0).spec_rotate_left(b0).spec_wrapping_add(s[2 * r as int]);
        let b1 = b0.spec_xor(a1).spec_rotate_left(a1).spec_wrapping_add(s[2 * r as int + 1]);
        T::lemma_add_sub(b0.spec_xor(a1).spec_rotate_left(a1), s[2 * r as int + 1]);
        T::lemma_rotate(b0.spec_xor(a1), a1);
        T::lemma_xor_twice(b0, a1);
        T::lemma_add_sub(a0.spec_xor(b0).spec_rotate_left(b0), s[2 * r as int]);
        T::lemma_rotate(a0.spec_xor(b0), b0);
        T::lemma_xor_twice(a0, b0);
        lemma_decrypt_encrypt_words(s, a, b, (r - 1) as nat);
    }
}

/// Doing `r` rounds after undoing them gives the two words back, whatever
/// the subkeys are.
pub proof fn lemma_encrypt_decrypt_words<T: Unsigned16To64>(s: Seq<T>, a: T, b: T, r: nat)
    ensures
        ({
            let p = decrypt_words(s, a, b, r);
            encrypt_words(s, p.0, p.1, r) == (a, b)
        }),
    decreases r,
{
    if r == 0 {
        T::lemma_add_sub(a, s[0]);
        T::lemma_add_sub(b, s[1]);
    } else {
        let b0 = b.spec_wrapping_sub(s[2 * r as int + 1]).spec_rotate_right(a).spec_xor(a);
        let a0 = a.spec_wrapping_sub(s[2 * r as int]).spec_rotate_right(b0).spec_xor(b0);
        lemma_encrypt_decrypt_words(s, a0, b0, (r - 1) as nat);
        T::lemma_xor_twice(a.spec_wrapping_sub(s[2 * r as int]).spec_rotate_right(b0), b0);
        T::lemma_rotate(a.spec_wrapping_sub(s[2 * r as int]), b0);
        T::lemma_add_sub(a, s[2 * r as int]);
        T::lemma_xor_twice(b.spec_wrapping_sub(s[2 * r as int + 1]).spec_rotate_right(a), a);
        T::lemma_rotate(b.spec_wrapping_sub(s[2 * r as int + 1]), a);
        T::lemma_add_sub(b, s[2 * r as int + 1]);
    }
}

/// A block made of two words splits into those two words.
pub proof fn lemma_block_words<T: Unsigned16To64>(a: T, b: T)
    ensures
        block_of((a, b)).len() == 2 * T::spec_size(),
        block_a::<T>(block_of((a, b))) == a,
        block_b::<T>(block_of((a, b))) == b,
{
    T::lemma_from_to_le_bytes(a);
    T::lemma_from_to_le_bytes(b);
    let block = block_of((a, b));
    let size = T::spec_size() as int;
    assert(block.subrange(0, size) =~= a.spec_to_le_bytes());
    assert(block.subrange(size, 2 * size) =~= b.spec_to_le_bytes());
}

/// A block of two words is made of the two words it splits into.
pub proof fn lemma_words_block<T: Unsigned16To64>(block: Seq<u8>)
    requires
        block.len() == 2 * T::spec_size(),
    ensures
        block_of((block_a::<T>(block), block_b::<T>(block))) == block,
{
    let size = T::spec_size() as int;
    T::lemma_to_from_le_bytes(block.subrange(0, size));
    T::lemma_to_from_le_bytes(block.subrange(size, 2 * size));
    assert(block.subrange(0, size) + block.subrange(size, 2 * size) =~= block);
}

/// Round trip: for every key, every number of rounds and every block of two
/// words, decrypting the ciphertext gives the plaintext back, and encrypting
/// the plaintext of a block gives that block back. So on blocks of two words
/// encryption is one-to-one and onto, and keeps the length.
pub proof fn lemma_block_round_trip<T: Unsigned16To64 + CipherMagicConstants>(
    key: Seq<u8>,
    rounds: nat,
    block: Seq<u8>,
)
    requires
        block.len() == 2 * T::spec_size(),
    ensures
        encrypt_block::<T>(key, rounds, block).len() == block.len(),
        decrypt_block::<T>(key, rounds, block).len() == block.len(),
        decrypt_block::<T>(key, rounds, encrypt_block::<T>(key, rounds, block)) == block,
        encrypt_block::<T>(key, rounds, decrypt_block::<T>(key, rounds, block)) == block,
{
    let s = key_schedule::<T>(key, rounds);
    let a = block_a::<T>(block);
    let b = block_b::<T>(block);
    lemma_words_block::<T>(block);
    let c = encrypt_words(s, a, b, rounds);
    lemma_block_words(c.0, c.1);
    lemma_decrypt_encrypt_words(s, a, b, rounds);
    let p = decrypt_words(s, a, b, rounds);
    lemma_block_words(p.0, p.1);
    lemma_encrypt_decrypt_words(s, a, b, rounds);
}

/// Under one key, two blocks of two words with the same ciphertext are the
/// same block.
pub proof fn lemma_encrypt_one_to_one<T: Unsigned16To64 + CipherMagicConstants>(
    key: Seq<u8>,
    rounds: nat,
    first: Seq<u8>,
    second: Seq<u8>,
)
    requires
        first.len() == 2 * T::spec_size(),
        second.len() == 2 * T::spec_size(),
        encrypt_block::<T>(key, rounds, first) == encrypt_block::<T>(key, rounds, second),
    ensures
        first == second,
{
    lemma_block_round_trip::<T>(key, rounds, first);
    lemma_block_round_trip::<T>(key, rounds, second);
}

/// Round trip through an engine: where the key and the block fit, encoding
/// succeeds, and decoding what it gave succeeds with the block that went in.
pub proof fn lemma_decode_encode<T: Unsigned16To64 + CipherMagicConstants>(
    p: Params,
    block: Seq<u8>,
)
    requires
        key_ok::<T>(p),
        block_ok::<T>(p, block),
    ensures
        encode_result::<T>(p, block) == Ok::<Seq<u8>, Error>(
            encrypt_block::<T>(p.key, p.rounds, block),
        ),
        decode_result::<T>(p, encrypt_block::<T>(p.key, p.rounds, block)) == Ok::<
            Seq<u8>,
            Error,
        >(block),
{
    lemma_block_round_trip::<T>(p.key, p.rounds, block);
}

/// No hidden state: what encoding and decoding give is decided by the
/// engine's key and parameters and by the block alone.
pub proof fn lemma_deterministic<T: Unsigned16To64 + CipherMagicConstants>(
    p: Params,
    q: Params,
    block: Seq<u8>,
    other: Seq<u8>,
)
    requires
        p.key == q.key,
        p.words == q.words,
        p.rounds == q.rounds,
        p.bytes == q.bytes,
        block == other,
    ensures
        encode_result::<T>(p, block) == encode_result::<T>(q, other),
        decode_result::<T>(p, block) == decode_result::<T>(q, other),
{
}

/// A key that is not as long as the engine was told is refused, by encoding
/// and by decoding, whatever the block.
pub proof fn lemma_wrong_key_length<T: Unsigned16To64 + CipherMagicConstants>(
    p: Params,
    block: Seq<u8>,
)
    requires
        p.key.len() != p.bytes,
    ensures
        encode_result::<T>(p, block) == Err::<Seq<u8>, Error>(Error::InvalidKeyLength),
        decode_result::<T>(p, block) == Err::<Seq<u8>, Error>(Error::InvalidKeyLength),
{
}

} // verus!
