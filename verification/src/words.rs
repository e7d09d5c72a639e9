use crate::traits::{CipherMagicConstants, Unsigned16To64};
use vstd::prelude::*;

verus! {

impl Unsigned16To64 for u16 {
    type Bytes = [u8; 2];

    open spec fn spec_size() -> nat {
        2
    }

    open spec fn spec_min() -> u16 {
        0
    }

    open spec fn spec_from_nat(n: nat) -> u16 {
        (n % 0x1_0000) as u16
    }

    open spec fn spec_from_le_bytes(bytes: Seq<u8>) -> u16 {
        (
            bytes[0]
            + bytes[1] * 0x100
        ) as u16
    }

    open spec fn spec_to_le_bytes(self) -> Seq<u8> {
        seq![
            (self % 0x100) as u8,
            (self / 0x100 % 0x100) as u8,
        ]
    }

    open spec fn spec_wrapping_add(self, other: u16) -> u16 {
        ((self + other) % 0x1_0000) as u16
    }

    open spec fn spec_wrapping_sub(self, other: u16) -> u16 {
        ((self - other) % 0x1_0000) as u16
    }

    open spec fn spec_wrapping_mul(self, other: u16) -> u16 {
        ((self * other) % 0x1_0000) as u16
    }

    open spec fn spec_rotate_left(self, other: u16) -> u16 {
        let k = other % 16;
        if k == 0 {
            self
        } else {
            (self << k) | (self >> ((16 - k) as u16))
        }
    }

    open spec fn spec_rotate_right(self, other: u16) -> u16 {
        let k = other % 16;
        if k == 0 {
            self
        } else {
            (self >> k) | (self << ((16 - k) as u16))
        }
    }

    open spec fn spec_xor(self, other: u16) -> u16 {
        self ^ other
    }

    proof fn lemma_size() {
        broadcast use vstd::layout::layout_of_primitives;

    }

    proof fn lemma_from_to_le_bytes(word: u16) {
        assert(word == (
            word % 0x100
            + (word / 0x100 % 0x100) * 0x100
        )) by (bit_vector);
    }

    proof fn lemma_to_from_le_bytes(bytes: Seq<u8>) {
        let b0 = bytes[0];
        let b1 = bytes[1];
        let word = Self::spec_from_le_bytes(bytes);
        assert({
            &&& word % 0x100 == b0
            &&& word / 0x100 % 0x100 == b1
        }) by (bit_vector)
            requires
                word == (
                    b0
                    + b1 * 0x100
                ),
        ;
        assert(word.spec_to_le_bytes() =~= bytes);
    }

    proof fn lemma_add_sub(a: u16, b: u16) {
    }

    proof fn lemma_rotate(a: u16, n: u16) {
        let k = n % 16;
        let j = (16 - k) as u16;
        if k != 0 {
            assert((((a << k) | (a >> j)) >> k) | (((a << k) | (a >> j)) << j) == a)
                by (bit_vector)
                requires
                    0 < k < 16,
                    j == 16 - k,
            ;
            assert((((a >> k) | (a << j)) << k) | (((a >> k) | (a << j)) >> j) == a)
                by (bit_vector)
                requires
                    0 < k < 16,
                    j == 16 - k,
            ;
        }
    }

    proof fn lemma_xor_twice(a: u16, b: u16) {
        assert((a ^ b) ^ b == a) by (bit_vector);
    }

    fn copy_from_slice(plaintext: &[u8], start: usize, end: usize) -> (r: [u8; 2]) {
        let r = [
            plaintext[start],
            plaintext[start + 1],
        ];
        assert(r@ =~= plaintext@.subrange(start as int, end as int));
        r
    }

    fn bytes_as_slice(bytes: &[u8; 2]) -> (r: &[u8]) {
        bytes.as_slice()
    }

    fn from_le_bytes(bytes: [u8; 2]) -> (r: u16) {
        let b0 = bytes[0];
        let b1 = bytes[1];
        let r =
            (b0 as u16)
            | (b1 as u16) << 8;
        assert(r == (
            b0
            + b1 * 0x100
        )) by (bit_vector)
            requires
                r == (
                    (b0 as u16)
                    | (b1 as u16) << 8
                ),
        ;
        r
    }

    fn to_le_bytes(self) -> (r: [u8; 2]) {
        assert({
            &&& self & 0xff == self % 0x100
            &&& (self >> 8) & 0xff == self / 0x100 % 0x100
        }) by (bit_vector);
        let r = [
            (self & 0xff) as u8,
            ((self >> 8) & 0xff) as u8,
        ];
        assert(r@ =~= self.spec_to_le_bytes());
        r
    }

    fn wrapping_add(self, other: u16) -> (r: u16) {
        self.wrapping_add(other)
    }

    fn wrapping_sub(self, other: u16) -> (r: u16) {
        self.wrapping_sub(other)
    }

    fn wrapping_mul(self, other: u16) -> (r: u16) {
        self.wrapping_mul(other)
    }

    fn rotate_left(self, other: u16) -> (r: u16) {
        let k = other % 16;
        if k == 0 {
            self
        } else {
            (self << k) | (self >> (16 - k))
        }
    }

    fn rotate_right(self, other: u16) -> (r: u16) {
        let k = other % 16;
        if k == 0 {
            self
        } else {
            (self >> k) | (self << (16 - k))
        }
    }

    fn xor(self, other: u16) -> (r: u16) {
        self ^ other
    }

    fn min() -> (r: u16) {
        0
    }

    fn from_usize(val: usize) -> (r: u16) {
        assert(val as u16 == (val as nat % 0x1_0000) as u16) by (bit_vector);
        #[verifier::truncate]
        (val as u16)
    }
}

impl CipherMagicConstants for u16 {
    const P_W: u16 = 0xb7e1;

    const Q_W: u16 = 0x9e37;
}

impl Unsigned16To64 for u32 {
    type Bytes = [u8; 4];

    open spec fn spec_size() -> nat {
        4
    }

    open spec fn spec_min() -> u32 {
        0
    }

    open spec fn spec_from_nat(n: nat) -> u32 {
        (n % 0x1_0000_0000) as u32
    }

    open spec fn spec_from_le_bytes(bytes: Seq<u8>) -> u32 {
        (
            bytes[0]
            + bytes[1] * 0x100
            + bytes[2] * 0x1_0000
            + bytes[3] * 0x100_0000
        ) as u32
    }

    open spec fn spec_to_le_bytes(self) -> Seq<u8> {
        seq![
            (self % 0x100) as u8,
            (self / 0x100 % 0x100) as u8,
            (self / 0x1_0000 % 0x100) as u8,
            (self / 0x100_0000 % 0x100) as u8,
        ]
    }

    open spec fn spec_wrapping_add(self, other: u32) -> u32 {
        ((self + other) % 0x1_0000_0000) as u32
    }

    open spec fn spec_wrapping_sub(self, other: u32) -> u32 {
        ((self - other) % 0x1_0000_0000) as u32
    }

    open spec fn spec_wrapping_mul(self, other: u32) -> u32 {
        ((self * other) % 0x1_0000_0000) as u32
    }

    open spec fn spec_rotate_left(self, other: u32) -> u32 {
        let k = other % 32;
        if k == 0 {
            self
        } else {
            (self << k) | (self >> ((32 - k) as u32))
        }
    }

    open spec fn spec_rotate_right(self, other: u32) -> u32 {
        let k = other % 32;
        if k == 0 {
            self
        } else {
            (self >> k) | (self << ((32 - k) as u32))
        }
    }

    open spec fn spec_xor(self, other: u32) -> u32 {
        self ^ other
    }

    proof fn lemma_size() {
        broadcast use vstd::layout::layout_of_primitives;

    }

    proof fn lemma_from_to_le_bytes(word: u32) {
        assert(word == (
            word % 0x100
            + (word / 0x100 % 0x100) * 0x100
            + (word / 0x1_0000 % 0x100) * 0x1_0000
            + (word / 0x100_0000 % 0x100) * 0x100_0000
        )) by (bit_vector);
    }

    proof fn lemma_to_from_le_bytes(bytes: Seq<u8>) {
        let b0 = bytes[0];
        let b1 = bytes[1];
        let b2 = bytes[2];
        let b3 = bytes[3];
        let word = Self::spec_from_le_bytes(bytes);
        assert({
            &&& word % 0x100 == b0
            &&& word / 0x100 % 0x100 == b1
            &&& word / 0x1_0000 % 0x100 == b2
            &&& word / 0x100_0000 % 0x100 == b3
        }) by (bit_vector)
            requires
                word == (
                    b0
                    + b1 * 0x100
                    + b2 * 0x1_0000
                    + b3 * 0x100_0000
                ),
        ;
        assert(word.spec_to_le_bytes() =~= bytes);
    }

    proof fn lemma_add_sub(a: u32, b: u32) {
    }

    proof fn lemma_rotate(a: u32, n: u32) {
        let k = n % 32;
        let j = (32 - k) as u32;
        if k != 0 {
            assert((((a << k) | (a >> j)) >> k) | (((a << k) | (a >> j)) << j) == a)
                by (bit_vector)
                requires
                    0 < k < 32,
                    j == 32 - k,
            ;
            assert((((a >> k) | (a << j)) << k) | (((a >> k) | (a << j)) >> j) == a)
                by (bit_vector)
                requires
                    0 < k < 32,
                    j == 32 - k,
            ;
        }
    }

    proof fn lemma_xor_twice(a: u32, b: u32) {
        assert((a ^ b) ^ b == a) by (bit_vector);
    }

    fn copy_from_slice(plaintext: &[u8], start: usize, end: usize) -> (r: [u8; 4]) {
        let r = [
            plaintext[start],
            plaintext[start + 1],
            plaintext[start + 2],
            plaintext[start + 3],
        ];
        assert(r@ =~= plaintext@.subrange(start as int, end as int));
        r
    }

    fn bytes_as_slice(bytes: &[u8; 4]) -> (r: &[u8]) {
        bytes.as_slice()
    }

    fn from_le_bytes(bytes: [u8; 4]) -> (r: u32) {
        let b0 = bytes[0];
        let b1 = bytes[1];
        let b2 = bytes[2];
        let b3 = bytes[3];
        let r =
            (b0 as u32)
            | (b1 as u32) << 8
            | (b2 as u32) << 16
            | (b3 as u32) << 24;
        assert(r == (
            b0
            + b1 * 0x100
            + b2 * 0x1_0000
            + b3 * 0x100_0000
        )) by (bit_vector)
            requires
                r == (
                    (b0 as u32)
                    | (b1 as u32) << 8
                    | (b2 as u32) << 16
                    | (b3 as u32) << 24
                ),
        ;
        r
    }

    fn to_le_bytes(self) -> (r: [u8; 4]) {
        assert({
            &&& self & 0xff == self % 0x100
            &&& (self >> 8) & 0xff == self / 0x100 % 0x100
            &&& (self >> 16) & 0xff == self / 0x1_0000 % 0x100
            &&& (self >> 24) & 0xff == self / 0x100_0000 % 0x100
        }) by (bit_vector);
        let r = [
            (self & 0xff) as u8,
            ((self >> 8) & 0xff) as u8,
            ((self >> 16) & 0xff) as u8,
            ((self >> 24) & 0xff) as u8,
        ];
        assert(r@ =~= self.spec_to_le_bytes());
        r
    }

    fn wrapping_add(self, other: u32) -> (r: u32) {
        self.wrapping_add(other)
    }

    fn wrapping_sub(self, other: u32) -> (r: u32) {
        self.wrapping_sub(other)
    }

    fn wrapping_mul(self, other: u32) -> (r: u32) {
        self.wrapping_mul(other)
    }

    fn rotate_left(self, other: u32) -> (r: u32) {
        let k = other % 32;
        if k == 0 {
            self
        } else {
            (self << k) | (self >> (32 - k))
        }
    }

    fn rotate_right(self, other: u32) -> (r: u32) {
        let k = other % 32;
        if k == 0 {
            self
        } else {
            (self >> k) | (self << (32 - k))
        }
    }

    fn xor(self, other: u32) -> (r: u32) {
        self ^ other
    }

    fn min() -> (r: u32) {
        0
    }

    fn from_usize(val: usize) -> (r: u32) {
        assert(val as u32 == (val as nat % 0x1_0000_0000) as u32) by (bit_vector);
        #[verifier::truncate]
        (val as u32)
    }
}

impl CipherMagicConstants for u32 {
    const P_W: u32 = 0xb7e15163;

    const Q_W: u32 = 0x9e3779b9;
}

impl Unsigned16To64 for u64 {
    type Bytes = [u8; 8];

    open spec fn spec_size() -> nat {
        8
    }

    open spec fn spec_min() -> u64 {
        0
    }

    open spec fn spec_from_nat(n: nat) -> u64 {
        (n % 0x1_0000_0000_0000_0000) as u64
    }

    open spec fn spec_from_le_bytes(bytes: Seq<u8>) -> u64 {
        (
            bytes[0]
            + bytes[1] * 0x100
            + bytes[2] * 0x1_0000
            + bytes[3] * 0x100_0000
            + bytes[4] * 0x1_0000_0000
            + bytes[5] * 0x100_0000_0000
            + bytes[6] * 0x1_0000_0000_0000
            + bytes[7] * 0x100_0000_0000_0000
        ) as u64
    }

    open spec fn spec_to_le_bytes(self) -> Seq<u8> {
        seq![
            (self % 0x100) as u8,
            (self / 0x100 % 0x100) as u8,
            (self / 0x1_0000 % 0x100) as u8,
            (self / 0x100_0000 % 0x100) as u8,
            (self / 0x1_0000_0000 % 0x100) as u8,
            (self / 0x100_0000_0000 % 0x100) as u8,
            (self / 0x1_0000_0000_0000 % 0x100) as u8,
            (self / 0x100_0000_0000_0000 % 0x100) as u8,
        ]
    }

    open spec fn spec_wrapping_add(self, other: u64) -> u64 {
        ((self + other) % 0x1_0000_0000_0000_0000) as u64
    }

    open spec fn spec_wrapping_sub(self, other: u64) -> u64 {
        ((self - other) % 0x1_0000_0000_0000_0000) as u64
    }

    open spec fn spec_wrapping_mul(self, other: u64) -> u64 {
        ((self * other) % 0x1_0000_0000_0000_0000) as u64
    }

    open spec fn spec_rotate_left(self, other: u64) -> u64 {
        let k = other % 64;
        if k == 0 {
            self
        } else {
            (self << k) | (self >> ((64 - k) as u64))
        }
    }

    open spec fn spec_rotate_right(self, other: u64) -> u64 {
        let k = other % 64;
        if k == 0 {
            self
        } else {
            (self >> k) | (self << ((64 - k) as u64))
        }
    }

    open spec fn spec_xor(self, other: u64) -> u64 {
        self ^ other
    }

    proof fn lemma_size() {
        broadcast use vstd::layout::layout_of_primitives;

    }

    proof fn lemma_from_to_le_bytes(word: u64) {
        assert(word == (
            word % 0x100
            + (word / 0x100 % 0x100) * 0x100
            + (word / 0x1_0000 % 0x100) * 0x1_0000
            + (word / 0x100_0000 % 0x100) * 0x100_0000
            + (word / 0x1_0000_0000 % 0x100) * 0x1_0000_0000
            + (word / 0x100_0000_0000 % 0x100) * 0x100_0000_0000
            + (word / 0x1_0000_0000_0000 % 0x100) * 0x1_0000_0000_0000
            + (word / 0x100_0000_0000_0000 % 0x100) * 0x100_0000_0000_0000
        )) by (bit_vector);
    }

    proof fn lemma_to_from_le_bytes(bytes: Seq<u8>) {
        let b0 = bytes[0];
        let b1 = bytes[1];
        let b2 = bytes[2];
        let b3 = bytes[3];
        let b4 = bytes[4];
        let b5 = bytes[5];
        let b6 = bytes[6];
        let b7 = bytes[7];
        let word = Self::spec_from_le_bytes(bytes);
        assert({
            &&& word % 0x100 == b0
            &&& word / 0x100 % 0x100 == b1
            &&& word / 0x1_0000 % 0x100 == b2
            &&& word / 0x100_0000 % 0x100 == b3
            &&& word / 0x1_0000_0000 % 0x100 == b4
            &&& word / 0x100_0000_0000 % 0x100 == b5
            &&& word / 0x1_0000_0000_0000 % 0x100 == b6
            &&& word / 0x100_0000_0000_0000 % 0x100 == b7
        }) by (bit_vector)
            requires
                word == (
                    b0
                    + b1 * 0x100
                    + b2 * 0x1_0000
                    + b3 * 0x100_0000
                    + b4 * 0x1_0000_0000
                    + b5 * 0x100_0000_0000
                    + b6 * 0x1_0000_0000_0000
                    + b7 * 0x100_0000_0000_0000
                ),
        ;
        assert(word.spec_to_le_bytes() =~= bytes);
    }

    proof fn lemma_add_sub(a: u64, b: u64) {
    }

    proof fn lemma_rotate(a: u64, n: u64) {
        let k = n % 64;
        let j = (64 - k) as u64;
        if k != 0 {
            assert((((a << k) | (a >> j)) >> k) | (((a << k) | (a >> j)) << j) == a)
                by (bit_vector)
                requires
                    0 < k < 64,
                    j == 64 - k,
            ;
            assert((((a >> k) | (a << j)) << k) | (((a >> k) | (a << j)) >> j) == a)
                by (bit_vector)
                requires
                    0 < k < 64,
                    j == 64 - k,
            ;
        }
    }

    proof fn lemma_xor_twice(a: u64, b: u64) {
        assert((a ^ b) ^ b == a) by (bit_vector);
    }

    fn copy_from_slice(plaintext: &[u8], start: usize, end: usize) -> (r: [u8; 8]) {
        let r = [
            plaintext[start],
            plaintext[start + 1],
            plaintext[start + 2],
            plaintext[start + 3],
            plaintext[start + 4],
            plaintext[start + 5],
            plaintext[start + 6],
            plaintext[start + 7],
        ];
        assert(r@ =~= plaintext@.subrange(start as int, end as int));
        r
    }

    fn bytes_as_slice(bytes: &[u8; 8]) -> (r: &[u8]) {
        bytes.as_slice()
    }

    fn from_le_bytes(bytes: [u8; 8]) -> (r: u64) {
        let b0 = bytes[0];
        let b1 = bytes[1];
        let b2 = bytes[2];
        let b3 = bytes[3];
        let b4 = bytes[4];
        let b5 = bytes[5];
        let b6 = bytes[6];
        let b7 = bytes[7];
        let r =
            (b0 as u64)
            | (b1 as u64) << 8
            | (b2 as u64) << 16
            | (b3 as u64) << 24
            | (b4 as u64) << 32
            | (b5 as u64) << 40
            | (b6 as u64) << 48
            | (b7 as u64) << 56;
        assert(r == (
            b0
            + b1 * 0x100
            + b2 * 0x1_0000
            + b3 * 0x100_0000
            + b4 * 0x1_0000_0000
            + b5 * 0x100_0000_0000
            + b6 * 0x1_0000_0000_0000
            + b7 * 0x100_0000_0000_0000
        )) by (bit_vector)
            requires
                r == (
                    (b0 as u64)
                    | (b1 as u64) << 8
                    | (b2 as u64) << 16
                    | (b3 as u64) << 24
                    | (b4 as u64) << 32
                    | (b5 as u64) << 40
                    | (b6 as u64) << 48
                    | (b7 as u64) << 56
                ),
        ;
        r
    }

    fn to_le_bytes(self) -> (r: [u8; 8]) {
        assert({
            &&& self & 0xff == self % 0x100
            &&& (self >> 8) & 0xff == self / 0x100 % 0x100
            &&& (self >> 16) & 0xff == self / 0x1_0000 % 0x100
            &&& (self >> 24) & 0xff == self / 0x100_0000 % 0x100
            &&& (self >> 32) & 0xff == self / 0x1_0000_0000 % 0x100
            &&& (self >> 40) & 0xff == self / 0x100_0000_0000 % 0x100
            &&& (self >> 48) & 0xff == self / 0x1_0000_0000_0000 % 0x100
            &&& (self >> 56) & 0xff == self / 0x100_0000_0000_0000 % 0x100
        }) by (bit_vector);
        let r = [
            (self & 0xff) as u8,
            ((self >> 8) & 0xff) as u8,
            ((self >> 16) & 0xff) as u8,
            ((self >> 24) & 0xff) as u8,
            ((self >> 32) & 0xff) as u8,
            ((self >> 40) & 0xff) as u8,
            ((self >> 48) & 0xff) as u8,
            ((self >> 56) & 0xff) as u8,
        ];
        assert(r@ =~= self.spec_to_le_bytes());
        r
    }

    fn wrapping_add(self, other: u64) -> (r: u64) {
        self.wrapping_add(other)
    }

    fn wrapping_sub(self, other: u64) -> (r: u64) {
        self.wrapping_sub(other)
    }

    fn wrapping_mul(self, other: u64) -> (r: u64) {
        self.wrapping_mul(other)
    }

    fn rotate_left(self, other: u64) -> (r: u64) {
        let k = other % 64;
        if k == 0 {
            self
        } else {
            (self << k) | (self >> (64 - k))
        }
    }

    fn rotate_right(self, other: u64) -> (r: u64) {
        let k = other % 64;
        if k == 0 {
            self
        } else {
            (self >> k) | (self << (64 - k))
        }
    }

    fn xor(self, other: u64) -> (r: u64) {
        self ^ other
    }

    fn min() -> (r: u64) {
        0
    }

    fn from_usize(val: usize) -> (r: u64) {
        (val as u64)
    }
}

impl CipherMagicConstants for u64 {
    const P_W: u64 = 0xb7e151628aed2a6b;

    const Q_W: u64 = 0x9e3779b97f47c15;
}

/// The values of the two constants for each of the three widths. The
/// constants' definitions are seen in this module only; elsewhere this is
/// how their values are known.
pub proof fn lemma_magic_constants()
    ensures
        <u16 as CipherMagicConstants>::P_W == 0xb7e1,
        <u16 as CipherMagicConstants>::Q_W == 0x9e37,
        <u32 as CipherMagicConstants>::P_W == 0xb7e1_5163,
        <u32 as CipherMagicConstants>::Q_W == 0x9e37_79b9,
        <u64 as CipherMagicConstants>::P_W == 0xb7e1_5162_8aed_2a6b,
        <u64 as CipherMagicConstants>::Q_W == 0x09e3_779b_97f4_7c15,
{
}

} // verus!
