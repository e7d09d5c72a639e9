use rc5::model::Error;
use rc5::traits::Rc5CipherStream;
use rc5::RC5;

const WORDS: usize = 4; // 4-bytes long, or 32-bit long
const ROUNDS: usize = 12;
const BYTES: usize = 16; // key of 16 bytes

fn key_a() -> Vec<u8> {
    vec![
        0x00, 0x01, 0x02, 0x03, 0x04, 0x05, 0x06, 0x07, 0x08, 0x09, 0x0A, 0x0B, 0x0C, 0x0D, 0x0E,
        0x0F,
    ]
}

fn key_b() -> Vec<u8> {
    vec![
        0x2B, 0xD6, 0x45, 0x9F, 0x82, 0xC5, 0xB3, 0x00, 0x95, 0x2C, 0x49, 0x10, 0x48, 0x81, 0xFF,
        0x48,
    ]
}

#[test]
fn encode_a() {
    let key = vec![
        0x00, 0x01, 0x02, 0x03, 0x04, 0x05, 0x06, 0x07, 0x08, 0x09, 0x0A, 0x0B, 0x0C, 0x0D, 0x0E,
        0x0F,
    ];

    let rc_5 = RC5::<u32>::new(key, WORDS, ROUNDS, BYTES);

    let pt = vec![0x00, 0x11, 0x22, 0x33, 0x44, 0x55, 0x66, 0x77];
    let ct = vec![0x2D, 0xDC, 0x14, 0x9B, 0xCF, 0x08, 0x8B, 0x9E];
    let res = rc_5.encode(pt).unwrap();
    assert_eq!(ct, res);
}

#[test]
fn encode_b() {
    let key = vec![
        0x2B, 0xD6, 0x45, 0x9F, 0x82, 0xC5, 0xB3, 0x00, 0x95, 0x2C, 0x49, 0x10, 0x48, 0x81, 0xFF,
        0x48,
    ];

    let rc_5 = RC5::<u32>::new(key, WORDS, ROUNDS, BYTES);

    let pt = vec![0xEA, 0x02, 0x47, 0x14, 0xAD, 0x5C, 0x4D, 0x84];
    let ct = vec![0x11, 0xE4, 0x3B, 0x86, 0xD2, 0x31, 0xEA, 0x64];
    let res = rc_5.encode(pt).unwrap();
    assert_eq!(ct, res);
}

#[test]
fn decode_a() {
    let key = vec![
        0x00, 0x01, 0x02, 0x03, 0x04, 0x05, 0x06, 0x07, 0x08, 0x09, 0x0A, 0x0B, 0x0C, 0x0D, 0x0E,
        0x0F,
    ];

    let rc_5 = RC5::<u32>::new(key, WORDS, ROUNDS, BYTES);

    let pt = vec![0x96, 0x95, 0x0D, 0xDA, 0x65, 0x4A, 0x3D, 0x62];
    let ct = vec![0x00, 0x11, 0x22, 0x33, 0x44, 0x55, 0x66, 0x77];
    let res = rc_5.decode(ct).unwrap();
    assert!(&pt[..] == &res[..]);
}

#[test]
fn decode_b() {
    let key = vec![
        0x2B, 0xD6, 0x45, 0x9F, 0x82, 0xC5, 0xB3, 0x00, 0x95, 0x2C, 0x49, 0x10, 0x48, 0x81, 0xFF,
        0x48,
    ];

    let rc_5 = RC5::<u32>::new(key, WORDS, ROUNDS, BYTES);

    let pt = vec![0x63, 0x8B, 0x3A, 0x5E, 0xF7, 0x2B, 0x66, 0x3F];
    let ct = vec![0xEA, 0x02, 0x47, 0x14, 0xAD, 0x5C, 0x4D, 0x84];
    let res = rc_5.decode(ct).unwrap();
    assert!(&pt[..] == &res[..]);
}

#[test]
fn known_ciphertexts_decrypt_to_their_plaintexts() {
    let a = RC5::<u32>::new(key_a(), WORDS, ROUNDS, BYTES);
    assert_eq!(
        a.decode(vec![0x2D, 0xDC, 0x14, 0x9B, 0xCF, 0x08, 0x8B, 0x9E]),
        Ok(vec![0x00, 0x11, 0x22, 0x33, 0x44, 0x55, 0x66, 0x77])
    );
    let b = RC5::<u32>::new(key_b(), WORDS, ROUNDS, BYTES);
    assert_eq!(
        b.decode(vec![0x11, 0xE4, 0x3B, 0x86, 0xD2, 0x31, 0xEA, 0x64]),
        Ok(vec![0xEA, 0x02, 0x47, 0x14, 0xAD, 0x5C, 0x4D, 0x84])
    );
}

#[test]
fn key_schedule_of_the_first_known_key() {
    let rc_5 = RC5::<u32>::new(key_a(), WORDS, ROUNDS, BYTES);
    let s = rc_5.generate_block_cipher();
    assert_eq!(s.len(), 26);
    assert_eq!(&s[..4], &[0xd447e233u32, 0xd82eec20, 0x84fce219, 0xb93353de]);
    assert_eq!(s[25], 0x15e8e206);
}

#[test]
fn key_schedule_with_no_rounds() {
    let rc_5 = RC5::<u32>::new(key_a(), WORDS, 0, BYTES);
    assert_eq!(rc_5.generate_block_cipher(), vec![0x6a0f4463u32, 0xea98d4cf]);
    let pt = vec![0x00, 0x11, 0x22, 0x33, 0x44, 0x55, 0x66, 0x77];
    let ct = rc_5.encode(pt.clone()).unwrap();
    assert_eq!(ct, vec![0x63, 0x55, 0x31, 0x9d, 0x13, 0x2a, 0xff, 0x61]);
    assert_eq!(rc_5.decode(ct), Ok(pt));
}

#[test]
fn key_schedule_when_the_key_has_more_words_than_the_table() {
    let key: Vec<u8> = (0u8..20).collect();
    let rc_5 = RC5::<u32>::new(key, WORDS, 1, 20);
    assert_eq!(
        rc_5.generate_block_cipher(),
        vec![0x12b8e750u32, 0x62480622, 0x64973c9b, 0xf543b55d]
    );
    let ct = rc_5.encode(vec![0x00, 0x11, 0x22, 0x33, 0x44, 0x55, 0x66, 0x77]).unwrap();
    assert_eq!(ct, vec![0x42, 0x0a, 0xc0, 0x81, 0xee, 0xf9, 0xfc, 0x56]);
}

#[test]
fn empty_key_stands_for_one_zero_word() {
    let rc_5 = RC5::<u32>::new(Vec::new(), WORDS, ROUNDS, 0);
    let s = rc_5.generate_block_cipher();
    assert_eq!(s.len(), 26);
    assert_eq!(&s[..2], &[0xc998e804u32, 0xe01bcf84]);
    let ct = rc_5.encode(vec![0; 8]).unwrap();
    assert_eq!(ct, vec![0xeb, 0xfd, 0x9c, 0x10, 0x05, 0x43, 0xc6, 0x25]);
    assert_eq!(rc_5.decode(ct), Ok(vec![0; 8]));
}

#[test]
fn sixteen_bit_words() {
    let rc_5 = RC5::<u16>::new(key_a(), 2, ROUNDS, BYTES);
    let s = rc_5.generate_block_cipher();
    assert_eq!(s.len(), 26);
    assert_eq!(&s[..2], &[0x8a07u16, 0x6e98]);
    let pt = vec![0x00, 0x11, 0x22, 0x33];
    let ct = rc_5.encode(pt.clone()).unwrap();
    assert_eq!(ct, vec![0x0b, 0xdc, 0x7e, 0x8e]);
    assert_eq!(rc_5.decode(ct), Ok(pt));
}

#[test]
fn sixty_four_bit_words() {
    let rc_5 = RC5::<u64>::new(key_a(), 8, ROUNDS, BYTES);
    let s = rc_5.generate_block_cipher();
    assert_eq!(s.len(), 26);
    assert_eq!(&s[..2], &[0x62643c753d9cb8edu64, 0xf2014727c6500246]);
    let pt = vec![
        0x00, 0x11, 0x22, 0x33, 0x44, 0x55, 0x66, 0x77, 0x88, 0x99, 0xaa, 0xbb, 0xcc, 0xdd, 0xee,
        0xff,
    ];
    let ct = rc_5.encode(pt.clone()).unwrap();
    assert_eq!(
        ct,
        vec![
            0x42, 0x2c, 0x30, 0x8b, 0xe7, 0xd2, 0xf8, 0x4c, 0x8a, 0x3f, 0x21, 0x9e, 0x20, 0x8f,
            0x83, 0x49,
        ]
    );
    assert_eq!(rc_5.decode(ct), Ok(pt));
}

#[test]
fn sixty_four_bit_words_one_round() {
    let key: Vec<u8> = (0u8..8).collect();
    let rc_5 = RC5::<u64>::new(key, 8, 1, 8);
    assert_eq!(
        rc_5.generate_block_cipher(),
        vec![
            0x7d65590b4362f53au64,
            0xffaba44fa397a92b,
            0x6ba6dc118ef55758,
            0xcd5e4720e744fc90,
        ]
    );
    assert_eq!(
        rc_5.encode(vec![0; 16]),
        Ok(vec![
            0x5f, 0x7e, 0xdf, 0x06, 0x28, 0x68, 0x87, 0x16, 0xc3, 0x62, 0xdb, 0x5b, 0xdb, 0xb2,
            0x02, 0xa0,
        ])
    );
}

#[test]
fn round_trip_over_many_blocks() {
    let rc_5 = RC5::<u32>::new(key_b(), WORDS, ROUNDS, BYTES);
    let mut block = vec![0u8; 8];
    for n in 0..200u32 {
        for (i, byte) in block.iter_mut().enumerate() {
            *byte = (n.wrapping_mul(2654435761).rotate_left(i as u32 * 5) >> 11) as u8;
        }
        let ct = rc_5.encode(block.clone()).unwrap();
        assert_eq!(ct.len(), 8);
        assert_eq!(rc_5.decode(ct), Ok(block.clone()));
        let pt = rc_5.decode(block.clone()).unwrap();
        assert_eq!(rc_5.encode(pt), Ok(block.clone()));
    }
}

#[test]
fn same_inputs_same_outputs() {
    let first = RC5::<u32>::new(key_a(), WORDS, ROUNDS, BYTES);
    let second = RC5::<u32>::new(key_a(), WORDS, ROUNDS, BYTES);
    let pt = vec![0x00, 0x11, 0x22, 0x33, 0x44, 0x55, 0x66, 0x77];
    let once = first.encode(pt.clone());
    assert_eq!(once, first.encode(pt.clone()));
    assert_eq!(once, second.encode(pt.clone()));
    assert_eq!(first.decode(pt.clone()), second.decode(pt));
    assert_eq!(first.generate_block_cipher(), second.generate_block_cipher());
}

#[test]
fn every_key_bit_matters() {
    let pt = vec![0x00, 0x11, 0x22, 0x33, 0x44, 0x55, 0x66, 0x77];
    let ct = RC5::<u32>::new(key_a(), WORDS, ROUNDS, BYTES).encode(pt.clone()).unwrap();
    for bit in 0..128usize {
        let mut key = key_a();
        key[bit / 8] ^= 1 << (bit % 8);
        let other = RC5::<u32>::new(key, WORDS, ROUNDS, BYTES).encode(pt.clone()).unwrap();
        assert_ne!(ct, other);
    }
}

#[test]
fn wrong_key_length_is_refused() {
    let pt = vec![0x00, 0x11, 0x22, 0x33, 0x44, 0x55, 0x66, 0x77];
    let short = RC5::<u32>::new(key_a()[..12].to_vec(), WORDS, ROUNDS, BYTES);
    assert_eq!(short.encode(pt.clone()), Err(Error::InvalidKeyLength));
    assert_eq!(short.decode(pt.clone()), Err(Error::InvalidKeyLength));
    let long = RC5::<u32>::new(key_a(), WORDS, ROUNDS, 8);
    assert_eq!(long.encode(pt.clone()), Err(Error::InvalidKeyLength));
    assert_eq!(long.decode(pt.clone()), Err(Error::InvalidKeyLength));
    // the key is judged before the block
    assert_eq!(long.encode(vec![0; 3]), Err(Error::InvalidKeyLength));
    assert_eq!(long.decode(Vec::new()), Err(Error::InvalidKeyLength));
}

#[test]
fn key_that_is_no_whole_number_of_words_is_refused() {
    let pt = vec![0x00, 0x11, 0x22, 0x33, 0x44, 0x55, 0x66, 0x77];
    let rc_5 = RC5::<u32>::new(key_a()[..15].to_vec(), WORDS, ROUNDS, 15);
    assert_eq!(rc_5.encode(pt.clone()), Err(Error::InvalidKeyLength));
    assert_eq!(rc_5.decode(pt), Err(Error::InvalidKeyLength));
}

#[test]
fn wrong_block_length_is_refused() {
    let rc_5 = RC5::<u32>::new(key_a(), WORDS, ROUNDS, BYTES);
    assert_eq!(rc_5.encode(vec![0; 7]), Err(Error::InvalidBlockLength));
    assert_eq!(rc_5.encode(vec![0; 9]), Err(Error::InvalidBlockLength));
    assert_eq!(rc_5.encode(Vec::new()), Err(Error::InvalidBlockLength));
    assert_eq!(rc_5.decode(vec![0; 7]), Err(Error::InvalidBlockLength));
    assert_eq!(rc_5.decode(vec![0; 16]), Err(Error::InvalidBlockLength));
}

#[test]
fn word_size_that_is_not_that_of_the_word_type_is_refused() {
    let rc_5 = RC5::<u32>::new(key_a(), 2, ROUNDS, BYTES);
    assert_eq!(rc_5.encode(vec![0; 4]), Err(Error::InvalidBlockLength));
    assert_eq!(rc_5.encode(vec![0; 8]), Err(Error::InvalidBlockLength));
    assert_eq!(rc_5.decode(vec![0; 4]), Err(Error::InvalidBlockLength));
    let rc_5 = RC5::<u64>::new(key_a(), 0, ROUNDS, BYTES);
    assert_eq!(rc_5.encode(Vec::new()), Err(Error::InvalidBlockLength));
}

#[test]
fn sixteen_bit_words_empty_key_no_rounds() {
    let rc_5 = RC5::<u16>::new(Vec::new(), 2, 0, 0);
    assert_eq!(rc_5.generate_block_cipher(), vec![0x7865u16, 0x33F4]);
    // only the first two subkeys are added, and the sum wraps
    assert_eq!(rc_5.encode(vec![0xFF, 0xFF, 0x01, 0x00]), Ok(vec![0x64, 0x78, 0xF5, 0x33]));
    // the difference wraps below zero
    assert_eq!(rc_5.decode(vec![0x00, 0x00, 0x00, 0x00]), Ok(vec![0x9B, 0x87, 0x0C, 0xCC]));
}

#[test]
fn encoding_what_was_decoded_gives_the_block_back() {
    let rc_5 = RC5::<u32>::new(key_a(), WORDS, ROUNDS, BYTES);
    assert_eq!(
        rc_5.encode(vec![0x96, 0x95, 0x0D, 0xDA, 0x65, 0x4A, 0x3D, 0x62]),
        Ok(vec![0x00, 0x11, 0x22, 0x33, 0x44, 0x55, 0x66, 0x77])
    );
}
