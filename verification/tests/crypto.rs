use dove::crypto::{
    aad, decrypt, encrypt, encrypt_with_prefix, gen_key, key_drawn, key_from_fragment, key_to_fragment,
    nonce, CryptoError, Decryptor, Encryptor, DEFAULT_CHUNK, VERSION,
};

fn roundtrip(data: &[u8], chunk: usize) -> Vec<u8> {
    let key = gen_key().unwrap();
    let mut ct = Vec::new();
    encrypt(&key, chunk, data, &mut ct).unwrap();
    let mut pt = Vec::new();
    decrypt(&key, &ct[..], &mut pt).unwrap();
    pt
}

#[test]
fn roundtrips_across_sizes_and_chunk_boundaries() {
    // empty, sub-chunk, exact chunk, exact multiple, and multi-chunk.
    assert_eq!(roundtrip(b"", 16), b"");
    assert_eq!(roundtrip(b"hi", 16), b"hi");
    assert_eq!(roundtrip(&[7u8; 16], 16), vec![7u8; 16]);
    assert_eq!(roundtrip(&[8u8; 32], 16), vec![8u8; 32]);
    assert_eq!(roundtrip(&[9u8; 1000], 64), vec![9u8; 1000]);
}

#[test]
fn wrong_key_fails() {
    let mut ct = Vec::new();
    encrypt(&gen_key().unwrap(), 16, &b"secret"[..], &mut ct).unwrap();
    let mut pt = Vec::new();
    assert!(decrypt(&gen_key().unwrap(), &ct[..], &mut pt).is_err());
}

#[test]
fn tampering_is_detected() {
    let key = gen_key().unwrap();
    let mut ct = Vec::new();
    encrypt(&key, 16, &[1u8; 50][..], &mut ct).unwrap();
    let last = ct.len() - 1;
    ct[last] ^= 1; // flip a bit in the final chunk
    let mut pt = Vec::new();
    assert!(decrypt(&key, &ct[..], &mut pt).is_err());
}

#[test]
fn truncation_is_detected() {
    let key = gen_key().unwrap();
    let mut ct = Vec::new();
    encrypt(&key, 16, &[1u8; 50][..], &mut ct).unwrap(); // multi-chunk
    ct.truncate(ct.len() / 2); // drop the tail, incl. the terminal chunk
    let mut pt = Vec::new();
    assert!(decrypt(&key, &ct[..], &mut pt).is_err());
}

#[test]
fn key_fragment_round_trips() {
    let key = gen_key().unwrap();
    assert_eq!(key_from_fragment(&key_to_fragment(&key)).unwrap(), key);
}

#[test]
fn every_truncation_is_rejected() {
    let key = [3u8; 32];
    let mut ct = Vec::new();
    encrypt_with_prefix(&key, &[1; 8], 16, &[5u8; 40], &mut ct).unwrap();
    for cut in 0..ct.len() {
        let mut pt = Vec::new();
        assert!(decrypt(&key, &ct[..cut], &mut pt).is_err(), "cut at {cut}");
    }
}

#[test]
fn bytes_after_the_final_chunk_are_refused() {
    let key = [3u8; 32];
    let mut ct = Vec::new();
    encrypt_with_prefix(&key, &[1; 8], 16, b"twenty bytes of text", &mut ct).unwrap();
    ct.push(0);
    let mut pt = Vec::new();
    assert_eq!(decrypt(&key, &ct, &mut pt), Err(CryptoError::DecryptionFailed));
    assert_eq!(pt, b"twenty bytes of ");
}

#[test]
fn any_altered_byte_is_noticed() {
    let key = [5u8; 32];
    let mut ct = Vec::new();
    encrypt(&key, 16, &[1u8; 50][..], &mut ct).unwrap();
    for i in 0..ct.len() {
        for bit in 0..8 {
            let mut bad = ct.clone();
            bad[i] ^= 1 << bit;
            let mut pt = Vec::new();
            assert!(decrypt(&key, &bad, &mut pt).is_err(), "byte {i}, bit {bit}");
        }
    }
    // a flag that is neither 0 nor 1
    let mut bad = ct.clone();
    bad[17] = 2;
    let mut pt = Vec::new();
    assert_eq!(decrypt(&key, &bad, &mut pt), Err(CryptoError::DecryptionFailed));
    assert!(pt.is_empty());
}

#[test]
fn cut_containers_release_whole_blocks() {
    let key = [3u8; 32];
    let data: Vec<u8> = (0..50).collect();
    let mut ct = Vec::new();
    encrypt_with_prefix(&key, &[1; 8], 16, &data, &mut ct).unwrap();
    for cut in 0..ct.len() {
        let mut pt = Vec::new();
        assert!(decrypt(&key, &ct[..cut], &mut pt).is_err(), "cut at {cut}");
        assert_eq!(pt.len() % 16, 0);
        assert_eq!(pt, data[..pt.len()]);
    }
}

#[test]
fn a_final_chunk_may_be_a_full_one() {
    let key = [3u8; 32];
    let mut ct = Vec::new();
    encrypt_with_prefix(&key, &[1; 8], 17, &[7; 16], &mut ct).unwrap();
    ct[16] = 16; // the chunk size, which a single chunk does not authenticate
    let mut pt = Vec::new();
    assert_eq!(decrypt(&key, &ct, &mut pt), Ok(()));
    assert_eq!(pt, [7; 16]);
    // nor may it be called a full one that others follow
    let mut bad = ct.clone();
    bad[17] = 0;
    assert!(decrypt(&key, &bad, &mut Vec::new()).is_err());
    // nor be longer than the chunk size, or shorter than a tag
    ct[16] = 15;
    assert_eq!(decrypt(&key, &ct, &mut Vec::new()), Err(CryptoError::DecryptionFailed));
    let mut short = ct[..17].to_vec();
    short.extend_from_slice(&[1, 0, 0, 0, 3, 9, 9, 9]);
    assert_eq!(decrypt(&key, &short, &mut Vec::new()), Err(CryptoError::DecryptionFailed));
}

#[test]
fn a_refused_key_releases_nothing() {
    for data in [&b""[..], b"secret", &[4; 50]] {
        let mut ct = Vec::new();
        encrypt(&[1; 32], 16, data, &mut ct).unwrap();
        let mut pt = Vec::new();
        assert_eq!(decrypt(&[2; 32], &ct, &mut pt), Err(CryptoError::DecryptionFailed));
        assert!(pt.is_empty());
    }
}

#[test]
fn chunks_out_of_their_place_are_refused() {
    let key = [3u8; 32];
    let mut ct = Vec::new();
    encrypt_with_prefix(&key, &[1; 8], 16, &[7; 40], &mut ct).unwrap();
    let mut swapped = ct[..17].to_vec();
    swapped.extend_from_slice(&ct[54..91]);
    swapped.extend_from_slice(&ct[17..54]);
    swapped.extend_from_slice(&ct[91..]);
    let mut pt = Vec::new();
    assert_eq!(decrypt(&key, &swapped, &mut pt), Err(CryptoError::DecryptionFailed));
    assert!(pt.is_empty());
}

#[test]
fn chunk_sizes_beyond_four_bytes_are_kept_modulo() {
    let key = [3u8; 32];
    let mut ct = Vec::new();
    encrypt_with_prefix(&key, &[1; 8], (1 << 32) + 100, b"hi", &mut ct).unwrap();
    assert_eq!(&ct[13..17], &[0, 0, 0, 100]);
    let mut pt = Vec::new();
    assert_eq!(decrypt(&key, &ct, &mut pt), Ok(()));
    assert_eq!(pt, b"hi");
    for cut in 0..ct.len() {
        let mut pt = Vec::new();
        assert!(decrypt(&key, &ct[..cut], &mut pt).is_err());
        assert!(pt.is_empty());
    }
}

#[test]
fn containers_have_their_length() {
    for (len, c) in [(0usize, 16usize), (2, 16), (16, 16), (32, 16), (50, 16), (1000, 64), (7, 1)] {
        let mut ct = Vec::new();
        encrypt(&[1; 32], c, &vec![9u8; len], &mut ct).unwrap();
        assert_eq!(ct.len(), 17 + len + 21 * (len / c + 1));
    }
}

#[test]
fn streaming_reads_the_same_plaintext() {
    let key = [9u8; 32];
    let data: Vec<u8> = (0u8..200).collect();
    for chunk in [1usize, 7, 32, 200, 1000] {
        let mut ct = Vec::new();
        encrypt_with_prefix(&key, &[4; 8], chunk, &data, &mut ct).unwrap();
        for step in [1usize, 5, 21, 1000] {
            let mut pt = Vec::new();
            let mut dec = Decryptor::start(&key);
            for piece in ct.chunks(step) {
                dec.push(piece, &mut pt).unwrap();
            }
            dec.finish(&mut pt).unwrap();
            assert_eq!(pt, data);
        }
    }
}

#[test]
fn streaming_refuses_as_soon_as_it_can() {
    let mut pt = Vec::new();
    assert_eq!(Decryptor::start(&[0; 32]).push(b"DIVE", &mut pt), Err(CryptoError::NotDove));
    assert_eq!(
        Decryptor::start(&[0; 32]).push(b"DOVE\x02", &mut pt),
        Err(CryptoError::UnsupportedVersion(2))
    );
    let mut dec = Decryptor::start(&[0; 32]);
    dec.push(b"DOVE", &mut pt).unwrap();
    assert_eq!(dec.finish(&mut pt), Err(CryptoError::UnexpectedEnd));
    assert_eq!(Decryptor::start(&[0; 32]).finish(&mut pt), Err(CryptoError::NotDove));
    // a length that no chunk of this size has
    let mut ct = Vec::new();
    encrypt_with_prefix(&[0; 32], &[0; 8], 16, &[1; 20], &mut ct).unwrap();
    ct[18] = 0xff;
    let mut dec = Decryptor::start(&[0; 32]);
    dec.push(&ct[..21], &mut pt).unwrap();
    assert_eq!(dec.push(&ct[21..22], &mut pt), Err(CryptoError::DecryptionFailed));
}

#[test]
fn container_starts_with_the_header() {
    let key = [0u8; 32];
    let mut ct = Vec::new();
    encrypt_with_prefix(&key, &[1, 2, 3, 4, 5, 6, 7, 8], 16, b"0123456789abcdefXYZ", &mut ct).unwrap();
    assert_eq!(&ct[..4], b"DOVE");
    assert_eq!(ct[4], VERSION);
    assert_eq!(&ct[5..13], &[1, 2, 3, 4, 5, 6, 7, 8]);
    assert_eq!(&ct[13..17], &[0, 0, 0, 16]);
    // a full chunk that is not the last, then the rest
    assert_eq!(ct[17], 0);
    assert_eq!(&ct[18..22], &[0, 0, 0, 32]);
    assert_eq!(ct[22 + 32], 1);
    assert_eq!(&ct[23 + 32..27 + 32], &[0, 0, 0, 19]);
    assert_eq!(ct.len(), 17 + 5 + 32 + 5 + 19);
}

#[test]
fn streaming_writes_the_same_container() {
    let key = [9u8; 32];
    let prefix = [4u8; 8];
    let data: Vec<u8> = (0u8..200).collect();
    let mut whole = Vec::new();
    encrypt_with_prefix(&key, &prefix, 32, &data, &mut whole).unwrap();
    let mut parts = Vec::new();
    let mut enc = Encryptor::start(&key, &prefix, 32, &mut parts);
    for piece in data.chunks(7) {
        enc.push(piece, &mut parts).unwrap();
    }
    enc.finish(&mut parts).unwrap();
    assert_eq!(parts, whole);
}

#[test]
fn nonces_and_authenticated_data_count_up() {
    assert_eq!(nonce(&[7; 8], 0x0102_0304), [7, 7, 7, 7, 7, 7, 7, 7, 1, 2, 3, 4]);
    assert_ne!(nonce(&[7; 8], 0), nonce(&[7; 8], 1));
    assert_eq!(aad(5, true), vec![0, 0, 0, 5, 1]);
    assert_eq!(aad(5, false), vec![0, 0, 0, 5, 0]);
}

#[test]
fn each_decryption_error_is_told_apart() {
    let key = [2u8; 32];
    let mut pt = Vec::new();
    assert_eq!(decrypt(&key, b"not", &mut pt), Err(CryptoError::NotDove));
    assert_eq!(decrypt(&key, b"DIVE\x01", &mut pt), Err(CryptoError::NotDove));
    assert_eq!(decrypt(&key, b"DOVE", &mut pt), Err(CryptoError::UnexpectedEnd));
    assert_eq!(decrypt(&key, b"DOVE\x09", &mut pt), Err(CryptoError::UnsupportedVersion(9)));
    let mut head = b"DOVE".to_vec();
    head.push(VERSION);
    head.extend_from_slice(&[0; 12]);
    assert_eq!(decrypt(&key, &head, &mut pt), Err(CryptoError::Truncated));
    head[16] = 8; // the chunk size
    head.push(1);
    assert_eq!(decrypt(&key, &head, &mut pt), Err(CryptoError::UnexpectedEnd));
    head.extend_from_slice(&[0, 0, 0, 16]);
    assert_eq!(decrypt(&key, &head, &mut pt), Err(CryptoError::UnexpectedEnd));
    head.extend_from_slice(&[0; 16]);
    assert_eq!(decrypt(&key, &head, &mut pt), Err(CryptoError::DecryptionFailed));
    assert!(pt.is_empty());
}

#[test]
fn fragments_that_are_no_key_are_refused() {
    assert_eq!(key_from_fragment("!!"), Err(CryptoError::InvalidKey));
    assert_eq!(key_from_fragment("AAAA"), Err(CryptoError::WrongKeyLength));
    assert_eq!(key_to_fragment(&[0; 32]), "A".repeat(43));
    assert_eq!(key_from_fragment(&format!("  {}\n", "A".repeat(43))), Ok([0; 32]));
}

#[test]
fn errors_are_worded() {
    assert_eq!(CryptoError::NotDove.message(), "not a dove-encrypted file");
    assert_eq!(
        CryptoError::UnsupportedVersion(9).message(),
        "unsupported dove format version 9"
    );
    assert_eq!(
        CryptoError::DecryptionFailed.message(),
        "decryption failed — wrong key, or the data was tampered with"
    );
    assert_eq!(CryptoError::InvalidKey.message(), "invalid key in the link");
    assert_eq!(
        CryptoError::WrongKeyLength.message(),
        "key in the link is the wrong length"
    );
    assert_eq!(
        CryptoError::Truncated.message(),
        "truncated: the file ended before its final chunk"
    );
}

#[test]
fn partial_plaintext_comes_out_before_a_bad_chunk() {
    let key = [6u8; 32];
    let mut ct = Vec::new();
    encrypt_with_prefix(&key, &[2; 8], 4, b"abcdefgh!", &mut ct).unwrap();
    let last = ct.len() - 1;
    ct[last] ^= 1;
    let mut pt = Vec::new();
    assert_eq!(decrypt(&key, &ct, &mut pt), Err(CryptoError::DecryptionFailed));
    assert_eq!(pt, b"abcdefgh");
    assert_eq!(DEFAULT_CHUNK, 1 << 20);
}

#[test]
fn keys_are_what_is_drawn() {
    assert_eq!(key_drawn(Ok([7; 32])), Ok([7; 32]));
    assert_eq!(key_drawn(Err(getrandom::Error::UNSUPPORTED)), Err(CryptoError::NoRandomness));
    assert_ne!(gen_key().unwrap(), gen_key().unwrap());
}
