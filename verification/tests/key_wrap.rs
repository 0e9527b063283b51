use cryptoki_core::cryptoki::internals::encryption::{
    decrypt, destructure_iv_ciphertext, encrypt, encrypt_with_iv, unwrap, wrap, wrap_with_iv,
    wrapped_key_len, EncryptionOutput, AES_BLOCK_SIZE, AES_IV_SIZE, AES_KEY_SIZE,
};
use cryptoki_core::error::CryptokiError;

fn hex(text: &str) -> Vec<u8> {
    let digits: Vec<u8> = text
        .bytes()
        .map(|b| match b {
            b'0'..=b'9' => b - b'0',
            b'a'..=b'f' => b - b'a' + 10,
            _ => panic!("not a hex digit"),
        })
        .collect();
    digits.chunks(2).map(|pair| pair[0] * 16 + pair[1]).collect()
}

fn counting(from: u8, n: usize) -> Vec<u8> {
    (0..n).map(|i| from.wrapping_add(i as u8)).collect()
}

#[test]
fn sizes_are_those_of_aes_128() {
    assert_eq!(AES_BLOCK_SIZE, 16);
    assert_eq!(AES_IV_SIZE, 16);
    assert_eq!(AES_KEY_SIZE, 16);
}

#[test]
fn encrypt_with_iv_matches_known_answer() {
    let key = hex("2b7e151628aed2a6abf7158809cf4f3c");
    let iv = hex("000102030405060708090a0b0c0d0e0f");
    let plaintext = hex("6bc1bee22e409f96e93d7e117393172a");
    let output = encrypt_with_iv(&key, &plaintext, iv.clone()).ok().unwrap();
    assert_eq!(output.iv, iv);
    assert_eq!(
        output.ciphertext,
        hex("7649abac8119b246cee98e9b12e9197d8964e0b149c10b7b682e6e39aaeb731c")
    );
}

#[test]
fn encrypt_with_iv_pads_short_and_empty_input() {
    let key = counting(0, 16);
    let output = encrypt_with_iv(&key, &Vec::new(), vec![0; 16]).ok().unwrap();
    assert_eq!(output.ciphertext, hex("954f64f2e4e86e9eee82d20216684899"));
    let output = encrypt_with_iv(&key, &b"hello".to_vec(), counting(0x10, 16))
        .ok()
        .unwrap();
    assert_eq!(output.ciphertext, hex("32f6d6ea1ec8872debccea8596d9c3c3"));
}

#[test]
fn decrypt_matches_known_answer() {
    let key = hex("2b7e151628aed2a6abf7158809cf4f3c");
    let iv = hex("000102030405060708090a0b0c0d0e0f");
    let ciphertext = hex("7649abac8119b246cee98e9b12e9197d8964e0b149c10b7b682e6e39aaeb731c");
    assert_eq!(
        decrypt(&key, &ciphertext, &iv),
        Ok(hex("6bc1bee22e409f96e93d7e117393172a"))
    );
    assert_eq!(
        decrypt(&counting(0, 16), &hex("32f6d6ea1ec8872debccea8596d9c3c3"), &counting(0x10, 16)),
        Ok(b"hello".to_vec())
    );
}

#[test]
fn decrypt_rejects_what_is_not_padded_data() {
    let key = counting(0, 16);
    let iv = vec![0u8; 16];
    assert_eq!(
        decrypt(&key, &Vec::new(), &iv),
        Err(CryptokiError::WrappedKeyMalformed)
    );
    assert_eq!(
        decrypt(&key, &vec![1u8; 17], &iv),
        Err(CryptokiError::WrappedKeyMalformed)
    );
    let good = hex("954f64f2e4e86e9eee82d20216684899");
    assert_eq!(decrypt(&key, &good, &iv), Ok(Vec::new()));
    assert_eq!(
        decrypt(&key, &good, &vec![0xffu8; 16]),
        Err(CryptokiError::WrappedKeyMalformed)
    );
}

#[test]
fn key_and_iv_must_have_their_size() {
    let good = counting(0, 16);
    for n in [0usize, 1, 15, 17, 24, 32] {
        let bad = counting(0, n);
        assert!(matches!(
            encrypt_with_iv(&bad, &good, good.clone()),
            Err(CryptokiError::KeySizeRange)
        ));
        assert!(matches!(
            encrypt_with_iv(&good, &good, bad.clone()),
            Err(CryptokiError::ArgumentsBad)
        ));
        assert!(matches!(encrypt(&bad, &good), Err(CryptokiError::KeySizeRange)));
        assert_eq!(
            decrypt(&bad, &good, &good),
            Err(CryptokiError::KeySizeRange)
        );
        assert_eq!(
            decrypt(&good, &good, &bad),
            Err(CryptokiError::ArgumentsBad)
        );
        assert_eq!(wrap(&bad, &good), Err(CryptokiError::KeySizeRange));
        assert_eq!(
            wrap_with_iv(&bad, &good, good.clone()),
            Err(CryptokiError::KeySizeRange)
        );
        assert_eq!(
            unwrap(&bad, &counting(0, 32)),
            Err(CryptokiError::KeySizeRange)
        );
        assert_eq!(wrapped_key_len(&bad, &good), Err(CryptokiError::KeySizeRange));
    }
}

#[test]
fn into_combined_puts_the_iv_first() {
    let output = EncryptionOutput::new(vec![4, 5, 6], vec![1, 2]);
    assert_eq!(output.ciphertext, vec![4u8, 5, 6]);
    assert_eq!(output.iv, vec![1u8, 2]);
    assert_eq!(output.into_combined(), vec![1u8, 2, 4, 5, 6]);
}

#[test]
fn destructure_splits_after_one_block() {
    let wrapped = counting(0, 40);
    let parts = destructure_iv_ciphertext(&wrapped).ok().unwrap();
    assert_eq!(parts.iv, counting(0, 16));
    assert_eq!(parts.ciphertext, counting(16, 24));
    let parts = destructure_iv_ciphertext(&counting(7, 16)).ok().unwrap();
    assert_eq!(parts.iv, counting(7, 16));
    assert_eq!(parts.ciphertext, Vec::<u8>::new());
}

#[test]
fn destructure_rejects_less_than_one_block() {
    for n in 0..16usize {
        assert!(matches!(
            destructure_iv_ciphertext(&counting(0, n)),
            Err(CryptokiError::WrappedKeyMalformed)
        ));
    }
}

#[test]
fn wrap_with_iv_is_iv_then_ciphertext() {
    let key = hex("2b7e151628aed2a6abf7158809cf4f3c");
    let iv = hex("000102030405060708090a0b0c0d0e0f");
    let plaintext = hex("6bc1bee22e409f96e93d7e117393172a");
    assert_eq!(
        wrap_with_iv(&key, &plaintext, iv),
        Ok(hex(
            "000102030405060708090a0b0c0d0e0f7649abac8119b246cee98e9b12e9197d8964e0b149c10b7b682e6e39aaeb731c"
        ))
    );
}

#[test]
fn unwrap_inverts_wrap() {
    let wrapping_key = counting(0x40, 16);
    for n in [0usize, 1, 15, 16, 17, 31, 32, 33, 100] {
        let key = counting(n as u8, n);
        let wrapped = wrap(&wrapping_key, &key).unwrap();
        assert_eq!(unwrap(&wrapping_key, &wrapped), Ok(key));
    }
}

#[test]
fn unwrap_under_another_key_does_not_give_the_key() {
    let key = counting(1, 16);
    let wrapped = wrap(&counting(0x40, 16), &key).unwrap();
    assert_ne!(unwrap(&counting(0x41, 16), &wrapped), Ok(key));
}

#[test]
fn wrapped_length_is_iv_plus_padded_plaintext() {
    let wrapping_key = counting(0, 16);
    let expected = [
        (0usize, 32usize),
        (1, 32),
        (15, 32),
        (16, 48),
        (17, 48),
        (31, 48),
        (32, 64),
        (100, 128),
    ];
    for (n, len) in expected {
        let key = counting(0, n);
        assert_eq!(wrapped_key_len(&wrapping_key, &key), Ok(len));
        assert_eq!(wrap(&wrapping_key, &key).unwrap().len(), len);
        let output = encrypt(&wrapping_key, &key).ok().unwrap();
        assert_eq!(output.iv.len(), 16);
        assert_eq!(output.ciphertext.len(), len - 16);
    }
}

#[test]
fn each_wrap_samples_its_own_iv() {
    let wrapping_key = counting(0, 16);
    let key = counting(9, 16);
    let first = wrap(&wrapping_key, &key).unwrap();
    let second = wrap(&wrapping_key, &key).unwrap();
    assert_ne!(first[..16], second[..16]);
    assert_ne!(first[16..], second[16..]);
    assert_eq!(unwrap(&wrapping_key, &first), Ok(key.clone()));
    assert_eq!(unwrap(&wrapping_key, &second), Ok(key));
}

#[test]
fn unwrap_rejects_malformed_input() {
    let wrapping_key = counting(0, 16);
    for n in 0..16usize {
        assert_eq!(
            unwrap(&wrapping_key, &counting(0, n)),
            Err(CryptokiError::WrappedKeyMalformed)
        );
    }
    assert_eq!(
        unwrap(&wrapping_key, &counting(0, 16)),
        Err(CryptokiError::WrappedKeyMalformed)
    );
    assert_eq!(
        unwrap(&wrapping_key, &counting(0, 33)),
        Err(CryptokiError::WrappedKeyMalformed)
    );
    assert_eq!(
        unwrap(&Vec::new(), &counting(0, 3)),
        Err(CryptokiError::WrappedKeyMalformed)
    );
}
