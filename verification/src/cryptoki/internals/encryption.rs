//! The key-wrap engine: AES-128 in CBC mode with PKCS#7 padding under a
//! fresh random IV. A wrapped key is the IV followed by the ciphertext.
use vstd::prelude::*;

use aes::cipher::block_padding::{Pkcs7, UnpadError};
use aes::cipher::generic_array::GenericArray;
use aes::cipher::{BlockDecryptMut, BlockEncryptMut, KeyIvInit};
use rand::rngs::OsRng;
use rand::Rng;

use crate::error::CryptokiError;

verus! {

/// The block length of AES, in bytes.
pub const AES_BLOCK_SIZE: usize = 16;

/// The length of the IV, in bytes: one block.
pub const AES_IV_SIZE: usize = AES_BLOCK_SIZE;

/// The length of an AES-128 key, in bytes.
pub const AES_KEY_SIZE: usize = 16;

/// The error of the padding crate: the decrypted data does not end in valid
/// padding, or the ciphertext is not a whole number of blocks.
#[verifier::external_type_specification]
#[verifier::external_body]
pub struct ExUnpadError(UnpadError);

/// The ciphertext that AES-128-CBC with PKCS#7 padding gives for
/// `plaintext` under `key` and `iv`.
pub uninterp spec fn aes128_cbc_pkcs7_encrypt(key: Seq<u8>, iv: Seq<u8>, plaintext: Seq<u8>) -> Seq<u8>;

/// The plaintext that AES-128-CBC with PKCS#7 padding recovers from
/// `ciphertext` under `key` and `iv`, or `None` where the ciphertext is not
/// a whole number of blocks or does not decrypt to padded data.
pub uninterp spec fn aes128_cbc_pkcs7_decrypt(key: Seq<u8>, iv: Seq<u8>, ciphertext: Seq<u8>) -> Option<Seq<u8>>;

/// The length of the ciphertext of `n` bytes: padding fills the last block,
/// and adds a whole block where the data ends on a block boundary.
pub open spec fn padded_len(n: nat) -> nat {
    (n / 16 + 1) * 16
}

/// The length of the wrapped form of `n` bytes: the IV and the ciphertext.
pub open spec fn wrapped_len(n: nat) -> nat {
    16 + padded_len(n)
}

/// Sixteen bytes from the operating system's random source.
///
/// Calls `Rng::gen` on `rand::rngs::OsRng` for a `[u8; 16]`. Nothing is
/// claimed of the bytes but their number. `OsRng` ends the process where the
/// operating system cannot provide randomness.
#[verifier::external_body]
pub(crate) fn random_block() -> (block: Vec<u8>)
    ensures
        block@.len() == 16,
{
    let block: [u8; 16] = OsRng.gen();
    block.to_vec()
}

/// Encrypts with `cbc::Encryptor<aes::Aes128>` and
/// `encrypt_padded_vec_mut::<Pkcs7>`.
///
/// Claimed of it: the result depends on its three arguments alone; it is as
/// long as the plaintext rounded up to the next block boundary, a full block
/// more where the plaintext ends on one; and decryption under the same key
/// and IV gives the plaintext back.
#[verifier::external_body]
fn cbc_encrypt(key: &Vec<u8>, iv: &Vec<u8>, plaintext: &Vec<u8>) -> (ciphertext: Vec<u8>)
    requires
        key@.len() == 16,
        iv@.len() == 16,
        plaintext@.len() + 16 <= usize::MAX,
    ensures
        ciphertext@ == aes128_cbc_pkcs7_encrypt(key@, iv@, plaintext@),
        ciphertext@.len() == padded_len(plaintext@.len()),
        aes128_cbc_pkcs7_decrypt(key@, iv@, ciphertext@) == Some(plaintext@),
{
    let cipher = cbc::Encryptor::<aes::Aes128>::new(
        GenericArray::from_slice(key),
        GenericArray::from_slice(iv),
    );
    cipher.encrypt_padded_vec_mut::<Pkcs7>(plaintext)
}

/// Decrypts with `cbc::Decryptor<aes::Aes128>` and
/// `decrypt_padded_vec_mut::<Pkcs7>`.
///
/// Claimed of it: whether it succeeds, and the plaintext if it does, depend
/// on its three arguments alone.
#[verifier::external_body]
fn cbc_decrypt(key: &Vec<u8>, iv: &Vec<u8>, ciphertext: &Vec<u8>) -> (plaintext: Result<
    Vec<u8>,
    UnpadError,
>)
    requires
        key@.len() == 16,
        iv@.len() == 16,
    ensures
        match plaintext {
            Ok(bytes) => aes128_cbc_pkcs7_decrypt(key@, iv@, ciphertext@) == Some(bytes@),
            Err(_) => aes128_cbc_pkcs7_decrypt(key@, iv@, ciphertext@) is None,
        },
{
    let cipher = cbc::Decryptor::<aes::Aes128>::new(
        GenericArray::from_slice(key),
        GenericArray::from_slice(iv),
    );
    cipher.decrypt_padded_vec_mut::<Pkcs7>(ciphertext)
}

/// What encryption gives: the IV that was used and the ciphertext.
pub struct EncryptionOutput {
    pub ciphertext: Vec<u8>,
    pub iv: Vec<u8>,
}

impl EncryptionOutput {
    /// Puts a ciphertext and its IV together.
    pub fn new(ciphertext: Vec<u8>, iv: Vec<u8>) -> (output: EncryptionOutput)
        ensures
            output.ciphertext == ciphertext,
            output.iv == iv,
    {
        EncryptionOutput { ciphertext, iv }
    }

    /// The wrapped form: the IV, then the ciphertext.
    pub fn into_combined(self) -> (combined: Vec<u8>)
        ensures
            combined@ == self.iv@ + self.ciphertext@,
    {
        let mut combined = self.iv;
        let mut ciphertext = self.ciphertext;
        combined.append(&mut ciphertext);
        combined
    }
}

/// Whether `key` and a plaintext of `n` bytes can be encrypted, and with
/// what error they cannot.
pub open spec fn encryptable(key: Seq<u8>, n: nat) -> Result<(), CryptokiError> {
    if key.len() != 16 {
        Err(CryptokiError::KeySizeRange)
    } else if n + 32 > usize::MAX {
        Err(CryptokiError::HostMemory)
    } else {
        Ok(())
    }
}

/// What `encrypt_with_iv` returns.
pub open spec fn encrypt_spec(key: Seq<u8>, plaintext: Seq<u8>, iv: Seq<u8>) -> Result<
    (Seq<u8>, Seq<u8>),
    CryptokiError,
> {
    if iv.len() != 16 {
        Err(CryptokiError::ArgumentsBad)
    } else {
        match encryptable(key, plaintext.len()) {
            Err(e) => Err(e),
            Ok(_) => Ok((aes128_cbc_pkcs7_encrypt(key, iv, plaintext), iv)),
        }
    }
}

/// What `decrypt` returns.
pub open spec fn decrypt_spec(key: Seq<u8>, ciphertext: Seq<u8>, iv: Seq<u8>) -> Result<
    Seq<u8>,
    CryptokiError,
> {
    if iv.len() != 16 {
        Err(CryptokiError::ArgumentsBad)
    } else if key.len() != 16 {
        Err(CryptokiError::KeySizeRange)
    } else {
        match aes128_cbc_pkcs7_decrypt(key, iv, ciphertext) {
            Some(plaintext) => Ok(plaintext),
            None => Err(CryptokiError::WrappedKeyMalformed),
        }
    }
}

/// What `wrap_with_iv` returns: the IV followed by the ciphertext.
pub open spec fn wrap_spec(key: Seq<u8>, plaintext: Seq<u8>, iv: Seq<u8>) -> Result<
    Seq<u8>,
    CryptokiError,
> {
    match encrypt_spec(key, plaintext, iv) {
        Ok((ciphertext, iv)) => Ok(iv + ciphertext),
        Err(e) => Err(e),
    }
}

/// What `unwrap` returns: a wrapped key shorter than one block is malformed;
/// otherwise its first block is the IV and the rest the ciphertext.
pub open spec fn unwrap_spec(key: Seq<u8>, wrapped: Seq<u8>) -> Result<Seq<u8>, CryptokiError> {
    if wrapped.len() < 16 {
        Err(CryptokiError::WrappedKeyMalformed)
    } else {
        decrypt_spec(key, wrapped.skip(16), wrapped.take(16))
    }
}

/// The length that the wrapped form of `plaintext` under `key` has, without
/// encrypting anything; it fails where wrapping would fail.
pub fn wrapped_key_len(key: &Vec<u8>, plaintext: &Vec<u8>) -> (result: Result<usize, CryptokiError>)
    ensures
        match result {
            Ok(n) => encryptable(key@, plaintext@.len()) is Ok && n == wrapped_len(
                plaintext@.len(),
            ),
            Err(e) => encryptable(key@, plaintext@.len()) == Err::<(), CryptokiError>(e),
        },
{
    if key.len() != AES_KEY_SIZE {
        return Err(CryptokiError::KeySizeRange);
    }
    if plaintext.len() > usize::MAX - 32 {
        return Err(CryptokiError::HostMemory);
    }
    Ok(AES_IV_SIZE + (plaintext.len() / AES_BLOCK_SIZE + 1) * AES_BLOCK_SIZE)
}

/// Encrypts `plaintext` under `key` with the IV `iv`.
///
/// Fails with `ArgumentsBad` where the IV is not one block long, with
/// `KeySizeRange` where the key is not an AES-128 key, and with `HostMemory`
/// where the plaintext is too long for its ciphertext to be held.
pub fn encrypt_with_iv(key: &Vec<u8>, plaintext: &Vec<u8>, iv: Vec<u8>) -> (result: Result<
    EncryptionOutput,
    CryptokiError,
>)
    ensures
        match result {
            Ok(output) => encrypt_spec(key@, plaintext@, iv@) == Ok::<
                (Seq<u8>, Seq<u8>),
                CryptokiError,
            >((output.ciphertext@, output.iv@)) && output.ciphertext@.len() == padded_len(
                plaintext@.len(),
            ) && decrypt_spec(key@, output.ciphertext@, output.iv@) == Ok::<
                Seq<u8>,
                CryptokiError,
            >(plaintext@),
            Err(e) => encrypt_spec(key@, plaintext@, iv@) == Err::<
                (Seq<u8>, Seq<u8>),
                CryptokiError,
            >(e),
        },
{
    if iv.len() != AES_IV_SIZE {
        return Err(CryptokiError::ArgumentsBad);
    }
    if key.len() != AES_KEY_SIZE {
        return Err(CryptokiError::KeySizeRange);
    }
    if plaintext.len() > usize::MAX - 32 {
        return Err(CryptokiError::HostMemory);
    }
    let ciphertext = cbc_encrypt(key, &iv, plaintext);
    Ok(EncryptionOutput::new(ciphertext, iv))
}

/// Encrypts `plaintext` under `key` with an IV sampled for this call from
/// the operating system's random source. The IV does not depend on the key
/// or the plaintext; what is returned is what `encrypt_with_iv` returns for
/// the IV that was sampled, and it decrypts to `plaintext`.
pub fn encrypt(key: &Vec<u8>, plaintext: &Vec<u8>) -> (result: Result<
    EncryptionOutput,
    CryptokiError,
>)
    ensures
        match result {
            Ok(output) => encryptable(key@, plaintext@.len()) is Ok && output.iv@.len() == 16
                && output.ciphertext@ == aes128_cbc_pkcs7_encrypt(key@, output.iv@, plaintext@)
                && output.ciphertext@.len() == padded_len(plaintext@.len()) && decrypt_spec(
                key@,
                output.ciphertext@,
                output.iv@,
            ) == Ok::<Seq<u8>, CryptokiError>(plaintext@),
            Err(e) => encryptable(key@, plaintext@.len()) == Err::<(), CryptokiError>(e),
        },
{
    let iv = random_block();
    encrypt_with_iv(key, plaintext, iv)
}

/// Decrypts `ciphertext` under `key` with the IV `iv` and strips the
/// padding.
///
/// Fails with `ArgumentsBad` where the IV is not one block long, with
/// `KeySizeRange` where the key is not an AES-128 key, and with
/// `WrappedKeyMalformed` where the cipher rejects the ciphertext or its
/// padding.
pub fn decrypt(key: &Vec<u8>, ciphertext: &Vec<u8>, iv: &Vec<u8>) -> (result: Result<
    Vec<u8>,
    CryptokiError,
>)
    ensures
        match result {
            Ok(plaintext) => decrypt_spec(key@, ciphertext@, iv@) == Ok::<Seq<u8>, CryptokiError>(
                plaintext@,
            ),
            Err(e) => decrypt_spec(key@, ciphertext@, iv@) == Err::<Seq<u8>, CryptokiError>(e),
        },
{
    if iv.len() != AES_IV_SIZE {
        return Err(CryptokiError::ArgumentsBad);
    }
    if key.len() != AES_KEY_SIZE {
        return Err(CryptokiError::KeySizeRange);
    }
    match cbc_decrypt(key, iv, ciphertext) {
        Ok(plaintext) => Ok(plaintext),
        Err(_) => Err(CryptokiError::WrappedKeyMalformed),
    }
}

/// Splits a wrapped key into its IV, the first block, and the ciphertext,
/// the rest. Fails with `WrappedKeyMalformed` where it is shorter than one
/// block.
pub fn destructure_iv_ciphertext(wrapped: &Vec<u8>) -> (result: Result<
    EncryptionOutput,
    CryptokiError,
>)
    ensures
        match result {
            Ok(output) => wrapped@.len() >= 16 && output.iv@ == wrapped@.take(16)
                && output.ciphertext@ == wrapped@.skip(16),
            Err(e) => wrapped@.len() < 16 && e == CryptokiError::WrappedKeyMalformed,
        },
{
    if wrapped.len() < AES_IV_SIZE {
        return Err(CryptokiError::WrappedKeyMalformed);
    }
    let mut iv: Vec<u8> = Vec::new();
    let mut ciphertext: Vec<u8> = Vec::new();
    let mut i: usize = 0;
    while i < wrapped.len()
        invariant
            i <= wrapped@.len(),
            wrapped@.len() >= 16,
            iv@ == wrapped@.take(if i < 16 { i as int } else { 16 }),
            ciphertext@ == wrapped@.subrange(16, if i < 16 { 16 } else { i as int }),
        decreases wrapped@.len() - i,
    {
        if i < AES_IV_SIZE {
            iv.push(wrapped[i]);
        } else {
            ciphertext.push(wrapped[i]);
        }
        i += 1;
    }
    assert(ciphertext@ == wrapped@.skip(16));
    Ok(EncryptionOutput::new(ciphertext, iv))
}

/// Wraps the key material `key` under `wrapping_key` with the IV `iv`.
pub fn wrap_with_iv(wrapping_key: &Vec<u8>, key: &Vec<u8>, iv: Vec<u8>) -> (result: Result<
    Vec<u8>,
    CryptokiError,
>)
    ensures
        match result {
            Ok(wrapped) => wrap_spec(wrapping_key@, key@, iv@) == Ok::<Seq<u8>, CryptokiError>(
                wrapped@,
            ) && wrapped@.len() == wrapped_len(key@.len()) && unwrap_spec(wrapping_key@, wrapped@)
                == Ok::<Seq<u8>, CryptokiError>(key@),
            Err(e) => wrap_spec(wrapping_key@, key@, iv@) == Err::<Seq<u8>, CryptokiError>(e),
        },
{
    match encrypt_with_iv(wrapping_key, key, iv) {
        Ok(output) => {
            let ghost iv_used = output.iv@;
            let ghost ciphertext = output.ciphertext@;
            let wrapped = output.into_combined();
            proof {
                assert(wrapped@.take(16) == iv_used);
                assert(wrapped@.skip(16) == ciphertext);
            }
            Ok(wrapped)
        },
        Err(e) => Err(e),
    }
}

/// Wraps the key material `key` under `wrapping_key` with an IV sampled for
/// this call. Succeeds exactly where the wrapping key is an AES-128 key and
/// the key material is not too long; the result is the sampled IV followed
/// by the ciphertext under it, and unwrapping it under the same wrapping key
/// gives `key` back.
pub fn wrap(wrapping_key: &Vec<u8>, key: &Vec<u8>) -> (result: Result<Vec<u8>, CryptokiError>)
    ensures
        match result {
            Ok(wrapped) => encryptable(wrapping_key@, key@.len()) is Ok && wrapped@.len()
                == wrapped_len(key@.len()) && wrap_spec(wrapping_key@, key@, wrapped@.take(16))
                == Ok::<Seq<u8>, CryptokiError>(wrapped@) && unwrap_spec(wrapping_key@, wrapped@)
                == Ok::<Seq<u8>, CryptokiError>(key@),
            Err(e) => encryptable(wrapping_key@, key@.len()) == Err::<(), CryptokiError>(e),
        },
{
    let iv = random_block();
    let ghost sampled = iv@;
    let result = wrap_with_iv(wrapping_key, key, iv);
    proof {
        if result is Ok {
            assert(result->Ok_0@.take(16) == sampled);
        }
    }
    result
}

/// Unwraps a wrapped key under `unwrapping_key`: splits off the IV,
/// decrypts the rest and strips the padding.
pub fn unwrap(unwrapping_key: &Vec<u8>, wrapped: &Vec<u8>) -> (result: Result<
    Vec<u8>,
    CryptokiError,
>)
    ensures
        match result {
            Ok(key) => unwrap_spec(unwrapping_key@, wrapped@) == Ok::<Seq<u8>, CryptokiError>(
                key@,
            ),
            Err(e) => unwrap_spec(unwrapping_key@, wrapped@) == Err::<Seq<u8>, CryptokiError>(e),
        },
{
    let parts = match destructure_iv_ciphertext(wrapped) {
        Ok(parts) => parts,
        Err(e) => {
            return Err(e);
        },
    };
    decrypt(unwrapping_key, &parts.ciphertext, &parts.iv)
}

} // verus!
