//! The boundary to the primitive providers: the AES block cipher, the
//! system random source, unique-id generation and buffer zeroization,
//! each behind a trusted wrapper, plus the owner type for a provider's
//! incremental-hash state.
//!
//! The block-cipher results are named (`aes*_encrypt_block_of`,
//! `aes*_decrypt_block_of`): a block cipher's output is a function of
//! key and block alone, and the only further facts stated are the block
//! length and that encryption and decryption invert one another, which
//! is the defining property of the cipher.

use vstd::prelude::*;

use aes::cipher::{BlockCipherDecrypt, BlockCipherEncrypt, KeyInit};
use zeroize::Zeroize;

use crate::error::{KError, KResult};
use crate::interface::CKR_GENERAL_ERROR;

verus! {

/// AES-128 of one block under the given key.
pub uninterp spec fn aes128_encrypt_block_of(key: Seq<u8>, block: Seq<u8>) -> Seq<u8>;

/// Inverse of AES-128 on one block under the given key.
pub uninterp spec fn aes128_decrypt_block_of(key: Seq<u8>, block: Seq<u8>) -> Seq<u8>;

/// AES-192 of one block under the given key.
pub uninterp spec fn aes192_encrypt_block_of(key: Seq<u8>, block: Seq<u8>) -> Seq<u8>;

/// Inverse of AES-192 on one block under the given key.
pub uninterp spec fn aes192_decrypt_block_of(key: Seq<u8>, block: Seq<u8>) -> Seq<u8>;

/// AES-256 of one block under the given key.
pub uninterp spec fn aes256_encrypt_block_of(key: Seq<u8>, block: Seq<u8>) -> Seq<u8>;

/// Inverse of AES-256 on one block under the given key.
pub uninterp spec fn aes256_decrypt_block_of(key: Seq<u8>, block: Seq<u8>) -> Seq<u8>;

/// Relies on `aes::Aes128` (`KeyInit::new_from_slice`,
/// `BlockCipherEncrypt::encrypt_block`): a 16-byte permutation of the
/// block, determined by key and block; decryption inverts it.
#[verifier::external_body]
pub fn aes128_encrypt_block(key: &[u8], block: &[u8]) -> (r: Vec<u8>)
    requires
        key@.len() == 16,
        block@.len() == 16,
    ensures
        r@ == aes128_encrypt_block_of(key@, block@),
        r@.len() == 16,
        aes128_decrypt_block_of(key@, r@) == block@,
{
    let cipher = aes::Aes128::new_from_slice(key).unwrap();
    let mut b = aes::Block::try_from(block).unwrap();
    cipher.encrypt_block(&mut b);
    b.as_slice().to_vec()
}

/// Relies on `aes::Aes128` (`BlockCipherDecrypt::decrypt_block`): the
/// inverse permutation of `encrypt_block` under the same key.
#[verifier::external_body]
pub fn aes128_decrypt_block(key: &[u8], block: &[u8]) -> (r: Vec<u8>)
    requires
        key@.len() == 16,
        block@.len() == 16,
    ensures
        r@ == aes128_decrypt_block_of(key@, block@),
        r@.len() == 16,
        aes128_encrypt_block_of(key@, r@) == block@,
{
    let cipher = aes::Aes128::new_from_slice(key).unwrap();
    let mut b = aes::Block::try_from(block).unwrap();
    cipher.decrypt_block(&mut b);
    b.as_slice().to_vec()
}

/// Relies on `aes::Aes192`: as `aes128_encrypt_block`, with a 24-byte key.
#[verifier::external_body]
pub fn aes192_encrypt_block(key: &[u8], block: &[u8]) -> (r: Vec<u8>)
    requires
        key@.len() == 24,
        block@.len() == 16,
    ensures
        r@ == aes192_encrypt_block_of(key@, block@),
        r@.len() == 16,
        aes192_decrypt_block_of(key@, r@) == block@,
{
    let cipher = aes::Aes192::new_from_slice(key).unwrap();
    let mut b = aes::Block::try_from(block).unwrap();
    cipher.encrypt_block(&mut b);
    b.as_slice().to_vec()
}

/// Relies on `aes::Aes192`: as `aes128_decrypt_block`, with a 24-byte key.
#[verifier::external_body]
pub fn aes192_decrypt_block(key: &[u8], block: &[u8]) -> (r: Vec<u8>)
    requires
        key@.len() == 24,
        block@.len() == 16,
    ensures
        r@ == aes192_decrypt_block_of(key@, block@),
        r@.len() == 16,
        aes192_encrypt_block_of(key@, r@) == block@,
{
    let cipher = aes::Aes192::new_from_slice(key).unwrap();
    let mut b = aes::Block::try_from(block).unwrap();
    cipher.decrypt_block(&mut b);
    b.as_slice().to_vec()
}

/// Relies on `aes::Aes256`: as `aes128_encrypt_block`, with a 32-byte key.
#[verifier::external_body]
pub fn aes256_encrypt_block(key: &[u8], block: &[u8]) -> (r: Vec<u8>)
    requires
        key@.len() == 32,
        block@.len() == 16,
    ensures
        r@ == aes256_encrypt_block_of(key@, block@),
        r@.len() == 16,
        aes256_decrypt_block_of(key@, r@) == block@,
{
    let cipher = aes::Aes256::new_from_slice(key).unwrap();
    let mut b = aes::Block::try_from(block).unwrap();
    cipher.encrypt_block(&mut b);
    b.as_slice().to_vec()
}

/// Relies on `aes::Aes256`: as `aes128_decrypt_block`, with a 32-byte key.
#[verifier::external_body]
pub fn aes256_decrypt_block(key: &[u8], block: &[u8]) -> (r: Vec<u8>)
    requires
        key@.len() == 32,
        block@.len() == 16,
    ensures
        r@ == aes256_decrypt_block_of(key@, block@),
        r@.len() == 16,
        aes256_encrypt_block_of(key@, r@) == block@,
{
    let cipher = aes::Aes256::new_from_slice(key).unwrap();
    let mut b = aes::Block::try_from(block).unwrap();
    cipher.decrypt_block(&mut b);
    b.as_slice().to_vec()
}

/// Relies on `uuid::Builder::from_random_bytes` and the `Display` form
/// of `uuid::Uuid`: sets the version-4 and variant bits on the given
/// bytes and renders the 36-byte hyphenated ASCII form.  The result is
/// a function of the bytes alone, but the library reads nothing of it
/// beyond length and ASCII range, so nothing more is named or stated.
#[verifier::external_body]
fn uuid_v4_from_bytes(bytes: &[u8]) -> (r: Vec<u8>)
    requires
        bytes@.len() == 16,
    ensures
        r@.len() == 36,
        forall|i: int| 0 <= i < r@.len() ==> r@[i] < 128,
{
    let mut b = [0u8; 16];
    b.copy_from_slice(bytes);
    uuid::Builder::from_random_bytes(b).into_uuid().to_string().into_bytes()
}

/// A fresh version-4 unique id in the 36-byte hyphenated ASCII form,
/// drawn from the system random source; a failing source is reported
/// as an error rather than a crash.
pub fn generate_unique_id() -> (r: KResult<Vec<u8>>)
    ensures
        r matches Ok(v) ==> v@.len() == 36 && (forall|i: int| 0 <= i < v@.len() ==> v@[i] < 128),
        r matches Err(e) ==> e == KError::RvError(CKR_GENERAL_ERROR),
{
    let bytes = match fill_random(16) {
        Ok(b) => b,
        Err(_) => {
            return Err(KError::RvError(CKR_GENERAL_ERROR));
        },
    };
    Ok(uuid_v4_from_bytes(bytes.as_slice()))
}

/// Relies on `getrandom::fill`: fills a buffer from the system random
/// source.  The bytes are random, so only the length is stated.
#[verifier::external_body]
pub fn fill_random(len: usize) -> (r: KResult<Vec<u8>>)
    ensures
        r matches Ok(v) ==> v@.len() == len,
        r matches Err(e) ==> e == KError::RvError(CKR_GENERAL_ERROR),
{
    let mut buf = vec![0u8; len];
    match getrandom::fill(&mut buf) {
        Ok(()) => Ok(buf),
        Err(_) => Err(KError::RvError(CKR_GENERAL_ERROR)),
    }
}

/// Relies on `zeroize::Zeroize for Vec<u8>`: overwrites every byte of
/// the vector (its spare capacity included) with zeros, then clears it.
#[verifier::external_body]
pub fn zeroize_bytes(v: &mut Vec<u8>)
    ensures
        final(v)@.len() == 0,
{
    v.zeroize();
}

/// The owner of a primitive provider's incremental-hash state.
///
/// The provider hands out an opaque state created lazily on first use;
/// this owner tracks the chosen algorithm and models the state as the
/// bytes absorbed since the last initialisation.
#[derive(Debug)]
pub struct HashState {
    pub alg: u64,
    pub initialized: bool,
    pub s: Vec<u8>,
}

impl HashState {
    pub fn new(alg: u64) -> (r: HashState)
        ensures
            r.alg == alg,
            !r.initialized,
            r.s@ == Seq::<u8>::empty(),
    {
        let r = HashState { alg, initialized: false, s: Vec::new() };
        assert(r.s@ =~= Seq::<u8>::empty());
        r
    }

    /// Create the underlying state.
    pub fn init(&mut self)
        ensures
            final(self).alg == old(self).alg,
            final(self).initialized,
            final(self).s@ == Seq::<u8>::empty(),
    {
        self.initialized = true;
        self.s = Vec::new();
        assert(self.s@ =~= Seq::<u8>::empty());
    }

    /// Return the state to its freshly-initialised form, creating it
    /// first if it does not exist yet.
    pub fn reset(&mut self)
        ensures
            final(self).alg == old(self).alg,
            final(self).initialized,
            final(self).s@ == Seq::<u8>::empty(),
    {
        if !self.initialized {
            self.init();
        }
        self.s = Vec::new();
        assert(self.s@ =~= Seq::<u8>::empty());
    }

    pub fn get_alg(&self) -> (r: u64)
        ensures
            r == self.alg,
    {
        self.alg
    }

    /// The underlying state, created lazily on first use.
    pub fn get_state(&mut self) -> (r: &mut Vec<u8>)
        ensures
            final(self).alg == old(self).alg,
            final(self).initialized,
            old(self).initialized ==> *r == old(self).s,
            !old(self).initialized ==> (*r)@ == Seq::<u8>::empty(),
            final(self).s == *final(r),
    {
        if !self.initialized {
            self.init();
        }
        &mut self.s
    }
}

} // verus!
