//! The AES algorithm family: key factory, mechanism descriptors and
//! operation state machines (encrypt/decrypt, wrap/unwrap, key
//! generation, MAC, and the encrypt-data key-derivation functions).
//!
//! The block-cipher modes (ECB, CBC) are plain loops over the trusted
//! single-block primitives of `cryptography`; their contracts carry,
//! besides the ciphertext itself, the fact that decryption restores the
//! plaintext, which the wrap/unwrap round trip rests on.

use vstd::prelude::*;
use vstd::slice::slice_subrange;

use crate::cryptography::{
    aes128_decrypt_block, aes128_decrypt_block_of, aes128_encrypt_block, aes128_encrypt_block_of,
    aes192_decrypt_block, aes192_decrypt_block_of, aes192_encrypt_block, aes192_encrypt_block_of,
    aes256_decrypt_block, aes256_decrypt_block_of, aes256_encrypt_block, aes256_encrypt_block_of,
};
use crate::attribute::{
    clone_bytes, eq_bytes, from_bool, from_bytes, from_string, from_ulong, AttrType, AttrView,
};
use crate::cryptography::zeroize_bytes;
use crate::error::{KError, KResult};
use crate::interface::{
    CkAttribute, CkAttrView, CkMechanism, CkMechParams, CkMechView, MechParamsView, CKA_ALWAYS_SENSITIVE,
    CKA_CLASS, CKA_COPYABLE, CKA_DECRYPT, CKA_DERIVE, CKA_DESTROYABLE, CKA_ENCRYPT,
    CKA_EXTRACTABLE, CKA_ID, CKA_KEY_GEN_MECHANISM, CKA_KEY_TYPE, CKA_LABEL, CKA_LOCAL,
    CKA_MODIFIABLE, CKA_NEVER_EXTRACTABLE, CKA_PRIVATE, CKA_SENSITIVE, CKA_SIGN, CKA_TOKEN,
    CKA_UNIQUE_ID, CKA_UNWRAP, CKA_VALUE, CKA_VALUE_LEN, CKA_VERIFY, CKA_WRAP, CKM_AES_CBC,
    CKM_AES_CBC_PAD, CKM_AES_ECB, CKM_AES_ECB_ENCRYPT_DATA, CKM_AES_CBC_ENCRYPT_DATA, CKM_AES_KEY_GEN,
    CKM_AES_CMAC, CKM_AES_CMAC_GENERAL, CKM_AES_MAC, CKM_AES_MAC_GENERAL, CKF_DECRYPT, CKF_DERIVE, CKF_ENCRYPT, CKF_GENERATE,
    CKF_SIGN, CKF_UNWRAP, CKF_VERIFY, CKF_WRAP, CKO_SECRET_KEY, CKK_AES, MechanismInfo,
    CKR_ATTRIBUTE_VALUE_INVALID, CKR_DATA_LEN_RANGE, CKR_ENCRYPTED_DATA_INVALID, CKR_ENCRYPTED_DATA_LEN_RANGE,
    CKR_GENERAL_ERROR, CKR_KEY_SIZE_RANGE, CKR_MECHANISM_INVALID, CKR_MECHANISM_PARAM_INVALID,
    CKR_OPERATION_NOT_INITIALIZED, CKR_TEMPLATE_INCOMPLETE, CKR_TEMPLATE_INCONSISTENT,
};
use crate::mechanism::{
    lemma_assoc_find_push, spec_assoc_find, Factory, Mechanisms, ObjectFactories, ObjectType,
    Operation,
};
use crate::object::{
    default_key_attributes, default_object_build, default_secret_key_generate,
    lemma_missing_defaults_absent, lemma_template_ulong_built, spec_build_outcome,
    lemma_find_index_props, set_attr_traced, spec_bool_attr, spec_build_result, spec_check_rc,
    spec_decode_entries, spec_find_attr, spec_find_index, spec_get_attr_as_bytes,
    spec_get_attr_as_ulong, spec_key_ops_ok, spec_missing_defaults, spec_oa, spec_template_ulong,
    template_ulong, OAView, Object, ObjectAttr, OAF_CHANGE_ON_COPY, OAF_DEFVAL,
    OAF_REQUIRED_ON_CREATE, OAF_REQUIRED_ON_GENERATE, OAF_SENSITIVE, OAF_SETTABLE_ONLY_ON_CREATE,
    OAF_UNCHANGEABLE,
};
use crate::interface::{
    CKR_KEY_FUNCTION_NOT_PERMITTED, CKR_OK, CKR_SIGNATURE_INVALID, CKR_SIGNATURE_LEN_RANGE,
};
use vstd::bytes::spec_u64_to_le_bytes;

verus! {

pub const MIN_AES_SIZE_BYTES: usize = 16;

pub const MID_AES_SIZE_BYTES: usize = 24;

pub const MAX_AES_SIZE_BYTES: usize = 32;

pub const AES_BLOCK_SIZE: usize = 16;

/// The lawful AES key lengths in bytes.
pub open spec fn spec_aes_key_len_ok(n: int) -> bool {
    n == 16 || n == 24 || n == 32
}

/// A valid AES secret length, or `KEY_SIZE_RANGE`.
pub fn check_key_len(len: usize) -> (r: KResult<()>)
    ensures
        r == if spec_aes_key_len_ok(len as int) {
            Ok::<(), KError>(())
        } else {
            Err::<(), KError>(KError::RvError(CKR_KEY_SIZE_RANGE))
        },
{
    if len == 16 || len == 24 || len == 32 {
        Ok(())
    } else {
        Err(KError::RvError(CKR_KEY_SIZE_RANGE))
    }
}

/// One AES block under the given key, the key size chosen by length.
pub open spec fn spec_aes_enc_block(key: Seq<u8>, b: Seq<u8>) -> Seq<u8> {
    if key.len() == 16 {
        aes128_encrypt_block_of(key, b)
    } else if key.len() == 24 {
        aes192_encrypt_block_of(key, b)
    } else {
        aes256_encrypt_block_of(key, b)
    }
}

/// The inverse block, the key size chosen by length.
pub open spec fn spec_aes_dec_block(key: Seq<u8>, b: Seq<u8>) -> Seq<u8> {
    if key.len() == 16 {
        aes128_decrypt_block_of(key, b)
    } else if key.len() == 24 {
        aes192_decrypt_block_of(key, b)
    } else {
        aes256_decrypt_block_of(key, b)
    }
}

fn aes_enc_block(key: &[u8], block: &[u8]) -> (r: Vec<u8>)
    requires
        spec_aes_key_len_ok(key@.len() as int),
        block@.len() == 16,
    ensures
        r@ == spec_aes_enc_block(key@, block@),
        r@.len() == 16,
        spec_aes_dec_block(key@, r@) == block@,
{
    if key.len() == 16 {
        aes128_encrypt_block(key, block)
    } else if key.len() == 24 {
        aes192_encrypt_block(key, block)
    } else {
        aes256_encrypt_block(key, block)
    }
}

fn aes_dec_block(key: &[u8], block: &[u8]) -> (r: Vec<u8>)
    requires
        spec_aes_key_len_ok(key@.len() as int),
        block@.len() == 16,
    ensures
        r@ == spec_aes_dec_block(key@, block@),
        r@.len() == 16,
        spec_aes_enc_block(key@, r@) == block@,
{
    if key.len() == 16 {
        aes128_decrypt_block(key, block)
    } else if key.len() == 24 {
        aes192_decrypt_block(key, block)
    } else {
        aes256_decrypt_block(key, block)
    }
}

/// Pointwise exclusive-or of two equal-length byte strings.
pub open spec fn spec_xor(a: Seq<u8>, b: Seq<u8>) -> Seq<u8> {
    Seq::new(a.len(), |i: int| a[i] ^ b[i])
}

/// Exclusive-or cancels itself.
pub proof fn lemma_xor_cancel(a: Seq<u8>, b: Seq<u8>)
    requires
        a.len() == b.len(),
    ensures
        spec_xor(spec_xor(a, b), b) =~= a,
{
    assert forall|i: int| 0 <= i < a.len() implies spec_xor(spec_xor(a, b), b)[i] == a[i] by {
        let x = a[i];
        let y = b[i];
        assert((x ^ y) ^ y == x) by (bit_vector);
    }
}

fn xor_bytes(a: &[u8], b: &[u8]) -> (r: Vec<u8>)
    requires
        a@.len() == b@.len(),
    ensures
        r@ == spec_xor(a@, b@),
        r@.len() == a@.len(),
{
    let mut out: Vec<u8> = Vec::new();
    let mut i: usize = 0;
    while i < a.len()
        invariant
            0 <= i <= a@.len(),
            a@.len() == b@.len(),
            out@.len() == i,
            forall|j: int| 0 <= j < i ==> out@[j] == (a@[j] ^ b@[j]),
        decreases a@.len() - i,
    {
        out.push(a[i] ^ b[i]);
        i += 1;
    }
    assert(out@ =~= spec_xor(a@, b@));
    out
}

/// The first `n` ciphertext blocks of AES-ECB.
pub open spec fn spec_ecb_enc_blocks(key: Seq<u8>, data: Seq<u8>, n: int) -> Seq<u8>
    decreases n,
{
    if n <= 0 {
        Seq::empty()
    } else {
        spec_ecb_enc_blocks(key, data, n - 1) + spec_aes_enc_block(
            key,
            data.subrange(16 * (n - 1), 16 * n),
        )
    }
}

/// AES-ECB of a whole block-aligned input.
pub open spec fn spec_ecb_encrypt(key: Seq<u8>, data: Seq<u8>) -> Seq<u8> {
    spec_ecb_enc_blocks(key, data, data.len() as int / 16)
}

/// The first `n` plaintext blocks of AES-ECB decryption.
pub open spec fn spec_ecb_dec_blocks(key: Seq<u8>, data: Seq<u8>, n: int) -> Seq<u8>
    decreases n,
{
    if n <= 0 {
        Seq::empty()
    } else {
        spec_ecb_dec_blocks(key, data, n - 1) + spec_aes_dec_block(
            key,
            data.subrange(16 * (n - 1), 16 * n),
        )
    }
}

/// AES-ECB decryption of a whole block-aligned input.
pub open spec fn spec_ecb_decrypt(key: Seq<u8>, data: Seq<u8>) -> Seq<u8> {
    spec_ecb_dec_blocks(key, data, data.len() as int / 16)
}

/// The first `n` ciphertext blocks of AES-CBC: each plaintext block is
/// xored with the previous ciphertext block (the IV for the first)
/// before the block cipher.
pub open spec fn spec_cbc_enc_blocks(key: Seq<u8>, iv: Seq<u8>, data: Seq<u8>, n: int) -> Seq<u8>
    decreases n,
{
    if n <= 0 {
        Seq::empty()
    } else {
        let prev = spec_cbc_enc_blocks(key, iv, data, n - 1);
        let chain = if n == 1 {
            iv
        } else {
            prev.subrange(16 * (n - 2), 16 * (n - 1))
        };
        prev + spec_aes_enc_block(key, spec_xor(data.subrange(16 * (n - 1), 16 * n), chain))
    }
}

/// AES-CBC of a whole block-aligned input.
pub open spec fn spec_cbc_encrypt(key: Seq<u8>, iv: Seq<u8>, data: Seq<u8>) -> Seq<u8> {
    spec_cbc_enc_blocks(key, iv, data, data.len() as int / 16)
}

/// The first `n` plaintext blocks of AES-CBC decryption.
pub open spec fn spec_cbc_dec_blocks(key: Seq<u8>, iv: Seq<u8>, data: Seq<u8>, n: int) -> Seq<u8>
    decreases n,
{
    if n <= 0 {
        Seq::empty()
    } else {
        let chain = if n == 1 {
            iv
        } else {
            data.subrange(16 * (n - 2), 16 * (n - 1))
        };
        spec_cbc_dec_blocks(key, iv, data, n - 1) + spec_xor(
            spec_aes_dec_block(key, data.subrange(16 * (n - 1), 16 * n)),
            chain,
        )
    }
}

/// AES-CBC decryption of a whole block-aligned input.
pub open spec fn spec_cbc_decrypt(key: Seq<u8>, iv: Seq<u8>, data: Seq<u8>) -> Seq<u8> {
    spec_cbc_dec_blocks(key, iv, data, data.len() as int / 16)
}

/// The PKCS#7 padding of an input: one to sixteen copies of the pad
/// length itself, closing the input to a whole number of blocks.
pub open spec fn spec_pkcs7_pad(data: Seq<u8>) -> Seq<u8> {
    let n = 16 - data.len() % 16;
    data + Seq::new(n as nat, |i: int| n as u8)
}

/// Strip a PKCS#7 pad, or refuse input that does not end in one.
pub open spec fn spec_pkcs7_unpad(p: Seq<u8>) -> Option<Seq<u8>> {
    if p.len() == 0 || p.len() % 16 != 0 {
        None
    } else {
        let n = p.last() as int;
        if 1 <= n <= 16 && (forall|i: int| p.len() - n <= i < p.len() ==> p[i] == n as u8) {
            Some(p.take(p.len() - n))
        } else {
            None
        }
    }
}

/// Stripping the pad restores the input.
pub proof fn lemma_pkcs7_round_trip(data: Seq<u8>)
    ensures
        spec_pkcs7_unpad(spec_pkcs7_pad(data)) == Some(data),
{
    let p = spec_pkcs7_pad(data);
    let n = 16 - data.len() % 16;
    assert(p.len() == data.len() + n);
    assert(p.len() % 16 == 0) by {
        assert(data.len() % 16 + n == 16);
    }
    assert(p.last() == n as u8);
    assert(n as u8 as int == n);
    assert forall|i: int| p.len() - n <= i < p.len() implies p[i] == n as u8 by {}
    assert(p.take(p.len() - n) =~= data);
}

/// Build the PKCS#7 padding of an input.
fn pkcs7_pad(data: &[u8]) -> (r: Vec<u8>)
    requires
        data@.len() + 16 <= usize::MAX,
    ensures
        r@ == spec_pkcs7_pad(data@),
        r@.len() == data@.len() + (16 - data@.len() % 16),
{
    let n: usize = 16 - data.len() % 16;
    let mut out = slice_to_vec_bytes(data);
    let mut k: usize = 0;
    while k < n
        invariant
            0 <= k <= n,
            n == 16 - data@.len() % 16,
            out@ == data@ + Seq::new(k as nat, |i: int| n as u8),
        decreases n - k,
    {
        out.push(n as u8);
        assert(out@ =~= data@ + Seq::new(k as nat + 1, |i: int| n as u8));
        k += 1;
    }
    out
}

/// Strip a PKCS#7 pad, or refuse input that does not end in one.
fn pkcs7_unpad(p: Vec<u8>) -> (r: Option<Vec<u8>>)
    ensures
        match spec_pkcs7_unpad(p@) {
            Some(x) => r matches Some(v) && v@ == x,
            None => r is None,
        },
{
    if p.len() == 0 || p.len() % 16 != 0 {
        return None;
    }
    let n = p[p.len() - 1] as usize;
    if n == 0 || n > 16 {
        return None;
    }
    let mut i: usize = p.len() - n;
    while i < p.len()
        invariant
            p@.len() - n <= i <= p@.len(),
            0 < n <= 16 <= p@.len(),
            n == p@.last() as int,
            forall|j: int| p@.len() - n <= j < i ==> p@[j] == n as u8,
        decreases p@.len() - i,
    {
        if p[i] as usize != n {
            return None;
        }
        i += 1;
    }
    let ghost p0 = p@;
    let mut p = p;
    let keep = p.len() - n;
    p.truncate(keep);
    proof {
        assert(spec_pkcs7_unpad(p0) is Some);
        assert(p@ =~= spec_pkcs7_unpad(p0)->Some_0);
    }
    Some(p)
}

/// Decrypting the first `n` blocks reads only the first `n` blocks.
proof fn lemma_ecb_dec_blocks_take(key: Seq<u8>, d1: Seq<u8>, d2: Seq<u8>, n: int)
    requires
        16 * n <= d1.len(),
        16 * n <= d2.len(),
        d1.take(16 * n) == d2.take(16 * n),
    ensures
        spec_ecb_dec_blocks(key, d1, n) == spec_ecb_dec_blocks(key, d2, n),
    decreases n,
{
    if n > 0 {
        assert(d1.take(16 * (n - 1)) =~= d1.take(16 * n).take(16 * (n - 1)));
        assert(d2.take(16 * (n - 1)) =~= d2.take(16 * n).take(16 * (n - 1)));
        lemma_ecb_dec_blocks_take(key, d1, d2, n - 1);
        assert(d1.subrange(16 * (n - 1), 16 * n) =~= d1.take(16 * n).subrange(
            16 * (n - 1),
            16 * n,
        ));
        assert(d2.subrange(16 * (n - 1), 16 * n) =~= d2.take(16 * n).subrange(
            16 * (n - 1),
            16 * n,
        ));
    }
}

/// Decrypting the first `n` CBC blocks reads only the first `n` blocks.
proof fn lemma_cbc_dec_blocks_take(key: Seq<u8>, iv: Seq<u8>, d1: Seq<u8>, d2: Seq<u8>, n: int)
    requires
        16 * n <= d1.len(),
        16 * n <= d2.len(),
        d1.take(16 * n) == d2.take(16 * n),
    ensures
        spec_cbc_dec_blocks(key, iv, d1, n) == spec_cbc_dec_blocks(key, iv, d2, n),
    decreases n,
{
    if n > 0 {
        assert(d1.take(16 * (n - 1)) =~= d1.take(16 * n).take(16 * (n - 1)));
        assert(d2.take(16 * (n - 1)) =~= d2.take(16 * n).take(16 * (n - 1)));
        lemma_cbc_dec_blocks_take(key, iv, d1, d2, n - 1);
        assert(d1.subrange(16 * (n - 1), 16 * n) =~= d1.take(16 * n).subrange(
            16 * (n - 1),
            16 * n,
        ));
        assert(d2.subrange(16 * (n - 1), 16 * n) =~= d2.take(16 * n).subrange(
            16 * (n - 1),
            16 * n,
        ));
        if n > 1 {
            assert(d1.subrange(16 * (n - 2), 16 * (n - 1)) =~= d1.take(16 * n).subrange(
                16 * (n - 2),
                16 * (n - 1),
            ));
            assert(d2.subrange(16 * (n - 2), 16 * (n - 1)) =~= d2.take(16 * n).subrange(
                16 * (n - 2),
                16 * (n - 1),
            ));
        }
    }
}

/// AES-ECB over a block-aligned input.  Besides the ciphertext, the
/// contract states that decryption restores the input.
pub fn aes_ecb_encrypt(key: &[u8], data: &[u8]) -> (r: Vec<u8>)
    requires
        spec_aes_key_len_ok(key@.len() as int),
        data@.len() % 16 == 0,
    ensures
        r@.len() == data@.len(),
        r@ == spec_ecb_encrypt(key@, data@),
        spec_ecb_decrypt(key@, r@) == data@,
{
    let n = data.len() / 16;
    let mut out: Vec<u8> = Vec::new();
    let mut i: usize = 0;
    let mut off: usize = 0;
    while i < n
        invariant
            0 <= i <= n,
            off == 16 * i,
            off <= data@.len(),
            data@.len() <= usize::MAX,
            spec_aes_key_len_ok(key@.len() as int),
            data@.len() == 16 * n,
            out@.len() == 16 * i,
            out@ == spec_ecb_enc_blocks(key@, data@, i as int),
            spec_ecb_dec_blocks(key@, out@, i as int) == data@.take(16 * i),
        decreases n - i,
    {
        let ghost out0 = out@;
        let block = slice_subrange(data, off, off + 16);
        let mut c = aes_enc_block(key, block);
        let ghost cblk = c@;
        out.append(&mut c);
        proof {
            assert(out@ =~= out0 + cblk);
            assert(out@ =~= spec_ecb_enc_blocks(key@, data@, i as int + 1));
            assert(out0.take(16 * i as int) =~= out@.take(16 * i as int));
            lemma_ecb_dec_blocks_take(key@, out0, out@, i as int);
            assert(out@.subrange(16 * i as int, 16 * (i as int + 1)) =~= cblk);
            assert(spec_ecb_dec_blocks(key@, out@, i as int + 1) =~= data@.take(
                16 * (i as int + 1),
            ));
        }
        i += 1;
        off += 16;
    }
    proof {
        assert(data@.take(16 * n as int) =~= data@);
        assert(out@.len() as int / 16 == n as int);
    }
    out
}

/// The inverse of `aes_ecb_encrypt`.
pub fn aes_ecb_decrypt(key: &[u8], data: &[u8]) -> (r: Vec<u8>)
    requires
        spec_aes_key_len_ok(key@.len() as int),
        data@.len() % 16 == 0,
    ensures
        r@.len() == data@.len(),
        r@ == spec_ecb_decrypt(key@, data@),
{
    let n = data.len() / 16;
    let mut out: Vec<u8> = Vec::new();
    let mut i: usize = 0;
    let mut off: usize = 0;
    while i < n
        invariant
            0 <= i <= n,
            off == 16 * i,
            off <= data@.len(),
            data@.len() <= usize::MAX,
            spec_aes_key_len_ok(key@.len() as int),
            data@.len() == 16 * n,
            out@.len() == 16 * i,
            out@ == spec_ecb_dec_blocks(key@, data@, i as int),
        decreases n - i,
    {
        let block = slice_subrange(data, off, off + 16);
        let mut p = aes_dec_block(key, block);
        out.append(&mut p);
        proof {
            assert(out@ =~= spec_ecb_dec_blocks(key@, data@, i as int + 1));
        }
        i += 1;
        off += 16;
    }
    proof {
        assert(out@.len() as int / 16 == n as int);
    }
    out
}

/// AES-CBC over a block-aligned input.  Besides the ciphertext, the
/// contract states that decryption restores the input.
pub fn aes_cbc_encrypt(key: &[u8], iv: &[u8], data: &[u8]) -> (r: Vec<u8>)
    requires
        spec_aes_key_len_ok(key@.len() as int),
        iv@.len() == 16,
        data@.len() % 16 == 0,
    ensures
        r@.len() == data@.len(),
        r@ == spec_cbc_encrypt(key@, iv@, data@),
        spec_cbc_decrypt(key@, iv@, r@) == data@,
{
    let n = data.len() / 16;
    let mut out: Vec<u8> = Vec::new();
    let mut chain: Vec<u8> = slice_to_vec_bytes(iv);
    let mut i: usize = 0;
    let mut off: usize = 0;
    while i < n
        invariant
            0 <= i <= n,
            off == 16 * i,
            off <= data@.len(),
            data@.len() <= usize::MAX,
            spec_aes_key_len_ok(key@.len() as int),
            iv@.len() == 16,
            data@.len() == 16 * n,
            out@.len() == 16 * i,
            chain@.len() == 16,
            chain@ == if i == 0 {
                iv@
            } else {
                out@.subrange(16 * (i as int - 1), 16 * i as int)
            },
            out@ == spec_cbc_enc_blocks(key@, iv@, data@, i as int),
            spec_cbc_dec_blocks(key@, iv@, out@, i as int) == data@.take(16 * i),
        decreases n - i,
    {
        let ghost out0 = out@;
        let ghost chain0 = chain@;
        let block = slice_subrange(data, off, off + 16);
        let x = xor_bytes(block, chain.as_slice());
        let mut c = aes_enc_block(key, x.as_slice());
        let ghost cblk = c@;
        chain = clone_vec_bytes(&c);
        out.append(&mut c);
        proof {
            assert(out@ =~= out0 + cblk);
            assert(out@ =~= spec_cbc_enc_blocks(key@, iv@, data@, i as int + 1));
            assert(out0.take(16 * i as int) =~= out@.take(16 * i as int));
            lemma_cbc_dec_blocks_take(key@, iv@, out0, out@, i as int);
            assert(out@.subrange(16 * i as int, 16 * (i as int + 1)) =~= cblk);
            assert(spec_aes_dec_block(key@, cblk) == x@);
            if i > 0 {
                assert(out@.subrange(16 * (i as int - 1), 16 * i as int) =~= out0.subrange(
                    16 * (i as int - 1),
                    16 * i as int,
                ));
            }
            lemma_xor_cancel(data@.subrange(16 * i as int, 16 * (i as int + 1)), chain0);
            assert(spec_cbc_dec_blocks(key@, iv@, out@, i as int + 1) =~= data@.take(
                16 * (i as int + 1),
            ));
            assert(chain@ =~= out@.subrange(16 * i as int, 16 * (i as int + 1)));
        }
        i += 1;
        off += 16;
    }
    proof {
        assert(data@.take(16 * n as int) =~= data@);
        assert(out@.len() as int / 16 == n as int);
    }
    out
}

/// The inverse of `aes_cbc_encrypt`.
pub fn aes_cbc_decrypt(key: &[u8], iv: &[u8], data: &[u8]) -> (r: Vec<u8>)
    requires
        spec_aes_key_len_ok(key@.len() as int),
        iv@.len() == 16,
        data@.len() % 16 == 0,
    ensures
        r@.len() == data@.len(),
        r@ == spec_cbc_decrypt(key@, iv@, data@),
{
    let n = data.len() / 16;
    let mut out: Vec<u8> = Vec::new();
    let mut chain: Vec<u8> = slice_to_vec_bytes(iv);
    let mut i: usize = 0;
    let mut off: usize = 0;
    while i < n
        invariant
            0 <= i <= n,
            off == 16 * i,
            off <= data@.len(),
            data@.len() <= usize::MAX,
            spec_aes_key_len_ok(key@.len() as int),
            iv@.len() == 16,
            data@.len() == 16 * n,
            out@.len() == 16 * i,
            chain@.len() == 16,
            chain@ == if i == 0 {
                iv@
            } else {
                data@.subrange(16 * (i as int - 1), 16 * i as int)
            },
            out@ == spec_cbc_dec_blocks(key@, iv@, data@, i as int),
        decreases n - i,
    {
        let block = slice_subrange(data, off, off + 16);
        let d = aes_dec_block(key, block);
        let mut p = xor_bytes(d.as_slice(), chain.as_slice());
        chain = slice_to_vec_bytes(block);
        out.append(&mut p);
        proof {
            assert(out@ =~= spec_cbc_dec_blocks(key@, iv@, data@, i as int + 1));
        }
        i += 1;
        off += 16;
    }
    proof {
        assert(out@.len() as int / 16 == n as int);
    }
    out
}

/// A copy of a byte slice as a vector.
fn slice_to_vec_bytes(s: &[u8]) -> (r: Vec<u8>)
    ensures
        r@ == s@,
{
    let mut out: Vec<u8> = Vec::new();
    let mut i: usize = 0;
    while i < s.len()
        invariant
            0 <= i <= s@.len(),
            out@ == s@.take(i as int),
        decreases s@.len() - i,
    {
        out.push(s[i]);
        assert(out@ =~= s@.take(i as int + 1));
        i += 1;
    }
    assert(out@ =~= s@);
    out
}

/// A copy of a byte vector.
fn clone_vec_bytes(v: &Vec<u8>) -> (r: Vec<u8>)
    ensures
        r@ == v@,
{
    slice_to_vec_bytes(v.as_slice())
}

/* the block-cipher operation state machine */

/// The cipher mechanisms this operation implements.
pub open spec fn spec_cipher_mech(m: u64) -> bool {
    m == CKM_AES_ECB || m == CKM_AES_CBC || m == CKM_AES_CBC_PAD
}

/// The initialisation vector a mechanism invocation carries.
pub open spec fn spec_mech_iv(m: CkMechView) -> Seq<u8> {
    match m.params {
        MechParamsView::Iv(v) => v,
        _ => Seq::empty(),
    }
}

/// Whether the parameter block fits the cipher mechanism: none for
/// ECB, a 16-byte initialisation vector for CBC.
pub open spec fn spec_mech_params_ok(m: CkMechView) -> bool {
    if m.mechanism == CKM_AES_ECB {
        m.params is Empty
    } else {
        m.params matches MechParamsView::Iv(v) && v.len() == 16
    }
}

/// The ciphertext of an input under the mechanism: the padding modes
/// close the input to whole blocks first.
pub open spec fn spec_mode_encrypt(mech: u64, key: Seq<u8>, iv: Seq<u8>, data: Seq<u8>) -> Seq<
    u8,
> {
    if mech == CKM_AES_ECB {
        spec_ecb_encrypt(key, data)
    } else if mech == CKM_AES_CBC {
        spec_cbc_encrypt(key, iv, data)
    } else {
        spec_cbc_encrypt(key, iv, spec_pkcs7_pad(data))
    }
}

/// The raw block-level decryption under the mechanism (before any pad
/// is stripped).
pub open spec fn spec_mode_decrypt(mech: u64, key: Seq<u8>, iv: Seq<u8>, data: Seq<u8>) -> Seq<
    u8,
> {
    if mech == CKM_AES_ECB {
        spec_ecb_decrypt(key, data)
    } else {
        spec_cbc_decrypt(key, iv, data)
    }
}

/// What encryption returns for an input the state machine accepts: the
/// padding mode takes any input it can pad; the others demand whole
/// blocks.  Besides the ciphertext the relation carries the fact that
/// block-level decryption restores the (padded) input.
pub open spec fn spec_encrypt_result(
    mech: u64,
    key: Seq<u8>,
    iv: Seq<u8>,
    data: Seq<u8>,
    r: KResult<Vec<u8>>,
) -> bool {
    if mech != CKM_AES_CBC_PAD && data.len() % 16 != 0 {
        r == Err::<Vec<u8>, KError>(KError::RvError(CKR_DATA_LEN_RANGE))
    } else if mech == CKM_AES_CBC_PAD && data.len() + 16 > usize::MAX {
        r == Err::<Vec<u8>, KError>(KError::RvError(CKR_DATA_LEN_RANGE))
    } else {
        r matches Ok(c) && c@ == spec_mode_encrypt(mech, key, iv, data) && (
        if mech == CKM_AES_CBC_PAD {
            spec_mode_decrypt(mech, key, iv, c@) == spec_pkcs7_pad(data) && c@.len() == data.len()
                + (16 - data.len() % 16)
        } else {
            spec_mode_decrypt(mech, key, iv, c@) == data && c@.len() == data.len()
        })
    }
}

/// What decryption yields: the padding mode strips and checks the pad;
/// the others hand back the block-level decryption.
pub open spec fn spec_decrypt_value(mech: u64, key: Seq<u8>, iv: Seq<u8>, data: Seq<u8>) -> KResult<
    Seq<u8>,
> {
    if data.len() % 16 != 0 || (mech == CKM_AES_CBC_PAD && data.len() == 0) {
        Err(KError::RvError(CKR_ENCRYPTED_DATA_LEN_RANGE))
    } else if mech == CKM_AES_CBC_PAD {
        match spec_pkcs7_unpad(spec_mode_decrypt(mech, key, iv, data)) {
            Some(x) => Ok(x),
            None => Err(KError::RvError(CKR_ENCRYPTED_DATA_INVALID)),
        }
    } else {
        Ok(spec_mode_decrypt(mech, key, iv, data))
    }
}

/// What decryption returns, as a relation on the result.
pub open spec fn spec_decrypt_result(
    mech: u64,
    key: Seq<u8>,
    iv: Seq<u8>,
    data: Seq<u8>,
    r: KResult<Vec<u8>>,
) -> bool {
    match spec_decrypt_value(mech, key, iv, data) {
        Ok(x) => r matches Ok(p) && p@ == x && (mech != CKM_AES_CBC_PAD ==> p@.len()
            == data.len()),
        Err(e) => r == Err::<Vec<u8>, KError>(e),
    }
}

/// An AES cipher operation: mechanism, key material, chain vector and
/// the Ready / Active / Finalized state machine, with a buffer for the
/// multi-part interface (parts are gathered and the cipher runs once).
#[derive(Debug)]
pub struct AesOperation {
    pub mech: u64,
    pub key: Vec<u8>,
    pub iv: Vec<u8>,
    pub active: bool,
    pub finalized: bool,
    pub buffer: Vec<u8>,
}

/// What a cipher-operation constructor returns: the checks fall in
/// this order: mechanism, parameter block, key material, key length.
pub open spec fn spec_new_op_result(
    m: CkMechView,
    attrs: Seq<AttrView>,
    r: KResult<AesOperation>,
) -> bool {
    if !spec_cipher_mech(m.mechanism) {
        r == Err::<AesOperation, KError>(KError::RvError(CKR_MECHANISM_INVALID))
    } else if !spec_mech_params_ok(m) {
        r == Err::<AesOperation, KError>(KError::RvError(CKR_MECHANISM_PARAM_INVALID))
    } else {
        match spec_get_attr_as_bytes(attrs, CKA_VALUE) {
            Err(_) => r == Err::<AesOperation, KError>(KError::RvError(CKR_GENERAL_ERROR)),
            Ok(v) => if !spec_aes_key_len_ok(v.len() as int) {
                r == Err::<AesOperation, KError>(KError::RvError(CKR_KEY_SIZE_RANGE))
            } else {
                r matches Ok(op) && op.wf() && op.mech == m.mechanism && op.key@ == v && op.iv@
                    == spec_mech_iv(m) && !op.active && !op.finalized && op.buffer@.len() == 0
            },
        }
    }
}

impl AesOperation {
    /// The shape every constructed operation has.
    pub open spec fn wf(&self) -> bool {
        &&& spec_cipher_mech(self.mech)
        &&& spec_aes_key_len_ok(self.key@.len() as int)
        &&& (self.mech == CKM_AES_CBC || self.mech == CKM_AES_CBC_PAD ==> self.iv@.len() == 16)
    }

    fn new_op(mech: &CkMechanism, key: &Object) -> (r: KResult<AesOperation>)
        ensures
            spec_new_op_result(mech@, key@.attrs, r),
    {
        if mech.mechanism != CKM_AES_ECB && mech.mechanism != CKM_AES_CBC && mech.mechanism
            != CKM_AES_CBC_PAD {
            return Err(KError::RvError(CKR_MECHANISM_INVALID));
        }
        let iv: Vec<u8> = if mech.mechanism == CKM_AES_ECB {
            match &mech.params {
                CkMechParams::Empty => Vec::new(),
                _ => {
                    return Err(KError::RvError(CKR_MECHANISM_PARAM_INVALID));
                },
            }
        } else {
            match &mech.params {
                CkMechParams::Iv(v) => {
                    if v.len() != 16 {
                        return Err(KError::RvError(CKR_MECHANISM_PARAM_INVALID));
                    }
                    clone_bytes(v)
                },
                _ => {
                    return Err(KError::RvError(CKR_MECHANISM_PARAM_INVALID));
                },
            }
        };
        let value = match key.get_attr_as_bytes(CKA_VALUE) {
            Ok(v) => clone_bytes(v),
            Err(_) => {
                return Err(KError::RvError(CKR_GENERAL_ERROR));
            },
        };
        if check_key_len(value.len()).is_err() {
            return Err(KError::RvError(CKR_KEY_SIZE_RANGE));
        }
        Ok(
            AesOperation {
                mech: mech.mechanism,
                key: value,
                iv,
                active: false,
                finalized: false,
                buffer: Vec::new(),
            },
        )
    }

    /// An encryption operation bound to the key.
    pub fn encrypt_new(mech: &CkMechanism, key: &Object) -> (r: KResult<AesOperation>)
        ensures
            spec_new_op_result(mech@, key@.attrs, r),
    {
        Self::new_op(mech, key)
    }

    /// A decryption operation bound to the key.
    pub fn decrypt_new(mech: &CkMechanism, key: &Object) -> (r: KResult<AesOperation>)
        ensures
            spec_new_op_result(mech@, key@.attrs, r),
    {
        Self::new_op(mech, key)
    }

    pub fn finalized(&self) -> (r: bool)
        ensures
            r == self.finalized,
    {
        self.finalized
    }

    /// The output length for an input length: the block modes keep it,
    /// the padding mode closes it to the next whole block.
    pub fn encryption_len(&self, len: usize) -> (r: KResult<usize>)
        ensures
            self.mech != CKM_AES_CBC_PAD ==> r == (if len % 16 == 0 {
                Ok::<usize, KError>(len)
            } else {
                Err::<usize, KError>(KError::RvError(CKR_DATA_LEN_RANGE))
            }),
            self.mech == CKM_AES_CBC_PAD ==> r == (if len + 16 <= usize::MAX {
                Ok::<usize, KError>((len + (16 - len % 16)) as usize)
            } else {
                Err::<usize, KError>(KError::RvError(CKR_DATA_LEN_RANGE))
            }),
    {
        if self.mech == CKM_AES_CBC_PAD {
            if len > usize::MAX - 16 {
                return Err(KError::RvError(CKR_DATA_LEN_RANGE));
            }
            return Ok(len + (16 - len % 16));
        }
        if len % 16 == 0 {
            Ok(len)
        } else {
            Err(KError::RvError(CKR_DATA_LEN_RANGE))
        }
    }

    /// One-shot encryption, lawful only in the Ready state; any outcome
    /// finalizes the operation.
    pub fn encrypt(&mut self, data: &[u8]) -> (r: KResult<Vec<u8>>)
        requires
            old(self).wf(),
        ensures
            final(self).wf(),
            final(self).mech == old(self).mech,
            final(self).key == old(self).key,
            final(self).iv == old(self).iv,
            final(self).finalized,
            old(self).finalized || old(self).active ==> r == Err::<Vec<u8>, KError>(
                KError::RvError(CKR_OPERATION_NOT_INITIALIZED),
            ),
            !old(self).finalized && !old(self).active ==> spec_encrypt_result(
                old(self).mech,
                old(self).key@,
                old(self).iv@,
                data@,
                r,
            ),
    {
        if self.finalized || self.active {
            self.finalized = true;
            return Err(KError::RvError(CKR_OPERATION_NOT_INITIALIZED));
        }
        self.finalized = true;
        if self.mech == CKM_AES_CBC_PAD {
            if data.len() > usize::MAX - 16 {
                return Err(KError::RvError(CKR_DATA_LEN_RANGE));
            }
            let p = pkcs7_pad(data);
            return Ok(aes_cbc_encrypt(self.key.as_slice(), self.iv.as_slice(), p.as_slice()));
        }
        if data.len() % 16 != 0 {
            return Err(KError::RvError(CKR_DATA_LEN_RANGE));
        }
        if self.mech == CKM_AES_ECB {
            Ok(aes_ecb_encrypt(self.key.as_slice(), data))
        } else {
            Ok(aes_cbc_encrypt(self.key.as_slice(), self.iv.as_slice(), data))
        }
    }

    /// Gather one part of a multi-part encryption.  Output is withheld
    /// until `encrypt_final`, as the two-pass length convention allows.
    pub fn encrypt_update(&mut self, data: &[u8]) -> (r: KResult<Vec<u8>>)
        requires
            old(self).wf(),
        ensures
            final(self).wf(),
            final(self).mech == old(self).mech,
            final(self).key == old(self).key,
            final(self).iv == old(self).iv,
            old(self).finalized ==> r == Err::<Vec<u8>, KError>(
                KError::RvError(CKR_OPERATION_NOT_INITIALIZED),
            ) && final(self).finalized,
            !old(self).finalized ==> (r matches Ok(v) && v@.len() == 0) && final(self).active
                && !final(self).finalized && final(self).buffer@ == old(self).buffer@ + data@,
    {
        if self.finalized {
            return Err(KError::RvError(CKR_OPERATION_NOT_INITIALIZED));
        }
        self.active = true;
        let mut d = slice_to_vec_bytes(data);
        self.buffer.append(&mut d);
        Ok(Vec::new())
    }

    /// Close a multi-part encryption: encrypt the gathered input and
    /// zeroize the plaintext buffer.  After this, any further update or
    /// final reports `OPERATION_NOT_INITIALIZED`.
    pub fn encrypt_final(&mut self) -> (r: KResult<Vec<u8>>)
        requires
            old(self).wf(),
        ensures
            final(self).wf(),
            final(self).mech == old(self).mech,
            final(self).key == old(self).key,
            final(self).iv == old(self).iv,
            final(self).finalized,
            old(self).finalized ==> r == Err::<Vec<u8>, KError>(
                KError::RvError(CKR_OPERATION_NOT_INITIALIZED),
            ),
            !old(self).finalized ==> spec_encrypt_result(
                old(self).mech,
                old(self).key@,
                old(self).iv@,
                old(self).buffer@,
                r,
            ),
    {
        if self.finalized {
            return Err(KError::RvError(CKR_OPERATION_NOT_INITIALIZED));
        }
        self.finalized = true;
        if self.mech == CKM_AES_CBC_PAD {
            if self.buffer.len() > usize::MAX - 16 {
                zeroize_bytes(&mut self.buffer);
                return Err(KError::RvError(CKR_DATA_LEN_RANGE));
            }
            let p = pkcs7_pad(self.buffer.as_slice());
            let c = aes_cbc_encrypt(self.key.as_slice(), self.iv.as_slice(), p.as_slice());
            zeroize_bytes(&mut self.buffer);
            return Ok(c);
        }
        if self.buffer.len() % 16 != 0 {
            zeroize_bytes(&mut self.buffer);
            return Err(KError::RvError(CKR_DATA_LEN_RANGE));
        }
        let c = if self.mech == CKM_AES_ECB {
            aes_ecb_encrypt(self.key.as_slice(), self.buffer.as_slice())
        } else {
            aes_cbc_encrypt(self.key.as_slice(), self.iv.as_slice(), self.buffer.as_slice())
        };
        zeroize_bytes(&mut self.buffer);
        Ok(c)
    }

    /// One-shot decryption, lawful only in the Ready state; any outcome
    /// finalizes the operation.
    pub fn decrypt(&mut self, data: &[u8]) -> (r: KResult<Vec<u8>>)
        requires
            old(self).wf(),
        ensures
            final(self).wf(),
            final(self).mech == old(self).mech,
            final(self).key == old(self).key,
            final(self).iv == old(self).iv,
            final(self).finalized,
            old(self).finalized || old(self).active ==> r == Err::<Vec<u8>, KError>(
                KError::RvError(CKR_OPERATION_NOT_INITIALIZED),
            ),
            !old(self).finalized && !old(self).active ==> spec_decrypt_result(
                old(self).mech,
                old(self).key@,
                old(self).iv@,
                data@,
                r,
            ),
    {
        if self.finalized || self.active {
            self.finalized = true;
            return Err(KError::RvError(CKR_OPERATION_NOT_INITIALIZED));
        }
        self.finalized = true;
        if data.len() % 16 != 0 || (self.mech == CKM_AES_CBC_PAD && data.len() == 0) {
            return Err(KError::RvError(CKR_ENCRYPTED_DATA_LEN_RANGE));
        }
        if self.mech == CKM_AES_ECB {
            Ok(aes_ecb_decrypt(self.key.as_slice(), data))
        } else if self.mech == CKM_AES_CBC {
            Ok(aes_cbc_decrypt(self.key.as_slice(), self.iv.as_slice(), data))
        } else {
            let raw = aes_cbc_decrypt(self.key.as_slice(), self.iv.as_slice(), data);
            match pkcs7_unpad(raw) {
                Some(p) => Ok(p),
                None => Err(KError::RvError(CKR_ENCRYPTED_DATA_INVALID)),
            }
        }
    }

    /// Wrap exported key material: encrypt it once under the wrapping
    /// key, then zeroize the plaintext.
    pub fn wrap(mech: &CkMechanism, wrapping_key: &Object, keydata: Vec<u8>) -> (r: KResult<
        Vec<u8>,
    >)
        ensures
            spec_wrap_result(mech@, wrapping_key@.attrs, keydata@, r),
    {
        let mut keydata = keydata;
        let mut op = match Self::encrypt_new(mech, wrapping_key) {
            Ok(op) => op,
            Err(e) => {
                zeroize_bytes(&mut keydata);
                return Err(e);
            },
        };
        let r = op.encrypt(keydata.as_slice());
        zeroize_bytes(&mut keydata);
        r
    }

    /// Unwrap a wrapped blob: decrypt it once under the wrapping key.
    pub fn unwrap(mech: &CkMechanism, wrapping_key: &Object, data: &[u8]) -> (r: KResult<Vec<u8>>)
        ensures
            spec_unwrap_result(mech@, wrapping_key@.attrs, data@, r),
    {
        let mut op = Self::decrypt_new(mech, wrapping_key)?;
        op.decrypt(data)
    }
}

/// What `wrap` returns: the ciphertext of the exported key material,
/// which decryption under the same key and vector restores.
pub open spec fn spec_wrap_result(
    m: CkMechView,
    attrs: Seq<AttrView>,
    kd: Seq<u8>,
    r: KResult<Vec<u8>>,
) -> bool {
    if !spec_cipher_mech(m.mechanism) {
        r == Err::<Vec<u8>, KError>(KError::RvError(CKR_MECHANISM_INVALID))
    } else if !spec_mech_params_ok(m) {
        r == Err::<Vec<u8>, KError>(KError::RvError(CKR_MECHANISM_PARAM_INVALID))
    } else {
        match spec_get_attr_as_bytes(attrs, CKA_VALUE) {
            Err(_) => r == Err::<Vec<u8>, KError>(KError::RvError(CKR_GENERAL_ERROR)),
            Ok(v) => if !spec_aes_key_len_ok(v.len() as int) {
                r == Err::<Vec<u8>, KError>(KError::RvError(CKR_KEY_SIZE_RANGE))
            } else {
                spec_encrypt_result(m.mechanism, v, spec_mech_iv(m), kd, r)
            },
        }
    }
}

/* the AES key factory */

/// A well-formed AES secret key: `VALUE` present with a lawful length,
/// and `VALUE_LEN` equal to it.
pub open spec fn spec_aes_key_valid(attrs: Seq<AttrView>) -> bool {
    match spec_get_attr_as_bytes(attrs, CKA_VALUE) {
        Ok(v) => spec_aes_key_len_ok(v.len() as int) && spec_get_attr_as_ulong(
            attrs,
            CKA_VALUE_LEN,
        ) == Ok::<u64, KError>(v.len() as u64),
        Err(_) => false,
    }
}

/// The attribute schema of AES secret keys: the common object, storage,
/// key and secret-key attributes, plus `VALUE` and `VALUE_LEN`.
pub open spec fn spec_aes_key_schema() -> Seq<OAView> {
    seq![
        spec_oa(CKA_CLASS, AttrType::NumType, spec_u64_to_le_bytes(0), OAF_REQUIRED_ON_CREATE),
        spec_oa(CKA_TOKEN, AttrType::BoolType, seq![0u8], OAF_DEFVAL),
        spec_oa(CKA_PRIVATE, AttrType::BoolType, seq![1u8], OAF_DEFVAL | OAF_CHANGE_ON_COPY),
        spec_oa(CKA_MODIFIABLE, AttrType::BoolType, seq![1u8], OAF_DEFVAL),
        spec_oa(CKA_LABEL, AttrType::StringType, Seq::empty(), 0),
        spec_oa(CKA_COPYABLE, AttrType::BoolType, seq![1u8], OAF_DEFVAL),
        spec_oa(CKA_DESTROYABLE, AttrType::BoolType, seq![1u8], OAF_DEFVAL),
        spec_oa(CKA_UNIQUE_ID, AttrType::StringType, Seq::empty(), OAF_REQUIRED_ON_CREATE),
        spec_oa(CKA_KEY_TYPE, AttrType::NumType, spec_u64_to_le_bytes(0), OAF_REQUIRED_ON_CREATE),
        spec_oa(CKA_ID, AttrType::BytesType, Seq::empty(), 0),
        spec_oa(CKA_DERIVE, AttrType::BoolType, seq![0u8], OAF_DEFVAL),
        spec_oa(CKA_LOCAL, AttrType::BoolType, seq![0u8], OAF_DEFVAL | OAF_UNCHANGEABLE),
        spec_oa(CKA_KEY_GEN_MECHANISM, AttrType::NumType, spec_u64_to_le_bytes(0), OAF_UNCHANGEABLE),
        spec_oa(CKA_SENSITIVE, AttrType::BoolType, seq![1u8], OAF_DEFVAL),
        spec_oa(CKA_ENCRYPT, AttrType::BoolType, seq![0u8], OAF_DEFVAL),
        spec_oa(CKA_DECRYPT, AttrType::BoolType, seq![0u8], OAF_DEFVAL),
        spec_oa(CKA_SIGN, AttrType::BoolType, seq![0u8], OAF_DEFVAL),
        spec_oa(CKA_VERIFY, AttrType::BoolType, seq![0u8], OAF_DEFVAL),
        spec_oa(CKA_WRAP, AttrType::BoolType, seq![0u8], OAF_DEFVAL),
        spec_oa(CKA_UNWRAP, AttrType::BoolType, seq![0u8], OAF_DEFVAL),
        spec_oa(CKA_EXTRACTABLE, AttrType::BoolType, seq![0u8], OAF_DEFVAL),
        spec_oa(CKA_ALWAYS_SENSITIVE, AttrType::BoolType, seq![0u8], OAF_UNCHANGEABLE),
        spec_oa(CKA_NEVER_EXTRACTABLE, AttrType::BoolType, seq![0u8], OAF_UNCHANGEABLE),
        spec_oa(
            CKA_VALUE,
            AttrType::BytesType,
            Seq::empty(),
            OAF_DEFVAL | OAF_SENSITIVE | OAF_REQUIRED_ON_CREATE | OAF_SETTABLE_ONLY_ON_CREATE,
        ),
        spec_oa(CKA_VALUE_LEN, AttrType::NumType, spec_u64_to_le_bytes(0), OAF_REQUIRED_ON_GENERATE),
    ]
}

/// The validator and constructor of AES secret keys.
#[derive(Debug)]
pub struct AesKeyFactory {
    pub attributes: Vec<ObjectAttr>,
}

impl AesKeyFactory {
    /// The factory carries exactly the AES key schema.
    pub open spec fn wf(&self) -> bool {
        self.attributes@.map_values(|c: ObjectAttr| c@) == spec_aes_key_schema()
    }

    pub fn new() -> (r: AesKeyFactory)
        ensures
            r.wf(),
    {
        let mut v: Vec<ObjectAttr> = Vec::new();
        v.push(ObjectAttr::new(from_ulong(CKA_CLASS, 0), OAF_REQUIRED_ON_CREATE));
        v.push(ObjectAttr::new(from_bool(CKA_TOKEN, false), OAF_DEFVAL));
        v.push(ObjectAttr::new(from_bool(CKA_PRIVATE, true), OAF_DEFVAL | OAF_CHANGE_ON_COPY));
        v.push(ObjectAttr::new(from_bool(CKA_MODIFIABLE, true), OAF_DEFVAL));
        v.push(ObjectAttr::new(from_string(CKA_LABEL, Vec::new()), 0));
        v.push(ObjectAttr::new(from_bool(CKA_COPYABLE, true), OAF_DEFVAL));
        v.push(ObjectAttr::new(from_bool(CKA_DESTROYABLE, true), OAF_DEFVAL));
        v.push(ObjectAttr::new(from_string(CKA_UNIQUE_ID, Vec::new()), OAF_REQUIRED_ON_CREATE));
        v.push(ObjectAttr::new(from_ulong(CKA_KEY_TYPE, 0), OAF_REQUIRED_ON_CREATE));
        v.push(ObjectAttr::new(from_bytes(CKA_ID, Vec::new()), 0));
        v.push(ObjectAttr::new(from_bool(CKA_DERIVE, false), OAF_DEFVAL));
        v.push(ObjectAttr::new(from_bool(CKA_LOCAL, false), OAF_DEFVAL | OAF_UNCHANGEABLE));
        v.push(ObjectAttr::new(from_ulong(CKA_KEY_GEN_MECHANISM, 0), OAF_UNCHANGEABLE));
        v.push(ObjectAttr::new(from_bool(CKA_SENSITIVE, true), OAF_DEFVAL));
        v.push(ObjectAttr::new(from_bool(CKA_ENCRYPT, false), OAF_DEFVAL));
        v.push(ObjectAttr::new(from_bool(CKA_DECRYPT, false), OAF_DEFVAL));
        v.push(ObjectAttr::new(from_bool(CKA_SIGN, false), OAF_DEFVAL));
        v.push(ObjectAttr::new(from_bool(CKA_VERIFY, false), OAF_DEFVAL));
        v.push(ObjectAttr::new(from_bool(CKA_WRAP, false), OAF_DEFVAL));
        v.push(ObjectAttr::new(from_bool(CKA_UNWRAP, false), OAF_DEFVAL));
        v.push(ObjectAttr::new(from_bool(CKA_EXTRACTABLE, false), OAF_DEFVAL));
        v.push(ObjectAttr::new(from_bool(CKA_ALWAYS_SENSITIVE, false), OAF_UNCHANGEABLE));
        v.push(ObjectAttr::new(from_bool(CKA_NEVER_EXTRACTABLE, false), OAF_UNCHANGEABLE));
        v.push(
            ObjectAttr::new(
                from_bytes(CKA_VALUE, Vec::new()),
                OAF_DEFVAL | OAF_SENSITIVE | OAF_REQUIRED_ON_CREATE | OAF_SETTABLE_ONLY_ON_CREATE,
            ),
        );
        v.push(ObjectAttr::new(from_ulong(CKA_VALUE_LEN, 0), OAF_REQUIRED_ON_GENERATE));
        let r = AesKeyFactory { attributes: v };
        assert(r.attributes@.map_values(|c: ObjectAttr| c@) =~= spec_aes_key_schema());
        r
    }

    pub fn get_attributes(&self) -> (r: &Vec<ObjectAttr>)
        ensures
            r == &self.attributes,
    {
        &self.attributes
    }

    /// Create an AES key from a caller template: the generic build,
    /// then the key-size rule and the `VALUE_LEN` synthesis.
    pub fn create(&self, template: &[CkAttribute]) -> (r: KResult<Object>)
        requires
            self.wf(),
        ensures
            r == Err::<Object, KError>(KError::RvError(CKR_GENERAL_ERROR)) || ({
                let entries = template@.map_values(|e: CkAttribute| e@);
                match spec_decode_entries(entries) {
                    Err(e) => r == Err::<Object, KError>(e),
                    Ok(decoded) => exists|uv: AttrView|
                        uv.id == CKA_UNIQUE_ID && uv.atype == AttrType::StringType
                            && uv.value.len() == 36 && #[trigger] spec_aes_create_result(
                            uv,
                            decoded,
                            r,
                        ),
                }
            }),
            r matches Ok(o) ==> spec_aes_key_valid(o@.attrs),
    {
        let ghost entries = template@.map_values(|e: CkAttribute| e@);
        let ghost cviews = self.attributes@.map_values(|c: ObjectAttr| c@);
        let obj = match default_object_build(&self.attributes, template, OAF_REQUIRED_ON_CREATE) {
            Ok(o) => o,
            Err(e) => {
                proof {
                    if spec_build_outcome(entries, cviews, OAF_REQUIRED_ON_CREATE, Err(e)) {
                        if spec_decode_entries(entries) is Ok {
                            let decoded = spec_decode_entries(entries)->Ok_0;
                            let uv = choose|uv: AttrView|
                                uv.id == CKA_UNIQUE_ID && uv.atype == AttrType::StringType
                                    && uv.value.len() == 36 && #[trigger] spec_build_result(
                                    spec_aes_key_schema(),
                                    OAF_REQUIRED_ON_CREATE,
                                    uv,
                                    decoded,
                                    Err(e),
                                );
                            assert(spec_aes_create_result(uv, decoded, Err(e)));
                        }
                    } else {
                        assert(e == KError::RvError(CKR_GENERAL_ERROR));
                    }
                }
                return Err(e);
            },
        };
        let ghost decoded = spec_decode_entries(entries)->Ok_0;
        let ghost uv = choose|uv: AttrView|
            uv.id == CKA_UNIQUE_ID && uv.atype == AttrType::StringType && uv.value.len() == 36
                && #[trigger] spec_build_result(
                spec_aes_key_schema(),
                OAF_REQUIRED_ON_CREATE,
                uv,
                decoded,
                Ok(obj),
            );
        let mut obj = obj;
        let ghost attrs2 = obj@.attrs;
        let len = match obj.get_attr_as_bytes(CKA_VALUE) {
            Ok(v) => v.len(),
            Err(_) => {
                assert(spec_aes_create_result(uv, decoded, Err(KError::RvError(
                    CKR_TEMPLATE_INCOMPLETE,
                ))));
                return Err(KError::RvError(CKR_TEMPLATE_INCOMPLETE));
            },
        };
        if let Err(e) = check_key_len(len) {
            assert(spec_aes_create_result(uv, decoded, Err(KError::RvError(CKR_KEY_SIZE_RANGE))));
            return Err(e);
        }
        match obj.get_attr_as_ulong(CKA_VALUE_LEN) {
            Ok(vl) => {
                if vl != len as u64 {
                    assert(spec_aes_create_result(uv, decoded, Err(KError::RvError(
                        CKR_ATTRIBUTE_VALUE_INVALID,
                    ))));
                    return Err(KError::RvError(CKR_ATTRIBUTE_VALUE_INVALID));
                }
                assert(spec_aes_create_result(uv, decoded, Ok(obj)));
                assert(spec_aes_key_valid(obj@.attrs));
                Ok(obj)
            },
            Err(KError::NotFound) => {
                set_attr_traced(&mut obj, from_ulong(CKA_VALUE_LEN, len as u64));
                proof {
                    vstd::bytes::lemma_auto_spec_u64_to_from_le_bytes();
                    lemma_find_index_props(attrs2, CKA_VALUE_LEN);
                    assert(obj@.attrs == attrs2.push(
                        AttrView {
                            id: CKA_VALUE_LEN,
                            atype: AttrType::NumType,
                            value: spec_u64_to_le_bytes(len as u64),
                        },
                    )) by {
                        assert(spec_find_index(attrs2, CKA_VALUE_LEN) is None);
                    }
                }
                assert(spec_aes_create_result(uv, decoded, Ok(obj)));
                assert(spec_aes_key_valid(obj@.attrs));
                Ok(obj)
            },
            Err(_) => {
                assert(spec_aes_create_result(uv, decoded, Err(KError::RvError(
                    CKR_ATTRIBUTE_VALUE_INVALID,
                ))));
                Err(KError::RvError(CKR_ATTRIBUTE_VALUE_INVALID))
            },
        }
    }

    /// The generic build against the AES schema with the
    /// required-on-generate entries demanded.
    pub fn default_object_generate(&self, template: &[CkAttribute]) -> (r: KResult<Object>)
        requires
            self.wf(),
        ensures
            r == Err::<Object, KError>(KError::RvError(CKR_GENERAL_ERROR)) || spec_build_outcome(
                template@.map_values(|e: CkAttribute| e@),
                spec_aes_key_schema(),
                OAF_REQUIRED_ON_GENERATE,
                r,
            ),
    {
        default_object_build(&self.attributes, template, OAF_REQUIRED_ON_GENERATE)
    }

    /// The generic build for an unwrapped key: as creation, except that
    /// `VALUE` arrives from the unwrapped material afterwards.
    pub fn default_object_unwrap(&self, template: &[CkAttribute]) -> (r: KResult<Object>)
        requires
            self.wf(),
        ensures
            r == Err::<Object, KError>(KError::RvError(CKR_GENERAL_ERROR)) || spec_build_outcome(
                template@.map_values(|e: CkAttribute| e@),
                spec_aes_key_schema(),
                OAF_REQUIRED_ON_CREATE,
                r,
            ),
    {
        default_object_build(&self.attributes, template, OAF_REQUIRED_ON_CREATE)
    }

    /// The generic build for a derived key: nothing is demanded of the
    /// template beyond the schema, a requested `VALUE_LEN` must be a
    /// lawful key size, and `VALUE` itself comes from the derivation.
    pub fn default_object_derive(&self, template: &[CkAttribute], _origin: &Object) -> (r: KResult<
        Object,
    >)
        requires
            self.wf(),
        ensures
            r == Err::<Object, KError>(KError::RvError(CKR_GENERAL_ERROR)) || ({
                let entries = template@.map_values(|e: CkAttribute| e@);
                match spec_decode_entries(entries) {
                    Err(e) => r == Err::<Object, KError>(e),
                    Ok(decoded) => exists|uv: AttrView|
                        uv.id == CKA_UNIQUE_ID && uv.atype == AttrType::StringType
                            && uv.value.len() == 36 && #[trigger] spec_aes_derive_build(
                            uv,
                            decoded,
                            r,
                        ),
                }
            }),
            r matches Ok(o) ==> (match spec_get_attr_as_ulong(o@.attrs, CKA_VALUE_LEN) {
                Ok(vl) => spec_aes_key_len_ok(vl as int),
                Err(e) => e == KError::NotFound,
            }) && o@.handle == 0 && o@.session == 0,
    {
        let ghost entries = template@.map_values(|e: CkAttribute| e@);
        let ghost cviews = self.attributes@.map_values(|c: ObjectAttr| c@);
        let obj = match default_object_build(&self.attributes, template, 0) {
            Ok(o) => o,
            Err(e) => {
                proof {
                    if spec_build_outcome(entries, cviews, 0, Err(e)) {
                        if spec_decode_entries(entries) is Ok {
                            let decoded = spec_decode_entries(entries)->Ok_0;
                            let uv = choose|uv: AttrView|
                                uv.id == CKA_UNIQUE_ID && uv.atype == AttrType::StringType
                                    && uv.value.len() == 36 && #[trigger] spec_build_result(
                                    spec_aes_key_schema(),
                                    0,
                                    uv,
                                    decoded,
                                    Err(e),
                                );
                            assert(spec_aes_derive_build(uv, decoded, Err(e)));
                        }
                    } else {
                        assert(e == KError::RvError(CKR_GENERAL_ERROR));
                    }
                }
                return Err(e);
            },
        };
        let ghost decoded = spec_decode_entries(entries)->Ok_0;
        let ghost uv = choose|uv: AttrView|
            uv.id == CKA_UNIQUE_ID && uv.atype == AttrType::StringType && uv.value.len() == 36
                && #[trigger] spec_build_result(spec_aes_key_schema(), 0, uv, decoded, Ok(obj));
        match obj.get_attr_as_ulong(CKA_VALUE_LEN) {
            Ok(vl) => {
                if vl > usize::MAX as u64 {
                    assert(spec_aes_derive_build(uv, decoded, Err(KError::RvError(
                        CKR_TEMPLATE_INCONSISTENT,
                    ))));
                    return Err(KError::RvError(CKR_TEMPLATE_INCONSISTENT));
                }
                if check_key_len(vl as usize).is_err() {
                    assert(spec_aes_derive_build(uv, decoded, Err(KError::RvError(
                        CKR_TEMPLATE_INCONSISTENT,
                    ))));
                    return Err(KError::RvError(CKR_TEMPLATE_INCONSISTENT));
                }
            },
            Err(KError::NotFound) => {},
            Err(_) => {
                assert(spec_aes_derive_build(uv, decoded, Err(KError::RvError(
                    CKR_TEMPLATE_INCONSISTENT,
                ))));
                return Err(KError::RvError(CKR_TEMPLATE_INCONSISTENT));
            },
        }
        assert(spec_aes_derive_build(uv, decoded, Ok(obj)));
        Ok(obj)
    }

    /// The plaintext a secret key exports for wrapping: its `VALUE`.
    pub fn export_for_wrapping(&self, key: &Object) -> (r: KResult<Vec<u8>>)
        ensures
            match spec_get_attr_as_bytes(key@.attrs, CKA_VALUE) {
                Ok(v) => r matches Ok(w) && w@ == v,
                Err(e) => r == Err::<Vec<u8>, KError>(e),
            },
    {
        match key.get_attr_as_bytes(CKA_VALUE) {
            Ok(v) => Ok(clone_bytes(v)),
            Err(e) => Err(e),
        }
    }

    /// Build an AES key from unwrapped plaintext: honour a `VALUE_LEN`
    /// the template asks for (never longer than the plaintext), demand a
    /// lawful key size, and zeroize the material on every refusal.
    #[verifier::rlimit(60)]
    #[verifier::spinoff_prover]
    pub fn import_from_wrapped(&self, data: Vec<u8>, template: &[CkAttribute]) -> (r: KResult<
        Object,
    >)
        requires
            self.wf(),
        ensures
            r == Err::<Object, KError>(KError::RvError(CKR_GENERAL_ERROR))
                || spec_import_wrapped_result(
                data@,
                template@.map_values(|e: CkAttribute| e@),
                r,
            ),
            r matches Ok(o) ==> spec_aes_key_valid(o@.attrs),
    {
        let ghost entries = template@.map_values(|e: CkAttribute| e@);
        let ghost orig = data@;
        let mut data = data;
        let opt = match template_ulong(template, CKA_VALUE_LEN) {
            Ok(opt) => opt,
            Err(e) => {
                zeroize_bytes(&mut data);
                assert(spec_import_wrapped_result(orig, entries, Err(e)));
                return Err(e);
            },
        };
        let ghost keepg: int = match opt {
            Some(vl) => vl as int,
            None => orig.len() as int,
        };
        match opt {
            Some(vl) => {
                if vl > data.len() as u64 {
                    zeroize_bytes(&mut data);
                    assert(spec_import_wrapped_result(orig, entries, Err(KError::RvError(
                        CKR_KEY_SIZE_RANGE,
                    ))));
                    return Err(KError::RvError(CKR_KEY_SIZE_RANGE));
                }
                data.truncate(vl as usize);
                assert(data@ =~= orig.take(keepg));
            },
            None => {
                assert(data@ =~= orig.take(keepg));
            },
        }
        if check_key_len(data.len()).is_err() {
            assert(data@.len() == keepg);
            zeroize_bytes(&mut data);
            assert(spec_import_wrapped_result(orig, entries, Err(KError::RvError(
                CKR_KEY_SIZE_RANGE,
            ))));
            return Err(KError::RvError(CKR_KEY_SIZE_RANGE));
        }
        let ghost kept = data@;
        assert(kept == orig.take(keepg));
        assert(spec_aes_key_len_ok(keepg));
        let obj = match self.default_object_unwrap(template) {
            Ok(o) => o,
            Err(e) => {
                proof {
                    if spec_build_outcome(
                        entries,
                        spec_aes_key_schema(),
                        OAF_REQUIRED_ON_CREATE,
                        Err(e),
                    ) {
                        match spec_decode_entries(entries) {
                            Ok(decoded) => {
                                let uv = choose|uv: AttrView|
                                    uv.id == CKA_UNIQUE_ID && uv.atype == AttrType::StringType
                                        && uv.value.len() == 36 && #[trigger] spec_build_result(
                                        spec_aes_key_schema(),
                                        OAF_REQUIRED_ON_CREATE,
                                        uv,
                                        decoded,
                                        Err(e),
                                    );
                                assert(spec_import_wrapped_build(
                                    uv,
                                    decoded,
                                    orig.take(keepg),
                                    Err(e),
                                ));
                                lemma_import_result(orig, entries, keepg, uv, decoded, Err(e));
                            },
                            Err(e0) => {
                                lemma_import_result_decode_err(orig, entries, keepg, e0);
                            },
                        }
                    } else {
                        assert(e == KError::RvError(CKR_GENERAL_ERROR));
                    }
                }
                zeroize_bytes(&mut data);
                return Err(e);
            },
        };
        let ghost decoded = spec_decode_entries(entries)->Ok_0;
        let ghost uv = choose|uv: AttrView|
            uv.id == CKA_UNIQUE_ID && uv.atype == AttrType::StringType && uv.value.len() == 36
                && #[trigger] spec_build_result(
                spec_aes_key_schema(),
                OAF_REQUIRED_ON_CREATE,
                uv,
                decoded,
                Ok(obj),
            );
        let mut obj = obj;
        match self.set_key(&mut obj, data) {
            Ok(()) => {
                assert(spec_import_wrapped_build(uv, decoded, orig.take(keepg), Ok(obj)));
                proof {
                    lemma_import_result(orig, entries, keepg, uv, decoded, Ok(obj));
                }
                Ok(obj)
            },
            Err(e) => {
                assert(false);
                Err(e)
            },
        }
    }

    /// Install key material: set `VALUE` and the matching `VALUE_LEN`.
    pub fn set_key(&self, obj: &mut Object, key: Vec<u8>) -> (r: KResult<()>)
        ensures
            !spec_aes_key_len_ok(key@.len() as int) ==> r == Err::<(), KError>(
                KError::RvError(CKR_KEY_SIZE_RANGE),
            ) && *final(obj) == *old(obj),
            spec_aes_key_len_ok(key@.len() as int) ==> {
                &&& r == Ok::<(), KError>(())
                &&& final(obj)@.handle == old(obj)@.handle
                &&& final(obj)@.session == old(obj)@.session
                &&& final(obj)@.modified == true
                &&& spec_get_attr_as_bytes(final(obj)@.attrs, CKA_VALUE) == Ok::<Seq<u8>, KError>(
                    key@,
                )
                &&& spec_get_attr_as_ulong(final(obj)@.attrs, CKA_VALUE_LEN) == Ok::<u64, KError>(
                    key@.len() as u64,
                )
                &&& spec_aes_key_valid(final(obj)@.attrs)
                &&& forall|q: u64|
                    q != CKA_VALUE && q != CKA_VALUE_LEN ==> spec_find_attr(final(obj)@.attrs, q)
                        == spec_find_attr(old(obj)@.attrs, q)
            },
    {
        let keylen = key.len();
        if let Err(e) = check_key_len(keylen) {
            return Err(e);
        }
        set_attr_traced(obj, from_bytes(CKA_VALUE, key));
        set_attr_traced(obj, from_ulong(CKA_VALUE_LEN, keylen as u64));
        proof {
            vstd::bytes::lemma_auto_spec_u64_to_from_le_bytes();
        }
        Ok(())
    }

    /// The key size to generate for a bound: the largest lawful AES
    /// size not over the bound.
    pub fn recommend_key_size(&self, max: usize) -> (r: KResult<usize>)
        ensures
            max >= 32 ==> r == Ok::<usize, KError>(32usize),
            24 < max < 32 ==> r == Ok::<usize, KError>(24usize),
            16 < max <= 24 ==> r == Ok::<usize, KError>(16usize),
            max <= 16 ==> r == Err::<usize, KError>(KError::RvError(CKR_KEY_SIZE_RANGE)),
    {
        if max >= MAX_AES_SIZE_BYTES {
            Ok(MAX_AES_SIZE_BYTES)
        } else if max > MID_AES_SIZE_BYTES {
            Ok(MID_AES_SIZE_BYTES)
        } else if max > MIN_AES_SIZE_BYTES {
            Ok(MIN_AES_SIZE_BYTES)
        } else {
            Err(KError::RvError(CKR_KEY_SIZE_RANGE))
        }
    }
}

/// What `default_object_derive` returns, given the drawn unique-id
/// attribute and the decoded template: the generic build with nothing
/// demanded, then the key-size rule on a requested `VALUE_LEN`.
pub open spec fn spec_aes_derive_build(
    uv: AttrView,
    decoded: Seq<AttrView>,
    r: KResult<Object>,
) -> bool {
    let attrs1 = seq![uv] + decoded;
    let rc = spec_check_rc(attrs1, spec_aes_key_schema(), 0);
    if rc != CKR_OK {
        r == Err::<Object, KError>(KError::RvError(rc))
    } else {
        let attrs2 = attrs1 + spec_missing_defaults(attrs1, spec_aes_key_schema());
        match spec_get_attr_as_ulong(attrs2, CKA_VALUE_LEN) {
            Ok(vl) => if vl <= usize::MAX && spec_aes_key_len_ok(vl as int) {
                r matches Ok(o) && o@.handle == 0 && o@.session == 0 && o@.modified == false
                    && o@.attrs == attrs2
            } else {
                r == Err::<Object, KError>(KError::RvError(CKR_TEMPLATE_INCONSISTENT))
            },
            Err(KError::NotFound) => r matches Ok(o) && o@.handle == 0 && o@.session == 0
                && o@.modified == false && o@.attrs == attrs2,
            Err(_) => r == Err::<Object, KError>(KError::RvError(CKR_TEMPLATE_INCONSISTENT)),
        }
    }
}

/// What `create` returns, given the drawn unique-id attribute and the
/// decoded template: the generic build against the AES schema, then the
/// key-size rule and the `VALUE_LEN` synthesis.
pub open spec fn spec_aes_create_result(
    uv: AttrView,
    decoded: Seq<AttrView>,
    r: KResult<Object>,
) -> bool {
    let attrs1 = seq![uv] + decoded;
    let rc = spec_check_rc(attrs1, spec_aes_key_schema(), OAF_REQUIRED_ON_CREATE);
    if rc != CKR_OK {
        r == Err::<Object, KError>(KError::RvError(rc))
    } else {
        let attrs2 = attrs1 + spec_missing_defaults(attrs1, spec_aes_key_schema());
        match spec_get_attr_as_bytes(attrs2, CKA_VALUE) {
            Err(_) => r == Err::<Object, KError>(KError::RvError(CKR_TEMPLATE_INCOMPLETE)),
            Ok(v) => if !spec_aes_key_len_ok(v.len() as int) {
                r == Err::<Object, KError>(KError::RvError(CKR_KEY_SIZE_RANGE))
            } else {
                match spec_get_attr_as_ulong(attrs2, CKA_VALUE_LEN) {
                    Ok(vl) => if vl == v.len() {
                        r matches Ok(o) && o@.handle == 0 && o@.session == 0 && o@.attrs == attrs2
                    } else {
                        r == Err::<Object, KError>(
                            KError::RvError(CKR_ATTRIBUTE_VALUE_INVALID),
                        )
                    },
                    Err(KError::NotFound) => r matches Ok(o) && o@.handle == 0 && o@.session == 0
                        && o@.attrs == attrs2.push(
                        AttrView {
                            id: CKA_VALUE_LEN,
                            atype: AttrType::NumType,
                            value: spec_u64_to_le_bytes(v.len() as u64),
                        },
                    ),
                    Err(_) => r == Err::<Object, KError>(
                        KError::RvError(CKR_ATTRIBUTE_VALUE_INVALID),
                    ),
                }
            },
        }
    }
}

/// Close the import contract from its pieces, for a template that
/// decodes.
proof fn lemma_import_result(
    orig: Seq<u8>,
    entries: Seq<CkAttrView>,
    keepg: int,
    uv: AttrView,
    decoded: Seq<AttrView>,
    r: KResult<Object>,
)
    requires
        spec_template_ulong(entries, CKA_VALUE_LEN) matches Ok(opt) && keepg == (match opt {
            Some(vl) => vl as int,
            None => orig.len() as int,
        }),
        keepg <= orig.len(),
        spec_aes_key_len_ok(keepg),
        spec_decode_entries(entries) == Ok::<Seq<AttrView>, KError>(decoded),
        uv.id == CKA_UNIQUE_ID,
        uv.atype == AttrType::StringType,
        uv.value.len() == 36,
        spec_import_wrapped_build(uv, decoded, orig.take(keepg), r),
    ensures
        spec_import_wrapped_result(orig, entries, r),
{
    let opt = spec_template_ulong(entries, CKA_VALUE_LEN)->Ok_0;
    let keep: int = spec_keep_len(opt, orig.len() as int);
    assert(keep == keepg);
    let dec = spec_decode_entries(entries)->Ok_0;
    assert(dec == decoded);
    assert(spec_import_wrapped_build(uv, dec, orig.take(keep), r));
    assert(spec_import_decoded(orig, keep, dec, r));
}

/// Close the import contract where the template itself fails to decode.
proof fn lemma_import_result_decode_err(
    orig: Seq<u8>,
    entries: Seq<CkAttrView>,
    keepg: int,
    e: KError,
)
    requires
        spec_template_ulong(entries, CKA_VALUE_LEN) matches Ok(opt) && keepg == (match opt {
            Some(vl) => vl as int,
            None => orig.len() as int,
        }),
        keepg <= orig.len(),
        spec_aes_key_len_ok(keepg),
        spec_decode_entries(entries) == Err::<Seq<AttrView>, KError>(e),
    ensures
        spec_import_wrapped_result(orig, entries, Err::<Object, KError>(e)),
{
}

/// The number of unwrapped bytes kept: the template's `VALUE_LEN`, or
/// all of them.
pub open spec fn spec_keep_len(opt: Option<u64>, n: int) -> int {
    match opt {
        Some(vl) => vl as int,
        None => n,
    }
}

/// Some drawn unique id completes the import build.
pub open spec fn spec_import_decoded(
    data: Seq<u8>,
    keep: int,
    decoded: Seq<AttrView>,
    r: KResult<Object>,
) -> bool {
    exists|uv: AttrView|
        uv.id == CKA_UNIQUE_ID && uv.atype == AttrType::StringType && uv.value.len() == 36
            && #[trigger] spec_import_wrapped_build(uv, decoded, data.take(keep), r)
}

/// What `import_from_wrapped` returns for the input material and the
/// caller template.
pub open spec fn spec_import_wrapped_result(
    data: Seq<u8>,
    entries: Seq<CkAttrView>,
    r: KResult<Object>,
) -> bool {
    match spec_template_ulong(entries, CKA_VALUE_LEN) {
        Err(e) => r == Err::<Object, KError>(e),
        Ok(opt) => {
            if spec_keep_len(opt, data.len() as int) > data.len() || !spec_aes_key_len_ok(
                spec_keep_len(opt, data.len() as int),
            ) {
                r == Err::<Object, KError>(KError::RvError(CKR_KEY_SIZE_RANGE))
            } else {
                match spec_decode_entries(entries) {
                    Err(e) => r == Err::<Object, KError>(e),
                    Ok(decoded) => spec_import_decoded(
                        data,
                        spec_keep_len(opt, data.len() as int),
                        decoded,
                        r,
                    ),
                }
            }
        },
    }
}

/// What `import_from_wrapped` returns once the kept material is fixed:
/// the generic build, then `VALUE` and `VALUE_LEN` from the material.
pub open spec fn spec_import_wrapped_build(
    uv: AttrView,
    decoded: Seq<AttrView>,
    kept: Seq<u8>,
    r: KResult<Object>,
) -> bool {
    let attrs1 = seq![uv] + decoded;
    let rc = spec_check_rc(attrs1, spec_aes_key_schema(), OAF_REQUIRED_ON_CREATE);
    if rc != CKR_OK {
        r == Err::<Object, KError>(KError::RvError(rc))
    } else {
        let attrs2 = attrs1 + spec_missing_defaults(attrs1, spec_aes_key_schema());
        r matches Ok(o) && o@.handle == 0 && o@.session == 0 && spec_get_attr_as_bytes(
            o@.attrs,
            CKA_VALUE,
        ) == Ok::<Seq<u8>, KError>(kept) && spec_get_attr_as_ulong(o@.attrs, CKA_VALUE_LEN)
            == Ok::<u64, KError>(kept.len() as u64) && (forall|q: u64|
            q != CKA_VALUE && q != CKA_VALUE_LEN ==> spec_find_attr(o@.attrs, q)
                == spec_find_attr(attrs2, q))
    }
}

/* the encrypt-data key-derivation state machine */

/// The derive-from-encryption operation: a pseudorandom function (ECB
/// or CBC with its vector), the data to encrypt, and the single-use
/// flag.
#[derive(Debug)]
pub struct AesKDFOperation {
    pub prf: u64,
    pub finalized: bool,
    pub iv: Vec<u8>,
    pub data: Vec<u8>,
}

impl AesKDFOperation {
    /// The shape every constructed derivation has.
    pub open spec fn wf(&self) -> bool {
        &&& self.prf == CKM_AES_ECB || self.prf == CKM_AES_CBC
        &&& (self.prf == CKM_AES_ECB ==> self.iv@.len() == 0)
        &&& (self.prf == CKM_AES_CBC ==> self.iv@.len() == 16)
        &&& self.data@.len() > 0
        &&& self.data@.len() % 16 == 0
    }

    /// Install the derive-from-encryption mechanisms, each available
    /// only where its underlying cipher is.
    pub fn register_mechanisms(mechs: &mut Mechanisms)
        ensures
            final(mechs).entries@ == old(mechs).entries@ + (
            if spec_assoc_find(old(mechs).entries@, CKM_AES_ECB) is Some {
                seq![(CKM_AES_ECB_ENCRYPT_DATA, spec_aes_derive_mechanism())]
            } else {
                Seq::empty()
            }) + (
            if spec_assoc_find(old(mechs).entries@, CKM_AES_CBC) is Some {
                seq![(CKM_AES_CBC_ENCRYPT_DATA, spec_aes_derive_mechanism())]
            } else {
                Seq::empty()
            }),
    {
        let ghost s0 = old(mechs).entries@;
        if mechs.get(CKM_AES_ECB).is_ok() {
            mechs.add_mechanism(
                CKM_AES_ECB_ENCRYPT_DATA,
                AesMechanism {
                    info: MechanismInfo { min_key_size: 16, max_key_size: 32, flags: CKF_DERIVE },
                },
            );
        }
        if mechs.get(CKM_AES_CBC).is_ok() {
            proof {
                if spec_assoc_find(s0, CKM_AES_ECB) is Some {
                    lemma_assoc_find_push(
                        s0,
                        CKM_AES_ECB_ENCRYPT_DATA,
                        spec_aes_derive_mechanism(),
                        CKM_AES_CBC,
                    );
                }
            }
            mechs.add_mechanism(
                CKM_AES_CBC_ENCRYPT_DATA,
                AesMechanism {
                    info: MechanismInfo { min_key_size: 16, max_key_size: 32, flags: CKF_DERIVE },
                },
            );
        } else {
            proof {
                if spec_assoc_find(s0, CKM_AES_ECB) is Some {
                    lemma_assoc_find_push(
                        s0,
                        CKM_AES_ECB_ENCRYPT_DATA,
                        spec_aes_derive_mechanism(),
                        CKM_AES_CBC,
                    );
                }
            }
        }
        proof {
            assert(mechs.entries@ =~= s0 + (
            if spec_assoc_find(s0, CKM_AES_ECB) is Some {
                seq![(CKM_AES_ECB_ENCRYPT_DATA, spec_aes_derive_mechanism())]
            } else {
                Seq::<(u64, AesMechanism)>::empty()
            }) + (
            if spec_assoc_find(s0, CKM_AES_CBC) is Some {
                seq![(CKM_AES_CBC_ENCRYPT_DATA, spec_aes_derive_mechanism())]
            } else {
                Seq::<(u64, AesMechanism)>::empty()
            }));
        }
    }

    /// A derivation that runs AES-ECB over the parameter data.
    pub fn aes_ecb_new(data: Vec<u8>) -> (r: KResult<AesKDFOperation>)
        ensures
            data@.len() == 0 || data@.len() % 16 != 0 ==> r == Err::<AesKDFOperation, KError>(
                KError::RvError(CKR_MECHANISM_PARAM_INVALID),
            ),
            data@.len() > 0 && data@.len() % 16 == 0 ==> (r matches Ok(op) && op.wf() && op.prf
                == CKM_AES_ECB && !op.finalized && op.iv@.len() == 0 && op.data@ == data@),
    {
        if data.len() == 0 || data.len() % 16 != 0 {
            return Err(KError::RvError(CKR_MECHANISM_PARAM_INVALID));
        }
        Ok(AesKDFOperation { prf: CKM_AES_ECB, finalized: false, iv: Vec::new(), data })
    }

    /// A derivation that runs AES-CBC over the parameter data under the
    /// parameter vector.
    pub fn aes_cbc_new(iv: Vec<u8>, data: Vec<u8>) -> (r: KResult<AesKDFOperation>)
        ensures
            iv@.len() != 16 || data@.len() == 0 || data@.len() % 16 != 0 ==> r == Err::<
                AesKDFOperation,
                KError,
            >(KError::RvError(CKR_MECHANISM_PARAM_INVALID)),
            iv@.len() == 16 && data@.len() > 0 && data@.len() % 16 == 0 ==> (r matches Ok(op)
                && op.wf() && op.prf == CKM_AES_CBC && !op.finalized && op.iv@ == iv@ && op.data@
                == data@),
    {
        if iv.len() != 16 || data.len() == 0 || data.len() % 16 != 0 {
            return Err(KError::RvError(CKR_MECHANISM_PARAM_INVALID));
        }
        Ok(AesKDFOperation { prf: CKM_AES_CBC, finalized: false, iv, data })
    }

    pub fn finalized(&self) -> (r: bool)
        ensures
            r == self.finalized,
    {
        self.finalized
    }

    /// The inputs on which a fresh derivation is owed a key: the base
    /// key permits derivation and holds lawful AES material, the
    /// template names the AES secret-key pair whose factory is
    /// registered, decodes, passes the AES schema whatever unique id is
    /// drawn, and asks a lawful `VALUE_LEN` not beyond the data.  On
    /// them only a failing random source may still refuse.
    pub open spec fn spec_derive_succeeds(
        op: AesKDFOperation,
        kattrs: Seq<AttrView>,
        entries: Seq<CkAttrView>,
        factories: ObjectFactories,
    ) -> bool {
        &&& !op.finalized
        &&& spec_key_ops_ok(kattrs, CKO_SECRET_KEY, CKK_AES, CKA_DERIVE)
        &&& (spec_get_attr_as_bytes(kattrs, CKA_VALUE) matches Ok(kv) && spec_aes_key_len_ok(
            kv.len() as int,
        ))
        &&& spec_template_ulong(entries, CKA_CLASS) == Ok::<Option<u64>, KError>(
            Some(CKO_SECRET_KEY),
        )
        &&& spec_template_ulong(entries, CKA_KEY_TYPE) == Ok::<Option<u64>, KError>(
            Some(CKK_AES),
        )
        &&& factories.spec_get(ObjectType { class: CKO_SECRET_KEY, key_type: CKK_AES }) is Some
        &&& spec_decode_entries(entries) is Ok
        &&& (forall|uv: AttrView|
            uv.id == CKA_UNIQUE_ID ==> #[trigger] spec_check_rc(
                seq![uv] + spec_decode_entries(entries)->Ok_0,
                spec_aes_key_schema(),
                0,
            ) == CKR_OK)
        &&& (spec_template_ulong(entries, CKA_VALUE_LEN) matches Ok(Some(vl))
            && spec_aes_key_len_ok(vl as int) && vl <= op.data@.len())
    }

    /// Derive a key: encrypt the parameter data once under the base key
    /// and install the ciphertext, truncated to the derived template's
    /// `VALUE_LEN`, as the new secret.  The operation is single-use: a
    /// second invocation reports `OPERATION_NOT_INITIALIZED`, and any
    /// outcome finalizes it.
    pub fn derive(
        &mut self,
        key: &Object,
        template: &[CkAttribute],
        _mechanisms: &Mechanisms,
        objfactories: &ObjectFactories,
    ) -> (r: KResult<Vec<Object>>)
        requires
            old(self).wf(),
            objfactories.wf(),
        ensures
            final(self).finalized,
            old(self).finalized ==> r == Err::<Vec<Object>, KError>(
                KError::RvError(CKR_OPERATION_NOT_INITIALIZED),
            ),
            !old(self).finalized && !spec_key_ops_ok(
                key@.attrs,
                CKO_SECRET_KEY,
                CKK_AES,
                CKA_DERIVE,
            ) ==> r == Err::<Vec<Object>, KError>(
                KError::RvError(CKR_KEY_FUNCTION_NOT_PERMITTED),
            ),
            r matches Ok(objs) ==> {
                &&& !old(self).finalized
                &&& spec_key_ops_ok(key@.attrs, CKO_SECRET_KEY, CKK_AES, CKA_DERIVE)
                &&& objs@.len() == 1
                &&& spec_get_attr_as_bytes(key@.attrs, CKA_VALUE) matches Ok(kv) && ({
                    let full = spec_mode_encrypt(
                        old(self).prf,
                        kv,
                        old(self).iv@,
                        old(self).data@,
                    );
                    &&& spec_get_attr_as_bytes(objs@[0]@.attrs, CKA_VALUE) matches Ok(v)
                        && spec_aes_key_len_ok(v.len() as int) && v == full.take(v.len() as int)
                    &&& spec_aes_key_valid(objs@[0]@.attrs)
                })
            },
            Self::spec_derive_succeeds(
                *old(self),
                key@.attrs,
                template@.map_values(|e: CkAttribute| e@),
                *objfactories,
            ) ==> (r == Err::<Vec<Object>, KError>(KError::RvError(CKR_GENERAL_ERROR)) || (
            r matches Ok(objs) && spec_get_attr_as_ulong(objs@[0]@.attrs, CKA_VALUE_LEN) == Ok::<
                u64,
                KError,
            >(
                spec_template_ulong(
                    template@.map_values(|e: CkAttribute| e@),
                    CKA_VALUE_LEN,
                )->Ok_0->Some_0,
            ))),
    {
        let ghost entries = template@.map_values(|e: CkAttribute| e@);
        let ghost succeeds = Self::spec_derive_succeeds(
            *old(self),
            key@.attrs,
            entries,
            *objfactories,
        );
        if self.finalized {
            return Err(KError::RvError(CKR_OPERATION_NOT_INITIALIZED));
        }
        self.finalized = true;

        if let Err(e) = key.check_key_ops(CKO_SECRET_KEY, CKK_AES, CKA_DERIVE) {
            return Err(e);
        }
        let factory = match objfactories.get_obj_factory_from_key_template(template) {
            Ok(f) => f,
            Err(e) => {
                return Err(e);
            },
        };
        let Factory::AesKey(f) = factory;
        let mut obj = match f.default_object_derive(template, key) {
            Ok(o) => o,
            Err(e) => {
                proof {
                    if succeeds && e != KError::RvError(CKR_GENERAL_ERROR) {
                        let decoded = spec_decode_entries(entries)->Ok_0;
                        let uv = choose|uv: AttrView|
                            uv.id == CKA_UNIQUE_ID && uv.atype == AttrType::StringType
                                && uv.value.len() == 36 && #[trigger] spec_aes_derive_build(
                                uv,
                                decoded,
                                Err(e),
                            );
                        assert(spec_check_rc(seq![uv] + decoded, spec_aes_key_schema(), 0)
                            == CKR_OK);
                        lemma_template_ulong_built(
                            entries,
                            decoded,
                            uv,
                            spec_aes_key_schema(),
                            CKA_VALUE_LEN,
                        );
                        assert(false);
                    }
                }
                return Err(e);
            },
        };
        proof {
            if succeeds {
                let decoded = spec_decode_entries(entries)->Ok_0;
                let uv = choose|uv: AttrView|
                    uv.id == CKA_UNIQUE_ID && uv.atype == AttrType::StringType && uv.value.len()
                        == 36 && #[trigger] spec_aes_derive_build(uv, decoded, Ok(obj));
                assert(spec_check_rc(seq![uv] + decoded, spec_aes_key_schema(), 0) == CKR_OK);
                lemma_template_ulong_built(
                    entries,
                    decoded,
                    uv,
                    spec_aes_key_schema(),
                    CKA_VALUE_LEN,
                );
                assert(spec_get_attr_as_ulong(obj@.attrs, CKA_VALUE_LEN) == Ok::<u64, KError>(
                    spec_template_ulong(entries, CKA_VALUE_LEN)->Ok_0->Some_0,
                ));
            }
        }

        let mechanism = CkMechanism {
            mechanism: self.prf,
            params: if self.iv.len() > 0 {
                CkMechParams::Iv(clone_bytes(&self.iv))
            } else {
                CkMechParams::Empty
            },
        };
        let mut op = match AesOperation::encrypt_new(&mechanism, key) {
            Ok(op) => op,
            Err(e) => {
                return Err(e);
            },
        };
        let keysize = match op.encryption_len(self.data.len()) {
            Ok(n) => n,
            Err(e) => {
                return Err(e);
            },
        };
        let mut dkm = match op.encrypt(self.data.as_slice()) {
            Ok(d) => d,
            Err(e) => {
                return Err(e);
            },
        };
        if dkm.len() != keysize {
            zeroize_bytes(&mut dkm);
            return Err(KError::RvError(CKR_GENERAL_ERROR));
        }

        match obj.get_attr_as_ulong(CKA_VALUE_LEN) {
            Ok(vl) => {
                if vl > dkm.len() as u64 {
                    zeroize_bytes(&mut dkm);
                    return Err(KError::RvError(CKR_KEY_SIZE_RANGE));
                }
                dkm.truncate(vl as usize);
            },
            Err(KError::NotFound) => {},
            Err(_) => {
                zeroize_bytes(&mut dkm);
                return Err(KError::RvError(CKR_TEMPLATE_INCONSISTENT));
            },
        }
        let ghost kept = dkm@;
        proof {
            let kv = spec_get_attr_as_bytes(key@.attrs, CKA_VALUE)->Ok_0;
            let full = spec_mode_encrypt(old(self).prf, kv, old(self).iv@, old(self).data@);
            if old(self).prf == CKM_AES_ECB {
                assert(old(self).iv@ =~= Seq::<u8>::empty());
            }
            assert(kept =~= full.take(kept.len() as int));
        }
        match f.set_key(&mut obj, dkm) {
            Ok(()) => {
                let mut objs: Vec<Object> = Vec::new();
                objs.push(obj);
                proof {
                    assert(objs@ =~= seq![obj]);
                }
                Ok(objs)
            },
            Err(e) => Err(e),
        }
    }
}

/// The descriptor of the derive-from-encryption mechanisms.
pub open spec fn spec_aes_derive_mechanism() -> AesMechanism {
    AesMechanism { info: MechanismInfo { min_key_size: 16, max_key_size: 32, flags: CKF_DERIVE } }
}

/* the CBC-MAC operation */

/// A zero block of the cipher's width.
pub open spec fn spec_zero_block() -> Seq<u8> {
    Seq::new(16, |i: int| 0u8)
}

/// The MAC input: the data zero-padded to a whole number of blocks, an
/// empty message standing for one zero block.
pub open spec fn spec_mac_input(data: Seq<u8>) -> Seq<u8> {
    if data.len() == 0 {
        spec_zero_block()
    } else {
        data + Seq::new(((16 - data.len() % 16) % 16) as nat, |i: int| 0u8)
    }
}

/// The legacy CBC-MAC: the first `mac_len` bytes of the last AES-CBC
/// block of the zero-padded data under a zero vector.
pub open spec fn spec_cbc_mac(key: Seq<u8>, data: Seq<u8>, mac_len: int) -> Seq<u8> {
    let c = spec_cbc_encrypt(key, spec_zero_block(), spec_mac_input(data));
    c.subrange(c.len() - 16, c.len() - 16 + mac_len)
}

/// A 16-byte string shifted left by one bit.
pub open spec fn spec_shl1(b: Seq<u8>) -> Seq<u8> {
    Seq::new(
        b.len(),
        |i: int|
            ((b[i] << 1) | (if i + 1 < b.len() {
                b[i + 1] >> 7
            } else {
                0
            })) as u8,
    )
}

/// The CMAC subkey step: shift left one bit and, where the top bit was
/// set, fold the block constant into the last byte.
pub open spec fn spec_double(b: Seq<u8>) -> Seq<u8> {
    let s = spec_shl1(b);
    if b[0] >= 128 {
        s.update(15, s[15] ^ 0x87)
    } else {
        s
    }
}

/// The masked final CMAC block: a complete last block is xored with the
/// first subkey; a partial one is closed with a one bit, zero-filled
/// and xored with the second.
pub open spec fn spec_cmac_last_block(key: Seq<u8>, data: Seq<u8>) -> Seq<u8> {
    let k1 = spec_double(spec_aes_enc_block(key, spec_zero_block()));
    let k2 = spec_double(k1);
    if data.len() > 0 && data.len() % 16 == 0 {
        spec_xor(data.subrange(data.len() - 16, data.len() as int), k1)
    } else {
        let rem = data.skip(16 * (data.len() as int / 16));
        let padded = rem + seq![0x80u8] + Seq::new((15 - rem.len()) as nat, |i: int| 0u8);
        spec_xor(padded, k2)
    }
}

/// The CMAC: chain the complete leading blocks through AES-CBC under a
/// zero vector, fold the chain into the masked final block, encrypt
/// once, and keep the first `mac_len` bytes.
pub open spec fn spec_cmac(key: Seq<u8>, data: Seq<u8>, mac_len: int) -> Seq<u8> {
    let nf = if data.len() > 0 && data.len() % 16 == 0 {
        data.len() as int / 16 - 1
    } else {
        data.len() as int / 16
    };
    let prefix = data.take(16 * nf);
    let c = spec_cbc_encrypt(key, spec_zero_block(), prefix);
    let chain = if nf == 0 {
        spec_zero_block()
    } else {
        c.subrange(c.len() - 16, c.len() as int)
    };
    spec_aes_enc_block(key, spec_xor(spec_cmac_last_block(key, data), chain)).take(mac_len)
}

/// The CMAC subkey step.
fn cmac_double(b: &[u8]) -> (r: Vec<u8>)
    requires
        b@.len() == 16,
    ensures
        r@ == spec_double(b@),
        r@.len() == 16,
{
    let mut s: Vec<u8> = Vec::new();
    let mut i: usize = 0;
    while i < 16
        invariant
            0 <= i <= 16,
            b@.len() == 16,
            s@.len() == i,
            forall|j: int| 0 <= j < i ==> s@[j] == spec_shl1(b@)[j],
        decreases 16 - i,
    {
        let carry: u8 = if i + 1 < 16 {
            b[i + 1] >> 7
        } else {
            0
        };
        s.push((b[i] << 1) | carry);
        i += 1;
    }
    assert(s@ =~= spec_shl1(b@));
    if b[0] >= 128 {
        let t = s[15] ^ 0x87;
        s.set(15, t);
        assert(s@ =~= spec_double(b@));
    }
    s
}

/// The CBC-MAC sign/verify operation: key material, the requested MAC
/// length, and the single-use flag.
#[derive(Debug)]
pub struct AesMacOperation {
    pub mech: u64,
    pub key: Vec<u8>,
    pub mac_len: usize,
    pub finalized: bool,
}

impl AesMacOperation {
    /// The shape every constructed MAC operation has.
    pub open spec fn wf(&self) -> bool {
        &&& spec_aes_key_len_ok(self.key@.len() as int)
        &&& 0 < self.mac_len <= 16
    }

    /// Install the MAC mechanisms: CMAC and the legacy CBC-MAC, plain
    /// and general forms.
    pub fn register_mechanisms(mechs: &mut Mechanisms)
        ensures
            final(mechs).entries@ == old(mechs).entries@.push(
                (CKM_AES_CMAC, spec_aes_mac_mechanism()),
            ).push((CKM_AES_CMAC_GENERAL, spec_aes_mac_mechanism())).push(
                (CKM_AES_MAC, spec_aes_mac_mechanism()),
            ).push((CKM_AES_MAC_GENERAL, spec_aes_mac_mechanism())),
    {
        mechs.add_mechanism(
            CKM_AES_CMAC,
            AesMechanism {
                info: MechanismInfo {
                    min_key_size: 16,
                    max_key_size: 32,
                    flags: CKF_SIGN | CKF_VERIFY,
                },
            },
        );
        mechs.add_mechanism(
            CKM_AES_CMAC_GENERAL,
            AesMechanism {
                info: MechanismInfo {
                    min_key_size: 16,
                    max_key_size: 32,
                    flags: CKF_SIGN | CKF_VERIFY,
                },
            },
        );
        mechs.add_mechanism(
            CKM_AES_MAC,
            AesMechanism {
                info: MechanismInfo {
                    min_key_size: 16,
                    max_key_size: 32,
                    flags: CKF_SIGN | CKF_VERIFY,
                },
            },
        );
        mechs.add_mechanism(
            CKM_AES_MAC_GENERAL,
            AesMechanism {
                info: MechanismInfo {
                    min_key_size: 16,
                    max_key_size: 32,
                    flags: CKF_SIGN | CKF_VERIFY,
                },
            },
        );
    }

    /// A MAC operation bound to the key: the plain mechanism takes half
    /// a block, the general form takes the requested length.
    pub fn init(mech: &CkMechanism, key: &Object) -> (r: KResult<AesMacOperation>)
        ensures
            spec_mac_init_result(mech@, key@.attrs, r),
    {
        let mac_len: usize = if mech.mechanism == CKM_AES_MAC || mech.mechanism == CKM_AES_CMAC {
            match &mech.params {
                CkMechParams::Empty => if mech.mechanism == CKM_AES_MAC {
                    8
                } else {
                    16
                },
                _ => {
                    return Err(KError::RvError(CKR_MECHANISM_PARAM_INVALID));
                },
            }
        } else if mech.mechanism == CKM_AES_MAC_GENERAL || mech.mechanism
            == CKM_AES_CMAC_GENERAL {
            match &mech.params {
                CkMechParams::MacGeneral(n) => {
                    if *n == 0 || *n > 16 {
                        return Err(KError::RvError(CKR_MECHANISM_PARAM_INVALID));
                    }
                    *n as usize
                },
                _ => {
                    return Err(KError::RvError(CKR_MECHANISM_PARAM_INVALID));
                },
            }
        } else {
            return Err(KError::RvError(CKR_MECHANISM_INVALID));
        };
        let value = match key.get_attr_as_bytes(CKA_VALUE) {
            Ok(v) => clone_bytes(v),
            Err(_) => {
                return Err(KError::RvError(CKR_GENERAL_ERROR));
            },
        };
        if check_key_len(value.len()).is_err() {
            return Err(KError::RvError(CKR_KEY_SIZE_RANGE));
        }
        Ok(AesMacOperation { mech: mech.mechanism, key: value, mac_len, finalized: false })
    }

    pub fn finalized(&self) -> (r: bool)
        ensures
            r == self.finalized,
    {
        self.finalized
    }

    /// One-shot signature; any outcome finalizes the operation.
    pub fn sign(&mut self, data: &[u8]) -> (r: KResult<Vec<u8>>)
        requires
            old(self).wf(),
        ensures
            final(self).wf(),
            final(self).finalized,
            final(self).key == old(self).key,
            final(self).mech == old(self).mech,
            final(self).mac_len == old(self).mac_len,
            old(self).finalized ==> r == Err::<Vec<u8>, KError>(
                KError::RvError(CKR_OPERATION_NOT_INITIALIZED),
            ),
            !old(self).finalized ==> (r matches Ok(s) && s@ == spec_mac_value(
                old(self).mech,
                old(self).key@,
                data@,
                old(self).mac_len as int,
            ) && s@.len() == old(self).mac_len),
    {
        if self.finalized {
            return Err(KError::RvError(CKR_OPERATION_NOT_INITIALIZED));
        }
        self.finalized = true;
        if self.mech == CKM_AES_CMAC || self.mech == CKM_AES_CMAC_GENERAL {
            return Ok(self.cmac_compute(data));
        }
        let mut padded = slice_to_vec_bytes(data);
        if padded.len() == 0 {
            let mut k: usize = 0;
            while k < 16
                invariant
                    0 <= k <= 16,
                    padded@ == Seq::new(k as nat, |i: int| 0u8),
                decreases 16 - k,
            {
                padded.push(0u8);
                assert(padded@ =~= Seq::new(k as nat + 1, |i: int| 0u8));
                k += 1;
            }
            assert(padded@ =~= spec_mac_input(data@));
        } else {
            let pad = (16 - padded.len() % 16) % 16;
            let mut k: usize = 0;
            while k < pad
                invariant
                    0 <= k <= pad,
                    pad < 16,
                    padded@ == data@ + Seq::new(k as nat, |i: int| 0u8),
                decreases pad - k,
            {
                padded.push(0u8);
                assert(padded@ =~= data@ + Seq::new(k as nat + 1, |i: int| 0u8));
                k += 1;
            }
            assert(padded@ =~= spec_mac_input(data@));
        }
        let mut iv: Vec<u8> = Vec::new();
        let mut k: usize = 0;
        while k < 16
            invariant
                0 <= k <= 16,
                iv@ == Seq::new(k as nat, |i: int| 0u8),
            decreases 16 - k,
        {
            iv.push(0u8);
            assert(iv@ =~= Seq::new(k as nat + 1, |i: int| 0u8));
            k += 1;
        }
        assert(iv@ =~= spec_zero_block());
        let c = aes_cbc_encrypt(self.key.as_slice(), iv.as_slice(), padded.as_slice());
        let start = c.len() - 16;
        let mac = slice_to_vec_bytes(slice_subrange(c.as_slice(), start, start + self.mac_len));
        Ok(mac)
    }

    /// The CMAC of the data under this operation's key.
    fn cmac_compute(&self, data: &[u8]) -> (r: Vec<u8>)
        requires
            self.wf(),
        ensures
            r@ == spec_cmac(self.key@, data@, self.mac_len as int),
            r@.len() == self.mac_len,
    {
        let len = data.len();
        let fb: usize = if len > 0 && len % 16 == 0 {
            len - 16
        } else {
            len - len % 16
        };
        let ghost nf: int = if data@.len() > 0 && data@.len() % 16 == 0 {
            data@.len() as int / 16 - 1
        } else {
            data@.len() as int / 16
        };
        proof {
            assert(fb == 16 * nf);
        }
        let prefix = slice_subrange(data, 0, fb);
        let mut zero: Vec<u8> = Vec::new();
        let mut k: usize = 0;
        while k < 16
            invariant
                0 <= k <= 16,
                zero@ == Seq::new(k as nat, |i: int| 0u8),
            decreases 16 - k,
        {
            zero.push(0u8);
            assert(zero@ =~= Seq::new(k as nat + 1, |i: int| 0u8));
            k += 1;
        }
        assert(zero@ =~= spec_zero_block());
        let chain: Vec<u8> = if fb == 0 {
            clone_vec_bytes(&zero)
        } else {
            let c = aes_cbc_encrypt(self.key.as_slice(), zero.as_slice(), prefix);
            let n = c.len();
            slice_to_vec_bytes(slice_subrange(c.as_slice(), n - 16, n))
        };
        let k0 = aes_enc_block(self.key.as_slice(), zero.as_slice());
        let k1 = cmac_double(k0.as_slice());
        let last: Vec<u8> = if len > 0 && len % 16 == 0 {
            xor_bytes(slice_subrange(data, len - 16, len), k1.as_slice())
        } else {
            let k2 = cmac_double(k1.as_slice());
            let ghost rem = data@.skip(16 * nf);
            let mut padded = slice_to_vec_bytes(slice_subrange(data, fb, len));
            padded.push(0x80);
            let ghost m0 = padded@.len();
            let mut j: usize = 0;
            while padded.len() < 16
                invariant
                    m0 <= padded@.len() <= 16,
                    padded@ == rem + seq![0x80u8] + Seq::new(
                        (padded@.len() - m0) as nat,
                        |i: int| 0u8,
                    ),
                    m0 == rem.len() + 1,
                decreases 16 - padded@.len(),
            {
                padded.push(0u8);
                assert(padded@ =~= rem + seq![0x80u8] + Seq::new(
                    (padded@.len() - m0) as nat,
                    |i: int| 0u8,
                ));
            }
            assert(padded@ =~= rem + seq![0x80u8] + Seq::new((15 - rem.len()) as nat, |i: int| 0u8));
            xor_bytes(padded.as_slice(), k2.as_slice())
        };
        let masked = xor_bytes(last.as_slice(), chain.as_slice());
        let tag = aes_enc_block(self.key.as_slice(), masked.as_slice());
        let mac = slice_to_vec_bytes(slice_subrange(tag.as_slice(), 0, self.mac_len));
        proof {
            assert(prefix@ =~= data@.take(16 * nf));
            assert(mac@ =~= spec_cmac(self.key@, data@, self.mac_len as int));
        }
        mac
    }

    /// One-shot verification; any outcome finalizes the operation.
    pub fn verify(&mut self, data: &[u8], signature: &[u8]) -> (r: KResult<()>)
        requires
            old(self).wf(),
        ensures
            final(self).wf(),
            final(self).finalized,
            old(self).finalized ==> r == Err::<(), KError>(
                KError::RvError(CKR_OPERATION_NOT_INITIALIZED),
            ),
            !old(self).finalized ==> r == (
            if signature@.len() != old(self).mac_len {
                Err::<(), KError>(KError::RvError(CKR_SIGNATURE_LEN_RANGE))
            } else if signature@ == spec_mac_value(
                old(self).mech,
                old(self).key@,
                data@,
                old(self).mac_len as int,
            ) {
                Ok::<(), KError>(())
            } else {
                Err::<(), KError>(KError::RvError(CKR_SIGNATURE_INVALID))
            }),
    {
        if self.finalized {
            return Err(KError::RvError(CKR_OPERATION_NOT_INITIALIZED));
        }
        if signature.len() != self.mac_len {
            self.finalized = true;
            return Err(KError::RvError(CKR_SIGNATURE_LEN_RANGE));
        }
        let mac = self.sign(data)?;
        if eq_bytes(mac.as_slice(), signature) {
            Ok(())
        } else {
            Err(KError::RvError(CKR_SIGNATURE_INVALID))
        }
    }
}

/// The MAC a mechanism computes: CMAC for the CMAC pair, the legacy
/// CBC-MAC otherwise.
pub open spec fn spec_mac_value(mech: u64, key: Seq<u8>, data: Seq<u8>, mac_len: int) -> Seq<u8> {
    if mech == CKM_AES_CMAC || mech == CKM_AES_CMAC_GENERAL {
        spec_cmac(key, data, mac_len)
    } else {
        spec_cbc_mac(key, data, mac_len)
    }
}

/// The MAC mechanisms, plain and general forms.
pub open spec fn spec_mac_mech(m: u64) -> bool {
    m == CKM_AES_MAC || m == CKM_AES_MAC_GENERAL || m == CKM_AES_CMAC || m
        == CKM_AES_CMAC_GENERAL
}

/// What a MAC-operation constructor returns.
pub open spec fn spec_mac_init_result(
    m: CkMechView,
    attrs: Seq<AttrView>,
    r: KResult<AesMacOperation>,
) -> bool {
    if !spec_mac_mech(m.mechanism) {
        r == Err::<AesMacOperation, KError>(KError::RvError(CKR_MECHANISM_INVALID))
    } else if !(if m.mechanism == CKM_AES_MAC || m.mechanism == CKM_AES_CMAC {
        m.params is Empty
    } else {
        m.params matches MechParamsView::MacGeneral(n) && 0 < n <= 16
    }) {
        r == Err::<AesMacOperation, KError>(KError::RvError(CKR_MECHANISM_PARAM_INVALID))
    } else {
        match spec_get_attr_as_bytes(attrs, CKA_VALUE) {
            Err(_) => r == Err::<AesMacOperation, KError>(KError::RvError(CKR_GENERAL_ERROR)),
            Ok(v) => if !spec_aes_key_len_ok(v.len() as int) {
                r == Err::<AesMacOperation, KError>(KError::RvError(CKR_KEY_SIZE_RANGE))
            } else {
                r matches Ok(op) && op.wf() && op.mech == m.mechanism && op.key@ == v
                    && !op.finalized && op.mac_len as int == (if m.mechanism == CKM_AES_MAC {
                    8int
                } else if m.mechanism == CKM_AES_CMAC {
                    16int
                } else {
                    m.params->MacGeneral_0 as int
                })
            },
        }
    }
}

/// The descriptor of the legacy MAC mechanisms.
pub open spec fn spec_aes_mac_mechanism() -> AesMechanism {
    AesMechanism {
        info: MechanismInfo { min_key_size: 16, max_key_size: 32, flags: CKF_SIGN | CKF_VERIFY },
    }
}

/* the AES mechanism descriptor */

/// The descriptor installed for each AES mechanism id: its capability
/// summary, and the constructors of the operations it supports.
#[derive(Debug, Clone, Copy, PartialEq, Eq, Structural)]
pub struct AesMechanism {
    pub info: MechanismInfo,
}

/// No schema entry that carries a default names the class, key-type or
/// value-length id: those always come from the template or the factory.
proof fn lemma_aes_schema_defval_ids(k: int)
    requires
        0 <= k < spec_aes_key_schema().len(),
        spec_aes_key_schema()[k].flags & OAF_DEFVAL != 0,
    ensures
        spec_aes_key_schema()[k].attr.id != CKA_CLASS,
        spec_aes_key_schema()[k].attr.id != CKA_KEY_TYPE,
        spec_aes_key_schema()[k].attr.id != CKA_VALUE_LEN,
{
    let sch = spec_aes_key_schema();
    assert((4u64 & 1u64) == 0u64) by (bit_vector);
    assert((0u64 & 1u64) == 0u64) by (bit_vector);
    assert((0x40u64 & 1u64) == 0u64) by (bit_vector);
    assert((8u64 & 1u64) == 0u64) by (bit_vector);
    if k == 0 {
        assert(sch[0].flags == OAF_REQUIRED_ON_CREATE);
    } else if k == 1 {
        assert(sch[1].attr.id == CKA_TOKEN);
    } else if k == 2 {
        assert(sch[2].attr.id == CKA_PRIVATE);
    } else if k == 3 {
        assert(sch[3].attr.id == CKA_MODIFIABLE);
    } else if k == 4 {
        assert(sch[4].flags == 0);
    } else if k == 5 {
        assert(sch[5].attr.id == CKA_COPYABLE);
    } else if k == 6 {
        assert(sch[6].attr.id == CKA_DESTROYABLE);
    } else if k == 7 {
        assert(sch[7].flags == OAF_REQUIRED_ON_CREATE);
    } else if k == 8 {
        assert(sch[8].flags == OAF_REQUIRED_ON_CREATE);
    } else if k == 9 {
        assert(sch[9].flags == 0);
    } else if k == 10 {
        assert(sch[10].attr.id == CKA_DERIVE);
    } else if k == 11 {
        assert(sch[11].attr.id == CKA_LOCAL);
    } else if k == 12 {
        assert(sch[12].flags == OAF_UNCHANGEABLE);
    } else if k == 13 {
        assert(sch[13].attr.id == CKA_SENSITIVE);
    } else if k == 14 {
        assert(sch[14].attr.id == CKA_ENCRYPT);
    } else if k == 15 {
        assert(sch[15].attr.id == CKA_DECRYPT);
    } else if k == 16 {
        assert(sch[16].attr.id == CKA_SIGN);
    } else if k == 17 {
        assert(sch[17].attr.id == CKA_VERIFY);
    } else if k == 18 {
        assert(sch[18].attr.id == CKA_WRAP);
    } else if k == 19 {
        assert(sch[19].attr.id == CKA_UNWRAP);
    } else if k == 20 {
        assert(sch[20].attr.id == CKA_EXTRACTABLE);
    } else if k == 21 {
        assert(sch[21].flags == OAF_UNCHANGEABLE);
    } else if k == 22 {
        assert(sch[22].flags == OAF_UNCHANGEABLE);
    } else if k == 23 {
        assert(sch[23].attr.id == CKA_VALUE);
    } else {
        assert(k == 24);
        assert(sch[24].flags == OAF_REQUIRED_ON_GENERATE);
    }
}

/// The gates of key generation that do not depend on the drawn unique
/// id: the right mechanism, a registered AES factory, and a template
/// that decodes.
pub open spec fn spec_keygen_ready(
    m: CkMechView,
    entries: Seq<CkAttrView>,
    factories: ObjectFactories,
) -> bool {
    &&& m.mechanism == CKM_AES_KEY_GEN
    &&& factories.spec_get(ObjectType { class: CKO_SECRET_KEY, key_type: CKK_AES }) is Some
    &&& spec_decode_entries(entries) is Ok
}

/// The template passes the AES schema with the generate-time
/// requirements, whatever unique id is drawn.
pub open spec fn spec_keygen_template_ok(entries: Seq<CkAttrView>) -> bool {
    &&& spec_decode_entries(entries) is Ok
    &&& (forall|uv: AttrView|
        uv.id == CKA_UNIQUE_ID ==> #[trigger] spec_check_rc(
            seq![uv] + spec_decode_entries(entries)->Ok_0,
            spec_aes_key_schema(),
            OAF_REQUIRED_ON_GENERATE,
        ) == CKR_OK)
}

/// The template's `CLASS`, where it names one, is the secret-key class.
pub open spec fn spec_tpl_class_ok(entries: Seq<CkAttrView>) -> bool {
    spec_template_ulong(entries, CKA_CLASS) == Ok::<Option<u64>, KError>(None)
        || spec_template_ulong(entries, CKA_CLASS) == Ok::<Option<u64>, KError>(
        Some(CKO_SECRET_KEY),
    )
}

/// The template's `KEY_TYPE`, where it names one, is the AES type.
pub open spec fn spec_tpl_keytype_ok(entries: Seq<CkAttrView>) -> bool {
    spec_template_ulong(entries, CKA_KEY_TYPE) == Ok::<Option<u64>, KError>(None)
        || spec_template_ulong(entries, CKA_KEY_TYPE) == Ok::<Option<u64>, KError>(
        Some(CKK_AES),
    )
}

impl AesMechanism {
    pub fn new(min_key_size: u64, max_key_size: u64, flags: u64) -> (r: AesMechanism)
        ensures
            r == (AesMechanism {
                info: MechanismInfo { min_key_size, max_key_size, flags },
            }),
    {
        AesMechanism { info: MechanismInfo { min_key_size, max_key_size, flags } }
    }

    pub fn info(&self) -> (r: &MechanismInfo)
        ensures
            *r == self.info,
    {
        &self.info
    }

    /// An encryption operation, where the descriptor allows encryption
    /// and the key is an AES secret key permitted to encrypt.
    pub fn encryption_new(&self, mech: &CkMechanism, key: &Object) -> (r: KResult<AesOperation>)
        ensures
            self.info.flags & CKF_ENCRYPT == 0 ==> r == Err::<AesOperation, KError>(
                KError::RvError(CKR_MECHANISM_INVALID),
            ),
            self.info.flags & CKF_ENCRYPT != 0 && !spec_key_ops_ok(
                key@.attrs,
                CKO_SECRET_KEY,
                CKK_AES,
                CKA_ENCRYPT,
            ) ==> r == Err::<AesOperation, KError>(
                KError::RvError(CKR_KEY_FUNCTION_NOT_PERMITTED),
            ),
            self.info.flags & CKF_ENCRYPT != 0 && spec_key_ops_ok(
                key@.attrs,
                CKO_SECRET_KEY,
                CKK_AES,
                CKA_ENCRYPT,
            ) ==> spec_new_op_result(mech@, key@.attrs, r),
    {
        if self.info.flags & CKF_ENCRYPT == 0 {
            return Err(KError::RvError(CKR_MECHANISM_INVALID));
        }
        if let Err(e) = key.check_key_ops(CKO_SECRET_KEY, CKK_AES, CKA_ENCRYPT) {
            return Err(e);
        }
        AesOperation::encrypt_new(mech, key)
    }

    /// A decryption operation, gated like `encryption_new`.
    pub fn decryption_new(&self, mech: &CkMechanism, key: &Object) -> (r: KResult<AesOperation>)
        ensures
            self.info.flags & CKF_DECRYPT == 0 ==> r == Err::<AesOperation, KError>(
                KError::RvError(CKR_MECHANISM_INVALID),
            ),
            self.info.flags & CKF_DECRYPT != 0 && !spec_key_ops_ok(
                key@.attrs,
                CKO_SECRET_KEY,
                CKK_AES,
                CKA_DECRYPT,
            ) ==> r == Err::<AesOperation, KError>(
                KError::RvError(CKR_KEY_FUNCTION_NOT_PERMITTED),
            ),
            self.info.flags & CKF_DECRYPT != 0 && spec_key_ops_ok(
                key@.attrs,
                CKO_SECRET_KEY,
                CKK_AES,
                CKA_DECRYPT,
            ) ==> spec_new_op_result(mech@, key@.attrs, r),
    {
        if self.info.flags & CKF_DECRYPT == 0 {
            return Err(KError::RvError(CKR_MECHANISM_INVALID));
        }
        if let Err(e) = key.check_key_ops(CKO_SECRET_KEY, CKK_AES, CKA_DECRYPT) {
            return Err(e);
        }
        AesOperation::decrypt_new(mech, key)
    }

    /// Generate an AES secret key of the template's `VALUE_LEN` through
    /// the registered AES factory.
    pub fn generate_key(
        &self,
        mech: &CkMechanism,
        template: &[CkAttribute],
        _mechanisms: &Mechanisms,
        factories: &ObjectFactories,
    ) -> (r: KResult<Object>)
        requires
            factories.wf(),
        ensures
            mech@.mechanism != CKM_AES_KEY_GEN ==> r == Err::<Object, KError>(
                KError::RvError(CKR_MECHANISM_INVALID),
            ),
            r matches Ok(k) ==> {
                &&& spec_aes_key_valid(k@.attrs)
                &&& spec_get_attr_as_ulong(k@.attrs, CKA_CLASS) == Ok::<u64, KError>(
                    CKO_SECRET_KEY,
                )
                &&& spec_get_attr_as_ulong(k@.attrs, CKA_KEY_TYPE) == Ok::<u64, KError>(CKK_AES)
                &&& spec_bool_attr(k@.attrs, CKA_LOCAL, false)
                &&& spec_get_attr_as_ulong(k@.attrs, CKA_KEY_GEN_MECHANISM) == Ok::<u64, KError>(
                    CKM_AES_KEY_GEN,
                )
            },
            ({
                let entries = template@.map_values(|e: CkAttribute| e@);
                let gen_err = Err::<Object, KError>(KError::RvError(CKR_GENERAL_ERROR));
                &&& ((spec_keygen_ready(mech@, entries, *factories) && spec_keygen_template_ok(
                    entries,
                ) && (spec_template_ulong(entries, CKA_CLASS) matches Ok(Some(c)) && c
                    != CKO_SECRET_KEY)) ==> (r == Err::<Object, KError>(
                    KError::RvError(CKR_TEMPLATE_INCONSISTENT),
                ) || r == gen_err))
                &&& ((spec_keygen_ready(mech@, entries, *factories) && spec_keygen_template_ok(
                    entries,
                ) && spec_tpl_class_ok(entries) && (spec_template_ulong(entries, CKA_KEY_TYPE)
                    matches Ok(Some(t)) && t != CKK_AES)) ==> (r == Err::<Object, KError>(
                    KError::RvError(CKR_TEMPLATE_INCONSISTENT),
                ) || r == gen_err))
                &&& ((spec_keygen_ready(mech@, entries, *factories) && (forall|uv: AttrView|
                    uv.id == CKA_UNIQUE_ID ==> #[trigger] spec_check_rc(
                        seq![uv] + spec_decode_entries(entries)->Ok_0,
                        spec_aes_key_schema(),
                        OAF_REQUIRED_ON_GENERATE,
                    ) == CKR_TEMPLATE_INCOMPLETE)) ==> (r == Err::<Object, KError>(
                    KError::RvError(CKR_TEMPLATE_INCOMPLETE),
                ) || r == gen_err))
                &&& ((spec_keygen_ready(mech@, entries, *factories) && spec_keygen_template_ok(
                    entries,
                ) && spec_tpl_class_ok(entries) && spec_tpl_keytype_ok(entries) && (
                spec_template_ulong(entries, CKA_VALUE_LEN) matches Ok(Some(vl)) && (vl
                    > usize::MAX || !spec_aes_key_len_ok(vl as int)))) ==> (r == Err::<
                    Object,
                    KError,
                >(KError::RvError(CKR_KEY_SIZE_RANGE)) || r == gen_err))
                &&& ((spec_keygen_ready(mech@, entries, *factories) && spec_keygen_template_ok(
                    entries,
                ) && spec_tpl_class_ok(entries) && spec_tpl_keytype_ok(entries) && (
                spec_template_ulong(entries, CKA_VALUE_LEN) matches Ok(Some(vl)) && vl
                    <= usize::MAX && spec_aes_key_len_ok(vl as int))) ==> (r == gen_err || (
                r matches Ok(k) && spec_get_attr_as_ulong(k@.attrs, CKA_VALUE_LEN) == Ok::<
                    u64,
                    KError,
                >(spec_template_ulong(entries, CKA_VALUE_LEN)->Ok_0->Some_0))))
            }),
    {
        let ghost entries = template@.map_values(|e: CkAttribute| e@);
        if mech.mechanism != CKM_AES_KEY_GEN {
            return Err(KError::RvError(CKR_MECHANISM_INVALID));
        }
        let factory = match factories.get_factory(
            ObjectType { class: CKO_SECRET_KEY, key_type: CKK_AES },
        ) {
            Ok(f) => f,
            Err(e) => {
                return Err(e);
            },
        };
        let Factory::AesKey(f) = factory;
        let mut key = match f.default_object_generate(template) {
            Ok(k) => k,
            Err(e) => {
                proof {
                    if spec_keygen_ready(mech@, entries, *factories) && e != KError::RvError(
                        CKR_GENERAL_ERROR,
                    ) {
                        let decoded = spec_decode_entries(entries)->Ok_0;
                        let uv = choose|uv: AttrView|
                            uv.id == CKA_UNIQUE_ID && uv.atype == AttrType::StringType
                                && uv.value.len() == 36 && #[trigger] spec_build_result(
                                spec_aes_key_schema(),
                                OAF_REQUIRED_ON_GENERATE,
                                uv,
                                decoded,
                                Err(e),
                            );
                        assert(spec_check_rc(
                            seq![uv] + decoded,
                            spec_aes_key_schema(),
                            OAF_REQUIRED_ON_GENERATE,
                        ) != CKR_OK);
                    }
                }
                return Err(e);
            },
        };
        let ghost key0 = key;
        proof {
            if spec_keygen_ready(mech@, entries, *factories) && spec_keygen_template_ok(entries) {
                let decoded = spec_decode_entries(entries)->Ok_0;
                let uv = choose|uv: AttrView|
                    uv.id == CKA_UNIQUE_ID && uv.atype == AttrType::StringType && uv.value.len()
                        == 36 && #[trigger] spec_build_result(
                        spec_aes_key_schema(),
                        OAF_REQUIRED_ON_GENERATE,
                        uv,
                        decoded,
                        Ok(key0),
                    );
                assert(spec_check_rc(
                    seq![uv] + decoded,
                    spec_aes_key_schema(),
                    OAF_REQUIRED_ON_GENERATE,
                ) == CKR_OK);
                lemma_template_ulong_built(
                    entries,
                    decoded,
                    uv,
                    spec_aes_key_schema(),
                    CKA_CLASS,
                );
                lemma_template_ulong_built(
                    entries,
                    decoded,
                    uv,
                    spec_aes_key_schema(),
                    CKA_KEY_TYPE,
                );
                lemma_template_ulong_built(
                    entries,
                    decoded,
                    uv,
                    spec_aes_key_schema(),
                    CKA_VALUE_LEN,
                );
                let attrs1 = seq![uv] + decoded;
                assert forall|k: int|
                    0 <= k < spec_aes_key_schema().len() && (#[trigger] spec_aes_key_schema()[k]).flags
                        & OAF_DEFVAL != 0 implies spec_aes_key_schema()[k].attr.id != CKA_CLASS
                        && spec_aes_key_schema()[k].attr.id != CKA_KEY_TYPE by {
                    lemma_aes_schema_defval_ids(k);
                }
                lemma_missing_defaults_absent(attrs1, spec_aes_key_schema(), CKA_CLASS);
                lemma_missing_defaults_absent(attrs1, spec_aes_key_schema(), CKA_KEY_TYPE);
            }
        }

        match key.get_attr_as_ulong(CKA_CLASS) {
            Ok(c) => {
                if c != CKO_SECRET_KEY {
                    return Err(KError::RvError(CKR_TEMPLATE_INCONSISTENT));
                }
            },
            Err(KError::NotFound) => {
                set_attr_traced(&mut key, from_ulong(CKA_CLASS, CKO_SECRET_KEY));
            },
            Err(_) => {
                return Err(KError::RvError(CKR_TEMPLATE_INCONSISTENT));
            },
        }
        match key.get_attr_as_ulong(CKA_KEY_TYPE) {
            Ok(t) => {
                if t != CKK_AES {
                    return Err(KError::RvError(CKR_TEMPLATE_INCONSISTENT));
                }
            },
            Err(KError::NotFound) => {
                set_attr_traced(&mut key, from_ulong(CKA_KEY_TYPE, CKK_AES));
            },
            Err(_) => {
                return Err(KError::RvError(CKR_TEMPLATE_INCONSISTENT));
            },
        }
        proof {
            vstd::bytes::lemma_auto_spec_u64_to_from_le_bytes();
        }

        let vl = match key.get_attr_as_ulong(CKA_VALUE_LEN) {
            Ok(vl) => vl,
            Err(_) => {
                return Err(KError::RvError(CKR_TEMPLATE_INCOMPLETE));
            },
        };
        if vl > usize::MAX as u64 {
            return Err(KError::RvError(CKR_KEY_SIZE_RANGE));
        }
        if let Err(e) = check_key_len(vl as usize) {
            return Err(e);
        }
        if let Err(e) = default_secret_key_generate(&mut key) {
            return Err(e);
        }
        if let Err(e) = default_key_attributes(&mut key, CKM_AES_KEY_GEN) {
            return Err(e);
        }
        Ok(key)
    }

    /// Wrap a key: export its plaintext through its factory and encrypt
    /// it once under the wrapping key.
    pub fn wrap_key(
        &self,
        mech: &CkMechanism,
        wrapping_key: &Object,
        key: &Object,
        key_factory: &Factory,
    ) -> (r: KResult<Vec<u8>>)
        ensures
            self.info.flags & CKF_WRAP == 0 ==> r == Err::<Vec<u8>, KError>(
                KError::RvError(CKR_MECHANISM_INVALID),
            ),
            self.info.flags & CKF_WRAP != 0 ==> match spec_get_attr_as_bytes(
                key@.attrs,
                CKA_VALUE,
            ) {
                Ok(kd) => spec_wrap_result(mech@, wrapping_key@.attrs, kd, r),
                Err(e) => r == Err::<Vec<u8>, KError>(e),
            },
    {
        if self.info.flags & CKF_WRAP == 0 {
            return Err(KError::RvError(CKR_MECHANISM_INVALID));
        }
        let Factory::AesKey(f) = key_factory;
        let keydata = match f.export_for_wrapping(key) {
            Ok(d) => d,
            Err(e) => {
                return Err(e);
            },
        };
        AesOperation::wrap(mech, wrapping_key, keydata)
    }

    /// Unwrap a key: decrypt the blob once under the wrapping key and
    /// hand the plaintext to the target factory.
    pub fn unwrap_key(
        &self,
        mech: &CkMechanism,
        wrapping_key: &Object,
        data: &[u8],
        template: &[CkAttribute],
        key_factory: &Factory,
    ) -> (r: KResult<Object>)
        requires
            key_factory.wf(),
        ensures
            spec_unwrap_key_result(
                self.info.flags,
                mech@,
                wrapping_key@.attrs,
                data@,
                template@.map_values(|e: CkAttribute| e@),
                r,
            ),
            r matches Ok(o) ==> spec_aes_key_valid(o@.attrs),
    {
        let ghost entries = template@.map_values(|e: CkAttribute| e@);
        if self.info.flags & CKF_UNWRAP == 0 {
            return Err(KError::RvError(CKR_MECHANISM_INVALID));
        }
        let keydata = match AesOperation::unwrap(mech, wrapping_key, data) {
            Ok(d) => d,
            Err(e) => {
                assert(spec_unwrap_key_result(
                    self.info.flags,
                    mech@,
                    wrapping_key@.attrs,
                    data@,
                    entries,
                    Err(e),
                ));
                return Err(e);
            },
        };
        let Factory::AesKey(f) = key_factory;
        let r = f.import_from_wrapped(keydata, template);
        proof {
            assert(spec_unwrap_key_result(
                self.info.flags,
                mech@,
                wrapping_key@.attrs,
                data@,
                entries,
                r,
            ));
        }
        r
    }

    /// The derive-from-encryption operation for this descriptor: one of
    /// the two encrypt-data mechanisms with its well-formed parameter
    /// block; a wrong mechanism id is `MECHANISM_INVALID`, a malformed
    /// block `MECHANISM_PARAM_INVALID`.
    pub fn derive_operation(&self, mech: &CkMechanism) -> (r: KResult<Operation>)
        ensures
            self.info.flags & CKF_DERIVE == 0 ==> r == Err::<Operation, KError>(
                KError::RvError(CKR_MECHANISM_INVALID),
            ),
            self.info.flags & CKF_DERIVE != 0 ==> ({
                let m = mech@;
                if m.mechanism == CKM_AES_ECB_ENCRYPT_DATA {
                    match m.params {
                        MechParamsView::DerivationStringData(d) => if d.len() == 0 || d.len() % 16
                            != 0 {
                            r == Err::<Operation, KError>(
                                KError::RvError(CKR_MECHANISM_PARAM_INVALID),
                            )
                        } else {
                            r matches Ok(op) && (op matches Operation::Derive(kdf) && kdf.wf()
                                && !kdf.finalized && kdf.prf == CKM_AES_ECB && kdf.data@ == d)
                        },
                        _ => r == Err::<Operation, KError>(
                            KError::RvError(CKR_MECHANISM_PARAM_INVALID),
                        ),
                    }
                } else if m.mechanism == CKM_AES_CBC_ENCRYPT_DATA {
                    match m.params {
                        MechParamsView::AesCbcEncryptData(iv, d) => if iv.len() != 16 || d.len()
                            == 0 || d.len() % 16 != 0 {
                            r == Err::<Operation, KError>(
                                KError::RvError(CKR_MECHANISM_PARAM_INVALID),
                            )
                        } else {
                            r matches Ok(op) && (op matches Operation::Derive(kdf) && kdf.wf()
                                && !kdf.finalized && kdf.prf == CKM_AES_CBC && kdf.iv@ == iv
                                && kdf.data@ == d)
                        },
                        _ => r == Err::<Operation, KError>(
                            KError::RvError(CKR_MECHANISM_PARAM_INVALID),
                        ),
                    }
                } else {
                    r == Err::<Operation, KError>(KError::RvError(CKR_MECHANISM_INVALID))
                }
            }),
            r matches Ok(op) ==> op matches Operation::Derive(kdf) && kdf.wf() && !kdf.finalized,
    {
        if self.info.flags & CKF_DERIVE == 0 {
            return Err(KError::RvError(CKR_MECHANISM_INVALID));
        }
        if mech.mechanism == CKM_AES_ECB_ENCRYPT_DATA {
            match &mech.params {
                CkMechParams::DerivationStringData(d) => {
                    let kdf = AesKDFOperation::aes_ecb_new(clone_bytes(d))?;
                    Ok(Operation::Derive(kdf))
                },
                _ => Err(KError::RvError(CKR_MECHANISM_PARAM_INVALID)),
            }
        } else if mech.mechanism == CKM_AES_CBC_ENCRYPT_DATA {
            match &mech.params {
                CkMechParams::AesCbcEncryptData(iv, d) => {
                    let kdf = AesKDFOperation::aes_cbc_new(clone_bytes(iv), clone_bytes(d))?;
                    Ok(Operation::Derive(kdf))
                },
                _ => Err(KError::RvError(CKR_MECHANISM_PARAM_INVALID)),
            }
        } else {
            Err(KError::RvError(CKR_MECHANISM_INVALID))
        }
    }

    /// A signature operation, for the MAC mechanisms.
    pub fn sign_new(&self, mech: &CkMechanism, key: &Object) -> (r: KResult<AesMacOperation>)
        ensures
            self.info.flags & CKF_SIGN == 0 ==> r == Err::<AesMacOperation, KError>(
                KError::RvError(CKR_MECHANISM_INVALID),
            ),
            self.info.flags & CKF_SIGN != 0 && !spec_key_ops_ok(
                key@.attrs,
                CKO_SECRET_KEY,
                CKK_AES,
                CKA_SIGN,
            ) ==> r == Err::<AesMacOperation, KError>(
                KError::RvError(CKR_KEY_FUNCTION_NOT_PERMITTED),
            ),
            self.info.flags & CKF_SIGN != 0 && spec_key_ops_ok(
                key@.attrs,
                CKO_SECRET_KEY,
                CKK_AES,
                CKA_SIGN,
            ) ==> spec_mac_init_result(mech@, key@.attrs, r),
    {
        if self.info.flags & CKF_SIGN == 0 {
            return Err(KError::RvError(CKR_MECHANISM_INVALID));
        }
        if let Err(e) = key.check_key_ops(CKO_SECRET_KEY, CKK_AES, CKA_SIGN) {
            return Err(e);
        }
        AesMacOperation::init(mech, key)
    }

    /// A verification operation, for the MAC mechanisms.
    pub fn verify_new(&self, mech: &CkMechanism, key: &Object) -> (r: KResult<AesMacOperation>)
        ensures
            self.info.flags & CKF_VERIFY == 0 ==> r == Err::<AesMacOperation, KError>(
                KError::RvError(CKR_MECHANISM_INVALID),
            ),
            self.info.flags & CKF_VERIFY != 0 && !spec_key_ops_ok(
                key@.attrs,
                CKO_SECRET_KEY,
                CKK_AES,
                CKA_VERIFY,
            ) ==> r == Err::<AesMacOperation, KError>(
                KError::RvError(CKR_KEY_FUNCTION_NOT_PERMITTED),
            ),
            self.info.flags & CKF_VERIFY != 0 && spec_key_ops_ok(
                key@.attrs,
                CKO_SECRET_KEY,
                CKK_AES,
                CKA_VERIFY,
            ) ==> spec_mac_init_result(mech@, key@.attrs, r),
    {
        if self.info.flags & CKF_VERIFY == 0 {
            return Err(KError::RvError(CKR_MECHANISM_INVALID));
        }
        if let Err(e) = key.check_key_ops(CKO_SECRET_KEY, CKK_AES, CKA_VERIFY) {
            return Err(e);
        }
        AesMacOperation::init(mech, key)
    }

}

impl AesOperation {
    /// Install the cipher and key-generation mechanisms.
    pub fn register_mechanisms(mechs: &mut Mechanisms)
        ensures
            final(mechs).entries@ == old(mechs).entries@.push(
                (CKM_AES_ECB, spec_aes_cipher_mechanism()),
            ).push((CKM_AES_CBC, spec_aes_cipher_mechanism())).push(
                (CKM_AES_CBC_PAD, spec_aes_cipher_mechanism()),
            ).push((CKM_AES_KEY_GEN, spec_aes_keygen_mechanism())),
    {
        mechs.add_mechanism(
            CKM_AES_ECB,
            AesMechanism {
                info: MechanismInfo {
                    min_key_size: 16,
                    max_key_size: 32,
                    flags: CKF_ENCRYPT | CKF_DECRYPT | CKF_WRAP | CKF_UNWRAP,
                },
            },
        );
        mechs.add_mechanism(
            CKM_AES_CBC,
            AesMechanism {
                info: MechanismInfo {
                    min_key_size: 16,
                    max_key_size: 32,
                    flags: CKF_ENCRYPT | CKF_DECRYPT | CKF_WRAP | CKF_UNWRAP,
                },
            },
        );
        mechs.add_mechanism(
            CKM_AES_CBC_PAD,
            AesMechanism {
                info: MechanismInfo {
                    min_key_size: 16,
                    max_key_size: 32,
                    flags: CKF_ENCRYPT | CKF_DECRYPT | CKF_WRAP | CKF_UNWRAP,
                },
            },
        );
        mechs.add_mechanism(
            CKM_AES_KEY_GEN,
            AesMechanism {
                info: MechanismInfo { min_key_size: 16, max_key_size: 32, flags: CKF_GENERATE },
            },
        );
    }
}

/// The descriptor of the AES cipher mechanisms.
pub open spec fn spec_aes_cipher_mechanism() -> AesMechanism {
    AesMechanism {
        info: MechanismInfo {
            min_key_size: 16,
            max_key_size: 32,
            flags: CKF_ENCRYPT | CKF_DECRYPT | CKF_WRAP | CKF_UNWRAP,
        },
    }
}

/// The descriptor of the AES key-generation mechanism.
pub open spec fn spec_aes_keygen_mechanism() -> AesMechanism {
    AesMechanism {
        info: MechanismInfo { min_key_size: 16, max_key_size: 32, flags: CKF_GENERATE },
    }
}

/// Install the AES family: its mechanisms and its key factory, into
/// fresh registries.
pub fn register(mechs: &mut Mechanisms, ot: &mut ObjectFactories)
    requires
        old(mechs).entries@.len() == 0,
        old(ot).entries@.len() == 0,
        old(ot).wf(),
    ensures
        final(mechs).entries@ == seq![
            (CKM_AES_ECB, spec_aes_cipher_mechanism()),
            (CKM_AES_CBC, spec_aes_cipher_mechanism()),
            (CKM_AES_CBC_PAD, spec_aes_cipher_mechanism()),
            (CKM_AES_KEY_GEN, spec_aes_keygen_mechanism()),
            (CKM_AES_ECB_ENCRYPT_DATA, spec_aes_derive_mechanism()),
            (CKM_AES_CBC_ENCRYPT_DATA, spec_aes_derive_mechanism()),
            (CKM_AES_CMAC, spec_aes_mac_mechanism()),
            (CKM_AES_CMAC_GENERAL, spec_aes_mac_mechanism()),
            (CKM_AES_MAC, spec_aes_mac_mechanism()),
            (CKM_AES_MAC_GENERAL, spec_aes_mac_mechanism()),
        ],
        final(ot).wf(),
        final(ot).entries@.len() == 1,
        final(ot).entries@[0].0 == (ObjectType { class: CKO_SECRET_KEY, key_type: CKK_AES }),
        final(ot).entries@[0].1.wf(),
{
    AesOperation::register_mechanisms(mechs);
    proof {
        let s = mechs.entries@;
        assert(s =~= seq![
            (CKM_AES_ECB, spec_aes_cipher_mechanism()),
            (CKM_AES_CBC, spec_aes_cipher_mechanism()),
            (CKM_AES_CBC_PAD, spec_aes_cipher_mechanism()),
            (CKM_AES_KEY_GEN, spec_aes_keygen_mechanism()),
        ]);
        assert(s[0].0 == CKM_AES_ECB);
        assert(spec_assoc_find(s, CKM_AES_ECB) == Some(spec_aes_cipher_mechanism()));
        assert(s.skip(1) =~= seq![
            (CKM_AES_CBC, spec_aes_cipher_mechanism()),
            (CKM_AES_CBC_PAD, spec_aes_cipher_mechanism()),
            (CKM_AES_KEY_GEN, spec_aes_keygen_mechanism()),
        ]);
        assert(spec_assoc_find(s.skip(1), CKM_AES_CBC) == Some(spec_aes_cipher_mechanism()));
        assert(spec_assoc_find(s, CKM_AES_CBC) == Some(spec_aes_cipher_mechanism()));
    }
    AesKDFOperation::register_mechanisms(mechs);
    AesMacOperation::register_mechanisms(mechs);
    proof {
        assert(mechs.entries@ =~= seq![
            (CKM_AES_ECB, spec_aes_cipher_mechanism()),
            (CKM_AES_CBC, spec_aes_cipher_mechanism()),
            (CKM_AES_CBC_PAD, spec_aes_cipher_mechanism()),
            (CKM_AES_KEY_GEN, spec_aes_keygen_mechanism()),
            (CKM_AES_ECB_ENCRYPT_DATA, spec_aes_derive_mechanism()),
            (CKM_AES_CBC_ENCRYPT_DATA, spec_aes_derive_mechanism()),
            (CKM_AES_CMAC, spec_aes_mac_mechanism()),
            (CKM_AES_CMAC_GENERAL, spec_aes_mac_mechanism()),
            (CKM_AES_MAC, spec_aes_mac_mechanism()),
            (CKM_AES_MAC_GENERAL, spec_aes_mac_mechanism()),
        ]);
    }
    ot.add_factory(
        ObjectType { class: CKO_SECRET_KEY, key_type: CKK_AES },
        Factory::AesKey(AesKeyFactory::new()),
    );
}

/// Law: wrap then unwrap is the identity on the wrapped key material.
/// A blob that `wrap` produced under a wrapping key comes back from
/// `unwrap`, under the same key and mechanism, as the very bytes that
/// were wrapped.
pub proof fn lemma_wrap_unwrap_round_trip(
    m: CkMechView,
    attrs: Seq<AttrView>,
    kd: Seq<u8>,
    c: Vec<u8>,
    r: KResult<Vec<u8>>,
)
    requires
        spec_wrap_result(m, attrs, kd, Ok(c)),
        spec_unwrap_result(m, attrs, c@, r),
    ensures
        r matches Ok(p) && p@ == kd,
{
    if m.mechanism == CKM_AES_CBC_PAD {
        lemma_pkcs7_round_trip(kd);
    }
}

/// What `unwrap_key` returns: the unwrap gates, then the blob's
/// decryption handed to the AES import (which installs the kept bytes
/// as the new key's `VALUE`).  A failing random source while the new
/// unique id is drawn reports `GENERAL_ERROR`.
pub open spec fn spec_unwrap_key_result(
    flags: u64,
    m: CkMechView,
    wattrs: Seq<AttrView>,
    data: Seq<u8>,
    entries: Seq<CkAttrView>,
    r: KResult<Object>,
) -> bool {
    if flags & CKF_UNWRAP == 0 {
        r == Err::<Object, KError>(KError::RvError(CKR_MECHANISM_INVALID))
    } else if !spec_cipher_mech(m.mechanism) {
        r == Err::<Object, KError>(KError::RvError(CKR_MECHANISM_INVALID))
    } else if !spec_mech_params_ok(m) {
        r == Err::<Object, KError>(KError::RvError(CKR_MECHANISM_PARAM_INVALID))
    } else {
        match spec_get_attr_as_bytes(wattrs, CKA_VALUE) {
            Err(_) => r == Err::<Object, KError>(KError::RvError(CKR_GENERAL_ERROR)),
            Ok(v) => if !spec_aes_key_len_ok(v.len() as int) {
                r == Err::<Object, KError>(KError::RvError(CKR_KEY_SIZE_RANGE))
            } else {
                match spec_decrypt_value(m.mechanism, v, spec_mech_iv(m), data) {
                    Err(e) => r == Err::<Object, KError>(e),
                    Ok(p) => r == Err::<Object, KError>(KError::RvError(CKR_GENERAL_ERROR))
                        || spec_import_wrapped_result(p, entries, r),
                }
            },
        }
    }
}

/// Law: wrap then unwrap restores the key bytes at the mechanism level.
/// A blob `wrap_key` produced from a key's material comes back from
/// `unwrap_key`, under the same mechanism and wrapping key, as a key
/// carrying exactly that material, whenever the unwrap template asks no
/// `VALUE_LEN` or exactly the material's length.
pub proof fn lemma_wrap_unwrap_key_round_trip(
    flags: u64,
    m: CkMechView,
    wattrs: Seq<AttrView>,
    kd: Seq<u8>,
    c: Vec<u8>,
    entries: Seq<CkAttrView>,
    r: KResult<Object>,
)
    requires
        flags & CKF_UNWRAP != 0,
        spec_wrap_result(m, wattrs, kd, Ok(c)),
        spec_unwrap_key_result(flags, m, wattrs, c@, entries, r),
        spec_aes_key_len_ok(kd.len() as int),
        spec_template_ulong(entries, CKA_VALUE_LEN) == Ok::<Option<u64>, KError>(None)
            || spec_template_ulong(entries, CKA_VALUE_LEN) == Ok::<Option<u64>, KError>(
            Some(kd.len() as u64),
        ),
    ensures
        r matches Ok(o) ==> spec_get_attr_as_bytes(o@.attrs, CKA_VALUE) == Ok::<Seq<u8>, KError>(
            kd,
        ),
{
    if m.mechanism == CKM_AES_CBC_PAD {
        lemma_pkcs7_round_trip(kd);
    }
    if r is Ok {
        let v = spec_get_attr_as_bytes(wattrs, CKA_VALUE)->Ok_0;
        assert(spec_decrypt_value(m.mechanism, v, spec_mech_iv(m), c@) == Ok::<Seq<u8>, KError>(
            kd,
        ));
        assert(spec_import_wrapped_result(kd, entries, r));
        let keep: int = match spec_template_ulong(entries, CKA_VALUE_LEN)->Ok_0 {
            Some(vl) => vl as int,
            None => kd.len() as int,
        };
        assert(keep == spec_keep_len(
            spec_template_ulong(entries, CKA_VALUE_LEN)->Ok_0,
            kd.len() as int,
        ));
        assert(kd.take(keep) =~= kd);
        match spec_decode_entries(entries) {
            Ok(decoded) => {
                assert(spec_import_decoded(kd, keep, decoded, r));
                let uv = choose|uv: AttrView|
                    uv.id == CKA_UNIQUE_ID && uv.atype == AttrType::StringType && uv.value.len()
                        == 36 && #[trigger] spec_import_wrapped_build(
                        uv,
                        decoded,
                        kd.take(keep),
                        r,
                    );
                assert(spec_get_attr_as_bytes(r->Ok_0@.attrs, CKA_VALUE) == Ok::<
                    Seq<u8>,
                    KError,
                >(kd.take(keep)));
            },
            Err(_) => {},
        }
    }
}

/// What `unwrap` returns: the decryption of the blob.
pub open spec fn spec_unwrap_result(
    m: CkMechView,
    attrs: Seq<AttrView>,
    data: Seq<u8>,
    r: KResult<Vec<u8>>,
) -> bool {
    if !spec_cipher_mech(m.mechanism) {
        r == Err::<Vec<u8>, KError>(KError::RvError(CKR_MECHANISM_INVALID))
    } else if !spec_mech_params_ok(m) {
        r == Err::<Vec<u8>, KError>(KError::RvError(CKR_MECHANISM_PARAM_INVALID))
    } else {
        match spec_get_attr_as_bytes(attrs, CKA_VALUE) {
            Err(_) => r == Err::<Vec<u8>, KError>(KError::RvError(CKR_GENERAL_ERROR)),
            Ok(v) => if !spec_aes_key_len_ok(v.len() as int) {
                r == Err::<Vec<u8>, KError>(KError::RvError(CKR_KEY_SIZE_RANGE))
            } else {
                spec_decrypt_result(m.mechanism, v, spec_mech_iv(m), data, r)
            },
        }
    }
}

} // verus!
