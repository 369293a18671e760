//! The AES family: cipher modes against published vectors, key
//! generation, wrap/unwrap, derivation and the operation state machine.

use softtoken::aes::{
    check_key_len, AesKDFOperation, AesKeyFactory, AesOperation,
};
use softtoken::attribute::{from_bool, from_bytes, from_ulong};
use softtoken::error::KError;
use softtoken::interface::{
    CkAttribute, CkMechParams, CkMechanism, CKA_CLASS, CKA_DECRYPT, CKA_DERIVE, CKA_ENCRYPT,
    CKA_KEY_TYPE, CKA_SIGN, CKA_UNWRAP, CKA_VALUE, CKA_VALUE_LEN, CKA_VERIFY, CKA_WRAP, CKK_AES,
    CKM_AES_CBC, CKM_AES_CBC_ENCRYPT_DATA, CKM_AES_CMAC, CKM_AES_ECB, CKM_AES_ECB_ENCRYPT_DATA,
    CKM_AES_KEY_GEN, CKM_AES_MAC, CKO_SECRET_KEY, CKR_DATA_LEN_RANGE,
    CKR_KEY_FUNCTION_NOT_PERMITTED, CKR_KEY_SIZE_RANGE, CKR_MECHANISM_INVALID,
    CKR_MECHANISM_PARAM_INVALID, CKR_OPERATION_NOT_INITIALIZED, CKR_SIGNATURE_INVALID,
};
use softtoken::mechanism::{Mechanisms, ObjectFactories, Operation};
use softtoken::object::Object;

fn hex(s: &str) -> Vec<u8> {
    let chars: Vec<u8> = s.bytes().collect();
    let mut out = Vec::new();
    let mut i = 0;
    while i + 1 < chars.len() {
        let hi = (chars[i] as char).to_digit(16).unwrap() as u8;
        let lo = (chars[i + 1] as char).to_digit(16).unwrap() as u8;
        out.push(hi * 16 + lo);
        i += 2;
    }
    out
}

fn ulong_bytes(v: u64) -> Vec<u8> {
    v.to_le_bytes().to_vec()
}

fn entry(id: u64, value: Vec<u8>) -> CkAttribute {
    let len = value.len() as u64;
    CkAttribute { id, value: Some(value), len }
}

fn aes_key(value: Vec<u8>, ops: &[u64]) -> Object {
    let mut o = Object::new(1);
    o.set_attr(from_ulong(CKA_CLASS, CKO_SECRET_KEY)).unwrap();
    o.set_attr(from_ulong(CKA_KEY_TYPE, CKK_AES)).unwrap();
    for op in ops {
        o.set_attr(from_bool(*op, true)).unwrap();
    }
    o.set_attr(from_bytes(CKA_VALUE, value)).unwrap();
    o
}

fn ecb_mech() -> CkMechanism {
    CkMechanism { mechanism: CKM_AES_ECB, params: CkMechParams::Empty }
}

fn registries() -> (Mechanisms, ObjectFactories) {
    let mut mechs = Mechanisms::new();
    let mut factories = ObjectFactories::new();
    softtoken::aes::register(&mut mechs, &mut factories);
    (mechs, factories)
}

#[test]
fn key_length_rule() {
    assert!(check_key_len(16).is_ok());
    assert!(check_key_len(24).is_ok());
    assert!(check_key_len(32).is_ok());
    assert_eq!(
        check_key_len(20).unwrap_err(),
        KError::RvError(CKR_KEY_SIZE_RANGE)
    );
}

#[test]
fn ecb_known_answer() {
    // FIPS-197 appendix C.1
    let key = aes_key(hex("000102030405060708090a0b0c0d0e0f"), &[CKA_ENCRYPT, CKA_DECRYPT]);
    let mut op = AesOperation::encrypt_new(&ecb_mech(), &key).unwrap();
    let data = hex("00112233445566778899aabbccddeeff");
    let c = op.encrypt(&data).unwrap();
    assert_eq!(c, hex("69c4e0d86a7b0430d8cdb78070b4c55a"));

    let mut dop = AesOperation::decrypt_new(&ecb_mech(), &key).unwrap();
    assert_eq!(dop.decrypt(&c).unwrap(), data);
}

#[test]
fn cbc_known_answer() {
    // SP 800-38A, F.2.1, first block
    let key = aes_key(hex("2b7e151628aed2a6abf7158809cf4f3c"), &[CKA_ENCRYPT, CKA_DECRYPT]);
    let mech = CkMechanism {
        mechanism: CKM_AES_CBC,
        params: CkMechParams::Iv(hex("000102030405060708090a0b0c0d0e0f")),
    };
    let data = hex("6bc1bee22e409f96e93d7e117393172a");
    let mut op = AesOperation::encrypt_new(&mech, &key).unwrap();
    let c = op.encrypt(&data).unwrap();
    assert_eq!(c, hex("7649abac8119b246cee98e9b12e9197d"));

    let mut dop = AesOperation::decrypt_new(&mech, &key).unwrap();
    assert_eq!(dop.decrypt(&c).unwrap(), data);
}

#[test]
fn cbc_pad_round_trip_and_rejection() {
    let key = aes_key(hex("2b7e151628aed2a6abf7158809cf4f3c"), &[CKA_ENCRYPT, CKA_DECRYPT]);
    let mech = CkMechanism {
        mechanism: softtoken::interface::CKM_AES_CBC_PAD,
        params: CkMechParams::Iv(hex("000102030405060708090a0b0c0d0e0f")),
    };
    // any length goes in; the pad closes it to whole blocks
    let data = b"seventeen bytes!!".to_vec();
    let mut op = AesOperation::encrypt_new(&mech, &key).unwrap();
    let c = op.encrypt(&data).unwrap();
    assert_eq!(c.len(), 32);
    let mut dop = AesOperation::decrypt_new(&mech, &key).unwrap();
    assert_eq!(dop.decrypt(&c).unwrap(), data);

    // a whole-block input still gains a full padding block
    let block = hex("6bc1bee22e409f96e93d7e117393172a");
    let mut op2 = AesOperation::encrypt_new(&mech, &key).unwrap();
    let c2 = op2.encrypt(&block).unwrap();
    assert_eq!(c2.len(), 32);
    let mut dop2 = AesOperation::decrypt_new(&mech, &key).unwrap();
    assert_eq!(dop2.decrypt(&c2).unwrap(), block);

    // a ciphertext whose plaintext does not end in a pad is refused:
    // encrypt a zero block without padding, then decrypt it padded
    let plain_mech = CkMechanism {
        mechanism: CKM_AES_CBC,
        params: CkMechParams::Iv(hex("000102030405060708090a0b0c0d0e0f")),
    };
    let mut raw = AesOperation::encrypt_new(&plain_mech, &key).unwrap();
    let zeros = raw.encrypt(&[0u8; 16]).unwrap();
    let mut dop3 = AesOperation::decrypt_new(&mech, &key).unwrap();
    assert_eq!(
        dop3.decrypt(&zeros).unwrap_err(),
        KError::RvError(softtoken::interface::CKR_ENCRYPTED_DATA_INVALID)
    );
}

#[test]
fn operation_single_use() {
    let key = aes_key(hex("000102030405060708090a0b0c0d0e0f"), &[CKA_ENCRYPT]);
    let data = hex("00112233445566778899aabbccddeeff");
    let mut op = AesOperation::encrypt_new(&ecb_mech(), &key).unwrap();
    op.encrypt(&data).unwrap();
    // one-shot after completion is refused
    assert_eq!(
        op.encrypt(&data).unwrap_err(),
        KError::RvError(CKR_OPERATION_NOT_INITIALIZED)
    );

    // the multi-part interface: after final, update and final are refused
    let mut op2 = AesOperation::encrypt_new(&ecb_mech(), &key).unwrap();
    assert_eq!(op2.encrypt_update(&data).unwrap(), Vec::<u8>::new());
    let c = op2.encrypt_final().unwrap();
    assert_eq!(c, hex("69c4e0d86a7b0430d8cdb78070b4c55a"));
    assert_eq!(
        op2.encrypt_update(&data).unwrap_err(),
        KError::RvError(CKR_OPERATION_NOT_INITIALIZED)
    );
    assert_eq!(
        op2.encrypt_final().unwrap_err(),
        KError::RvError(CKR_OPERATION_NOT_INITIALIZED)
    );
}

#[test]
fn encrypt_demands_block_alignment() {
    let key = aes_key(hex("000102030405060708090a0b0c0d0e0f"), &[CKA_ENCRYPT]);
    let mut op = AesOperation::encrypt_new(&ecb_mech(), &key).unwrap();
    assert_eq!(
        op.encrypt(&[1, 2, 3]).unwrap_err(),
        KError::RvError(CKR_DATA_LEN_RANGE)
    );
}

#[test]
fn factory_create_validates_key_size() {
    let f = AesKeyFactory::new();
    let good = vec![
        entry(CKA_CLASS, ulong_bytes(CKO_SECRET_KEY)),
        entry(CKA_KEY_TYPE, ulong_bytes(CKK_AES)),
        entry(CKA_VALUE, vec![7; 16]),
    ];
    let obj = f.create(&good).unwrap();
    assert_eq!(obj.get_attr_as_bytes(CKA_VALUE).unwrap().len(), 16);
    // VALUE_LEN was synthesised to match
    assert_eq!(obj.get_attr_as_ulong(CKA_VALUE_LEN).unwrap(), 16);

    let bad = vec![
        entry(CKA_CLASS, ulong_bytes(CKO_SECRET_KEY)),
        entry(CKA_KEY_TYPE, ulong_bytes(CKK_AES)),
        entry(CKA_VALUE, vec![7; 20]),
    ];
    assert_eq!(
        f.create(&bad).unwrap_err(),
        KError::RvError(CKR_KEY_SIZE_RANGE)
    );
}

#[test]
fn generate_key_honours_value_len() {
    let (mechs, factories) = registries();
    let m = mechs.get(CKM_AES_KEY_GEN).unwrap();
    let template = vec![
        entry(CKA_VALUE_LEN, ulong_bytes(32)),
        entry(CKA_WRAP, vec![1]),
    ];
    let mech = CkMechanism { mechanism: CKM_AES_KEY_GEN, params: CkMechParams::Empty };
    let k = m.generate_key(&mech, &template, &mechs, &factories).unwrap();
    assert_eq!(k.get_attr_as_bytes(CKA_VALUE).unwrap().len(), 32);
    assert_eq!(k.get_attr_as_ulong(CKA_VALUE_LEN).unwrap(), 32);
    assert_eq!(k.get_attr_as_ulong(CKA_CLASS).unwrap(), CKO_SECRET_KEY);
    assert_eq!(k.get_attr_as_ulong(CKA_KEY_TYPE).unwrap(), CKK_AES);

    let badlen = vec![entry(CKA_VALUE_LEN, ulong_bytes(10))];
    assert_eq!(
        m.generate_key(&mech, &badlen, &mechs, &factories).unwrap_err(),
        KError::RvError(CKR_KEY_SIZE_RANGE)
    );
}

#[test]
fn wrap_unwrap_round_trip() {
    let (mechs, factories) = registries();
    let keygen = mechs.get(CKM_AES_KEY_GEN).unwrap();
    let mech = CkMechanism { mechanism: CKM_AES_KEY_GEN, params: CkMechParams::Empty };

    // K1: 256-bit wrapping key
    let t1 = vec![
        entry(CKA_VALUE_LEN, ulong_bytes(32)),
        entry(CKA_WRAP, vec![1]),
        entry(CKA_UNWRAP, vec![1]),
    ];
    let k1 = keygen.generate_key(&mech, &t1, &mechs, &factories).unwrap();

    // K2: 128-bit key to be wrapped
    let t2 = vec![entry(CKA_VALUE_LEN, ulong_bytes(16))];
    let k2 = keygen.generate_key(&mech, &t2, &mechs, &factories).unwrap();

    let cipher = mechs.get(CKM_AES_ECB).unwrap();
    let f = factories
        .get_factory(softtoken::mechanism::ObjectType::new(CKO_SECRET_KEY, CKK_AES))
        .unwrap();
    let blob = cipher.wrap_key(&ecb_mech(), &k1, &k2, f).unwrap();
    assert_eq!(blob.len(), 16);
    assert_ne!(blob, *k2.get_attr_as_bytes(CKA_VALUE).unwrap());

    let unwrap_template = vec![
        entry(CKA_CLASS, ulong_bytes(CKO_SECRET_KEY)),
        entry(CKA_KEY_TYPE, ulong_bytes(CKK_AES)),
    ];
    let k2b = cipher.unwrap_key(&ecb_mech(), &k1, &blob, &unwrap_template, f).unwrap();
    assert_eq!(
        k2.get_attr_as_bytes(CKA_VALUE).unwrap(),
        k2b.get_attr_as_bytes(CKA_VALUE).unwrap()
    );
}

#[test]
fn derive_matches_ecb_encryption_of_data() {
    // FIPS-197 appendix C.1: the derived key is the ciphertext
    let base = aes_key(hex("000102030405060708090a0b0c0d0e0f"), &[CKA_DERIVE]);
    let (mechs, factories) = registries();
    let data = hex("00112233445566778899aabbccddeeff");
    let mut kdf = AesKDFOperation::aes_ecb_new(data).unwrap();
    let template = vec![
        entry(CKA_CLASS, ulong_bytes(CKO_SECRET_KEY)),
        entry(CKA_KEY_TYPE, ulong_bytes(CKK_AES)),
        entry(CKA_VALUE_LEN, ulong_bytes(16)),
    ];
    let objs = kdf.derive(&base, &template, &mechs, &factories).unwrap();
    assert_eq!(objs.len(), 1);
    assert_eq!(
        *objs[0].get_attr_as_bytes(CKA_VALUE).unwrap(),
        hex("69c4e0d86a7b0430d8cdb78070b4c55a")
    );
    assert_eq!(objs[0].get_attr_as_ulong(CKA_VALUE_LEN).unwrap(), 16);

    // single use: a second derive is refused
    assert_eq!(
        kdf.derive(&base, &template, &mechs, &factories).unwrap_err(),
        KError::RvError(CKR_OPERATION_NOT_INITIALIZED)
    );
}

#[test]
fn derive_requires_permission_and_lawful_params() {
    let (mechs, factories) = registries();
    // the base key does not allow derivation
    let base = aes_key(hex("000102030405060708090a0b0c0d0e0f"), &[CKA_ENCRYPT]);
    let data = hex("00112233445566778899aabbccddeeff");
    let mut kdf = AesKDFOperation::aes_ecb_new(data).unwrap();
    let template = vec![
        entry(CKA_CLASS, ulong_bytes(CKO_SECRET_KEY)),
        entry(CKA_KEY_TYPE, ulong_bytes(CKK_AES)),
    ];
    assert_eq!(
        kdf.derive(&base, &template, &mechs, &factories).unwrap_err(),
        KError::RvError(CKR_KEY_FUNCTION_NOT_PERMITTED)
    );

    // parameter data must be non-empty and block-aligned
    assert_eq!(
        AesKDFOperation::aes_ecb_new(vec![]).unwrap_err(),
        KError::RvError(CKR_MECHANISM_PARAM_INVALID)
    );
    assert_eq!(
        AesKDFOperation::aes_ecb_new(vec![1; 17]).unwrap_err(),
        KError::RvError(CKR_MECHANISM_PARAM_INVALID)
    );
    assert_eq!(
        AesKDFOperation::aes_cbc_new(vec![0; 15], vec![1; 16]).unwrap_err(),
        KError::RvError(CKR_MECHANISM_PARAM_INVALID)
    );
}

#[test]
fn derive_operation_dispatches_on_parameters() {
    let (mechs, _factories) = registries();
    let d = mechs.get(CKM_AES_ECB_ENCRYPT_DATA).unwrap();
    let ok = CkMechanism {
        mechanism: CKM_AES_ECB_ENCRYPT_DATA,
        params: CkMechParams::DerivationStringData(vec![1; 16]),
    };
    match d.derive_operation(&ok).unwrap() {
        Operation::Derive(kdf) => assert!(!kdf.finalized()),
        _ => panic!("expected a derive operation"),
    }
    let wrong = CkMechanism {
        mechanism: CKM_AES_ECB_ENCRYPT_DATA,
        params: CkMechParams::Iv(vec![0; 16]),
    };
    match d.derive_operation(&wrong) {
        Err(e) => assert_eq!(e, KError::RvError(CKR_MECHANISM_PARAM_INVALID)),
        Ok(_) => panic!("a wrong parameter block must be refused"),
    }
    let cbc = mechs.get(CKM_AES_CBC_ENCRYPT_DATA).unwrap();
    let okc = CkMechanism {
        mechanism: CKM_AES_CBC_ENCRYPT_DATA,
        params: CkMechParams::AesCbcEncryptData(vec![0; 16], vec![1; 32]),
    };
    assert!(cbc.derive_operation(&okc).is_ok());
}

#[test]
fn derive_operation_refuses_wrong_mechanism_id() {
    let (mechs, _factories) = registries();
    let d = mechs.get(CKM_AES_ECB_ENCRYPT_DATA).unwrap();
    // a derive-capable descriptor still refuses a non-derive mechanism id
    let wrong_id = CkMechanism {
        mechanism: CKM_AES_ECB,
        params: CkMechParams::DerivationStringData(vec![1; 16]),
    };
    match d.derive_operation(&wrong_id) {
        Err(e) => assert_eq!(e, KError::RvError(CKR_MECHANISM_INVALID)),
        Ok(_) => panic!("a wrong mechanism id must be refused"),
    }
}

#[test]
fn generate_key_refuses_contradicting_template() {
    let (mechs, factories) = registries();
    let m = mechs.get(CKM_AES_KEY_GEN).unwrap();
    let mech = CkMechanism { mechanism: CKM_AES_KEY_GEN, params: CkMechParams::Empty };
    // a template whose class contradicts the AES secret-key pair
    let t = vec![
        entry(CKA_CLASS, ulong_bytes(softtoken::interface::CKO_PRIVATE_KEY)),
        entry(CKA_VALUE_LEN, ulong_bytes(16)),
    ];
    assert_eq!(
        m.generate_key(&mech, &t, &mechs, &factories).unwrap_err(),
        KError::RvError(softtoken::interface::CKR_TEMPLATE_INCONSISTENT)
    );
    // a template without the required length
    let t2 = vec![entry(CKA_WRAP, vec![1])];
    assert_eq!(
        m.generate_key(&mech, &t2, &mechs, &factories).unwrap_err(),
        KError::RvError(softtoken::interface::CKR_TEMPLATE_INCOMPLETE)
    );
}

#[test]
fn registry_lookup_failure_is_mechanism_invalid() {
    let (mechs, _): (Mechanisms, ObjectFactories) = registries();
    assert_eq!(
        mechs.get(0xdead).unwrap_err(),
        KError::RvError(CKR_MECHANISM_INVALID)
    );
}

#[test]
fn mac_binding_to_key_permissions() {
    let (mechs, _factories) = registries();
    let m = mechs.get(CKM_AES_MAC).unwrap();
    let mech = CkMechanism { mechanism: CKM_AES_MAC, params: CkMechParams::Empty };

    // a key without CKA_SIGN may not sign
    let nosign = aes_key(hex("2b7e151628aed2a6abf7158809cf4f3c"), &[CKA_VERIFY]);
    assert_eq!(
        m.sign_new(&mech, &nosign).unwrap_err(),
        KError::RvError(CKR_KEY_FUNCTION_NOT_PERMITTED)
    );

    // a signing key signs, and the verifier agrees
    let key = aes_key(
        hex("2b7e151628aed2a6abf7158809cf4f3c"),
        &[CKA_SIGN, CKA_VERIFY],
    );
    let msg = b"the quick brown fox".to_vec();
    let mut signer = m.sign_new(&mech, &key).unwrap();
    let sig = signer.sign(&msg).unwrap();
    assert_eq!(sig.len(), 8);

    let mut verifier = m.verify_new(&mech, &key).unwrap();
    verifier.verify(&msg, &sig).unwrap();

    let mut verifier2 = m.verify_new(&mech, &key).unwrap();
    let mut bad = sig.clone();
    bad[0] ^= 1;
    assert_eq!(
        verifier2.verify(&msg, &bad).unwrap_err(),
        KError::RvError(CKR_SIGNATURE_INVALID)
    );
}

#[test]
fn cmac_known_answers() {
    // RFC 4493 test vectors, AES-128-CMAC
    let (mechs, _factories) = registries();
    let m = mechs.get(CKM_AES_CMAC).unwrap();
    let mech = CkMechanism { mechanism: CKM_AES_CMAC, params: CkMechParams::Empty };
    let key = aes_key(
        hex("2b7e151628aed2a6abf7158809cf4f3c"),
        &[CKA_SIGN, CKA_VERIFY],
    );

    // empty message
    let mut s0 = m.sign_new(&mech, &key).unwrap();
    assert_eq!(s0.sign(&[]).unwrap(), hex("bb1d6929e95937287fa37d129b756746"));

    // one complete block
    let msg16 = hex("6bc1bee22e409f96e93d7e117393172a");
    let mut s1 = m.sign_new(&mech, &key).unwrap();
    assert_eq!(s1.sign(&msg16).unwrap(), hex("070a16b46b4d4144f79bdd9dd04a287c"));

    // forty bytes: chained blocks plus a padded tail
    let msg40 = hex(
        "6bc1bee22e409f96e93d7e117393172aae2d8a571e03ac9c9eb76fac45af8e5130c81c46a35ce411",
    );
    let mut s2 = m.sign_new(&mech, &key).unwrap();
    let tag = s2.sign(&msg40).unwrap();
    assert_eq!(tag, hex("dfa66747de9ae63030ca32611497c827"));

    let mut v = m.verify_new(&mech, &key).unwrap();
    v.verify(&msg40, &tag).unwrap();

    // the general form truncates
    let gm = CkMechanism {
        mechanism: softtoken::interface::CKM_AES_CMAC_GENERAL,
        params: CkMechParams::MacGeneral(4),
    };
    let g = mechs.get(softtoken::interface::CKM_AES_CMAC_GENERAL).unwrap();
    let mut sg = g.sign_new(&gm, &key).unwrap();
    assert_eq!(sg.sign(&msg40).unwrap(), hex("dfa66747"));
}

#[test]
fn hash_state_owner_is_lazy() {
    let mut h = softtoken::cryptography::HashState::new(5);
    assert_eq!(h.get_alg(), 5);
    assert_eq!(h.get_state().len(), 0);
    h.get_state().push(1);
    assert_eq!(h.get_state().len(), 1);
    h.reset();
    assert_eq!(h.get_state().len(), 0);
}
