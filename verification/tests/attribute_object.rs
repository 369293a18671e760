//! The attribute layer, template matching, object creation and the
//! sensitivity gate on read-back.

use softtoken::attribute::{from_bool, from_bytes, from_string, from_ulong, AttrType};
use softtoken::error::KError;
use softtoken::interface::{
    CkAttribute, CKA_APPLICATION, CKA_CLASS, CKA_EXTRACTABLE, CKA_KEY_TYPE, CKA_LABEL,
    CKA_MODULUS, CKA_PRIVATE_EXPONENT, CKA_SENSITIVE, CKA_TOKEN, CKA_UNIQUE_ID, CKA_VALUE,
    CKK_RSA, CKO_DATA, CKO_PRIVATE_KEY, CKR_ATTRIBUTE_SENSITIVE, CKR_ATTRIBUTE_TYPE_INVALID,
    CKR_ATTRIBUTE_VALUE_INVALID, CKR_BUFFER_TOO_SMALL, CKR_TEMPLATE_INCOMPLETE,
    CKR_TEMPLATE_INCONSISTENT, CK_UNAVAILABLE_INFORMATION,
};
use softtoken::object::{create, Object};

fn ulong_bytes(v: u64) -> Vec<u8> {
    v.to_le_bytes().to_vec()
}

fn entry(id: u64, value: Vec<u8>) -> CkAttribute {
    let len = value.len() as u64;
    CkAttribute { id, value: Some(value), len }
}

#[test]
fn attribute_accessors_enforce_kinds() {
    let b = from_bool(CKA_TOKEN, true);
    assert_eq!(b.to_bool(), Ok(true));
    assert_eq!(
        b.to_ulong(),
        Err(KError::RvError(CKR_ATTRIBUTE_TYPE_INVALID))
    );

    let n = from_ulong(CKA_CLASS, 3);
    assert_eq!(n.to_ulong(), Ok(3));
    assert_eq!(
        n.to_bool(),
        Err(KError::RvError(CKR_ATTRIBUTE_TYPE_INVALID))
    );

    let v = from_bytes(CKA_VALUE, vec![1, 2, 3]);
    assert_eq!(v.to_bytes().unwrap().as_slice(), &[1, 2, 3]);

    let s = from_string(CKA_LABEL, b"abc".to_vec());
    assert_eq!(s.to_string().unwrap().as_slice(), b"abc");
}

#[test]
fn template_entry_matching_is_exact() {
    let a = from_bytes(CKA_VALUE, vec![9, 9]);
    assert!(a.match_ck_attr(&entry(CKA_VALUE, vec![9, 9])));
    assert!(!a.match_ck_attr(&entry(CKA_VALUE, vec![9])));
    assert!(!a.match_ck_attr(&entry(CKA_LABEL, vec![9, 9])));
    assert!(!a.match_ck_attr(&CkAttribute { id: CKA_VALUE, value: None, len: 0 }));
}

#[test]
fn create_data_object_fills_defaults_and_demands_required() {
    let template = vec![
        entry(CKA_CLASS, ulong_bytes(CKO_DATA)),
        entry(CKA_APPLICATION, b"app".to_vec()),
        entry(CKA_VALUE, vec![1, 2, 3]),
    ];
    let obj = create(7, &template).unwrap();
    assert_eq!(obj.get_handle(), 7);
    // every RequiredOnCreate entry is present
    assert!(obj.find_attr(CKA_CLASS).is_some());
    assert!(obj.find_attr(CKA_UNIQUE_ID).is_some());
    assert!(obj.find_attr(CKA_APPLICATION).is_some());
    assert!(obj.find_attr(CKA_VALUE).is_some());
    // the unique id is a 36-byte hyphenated form
    assert_eq!(obj.find_attr(CKA_UNIQUE_ID).unwrap().get_value().len(), 36);
    // defaults were filled
    assert!(!obj.is_token());

    // a required attribute still missing is refused
    let incomplete = vec![entry(CKA_CLASS, ulong_bytes(CKO_DATA))];
    assert_eq!(
        create(1, &incomplete).unwrap_err(),
        KError::RvError(CKR_TEMPLATE_INCOMPLETE)
    );

    // an unknown id is refused
    let unknown = vec![
        entry(CKA_CLASS, ulong_bytes(CKO_DATA)),
        entry(0xDEAD, vec![1]),
    ];
    assert_eq!(
        create(1, &unknown).unwrap_err(),
        KError::RvError(CKR_ATTRIBUTE_VALUE_INVALID)
    );

    // a duplicate is inconsistent
    let dup = vec![
        entry(CKA_CLASS, ulong_bytes(CKO_DATA)),
        entry(CKA_APPLICATION, b"a".to_vec()),
        entry(CKA_APPLICATION, b"b".to_vec()),
        entry(CKA_VALUE, vec![1]),
    ];
    assert_eq!(
        create(1, &dup).unwrap_err(),
        KError::RvError(CKR_TEMPLATE_INCONSISTENT)
    );
}

#[test]
fn set_attr_replaces_in_place_and_marks_modified() {
    let mut obj = Object::new(1);
    assert!(!obj.is_modified());
    obj.set_attr(from_bytes(CKA_MODULUS, vec![7])).unwrap();
    obj.set_attr(from_string(CKA_LABEL, b"first".to_vec())).unwrap();
    assert!(obj.is_modified());
    obj.set_attr(from_bytes(CKA_VALUE, vec![1])).unwrap();
    obj.set_attr(from_string(CKA_LABEL, b"second".to_vec())).unwrap();
    let attrs = obj.get_attributes();
    // replacement kept the position
    assert_eq!(attrs[1].get_type(), CKA_LABEL);
    assert_eq!(attrs[1].get_value().as_slice(), b"second");
}

fn rsa_private_key(sensitive: bool, extractable: bool) -> Object {
    let mut o = Object::new(1);
    o.set_attr(from_ulong(CKA_CLASS, CKO_PRIVATE_KEY)).unwrap();
    o.set_attr(from_ulong(CKA_KEY_TYPE, CKK_RSA)).unwrap();
    o.set_attr(from_bool(CKA_SENSITIVE, sensitive)).unwrap();
    o.set_attr(from_bool(CKA_EXTRACTABLE, extractable)).unwrap();
    o.set_attr(from_bytes(CKA_MODULUS, vec![0xAB; 4])).unwrap();
    o.set_attr(from_bytes(CKA_PRIVATE_EXPONENT, vec![0xCD; 4])).unwrap();
    o
}

#[test]
fn sensitive_read_rejected() {
    let o = rsa_private_key(true, true);
    let mut template = vec![
        CkAttribute { id: CKA_PRIVATE_EXPONENT, value: Some(vec![0; 8]), len: 8 },
        CkAttribute { id: CKA_MODULUS, value: Some(vec![0; 8]), len: 8 },
    ];
    let rc = o.fill_template(&mut template).unwrap_err();
    assert_eq!(rc, KError::RvError(CKR_ATTRIBUTE_SENSITIVE));
    // the sensitive entry got the length sentinel
    assert_eq!(template[0].len, CK_UNAVAILABLE_INFORMATION);
    // the plain entry was filled
    assert_eq!(template[1].len, 4);
    assert_eq!(template[1].value.as_ref().unwrap()[..4], [0xAB; 4]);
}

#[test]
fn non_extractable_key_is_gated_too() {
    let o = rsa_private_key(false, false);
    let mut template = vec![CkAttribute {
        id: CKA_PRIVATE_EXPONENT,
        value: Some(vec![0; 8]),
        len: 8,
    }];
    assert_eq!(
        o.fill_template(&mut template).unwrap_err(),
        KError::RvError(CKR_ATTRIBUTE_SENSITIVE)
    );

    // sensitive off and extractable on: the value is readable
    let o2 = rsa_private_key(false, true);
    let mut t2 = vec![CkAttribute { id: CKA_PRIVATE_EXPONENT, value: Some(vec![0; 8]), len: 8 }];
    o2.fill_template(&mut t2).unwrap();
    assert_eq!(t2[0].len, 4);
}

#[test]
fn fill_template_two_pass_convention() {
    let o = rsa_private_key(false, true);
    // first pass: null buffer asks for the length
    let mut q = vec![CkAttribute { id: CKA_MODULUS, value: None, len: 0 }];
    o.fill_template(&mut q).unwrap();
    assert_eq!(q[0].len, 4);
    // a short buffer is refused, best effort
    let mut small = vec![CkAttribute { id: CKA_MODULUS, value: Some(vec![0; 2]), len: 2 }];
    assert_eq!(
        o.fill_template(&mut small).unwrap_err(),
        KError::RvError(CKR_BUFFER_TOO_SMALL)
    );
    assert_eq!(small[0].len, CK_UNAVAILABLE_INFORMATION);
    // an absent attribute reports the type-invalid sentinel
    let mut absent = vec![CkAttribute { id: CKA_LABEL, value: None, len: 0 }];
    assert_eq!(
        o.fill_template(&mut absent).unwrap_err(),
        KError::RvError(CKR_ATTRIBUTE_TYPE_INVALID)
    );
    assert_eq!(absent[0].len, CK_UNAVAILABLE_INFORMATION);
}

#[test]
fn match_template_checks_every_entry() {
    let o = rsa_private_key(true, false);
    let t1 = vec![entry(CKA_CLASS, ulong_bytes(CKO_PRIVATE_KEY))];
    assert!(o.match_template(&t1));
    let t2 = vec![
        entry(CKA_CLASS, ulong_bytes(CKO_PRIVATE_KEY)),
        entry(CKA_MODULUS, vec![0xAB; 4]),
    ];
    assert!(o.match_template(&t2));
    let t3 = vec![entry(CKA_MODULUS, vec![0xAB; 3])];
    assert!(!o.match_template(&t3));
}
