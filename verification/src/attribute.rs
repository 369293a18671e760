//! The attribute layer: a tagged-value representation of Cryptoki
//! attributes with type-safe accessors and template-entry matching.
//!
//! An attribute is `(id, kind, value bytes)`.  The bytes are the
//! canonical wire encoding: a `Num` is a machine ulong in little-endian
//! order, a `Bool` is a single byte, a `String` is its UTF-8 bytes.
//! The kind of an attribute id is fixed by a static schema
//! (`spec_attr_kind`).

use vstd::prelude::*;
use vstd::bytes::{spec_u64_to_le_bytes, spec_u64_from_le_bytes, u64_to_le_bytes, u64_from_le_bytes};

use crate::error::{KError, KResult};
use crate::interface::{
    CkAttribute, CkAttrView, CKA_ALWAYS_SENSITIVE, CKA_APPLICATION, CKA_CLASS, CKA_COEFFICIENT, CKA_COPYABLE,
    CKA_DECRYPT, CKA_DERIVE, CKA_DESTROYABLE, CKA_ENCRYPT, CKA_EXPONENT_1, CKA_EXPONENT_2,
    CKA_EXTRACTABLE, CKA_ID, CKA_KEY_GEN_MECHANISM, CKA_KEY_TYPE, CKA_LABEL, CKA_LOCAL,
    CKA_MODIFIABLE, CKA_MODULUS, CKA_NEVER_EXTRACTABLE, CKA_OBJECT_ID, CKA_PRIME_1, CKA_PRIME_2,
    CKA_PRIVATE, CKA_PRIVATE_EXPONENT, CKA_PUBLIC_EXPONENT, CKA_SENSITIVE, CKA_SIGN, CKA_TOKEN,
    CKA_UNIQUE_ID, CKA_UNWRAP, CKA_VALUE, CKA_VALUE_BITS, CKA_VALUE_LEN, CKA_VERIFY, CKA_WRAP,
    CKR_ATTRIBUTE_TYPE_INVALID, CKR_ATTRIBUTE_VALUE_INVALID,
};

verus! {

/// The kind of value an attribute carries.
#[derive(Debug, Clone, Copy, PartialEq, Eq, Structural)]
pub enum AttrType {
    BoolType,
    NumType,
    BytesType,
    StringType,
    DateType,
    DenyListType,
}

/// A tagged attribute: id, kind and canonical value bytes.
#[derive(Debug, Clone)]
pub struct Attribute {
    pub id: u64,
    pub atype: AttrType,
    pub value: Vec<u8>,
}

/// The mathematical model of an attribute.
pub struct AttrView {
    pub id: u64,
    pub atype: AttrType,
    pub value: Seq<u8>,
}

impl View for Attribute {
    type V = AttrView;

    open spec fn view(&self) -> AttrView {
        AttrView { id: self.id, atype: self.atype, value: self.value@ }
    }
}

/// The static id-to-kind schema: the kind every known attribute id
/// carries, `None` for an id this token does not know.
pub open spec fn spec_attr_kind(id: u64) -> Option<AttrType> {
    if id == CKA_TOKEN || id == CKA_PRIVATE || id == CKA_SENSITIVE || id == CKA_ENCRYPT
        || id == CKA_DECRYPT || id == CKA_WRAP || id == CKA_UNWRAP || id == CKA_SIGN
        || id == CKA_VERIFY || id == CKA_DERIVE || id == CKA_EXTRACTABLE || id == CKA_LOCAL
        || id == CKA_NEVER_EXTRACTABLE || id == CKA_ALWAYS_SENSITIVE || id == CKA_MODIFIABLE
        || id == CKA_COPYABLE || id == CKA_DESTROYABLE {
        Some(AttrType::BoolType)
    } else if id == CKA_CLASS || id == CKA_KEY_TYPE || id == CKA_VALUE_LEN
        || id == CKA_VALUE_BITS || id == CKA_KEY_GEN_MECHANISM {
        Some(AttrType::NumType)
    } else if id == CKA_VALUE || id == CKA_OBJECT_ID || id == CKA_ID || id == CKA_MODULUS
        || id == CKA_PUBLIC_EXPONENT || id == CKA_PRIVATE_EXPONENT || id == CKA_PRIME_1
        || id == CKA_PRIME_2 || id == CKA_EXPONENT_1 || id == CKA_EXPONENT_2
        || id == CKA_COEFFICIENT {
        Some(AttrType::BytesType)
    } else if id == CKA_LABEL || id == CKA_UNIQUE_ID || id == CKA_APPLICATION {
        Some(AttrType::StringType)
    } else {
        None
    }
}

/// Executable form of the id-to-kind schema.
pub fn attr_kind(id: u64) -> (r: Option<AttrType>)
    ensures
        r == spec_attr_kind(id),
{
    if id == CKA_TOKEN || id == CKA_PRIVATE || id == CKA_SENSITIVE || id == CKA_ENCRYPT
        || id == CKA_DECRYPT || id == CKA_WRAP || id == CKA_UNWRAP || id == CKA_SIGN
        || id == CKA_VERIFY || id == CKA_DERIVE || id == CKA_EXTRACTABLE || id == CKA_LOCAL
        || id == CKA_NEVER_EXTRACTABLE || id == CKA_ALWAYS_SENSITIVE || id == CKA_MODIFIABLE
        || id == CKA_COPYABLE || id == CKA_DESTROYABLE {
        Some(AttrType::BoolType)
    } else if id == CKA_CLASS || id == CKA_KEY_TYPE || id == CKA_VALUE_LEN
        || id == CKA_VALUE_BITS || id == CKA_KEY_GEN_MECHANISM {
        Some(AttrType::NumType)
    } else if id == CKA_VALUE || id == CKA_OBJECT_ID || id == CKA_ID || id == CKA_MODULUS
        || id == CKA_PUBLIC_EXPONENT || id == CKA_PRIVATE_EXPONENT || id == CKA_PRIME_1
        || id == CKA_PRIME_2 || id == CKA_EXPONENT_1 || id == CKA_EXPONENT_2
        || id == CKA_COEFFICIENT {
        Some(AttrType::BytesType)
    } else if id == CKA_LABEL || id == CKA_UNIQUE_ID || id == CKA_APPLICATION {
        Some(AttrType::StringType)
    } else {
        None
    }
}

/// The single-byte encoding of a boolean value.
pub open spec fn spec_bool_byte(b: bool) -> u8 {
    if b { 1u8 } else { 0u8 }
}

/// Build a boolean attribute.
pub fn from_bool(id: u64, b: bool) -> (r: Attribute)
    ensures
        r@.id == id,
        r@.atype == AttrType::BoolType,
        r@.value == seq![spec_bool_byte(b)],
{
    let v: Vec<u8> = if b { vec![1u8] } else { vec![0u8] };
    assert(v@ =~= seq![spec_bool_byte(b)]);
    Attribute { id, atype: AttrType::BoolType, value: v }
}

/// Build a ulong attribute; the value bytes are the machine ulong in
/// little-endian order.
pub fn from_ulong(id: u64, u: u64) -> (r: Attribute)
    ensures
        r@.id == id,
        r@.atype == AttrType::NumType,
        r@.value == spec_u64_to_le_bytes(u),
{
    Attribute { id, atype: AttrType::NumType, value: u64_to_le_bytes(u) }
}

/// Build a byte-valued attribute.
pub fn from_bytes(id: u64, v: Vec<u8>) -> (r: Attribute)
    ensures
        r@.id == id,
        r@.atype == AttrType::BytesType,
        r@.value == v@,
{
    Attribute { id, atype: AttrType::BytesType, value: v }
}

/// Build a string attribute from the string's UTF-8 bytes.
pub fn from_string(id: u64, v: Vec<u8>) -> (r: Attribute)
    ensures
        r@.id == id,
        r@.atype == AttrType::StringType,
        r@.value == v@,
{
    Attribute { id, atype: AttrType::StringType, value: v }
}

impl Attribute {
    pub fn get_type(&self) -> (r: u64)
        ensures
            r == self.id,
    {
        self.id
    }

    pub fn get_attrtype(&self) -> (r: AttrType)
        ensures
            r == self.atype,
    {
        self.atype
    }

    pub fn get_value(&self) -> (r: &Vec<u8>)
        ensures
            r@ == self@.value,
    {
        &self.value
    }

    /// What `to_bool` returns: the value of a well-formed boolean
    /// attribute, or the error owed for a wrong kind or malformed bytes.
    pub open spec fn spec_to_bool(&self) -> KResult<bool> {
        if self.atype != AttrType::BoolType {
            Err(KError::RvError(CKR_ATTRIBUTE_TYPE_INVALID))
        } else if self.value@.len() != 1 {
            Err(KError::RvError(CKR_ATTRIBUTE_VALUE_INVALID))
        } else {
            Ok(self.value@[0] != 0)
        }
    }

    pub fn to_bool(&self) -> (r: KResult<bool>)
        ensures
            r == self.spec_to_bool(),
    {
        if self.atype != AttrType::BoolType {
            Err(KError::RvError(CKR_ATTRIBUTE_TYPE_INVALID))
        } else if self.value.len() != 1 {
            Err(KError::RvError(CKR_ATTRIBUTE_VALUE_INVALID))
        } else {
            Ok(self.value[0] != 0)
        }
    }

    /// What `to_ulong` returns: the little-endian ulong of a well-formed
    /// numeric attribute, or the error owed.
    pub open spec fn spec_to_ulong(&self) -> KResult<u64> {
        if self.atype != AttrType::NumType {
            Err(KError::RvError(CKR_ATTRIBUTE_TYPE_INVALID))
        } else if self.value@.len() != 8 {
            Err(KError::RvError(CKR_ATTRIBUTE_VALUE_INVALID))
        } else {
            Ok(spec_u64_from_le_bytes(self.value@))
        }
    }

    pub fn to_ulong(&self) -> (r: KResult<u64>)
        ensures
            r == self.spec_to_ulong(),
    {
        if self.atype != AttrType::NumType {
            Err(KError::RvError(CKR_ATTRIBUTE_TYPE_INVALID))
        } else if self.value.len() != 8 {
            Err(KError::RvError(CKR_ATTRIBUTE_VALUE_INVALID))
        } else {
            Ok(u64_from_le_bytes(self.value.as_slice()))
        }
    }

    pub fn to_bytes(&self) -> (r: KResult<&Vec<u8>>)
        ensures
            self.atype == AttrType::BytesType ==> (r matches Ok(v) && v@ == self@.value),
            self.atype != AttrType::BytesType ==> r == Err::<&Vec<u8>, KError>(
                KError::RvError(CKR_ATTRIBUTE_TYPE_INVALID),
            ),
    {
        if self.atype != AttrType::BytesType {
            Err(KError::RvError(CKR_ATTRIBUTE_TYPE_INVALID))
        } else {
            Ok(&self.value)
        }
    }

    /// The string value, as its UTF-8 bytes.
    pub fn to_string(&self) -> (r: KResult<&Vec<u8>>)
        ensures
            self.atype == AttrType::StringType ==> (r matches Ok(v) && v@ == self@.value),
            self.atype != AttrType::StringType ==> r == Err::<&Vec<u8>, KError>(
                KError::RvError(CKR_ATTRIBUTE_TYPE_INVALID),
            ),
    {
        if self.atype != AttrType::StringType {
            Err(KError::RvError(CKR_ATTRIBUTE_TYPE_INVALID))
        } else {
            Ok(&self.value)
        }
    }

    pub fn match_ck_attr(&self, ck: &CkAttribute) -> (r: bool)
        ensures
            r == spec_attr_match_entry(self@, ck@),
    {
        if self.id != ck.id {
            return false;
        }
        match &ck.value {
            Some(v) => eq_bytes(v.as_slice(), self.value.as_slice()),
            None => false,
        }
    }
}

/// Decode one template entry into an attribute.
///
/// The kind comes from the static schema; an unknown id, a missing
/// buffer, or bytes that do not decode under the kind are rejected with
/// `ATTRIBUTE_VALUE_INVALID`.
pub open spec fn spec_decode_entry(e: CkAttrView) -> KResult<AttrView> {
    match spec_attr_kind(e.id) {
        Option::None => Err(KError::RvError(CKR_ATTRIBUTE_VALUE_INVALID)),
        Option::Some(k) => match e.value {
            Option::None => Err(KError::RvError(CKR_ATTRIBUTE_VALUE_INVALID)),
            Option::Some(v) => {
                if (k == AttrType::BoolType && v.len() != 1) || (k == AttrType::NumType && v.len()
                    != 8) {
                    Err(KError::RvError(CKR_ATTRIBUTE_VALUE_INVALID))
                } else {
                    Ok(AttrView { id: e.id, atype: k, value: v })
                }
            },
        },
    }
}

impl CkAttribute {
    pub fn to_attribute(&self) -> (r: KResult<Attribute>)
        ensures
            r matches Ok(a) ==> spec_decode_entry(self@) == Ok::<AttrView, KError>(a@),
            r matches Err(e) ==> spec_decode_entry(self@) == Err::<AttrView, KError>(e),
    {
        let k = match attr_kind(self.id) {
            Some(k) => k,
            None => {
                return Err(KError::RvError(CKR_ATTRIBUTE_VALUE_INVALID));
            },
        };
        let v = match &self.value {
            Some(v) => clone_bytes(v),
            None => {
                return Err(KError::RvError(CKR_ATTRIBUTE_VALUE_INVALID));
            },
        };
        if k == AttrType::BoolType && v.len() != 1 {
            return Err(KError::RvError(CKR_ATTRIBUTE_VALUE_INVALID));
        }
        if k == AttrType::NumType && v.len() != 8 {
            return Err(KError::RvError(CKR_ATTRIBUTE_VALUE_INVALID));
        }
        Ok(Attribute { id: self.id, atype: k, value: v })
    }
}

/// Whether an attribute matches one template entry: id equality and
/// byte-equality of the value.
pub open spec fn spec_attr_match_entry(a: AttrView, e: CkAttrView) -> bool {
    &&& a.id == e.id
    &&& e.value matches Some(v) && v == a.value
}

/// Byte-equality of two slices.
pub fn eq_bytes(a: &[u8], b: &[u8]) -> (r: bool)
    ensures
        r == (a@ == b@),
{
    if a.len() != b.len() {
        assert(a@ != b@);
        return false;
    }
    let mut i: usize = 0;
    while i < a.len()
        invariant
            0 <= i <= a@.len(),
            a@.len() == b@.len(),
            forall|j: int| 0 <= j < i ==> a@[j] == b@[j],
        decreases a@.len() - i,
    {
        if a[i] != b[i] {
            return false;
        }
        i += 1;
    }
    assert(a@ =~= b@);
    true
}

/// A copy of an attribute.
pub fn clone_attr(a: &Attribute) -> (r: Attribute)
    ensures
        r@ == a@,
{
    Attribute { id: a.id, atype: a.atype, value: clone_bytes(&a.value) }
}

/// A copy of a byte vector.
pub fn clone_bytes(v: &Vec<u8>) -> (r: Vec<u8>)
    ensures
        r@ == v@,
{
    let mut out: Vec<u8> = Vec::new();
    let mut i: usize = 0;
    while i < v.len()
        invariant
            0 <= i <= v@.len(),
            out@ == v@.subrange(0, i as int),
        decreases v@.len() - i,
    {
        out.push(v[i]);
        assert(out@ =~= v@.subrange(0, i as int + 1));
        i += 1;
    }
    assert(out@ =~= v@);
    out
}

} // verus!
