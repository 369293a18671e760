//! The object layer: an object is an ordered collection of attributes
//! with unique ids, addressed by a numeric handle, plus bookkeeping for
//! the storage layer (a modified flag and an owning session).
//!
//! The layer provides typed attribute lookup, template matching,
//! sensitivity gating on read-back (`fill_template`) and the generic
//! part of object creation (schema checks, defaults, required
//! attributes).

use vstd::prelude::*;
use vstd::bytes::{spec_u64_from_le_bytes, spec_u64_to_le_bytes};
use crate::interface::{CKA_ALWAYS_SENSITIVE, CKA_KEY_GEN_MECHANISM, CKA_LOCAL, CKA_NEVER_EXTRACTABLE};
use crate::interface::{CKR_GENERAL_ERROR, CKR_KEY_FUNCTION_NOT_PERMITTED};

use crate::attribute::{
    attr_kind, clone_attr, clone_bytes, eq_bytes, from_bool, from_bytes, from_string, from_ulong,
    spec_attr_kind, spec_attr_match_entry, spec_decode_entry, Attribute,
    AttrType, AttrView,
};
use crate::cryptography::{fill_random, generate_unique_id};
use crate::error::{KError, KResult};
use crate::interface::{
    CkAttribute, CkAttrView, CKA_APPLICATION, CKA_CLASS, CKA_COEFFICIENT, CKA_COPYABLE, CKA_DESTROYABLE,
    CKA_EXPONENT_1, CKA_EXPONENT_2, CKA_EXTRACTABLE, CKA_KEY_TYPE, CKA_LABEL, CKA_MODIFIABLE,
    CKA_OBJECT_ID, CKA_PRIME_1, CKA_PRIME_2, CKA_PRIVATE, CKA_PRIVATE_EXPONENT, CKA_SENSITIVE,
    CKA_TOKEN, CKA_UNIQUE_ID, CKA_VALUE, CKA_VALUE_BITS, CKA_VALUE_LEN, CKK_DH, CKK_DSA, CKK_EC,
    CKK_EC_EDWARDS, CKK_EC_MONTGOMERY, CKK_GENERIC_SECRET, CKK_RSA, CKK_X9_42_DH, CKO_CERTIFICATE,
    CKO_DATA, CKO_PRIVATE_KEY, CKO_SECRET_KEY, CKR_ATTRIBUTE_SENSITIVE,
    CKR_ATTRIBUTE_TYPE_INVALID, CKR_ATTRIBUTE_VALUE_INVALID, CKR_BUFFER_TOO_SMALL,
    CKR_FUNCTION_FAILED, CKR_OK, CKR_TEMPLATE_INCOMPLETE, CKR_TEMPLATE_INCONSISTENT,
    CK_UNAVAILABLE_INFORMATION,
};

verus! {

/// A token object: a handle, an owning session, a dirty flag for the
/// storage layer, and the ordered attribute sequence.
#[derive(Debug, Clone)]
pub struct Object {
    pub handle: u64,
    pub session: u64,
    pub modified: bool,
    pub attributes: Vec<Attribute>,
}

/// The mathematical model of an object.
pub struct ObjView {
    pub handle: u64,
    pub session: u64,
    pub modified: bool,
    pub attrs: Seq<AttrView>,
}

impl View for Object {
    type V = ObjView;

    open spec fn view(&self) -> ObjView {
        ObjView {
            handle: self.handle,
            session: self.session,
            modified: self.modified,
            attrs: self.attributes@.map_values(|a: Attribute| a@),
        }
    }
}

/// Index of the first attribute with the given id, if any.
pub open spec fn spec_find_index(attrs: Seq<AttrView>, id: u64) -> Option<int>
    decreases attrs.len(),
{
    if attrs.len() == 0 {
        None
    } else if attrs[0].id == id {
        Some(0int)
    } else {
        match spec_find_index(attrs.skip(1), id) {
            Some(i) => Some(i + 1),
            None => None,
        }
    }
}

/// The first attribute with the given id, if any.
pub open spec fn spec_find_attr(attrs: Seq<AttrView>, id: u64) -> Option<AttrView> {
    match spec_find_index(attrs, id) {
        Some(i) => Some(attrs[i]),
        None => None,
    }
}

pub open spec fn spec_has_attr(attrs: Seq<AttrView>, id: u64) -> bool {
    spec_find_index(attrs, id) is Some
}

/// What the first-match index means: it is in range, carries the id,
/// nothing before it does, and a `None` means the id occurs nowhere.
pub proof fn lemma_find_index_props(attrs: Seq<AttrView>, id: u64)
    ensures
        match spec_find_index(attrs, id) {
            Some(i) => 0 <= i < attrs.len() && attrs[i].id == id && forall|j: int|
                0 <= j < i ==> attrs[j].id != id,
            None => forall|j: int| 0 <= j < attrs.len() ==> attrs[j].id != id,
        },
    decreases attrs.len(),
{
    if attrs.len() > 0 && attrs[0].id != id {
        lemma_find_index_props(attrs.skip(1), id);
        assert forall|j: int| 1 <= j < attrs.len() implies attrs[j] == attrs.skip(1)[j - 1] by {}
    }
}

/// Stepping a first-match scan: if the id does not occur before `i`,
/// the search of the whole sequence is the search of the tail at `i`.
proof fn lemma_find_index_step(attrs: Seq<AttrView>, id: u64, i: int)
    requires
        0 <= i < attrs.len(),
        spec_find_index(attrs, id) == spec_find_index_from(attrs, id, i),
    ensures
        attrs[i].id == id ==> spec_find_index(attrs, id) == Some(i),
        attrs[i].id != id ==> spec_find_index(attrs, id) == spec_find_index_from(attrs, id, i + 1),
{
    assert(attrs.skip(i)[0] == attrs[i]);
    if attrs[i].id != id {
        assert(attrs.skip(i).skip(1) =~= attrs.skip(i + 1));
        if i + 1 < attrs.len() {
            match spec_find_index(attrs.skip(i + 1), id) {
                Some(k) => {},
                None => {},
            }
        }
    }
}

/// The search of the suffix beginning at `i`, rebased to whole-sequence
/// indexes.
pub open spec fn spec_find_index_from(attrs: Seq<AttrView>, id: u64, i: int) -> Option<int> {
    match spec_find_index(attrs.skip(i), id) {
        Some(k) => Some(k + i),
        None => None,
    }
}

impl Object {
    pub fn new(handle: u64) -> (r: Object)
        ensures
            r@.handle == handle,
            r@.session == 0,
            r@.modified == false,
            r@.attrs == Seq::<AttrView>::empty(),
    {
        let r = Object { handle, session: 0, modified: false, attributes: Vec::new() };
        assert(r@.attrs =~= Seq::<AttrView>::empty());
        r
    }

    pub fn get_handle(&self) -> (r: u64)
        ensures
            r == self@.handle,
    {
        self.handle
    }

    pub fn set_handle(&mut self, handle: u64)
        ensures
            final(self)@ == (ObjView { handle, ..old(self)@ }),
    {
        self.handle = handle;
    }

    pub fn get_session(&self) -> (r: u64)
        ensures
            r == self@.session,
    {
        self.session
    }

    pub fn set_session(&mut self, session: u64)
        ensures
            final(self)@ == (ObjView { session, ..old(self)@ }),
    {
        self.session = session;
    }

    pub fn is_modified(&self) -> (r: bool)
        ensures
            r == self@.modified,
    {
        self.modified
    }

    pub fn reset_modified(&mut self)
        ensures
            final(self)@ == (ObjView { modified: false, ..old(self)@ }),
    {
        self.modified = false;
    }

    /// A reference to the first attribute with the given id.
    pub fn find_attr(&self, id: u64) -> (r: Option<&Attribute>)
        ensures
            match r {
                Some(a) => spec_find_attr(self@.attrs, id) == Some(a@),
                None => spec_find_attr(self@.attrs, id) is None,
            },
    {
        let ghost attrs = self@.attrs;
        let mut i: usize = 0;
        proof {
            assert(attrs.skip(0) =~= attrs);
        }
        while i < self.attributes.len()
            invariant
                0 <= i <= attrs.len(),
                attrs == self@.attrs,
                attrs.len() == self.attributes@.len(),
                spec_find_index(attrs, id) == spec_find_index_from(attrs, id, i as int),
            decreases attrs.len() - i,
        {
            proof {
                lemma_find_index_step(attrs, id, i as int);
            }
            if self.attributes[i].get_type() == id {
                return Some(&self.attributes[i]);
            }
            i += 1;
        }
        proof {
            assert(attrs.skip(i as int) =~= Seq::<AttrView>::empty());
        }
        None
    }

    /// Replace the first attribute with the same id, keeping its
    /// position, or append; either way the object is marked modified.
    pub fn set_attr(&mut self, a: Attribute) -> (r: KResult<()>)
        ensures
            r == Ok::<(), KError>(()),
            final(self)@.handle == old(self)@.handle,
            final(self)@.session == old(self)@.session,
            final(self)@.modified == true,
            final(self)@.attrs == match spec_find_index(old(self)@.attrs, a@.id) {
                Some(i) => old(self)@.attrs.update(i, a@),
                None => old(self)@.attrs.push(a@),
            },
    {
        let ghost attrs = old(self)@.attrs;
        let id = a.get_type();
        let mut i: usize = 0;
        proof {
            assert(attrs.skip(0) =~= attrs);
        }
        while i < self.attributes.len()
            invariant
                0 <= i <= attrs.len(),
                *self == *old(self),
                attrs == self@.attrs,
                attrs.len() == self.attributes@.len(),
                id == a@.id,
                spec_find_index(attrs, id) == spec_find_index_from(attrs, id, i as int),
            decreases attrs.len() - i,
        {
            proof {
                lemma_find_index_step(attrs, id, i as int);
            }
            if self.attributes[i].get_type() == id {
                self.attributes.set(i, a);
                self.modified = true;
                assert(final(self)@.attrs =~= attrs.update(i as int, a@));
                return Ok(());
            }
            i += 1;
        }
        proof {
            assert(attrs.skip(i as int) =~= Seq::<AttrView>::empty());
        }
        self.attributes.push(a);
        self.modified = true;
        assert(final(self)@.attrs =~= attrs.push(a@));
        Ok(())
    }

    pub fn get_attributes(&self) -> (r: &Vec<Attribute>)
        ensures
            r@.map_values(|a: Attribute| a@) == self@.attrs,
    {
        &self.attributes
    }

    /// The boolean attribute with the given id, or the default where it
    /// is absent or malformed.
    fn bool_attr(&self, id: u64, def: bool) -> (r: bool)
        ensures
            r == spec_bool_attr(self@.attrs, id, def),
    {
        match self.find_attr(id) {
            Some(a) => match a.to_bool() {
                Ok(b) => b,
                Err(_) => def,
            },
            None => def,
        }
    }

    pub fn is_token(&self) -> (r: bool)
        ensures
            r == spec_bool_attr(self@.attrs, CKA_TOKEN, false),
    {
        self.bool_attr(CKA_TOKEN, false)
    }

    pub fn is_private(&self) -> (r: bool)
        ensures
            r == spec_bool_attr(self@.attrs, CKA_PRIVATE, true),
    {
        self.bool_attr(CKA_PRIVATE, true)
    }

    pub fn is_sensitive(&self) -> (r: bool)
        ensures
            r == spec_bool_attr(self@.attrs, CKA_SENSITIVE, true),
    {
        self.bool_attr(CKA_SENSITIVE, true)
    }

    pub fn is_modifiable(&self) -> (r: bool)
        ensures
            r == spec_bool_attr(self@.attrs, CKA_MODIFIABLE, true),
    {
        self.bool_attr(CKA_MODIFIABLE, true)
    }

    pub fn is_destroyable(&self) -> (r: bool)
        ensures
            r == spec_bool_attr(self@.attrs, CKA_DESTROYABLE, false),
    {
        self.bool_attr(CKA_DESTROYABLE, false)
    }

    pub fn is_extractable(&self) -> (r: bool)
        ensures
            r == spec_bool_attr(self@.attrs, CKA_EXTRACTABLE, false),
    {
        self.bool_attr(CKA_EXTRACTABLE, false)
    }

    pub fn get_attr_as_bool(&self, t: u64) -> (r: KResult<bool>)
        ensures
            r == spec_get_attr_as_bool(self@.attrs, t),
    {
        match self.find_attr(t) {
            Some(a) => {
                if a.get_attrtype() != AttrType::BoolType {
                    Err(KError::RvError(CKR_ATTRIBUTE_TYPE_INVALID))
                } else {
                    a.to_bool()
                }
            },
            None => Err(KError::NotFound),
        }
    }

    pub fn get_attr_as_ulong(&self, t: u64) -> (r: KResult<u64>)
        ensures
            r == spec_get_attr_as_ulong(self@.attrs, t),
    {
        match self.find_attr(t) {
            Some(a) => {
                if a.get_attrtype() != AttrType::NumType {
                    Err(KError::RvError(CKR_ATTRIBUTE_TYPE_INVALID))
                } else {
                    a.to_ulong()
                }
            },
            None => Err(KError::NotFound),
        }
    }

    /// The string attribute with the given id, as its UTF-8 bytes.
    pub fn get_attr_as_string(&self, t: u64) -> (r: KResult<Vec<u8>>)
        ensures
            match spec_get_attr_as_string(self@.attrs, t) {
                Ok(v) => r matches Ok(w) && w@ == v,
                Err(e) => r == Err::<Vec<u8>, KError>(e),
            },
    {
        match self.find_attr(t) {
            Some(a) => {
                if a.get_attrtype() != AttrType::StringType {
                    Err(KError::RvError(CKR_ATTRIBUTE_TYPE_INVALID))
                } else {
                    Ok(clone_bytes(a.get_value()))
                }
            },
            None => Err(KError::NotFound),
        }
    }

    pub fn get_attr_as_bytes(&self, t: u64) -> (r: KResult<&Vec<u8>>)
        ensures
            match spec_get_attr_as_bytes(self@.attrs, t) {
                Ok(v) => r matches Ok(w) && w@ == v,
                Err(e) => r == Err::<&Vec<u8>, KError>(e),
            },
    {
        match self.find_attr(t) {
            Some(a) => {
                if a.get_attrtype() != AttrType::BytesType {
                    Err(KError::RvError(CKR_ATTRIBUTE_TYPE_INVALID))
                } else {
                    Ok(a.get_value())
                }
            },
            None => Err(KError::NotFound),
        }
    }

    /// Whether some attribute matches the template entry, by id and
    /// exact byte value.
    pub fn entry_matched(&self, ck: &CkAttribute) -> (r: bool)
        ensures
            r == spec_entry_matched(self@.attrs, ck@),
    {
        let ghost attrs = self@.attrs;
        let mut i: usize = 0;
        while i < self.attributes.len()
            invariant
                0 <= i <= attrs.len(),
                attrs == self@.attrs,
                attrs.len() == self.attributes@.len(),
                forall|j: int| 0 <= j < i ==> !spec_attr_match_entry(#[trigger] attrs[j], ck@),
            decreases attrs.len() - i,
        {
            if self.attributes[i].match_ck_attr(ck) {
                assert(spec_attr_match_entry(attrs[i as int], ck@));
                return true;
            }
            i += 1;
        }
        false
    }

    /// Whether every template entry is matched by some attribute, by id
    /// and exact byte value.
    pub fn match_template(&self, template: &[CkAttribute]) -> (r: bool)
        ensures
            r == spec_match_template(self@.attrs, template@.map_values(|e: CkAttribute| e@)),
    {
        let ghost attrs = self@.attrs;
        let ghost entries = template@.map_values(|e: CkAttribute| e@);
        let mut k: usize = 0;
        while k < template.len()
            invariant
                0 <= k <= entries.len(),
                attrs == self@.attrs,
                entries == template@.map_values(|e: CkAttribute| e@),
                entries.len() == template@.len(),
                forall|j: int| 0 <= j < k ==> spec_entry_matched(attrs, #[trigger] entries[j]),
            decreases entries.len() - k,
        {
            if !self.entry_matched(&template[k]) {
                assert(!spec_entry_matched(attrs, entries[k as int]));
                return false;
            }
            k += 1;
        }
        true
    }

    /// The key type, where the object is a private or secret key.
    pub fn private_key_type(&self) -> (r: Option<u64>)
        ensures
            r == spec_private_key_type(self@.attrs),
    {
        let class = match self.find_attr(CKA_CLASS) {
            Some(a) => match a.to_ulong() {
                Ok(u) => u,
                Err(_) => CK_UNAVAILABLE_INFORMATION,
            },
            None => CK_UNAVAILABLE_INFORMATION,
        };
        let key_type = match self.find_attr(CKA_KEY_TYPE) {
            Some(a) => match a.to_ulong() {
                Ok(u) => u,
                Err(_) => CK_UNAVAILABLE_INFORMATION,
            },
            None => CK_UNAVAILABLE_INFORMATION,
        };
        if class == CKO_PRIVATE_KEY || class == CKO_SECRET_KEY {
            Some(key_type)
        } else {
            None
        }
    }

    /// The key type whose sensitive id set gates read-back of this
    /// object, where there is one.
    pub fn needs_sensitivity_check(&self) -> (r: Option<u64>)
        ensures
            r == spec_needs_sensitivity(self@.attrs),
    {
        match self.private_key_type() {
            Some(kt) => {
                if sensitive_key_type(kt) {
                    Some(kt)
                } else {
                    None
                }
            },
            None => None,
        }
    }

    /// Whether reading the attribute id must be refused: the id is in
    /// the key type's sensitive set and the object is sensitive or not
    /// extractable.
    pub fn is_sensitive_attr(&self, id: u64, kt: u64) -> (r: bool)
        ensures
            r == spec_is_sensitive_attr(self@.attrs, kt, id),
    {
        if !is_sensitive_id(kt, id) {
            return false;
        }
        if self.is_sensitive() {
            return true;
        }
        if !self.is_extractable() {
            return true;
        }
        false
    }

    /// Best-effort template fill (attribute read-back).
    ///
    /// Every entry is processed: a sensitive-gated id or an absent id
    /// leaves the length sentinel; a missing buffer receives the
    /// required length; a short buffer leaves the sentinel; otherwise
    /// the value bytes are copied out.  The worst return code across
    /// the template is reported, ranked
    /// `ATTRIBUTE_SENSITIVE > BUFFER_TOO_SMALL > ATTRIBUTE_TYPE_INVALID`.
    pub fn fill_template(&self, template: &mut Vec<CkAttribute>) -> (r: KResult<()>)
        ensures
            final(template)@.len() == old(template)@.len(),
            forall|k: int| 0 <= k < old(template)@.len() ==> final(template)@[k]@
                == spec_fill_entry_out(self@.attrs, #[trigger] old(template)@[k]@),
            ({
                let worst = spec_fill_worst(
                    self@.attrs,
                    old(template)@.map_values(|e: CkAttribute| e@),
                );
                r == if worst == CKR_OK {
                    Ok::<(), KError>(())
                } else {
                    Err::<(), KError>(KError::RvError(worst))
                }
            }),
    {
        let ghost attrs = self@.attrs;
        let ghost entries = old(template)@.map_values(|e: CkAttribute| e@);
        let kt_opt = self.needs_sensitivity_check();
        let mut rv: u64 = CKR_OK;
        let mut k: usize = 0;
        proof {
            assert(entries.take(0) =~= Seq::<CkAttrView>::empty());
        }
        while k < template.len()
            invariant
                0 <= k <= entries.len(),
                attrs == self@.attrs,
                entries == old(template)@.map_values(|e: CkAttribute| e@),
                entries.len() == old(template)@.len(),
                template@.len() == old(template)@.len(),
                kt_opt == spec_needs_sensitivity(attrs),
                forall|j: int| 0 <= j < k ==> template@[j]@
                    == spec_fill_entry_out(attrs, #[trigger] old(template)@[j]@),
                forall|j: int| k <= j < entries.len() ==> template@[j] == old(template)@[j],
                rv == spec_fill_worst(attrs, entries.take(k as int)),
            decreases entries.len() - k,
        {
            let ghost e = entries[k as int];
            let id = template[k].id;
            let cap = template[k].len;
            let has_buf = template[k].value.is_some();
            let gated = match kt_opt {
                Some(kt) => self.is_sensitive_attr(id, kt),
                None => false,
            };
            let rc: u64;
            if gated {
                set_entry_len(template, k, CK_UNAVAILABLE_INFORMATION);
                rc = CKR_ATTRIBUTE_SENSITIVE;
            } else {
                match self.find_attr(id) {
                    None => {
                        set_entry_len(template, k, CK_UNAVAILABLE_INFORMATION);
                        rc = CKR_ATTRIBUTE_TYPE_INVALID;
                    },
                    Some(a) => {
                        let n = a.get_value().len();
                        if !has_buf {
                            set_entry_len(template, k, n as u64);
                            rc = CKR_OK;
                        } else if cap < n as u64 {
                            set_entry_len(template, k, CK_UNAVAILABLE_INFORMATION);
                            rc = CKR_BUFFER_TOO_SMALL;
                        } else {
                            let copy = clone_bytes(a.get_value());
                            template.set(k, CkAttribute { id, value: Some(copy), len: n as u64 });
                            rc = CKR_OK;
                        }
                    },
                }
            }
            proof {
                assert(template@[k as int]@ == spec_fill_entry_out(attrs, e));
                assert(rc == spec_fill_entry_rc(attrs, e));
                assert(entries.take(k as int + 1).drop_last() =~= entries.take(k as int));
                assert(entries.take(k as int + 1).last() == e);
            }
            rv = worse_rc(rv, rc);
            k += 1;
        }
        proof {
            assert(entries.take(entries.len() as int) =~= entries);
        }
        if rv == CKR_OK {
            Ok(())
        } else {
            Err(KError::RvError(rv))
        }
    }
}

/// Replace one template entry's reported length, keeping its value.
fn set_entry_len(template: &mut Vec<CkAttribute>, k: usize, len: u64)
    requires
        k < old(template)@.len(),
    ensures
        final(template)@.len() == old(template)@.len(),
        final(template)@[k as int]@ == (CkAttrView { len, ..old(template)@[k as int]@ }),
        forall|j: int| 0 <= j < old(template)@.len() && j != k ==> final(template)@[j]
            == old(template)@[j],
{
    let id = template[k].id;
    let value = match &template[k].value {
        Some(v) => Some(clone_bytes(v)),
        None => None,
    };
    template.set(k, CkAttribute { id, value, len });
}

/// The worse of two fill return codes, ranked
/// `ATTRIBUTE_SENSITIVE > BUFFER_TOO_SMALL > ATTRIBUTE_TYPE_INVALID > OK`.
fn worse_rc(a: u64, b: u64) -> (r: u64)
    ensures
        r == spec_worse_rc(a, b),
{
    let ra = if a == CKR_OK {
        0u64
    } else if a == CKR_ATTRIBUTE_TYPE_INVALID {
        1u64
    } else if a == CKR_BUFFER_TOO_SMALL {
        2u64
    } else {
        3u64
    };
    let rb = if b == CKR_OK {
        0u64
    } else if b == CKR_ATTRIBUTE_TYPE_INVALID {
        1u64
    } else if b == CKR_BUFFER_TOO_SMALL {
        2u64
    } else {
        3u64
    };
    if rb > ra {
        b
    } else {
        a
    }
}

/// The boolean value of one attribute, or the default where the bytes
/// are not a single-byte boolean.
pub open spec fn spec_attr_bool_or(a: AttrView, def: bool) -> bool {
    if a.atype == AttrType::BoolType && a.value.len() == 1 {
        a.value[0] != 0
    } else {
        def
    }
}

/// The boolean attribute with the given id, or the default.
pub open spec fn spec_bool_attr(attrs: Seq<AttrView>, id: u64, def: bool) -> bool {
    match spec_find_attr(attrs, id) {
        Some(a) => spec_attr_bool_or(a, def),
        None => def,
    }
}

/// The ulong value of one attribute, or the default where the bytes are
/// not a machine ulong.
pub open spec fn spec_attr_ulong_or(a: AttrView, def: u64) -> u64 {
    if a.atype == AttrType::NumType && a.value.len() == 8 {
        spec_u64_from_le_bytes(a.value)
    } else {
        def
    }
}

pub open spec fn spec_get_attr_as_bool(attrs: Seq<AttrView>, t: u64) -> KResult<bool> {
    match spec_find_attr(attrs, t) {
        Some(a) => {
            if a.atype != AttrType::BoolType {
                Err(KError::RvError(CKR_ATTRIBUTE_TYPE_INVALID))
            } else if a.value.len() != 1 {
                Err(KError::RvError(CKR_ATTRIBUTE_VALUE_INVALID))
            } else {
                Ok(a.value[0] != 0)
            }
        },
        None => Err(KError::NotFound),
    }
}

pub open spec fn spec_get_attr_as_ulong(attrs: Seq<AttrView>, t: u64) -> KResult<u64> {
    match spec_find_attr(attrs, t) {
        Some(a) => {
            if a.atype != AttrType::NumType {
                Err(KError::RvError(CKR_ATTRIBUTE_TYPE_INVALID))
            } else if a.value.len() != 8 {
                Err(KError::RvError(CKR_ATTRIBUTE_VALUE_INVALID))
            } else {
                Ok(spec_u64_from_le_bytes(a.value))
            }
        },
        None => Err(KError::NotFound),
    }
}

pub open spec fn spec_get_attr_as_string(attrs: Seq<AttrView>, t: u64) -> KResult<Seq<u8>> {
    match spec_find_attr(attrs, t) {
        Some(a) => {
            if a.atype != AttrType::StringType {
                Err(KError::RvError(CKR_ATTRIBUTE_TYPE_INVALID))
            } else {
                Ok(a.value)
            }
        },
        None => Err(KError::NotFound),
    }
}

pub open spec fn spec_get_attr_as_bytes(attrs: Seq<AttrView>, t: u64) -> KResult<Seq<u8>> {
    match spec_find_attr(attrs, t) {
        Some(a) => {
            if a.atype != AttrType::BytesType {
                Err(KError::RvError(CKR_ATTRIBUTE_TYPE_INVALID))
            } else {
                Ok(a.value)
            }
        },
        None => Err(KError::NotFound),
    }
}

/// Whether some attribute matches the template entry.
pub open spec fn spec_entry_matched(attrs: Seq<AttrView>, e: CkAttrView) -> bool {
    exists|i: int| 0 <= i < attrs.len() && spec_attr_match_entry(#[trigger] attrs[i], e)
}

/// Whether every template entry is matched by some attribute.
pub open spec fn spec_match_template(attrs: Seq<AttrView>, entries: Seq<CkAttrView>) -> bool {
    forall|k: int| 0 <= k < entries.len() ==> spec_entry_matched(attrs, #[trigger] entries[k])
}

/// The key type, where the object's class is private or secret key.
pub open spec fn spec_private_key_type(attrs: Seq<AttrView>) -> Option<u64> {
    let class = match spec_find_attr(attrs, CKA_CLASS) {
        Some(a) => spec_attr_ulong_or(a, CK_UNAVAILABLE_INFORMATION),
        None => CK_UNAVAILABLE_INFORMATION,
    };
    let key_type = match spec_find_attr(attrs, CKA_KEY_TYPE) {
        Some(a) => spec_attr_ulong_or(a, CK_UNAVAILABLE_INFORMATION),
        None => CK_UNAVAILABLE_INFORMATION,
    };
    if class == CKO_PRIVATE_KEY || class == CKO_SECRET_KEY {
        Some(key_type)
    } else {
        None
    }
}

/// Whether the key type has a sensitive id set.
pub open spec fn spec_sensitive_key_type(kt: u64) -> bool {
    kt == CKK_RSA || kt == CKK_EC || kt == CKK_EC_EDWARDS || kt == CKK_EC_MONTGOMERY
        || kt == CKK_DH || kt == CKK_X9_42_DH || kt == CKK_DSA || kt == CKK_GENERIC_SECRET
}

/// The sensitive id set of each key class.
pub open spec fn spec_is_sensitive_id(kt: u64, id: u64) -> bool {
    if kt == CKK_RSA {
        id == CKA_PRIVATE_EXPONENT || id == CKA_PRIME_1 || id == CKA_PRIME_2
            || id == CKA_EXPONENT_1 || id == CKA_EXPONENT_2 || id == CKA_COEFFICIENT
    } else if kt == CKK_EC || kt == CKK_EC_EDWARDS || kt == CKK_EC_MONTGOMERY {
        id == CKA_VALUE
    } else if kt == CKK_DH || kt == CKK_X9_42_DH {
        id == CKA_VALUE || id == CKA_VALUE_BITS
    } else if kt == CKK_DSA {
        id == CKA_VALUE
    } else if kt == CKK_GENERIC_SECRET {
        id == CKA_VALUE || id == CKA_VALUE_LEN
    } else {
        false
    }
}

pub fn sensitive_key_type(kt: u64) -> (r: bool)
    ensures
        r == spec_sensitive_key_type(kt),
{
    kt == CKK_RSA || kt == CKK_EC || kt == CKK_EC_EDWARDS || kt == CKK_EC_MONTGOMERY
        || kt == CKK_DH || kt == CKK_X9_42_DH || kt == CKK_DSA || kt == CKK_GENERIC_SECRET
}

pub fn is_sensitive_id(kt: u64, id: u64) -> (r: bool)
    ensures
        r == spec_is_sensitive_id(kt, id),
{
    if kt == CKK_RSA {
        id == CKA_PRIVATE_EXPONENT || id == CKA_PRIME_1 || id == CKA_PRIME_2
            || id == CKA_EXPONENT_1 || id == CKA_EXPONENT_2 || id == CKA_COEFFICIENT
    } else if kt == CKK_EC || kt == CKK_EC_EDWARDS || kt == CKK_EC_MONTGOMERY {
        id == CKA_VALUE
    } else if kt == CKK_DH || kt == CKK_X9_42_DH {
        id == CKA_VALUE || id == CKA_VALUE_BITS
    } else if kt == CKK_DSA {
        id == CKA_VALUE
    } else if kt == CKK_GENERIC_SECRET {
        id == CKA_VALUE || id == CKA_VALUE_LEN
    } else {
        false
    }
}

/// The sensitive id set that gates read-back, keyed by key type.
pub open spec fn spec_needs_sensitivity(attrs: Seq<AttrView>) -> Option<u64> {
    match spec_private_key_type(attrs) {
        Some(kt) => if spec_sensitive_key_type(kt) {
            Some(kt)
        } else {
            None
        },
        None => None,
    }
}

/// Whether reading the id must be refused on this object.
pub open spec fn spec_is_sensitive_attr(attrs: Seq<AttrView>, kt: u64, id: u64) -> bool {
    &&& spec_is_sensitive_id(kt, id)
    &&& (spec_bool_attr(attrs, CKA_SENSITIVE, true) || !spec_bool_attr(
        attrs,
        CKA_EXTRACTABLE,
        false,
    ))
}

/// Whether one template entry is sensitive-gated on this object.
pub open spec fn spec_fill_gated(attrs: Seq<AttrView>, id: u64) -> bool {
    match spec_needs_sensitivity(attrs) {
        Some(kt) => spec_is_sensitive_attr(attrs, kt, id),
        None => false,
    }
}

/// The return code one fill entry contributes.
pub open spec fn spec_fill_entry_rc(attrs: Seq<AttrView>, e: CkAttrView) -> u64 {
    if spec_fill_gated(attrs, e.id) {
        CKR_ATTRIBUTE_SENSITIVE
    } else {
        match spec_find_attr(attrs, e.id) {
            None => CKR_ATTRIBUTE_TYPE_INVALID,
            Some(a) => match e.value {
                None => CKR_OK,
                Some(_) => if (e.len as int) < a.value.len() {
                    CKR_BUFFER_TOO_SMALL
                } else {
                    CKR_OK
                },
            },
        }
    }
}

/// The state of one template entry after the fill.
pub open spec fn spec_fill_entry_out(attrs: Seq<AttrView>, e: CkAttrView) -> CkAttrView {
    if spec_fill_gated(attrs, e.id) {
        CkAttrView { len: CK_UNAVAILABLE_INFORMATION, ..e }
    } else {
        match spec_find_attr(attrs, e.id) {
            None => CkAttrView { len: CK_UNAVAILABLE_INFORMATION, ..e },
            Some(a) => match e.value {
                None => CkAttrView { len: a.value.len() as u64, ..e },
                Some(_) => if (e.len as int) < a.value.len() {
                    CkAttrView { len: CK_UNAVAILABLE_INFORMATION, ..e }
                } else {
                    CkAttrView { id: e.id, value: Some(a.value), len: a.value.len() as u64 }
                },
            },
        }
    }
}

/// The rank that orders fill return codes from best to worst.
pub open spec fn spec_rc_rank(rc: u64) -> int {
    if rc == CKR_OK {
        0
    } else if rc == CKR_ATTRIBUTE_TYPE_INVALID {
        1
    } else if rc == CKR_BUFFER_TOO_SMALL {
        2
    } else {
        3
    }
}

pub open spec fn spec_worse_rc(a: u64, b: u64) -> u64 {
    if spec_rc_rank(b) > spec_rc_rank(a) {
        b
    } else {
        a
    }
}

/// The worst return code a template fill reports.
pub open spec fn spec_fill_worst(attrs: Seq<AttrView>, entries: Seq<CkAttrView>) -> u64
    decreases entries.len(),
{
    if entries.len() == 0 {
        CKR_OK
    } else {
        spec_worse_rc(
            spec_fill_worst(attrs, entries.drop_last()),
            spec_fill_entry_rc(attrs, entries.last()),
        )
    }
}

/// The worst fill code is one of the per-entry codes or `CKR_OK`.
proof fn lemma_fill_worst_cases(attrs: Seq<AttrView>, entries: Seq<CkAttrView>)
    ensures
        spec_fill_worst(attrs, entries) == CKR_OK || spec_fill_worst(attrs, entries)
            == CKR_ATTRIBUTE_TYPE_INVALID || spec_fill_worst(attrs, entries)
            == CKR_BUFFER_TOO_SMALL || spec_fill_worst(attrs, entries) == CKR_ATTRIBUTE_SENSITIVE,
    decreases entries.len(),
{
    if entries.len() > 0 {
        lemma_fill_worst_cases(attrs, entries.drop_last());
    }
}

/// Law: a sensitive-gated read is rejected.  For an object of a
/// private- or secret-key class whose key type carries a sensitive id
/// set, if the object is sensitive or not extractable, then filling a
/// template entry that names an id of that set leaves the length
/// sentinel in the entry, and the fill as a whole reports
/// `ATTRIBUTE_SENSITIVE`.
pub proof fn lemma_sensitive_read_gated(
    attrs: Seq<AttrView>,
    entries: Seq<CkAttrView>,
    k: int,
)
    requires
        0 <= k < entries.len(),
        spec_private_key_type(attrs) matches Some(kt) && spec_sensitive_key_type(kt)
            && spec_is_sensitive_id(kt, entries[k].id),
        spec_bool_attr(attrs, CKA_SENSITIVE, true) || !spec_bool_attr(
            attrs,
            CKA_EXTRACTABLE,
            false,
        ),
    ensures
        spec_fill_entry_out(attrs, entries[k]).len == CK_UNAVAILABLE_INFORMATION,
        spec_fill_worst(attrs, entries) == CKR_ATTRIBUTE_SENSITIVE,
    decreases entries.len(),
{
    assert(spec_fill_gated(attrs, entries[k].id));
    assert(spec_fill_entry_rc(attrs, entries[k]) == CKR_ATTRIBUTE_SENSITIVE);
    if k == entries.len() - 1 {
        lemma_fill_worst_cases(attrs, entries.drop_last());
    } else {
        lemma_sensitive_read_gated(attrs, entries.drop_last(), k);
        assert(entries.drop_last()[k] == entries[k]);
    }
}

/* attribute schemas for object factories */

/// Schema-entry flag: fill the entry's default where absent.
pub const OAF_DEFVAL: u64 = 0x1;

/// Schema-entry flag: the value is withheld on sensitive keys.
pub const OAF_SENSITIVE: u64 = 0x2;

/// Schema-entry flag: the template must supply it on create.
pub const OAF_REQUIRED_ON_CREATE: u64 = 0x4;

/// Schema-entry flag: the template must supply it on generate.
pub const OAF_REQUIRED_ON_GENERATE: u64 = 0x8;

/// Schema-entry flag: settable only at creation time.
pub const OAF_SETTABLE_ONLY_ON_CREATE: u64 = 0x10;

/// Schema-entry flag: replaced when an object is copied.
pub const OAF_CHANGE_ON_COPY: u64 = 0x20;

/// Schema-entry flag: never changed after creation.
pub const OAF_UNCHANGEABLE: u64 = 0x40;

/// One entry of a factory's attribute schema: the default value carrier
/// (which also fixes id and kind) and the entry's flags.
#[derive(Debug, Clone)]
pub struct ObjectAttr {
    pub attr: Attribute,
    pub flags: u64,
}

/// The mathematical model of a schema entry.
pub struct OAView {
    pub attr: AttrView,
    pub flags: u64,
}

impl View for ObjectAttr {
    type V = OAView;

    open spec fn view(&self) -> OAView {
        OAView { attr: self.attr@, flags: self.flags }
    }
}

impl ObjectAttr {
    pub fn new(attr: Attribute, flags: u64) -> (r: ObjectAttr)
        ensures
            r@.attr == attr@,
            r@.flags == flags,
    {
        ObjectAttr { attr, flags }
    }

    pub fn get_type(&self) -> (r: u64)
        ensures
            r == self@.attr.id,
    {
        self.attr.get_type()
    }
}

/// Whether the schema knows the attribute id.
pub open spec fn spec_schema_has(cattrs: Seq<OAView>, id: u64) -> bool {
    exists|k: int| 0 <= k < cattrs.len() && (#[trigger] cattrs[k]).attr.id == id
}

/// Whether the object attribute at `i` fails the schema scan: its id is
/// unknown to the schema, or it duplicates an earlier attribute.
pub open spec fn spec_entry_bad(attrs: Seq<AttrView>, cattrs: Seq<OAView>, i: int) -> bool {
    ||| !spec_schema_has(cattrs, attrs[i].id)
    ||| exists|j: int| 0 <= j < i && (#[trigger] attrs[j]).id == attrs[i].id
}

/// The first failing attribute at or after `i`, if any.
pub open spec fn spec_first_bad_from(attrs: Seq<AttrView>, cattrs: Seq<OAView>, i: int) -> Option<
    int,
>
    decreases attrs.len() - i,
{
    if i < 0 || i >= attrs.len() {
        None
    } else if spec_entry_bad(attrs, cattrs, i) {
        Some(i)
    } else {
        spec_first_bad_from(attrs, cattrs, i + 1)
    }
}

/// Whether a required schema entry can never be satisfied: demanded by
/// the flag, absent from the object, and without a default.
pub open spec fn spec_required_missing(attrs: Seq<AttrView>, c: OAView, req_flag: u64) -> bool {
    &&& c.flags & req_flag != 0
    &&& !spec_has_attr(attrs, c.attr.id)
    &&& c.flags & OAF_DEFVAL == 0
}

/// The defaults a schema adds to an object: for each entry marked
/// `Defval` whose id the object does not carry, the default value, in
/// schema order.
pub open spec fn spec_missing_defaults(attrs: Seq<AttrView>, cattrs: Seq<OAView>) -> Seq<AttrView>
    decreases cattrs.len(),
{
    if cattrs.len() == 0 {
        Seq::empty()
    } else {
        spec_missing_defaults(attrs, cattrs.drop_last()) + (
        if cattrs.last().flags & OAF_DEFVAL != 0 && !spec_has_attr(attrs, cattrs.last().attr.id) {
            seq![cattrs.last().attr]
        } else {
            Seq::empty()
        })
    }
}

/// The outcome of the generic schema check on an object's attributes:
/// the first unknown id gives `ATTRIBUTE_VALUE_INVALID`, the first
/// duplicate `TEMPLATE_INCONSISTENT`, a required entry that is absent
/// and has no default `TEMPLATE_INCOMPLETE`, else `CKR_OK`.
pub open spec fn spec_check_rc(attrs: Seq<AttrView>, cattrs: Seq<OAView>, req_flag: u64) -> u64 {
    match spec_first_bad_from(attrs, cattrs, 0) {
        Some(i) => if !spec_schema_has(cattrs, attrs[i].id) {
            CKR_ATTRIBUTE_VALUE_INVALID
        } else {
            CKR_TEMPLATE_INCONSISTENT
        },
        None => if exists|k: int|
            0 <= k < cattrs.len() && spec_required_missing(attrs, #[trigger] cattrs[k], req_flag) {
            CKR_TEMPLATE_INCOMPLETE
        } else {
            CKR_OK
        },
    }
}

/// A first match over a concatenation exists exactly where one exists
/// in either part.
pub proof fn lemma_has_attr_append(a: Seq<AttrView>, b: Seq<AttrView>, id: u64)
    ensures
        spec_has_attr(a + b, id) <==> (spec_has_attr(a, id) || spec_has_attr(b, id)),
    decreases a.len(),
{
    if a.len() == 0 {
        assert(a + b =~= b);
    } else {
        assert((a + b)[0] == a[0]);
        if a[0].id != id {
            assert((a + b).skip(1) =~= a.skip(1) + b);
            lemma_has_attr_append(a.skip(1), b, id);
        }
    }
}

/// A schema entry filled by default is present among the defaults.
proof fn lemma_missing_defaults_has(attrs: Seq<AttrView>, cattrs: Seq<OAView>, k: int)
    requires
        0 <= k < cattrs.len(),
        cattrs[k].flags & OAF_DEFVAL != 0,
        !spec_has_attr(attrs, cattrs[k].attr.id),
    ensures
        spec_has_attr(spec_missing_defaults(attrs, cattrs), cattrs[k].attr.id),
    decreases cattrs.len(),
{
    let id = cattrs[k].attr.id;
    if k == cattrs.len() - 1 {
        let tail = seq![cattrs.last().attr];
        assert(spec_has_attr(tail, id)) by {
            assert(tail[0].id == id);
        }
        lemma_has_attr_append(spec_missing_defaults(attrs, cattrs.drop_last()), tail, id);
    } else {
        lemma_missing_defaults_has(attrs, cattrs.drop_last(), k);
        let front = spec_missing_defaults(attrs, cattrs.drop_last());
        if cattrs.last().flags & OAF_DEFVAL != 0 && !spec_has_attr(attrs, cattrs.last().attr.id) {
            lemma_has_attr_append(front, seq![cattrs.last().attr], id);
        } else {
            assert(spec_missing_defaults(attrs, cattrs) =~= front);
        }
    }
}

/// Law: after a schema check that reports `CKR_OK`, every schema entry
/// demanded by the required flag is present on the object once the
/// missing defaults are appended.
pub proof fn lemma_required_present(
    attrs: Seq<AttrView>,
    cattrs: Seq<OAView>,
    req_flag: u64,
    k: int,
)
    requires
        spec_check_rc(attrs, cattrs, req_flag) == CKR_OK,
        0 <= k < cattrs.len(),
        cattrs[k].flags & req_flag != 0,
    ensures
        spec_has_attr(attrs + spec_missing_defaults(attrs, cattrs), cattrs[k].attr.id),
{
    let id = cattrs[k].attr.id;
    let defaults = spec_missing_defaults(attrs, cattrs);
    assert(!spec_required_missing(attrs, cattrs[k], req_flag));
    if spec_has_attr(attrs, id) {
        lemma_has_attr_append(attrs, defaults, id);
    } else {
        assert(cattrs[k].flags & OAF_DEFVAL != 0);
        lemma_missing_defaults_has(attrs, cattrs, k);
        lemma_has_attr_append(attrs, defaults, id);
    }
}

/// Whether the schema knows the attribute id.
pub fn schema_has(cattrs: &Vec<ObjectAttr>, id: u64) -> (r: bool)
    ensures
        r == spec_schema_has(cattrs@.map_values(|c: ObjectAttr| c@), id),
{
    let ghost cviews = cattrs@.map_values(|c: ObjectAttr| c@);
    let mut k: usize = 0;
    while k < cattrs.len()
        invariant
            0 <= k <= cviews.len(),
            cviews == cattrs@.map_values(|c: ObjectAttr| c@),
            cviews.len() == cattrs@.len(),
            forall|j: int| 0 <= j < k ==> (#[trigger] cviews[j]).attr.id != id,
        decreases cviews.len() - k,
    {
        if cattrs[k].get_type() == id {
            assert(cviews[k as int].attr.id == id);
            return true;
        }
        k += 1;
    }
    false
}

/// The generic schema check and default filling of object creation:
/// reject unknown ids and duplicates, append defaults for absent
/// entries marked `Defval`, and demand the entries the required flag
/// names.
pub fn basic_object_attrs_checks(obj: &mut Object, cattrs: &Vec<ObjectAttr>, req_flag: u64) -> (rc:
    u64)
    ensures
        final(obj)@.handle == old(obj)@.handle,
        final(obj)@.session == old(obj)@.session,
        final(obj)@.modified == old(obj)@.modified,
        rc == spec_check_rc(old(obj)@.attrs, cattrs@.map_values(|c: ObjectAttr| c@), req_flag),
        ({
            let attrs0 = old(obj)@.attrs;
            let cviews = cattrs@.map_values(|c: ObjectAttr| c@);
            if rc == CKR_ATTRIBUTE_VALUE_INVALID || rc == CKR_TEMPLATE_INCONSISTENT {
                final(obj)@.attrs == attrs0
            } else {
                final(obj)@.attrs == attrs0 + spec_missing_defaults(attrs0, cviews)
            }
        }),
{
    let ghost attrs0 = obj@.attrs;
    let ghost cviews = cattrs@.map_values(|c: ObjectAttr| c@);

    /* reject unknown ids and duplicates */
    let mut i: usize = 0;
    while i < obj.attributes.len()
        invariant
            0 <= i <= attrs0.len(),
            *obj == *old(obj),
            attrs0 == obj@.attrs,
            attrs0.len() == obj.attributes@.len(),
            cviews == cattrs@.map_values(|c: ObjectAttr| c@),
            spec_first_bad_from(attrs0, cviews, 0) == spec_first_bad_from(attrs0, cviews, i as int),
            forall|j: int| 0 <= j < i ==> !spec_entry_bad(attrs0, cviews, j),
        decreases attrs0.len() - i,
    {
        let typ = obj.attributes[i].get_type();
        if !schema_has(cattrs, typ) {
            assert(spec_entry_bad(attrs0, cviews, i as int));
            return CKR_ATTRIBUTE_VALUE_INVALID;
        }
        let mut j: usize = 0;
        while j < i
            invariant
                0 <= j <= i < attrs0.len(),
                *obj == *old(obj),
                attrs0 == obj@.attrs,
                attrs0.len() == obj.attributes@.len(),
                cviews == cattrs@.map_values(|c: ObjectAttr| c@),
                typ == attrs0[i as int].id,
                spec_schema_has(cviews, typ),
                spec_first_bad_from(attrs0, cviews, 0) == spec_first_bad_from(
                    attrs0,
                    cviews,
                    i as int,
                ),
                forall|l: int| 0 <= l < j ==> (#[trigger] attrs0[l]).id != typ,
            decreases i - j,
        {
            if obj.attributes[j].get_type() == typ {
                assert((attrs0[j as int]).id == attrs0[i as int].id);
                assert(spec_entry_bad(attrs0, cviews, i as int));
                assert(spec_first_bad_from(attrs0, cviews, i as int) == Some(i as int));
                return CKR_TEMPLATE_INCONSISTENT;
            }
            j += 1;
        }
        assert(!spec_entry_bad(attrs0, cviews, i as int));
        i += 1;
    }
    assert(spec_first_bad_from(attrs0, cviews, 0) is None);

    /* which schema entries the object already carries */
    let mut present: Vec<bool> = Vec::new();
    let mut k: usize = 0;
    while k < cattrs.len()
        invariant
            0 <= k <= cviews.len(),
            *obj == *old(obj),
            attrs0 == obj@.attrs,
            cviews == cattrs@.map_values(|c: ObjectAttr| c@),
            cviews.len() == cattrs@.len(),
            present@.len() == k,
            forall|j: int| 0 <= j < k ==> present@[j] == spec_has_attr(
                attrs0,
                (#[trigger] cviews[j]).attr.id,
            ),
        decreases cviews.len() - k,
    {
        let p = obj.find_attr(cattrs[k].get_type()).is_some();
        present.push(p);
        k += 1;
    }

    /* append defaults for absent entries marked Defval */
    k = 0;
    proof {
        assert(cviews.take(0) =~= Seq::<OAView>::empty());
        assert(attrs0 + spec_missing_defaults(attrs0, cviews.take(0)) =~= attrs0);
    }
    while k < cattrs.len()
        invariant
            0 <= k <= cviews.len(),
            obj@.handle == old(obj)@.handle,
            obj@.session == old(obj)@.session,
            obj@.modified == old(obj)@.modified,
            attrs0 == old(obj)@.attrs,
            cviews == cattrs@.map_values(|c: ObjectAttr| c@),
            cviews.len() == cattrs@.len(),
            present@.len() == cviews.len(),
            forall|j: int| 0 <= j < cviews.len() ==> present@[j] == spec_has_attr(
                attrs0,
                (#[trigger] cviews[j]).attr.id,
            ),
            obj@.attrs == attrs0 + spec_missing_defaults(attrs0, cviews.take(k as int)),
        decreases cviews.len() - k,
    {
        proof {
            assert(cviews.take(k as int + 1).drop_last() =~= cviews.take(k as int));
            assert(cviews.take(k as int + 1).last() == cviews[k as int]);
        }
        if cattrs[k].flags & OAF_DEFVAL != 0 && !present[k] {
            append_attr(obj, clone_attr(&cattrs[k].attr));
            assert(obj@.attrs =~= attrs0 + spec_missing_defaults(
                attrs0,
                cviews.take(k as int + 1),
            ));
        } else {
            assert(obj@.attrs =~= attrs0 + spec_missing_defaults(
                attrs0,
                cviews.take(k as int + 1),
            ));
        }
        k += 1;
    }
    proof {
        assert(cviews.take(cviews.len() as int) =~= cviews);
    }

    /* every required entry must now be satisfiable */
    k = 0;
    while k < cattrs.len()
        invariant
            0 <= k <= cviews.len(),
            obj@.handle == old(obj)@.handle,
            obj@.session == old(obj)@.session,
            obj@.modified == old(obj)@.modified,
            attrs0 == old(obj)@.attrs,
            obj@.attrs == attrs0 + spec_missing_defaults(attrs0, cviews),
            spec_first_bad_from(attrs0, cviews, 0) is None,
            cviews == cattrs@.map_values(|c: ObjectAttr| c@),
            cviews.len() == cattrs@.len(),
            present@.len() == cviews.len(),
            forall|j: int| 0 <= j < cviews.len() ==> present@[j] == spec_has_attr(
                attrs0,
                (#[trigger] cviews[j]).attr.id,
            ),
            forall|j: int|
                0 <= j < k ==> !spec_required_missing(attrs0, #[trigger] cviews[j], req_flag),
        decreases cviews.len() - k,
    {
        if cattrs[k].flags & req_flag != 0 && !present[k] && cattrs[k].flags & OAF_DEFVAL == 0 {
            assert(spec_required_missing(attrs0, cviews[k as int], req_flag));
            return CKR_TEMPLATE_INCOMPLETE;
        }
        k += 1;
    }
    CKR_OK
}

/// Append an attribute without touching the modified flag (creation
/// fills defaults before the object is handed out).
pub fn append_attr(obj: &mut Object, a: Attribute)
    ensures
        final(obj)@.handle == old(obj)@.handle,
        final(obj)@.session == old(obj)@.session,
        final(obj)@.modified == old(obj)@.modified,
        final(obj)@.attrs == old(obj)@.attrs.push(a@),
{
    obj.attributes.push(a);
    assert(obj@.attrs =~= old(obj)@.attrs.push(a@));
}

/// A first match depends only on the ids in the sequence.
proof fn lemma_find_index_ids_eq(s1: Seq<AttrView>, s2: Seq<AttrView>, id: u64)
    requires
        s1.len() == s2.len(),
        forall|j: int| 0 <= j < s1.len() ==> (#[trigger] s1[j]).id == s2[j].id,
    ensures
        spec_find_index(s1, id) == spec_find_index(s2, id),
    decreases s1.len(),
{
    if s1.len() > 0 {
        assert(s1[0].id == s2[0].id);
        if s1[0].id != id {
            assert forall|j: int| 0 <= j < s1.skip(1).len() implies (#[trigger] s1.skip(1)[j]).id
                == s2.skip(1)[j].id by {
                assert(s1[j + 1].id == s2[j + 1].id);
            }
            lemma_find_index_ids_eq(s1.skip(1), s2.skip(1), id);
        }
    }
}

/// A first match over a sequence extended by one element.
proof fn lemma_find_index_push(attrs: Seq<AttrView>, a: AttrView, q: u64)
    ensures
        spec_find_index(attrs.push(a), q) == match spec_find_index(attrs, q) {
            Some(i) => Some(i),
            None => if a.id == q {
                Some(attrs.len() as int)
            } else {
                None
            },
        },
    decreases attrs.len(),
{
    if attrs.len() == 0 {
        assert(attrs.push(a)[0] == a);
        assert(attrs.push(a).skip(1) =~= Seq::<AttrView>::empty());
        assert(spec_find_index(Seq::<AttrView>::empty(), q) is None);
        if a.id == q {
            assert(spec_find_index(attrs.push(a), q) == Some(0int));
        } else {
            assert(spec_find_index(attrs.push(a), q) is None);
        }
        assert(spec_find_index(attrs, q) is None);
    } else {
        assert(attrs.push(a)[0] == attrs[0]);
        if attrs[0].id == q {
            assert(spec_find_index(attrs.push(a), q) == Some(0int));
            assert(spec_find_index(attrs, q) == Some(0int));
        } else {
            assert(attrs.push(a).skip(1) =~= attrs.skip(1).push(a));
            lemma_find_index_push(attrs.skip(1), a, q);
            match spec_find_index(attrs.skip(1), q) {
                Some(i) => {
                    assert(spec_find_index(attrs, q) == Some(i + 1));
                    assert(spec_find_index(attrs.push(a), q) == Some(i + 1));
                },
                None => {
                    assert(spec_find_index(attrs, q) is None);
                    if a.id == q {
                        assert(spec_find_index(attrs.skip(1).push(a), q) == Some(
                            attrs.skip(1).len() as int,
                        ));
                        assert(spec_find_index(attrs.push(a), q) == Some(attrs.len() as int));
                    } else {
                        assert(spec_find_index(attrs.skip(1).push(a), q) is None);
                        assert(spec_find_index(attrs.push(a), q) is None);
                    }
                },
            }
        }
    }
}

/// What `set_attr` does to lookups: the set id now finds the new
/// attribute; every other id finds what it found before.
pub proof fn lemma_set_attr_find(attrs: Seq<AttrView>, a: AttrView, q: u64)
    ensures
        ({
            let attrs2 = match spec_find_index(attrs, a.id) {
                Some(i) => attrs.update(i, a),
                None => attrs.push(a),
            };
            &&& spec_find_attr(attrs2, a.id) == Some(a)
            &&& (q != a.id ==> spec_find_attr(attrs2, q) == spec_find_attr(attrs, q))
        }),
{
    lemma_find_index_props(attrs, a.id);
    match spec_find_index(attrs, a.id) {
        Some(i) => {
            let attrs2 = attrs.update(i, a);
            assert forall|j: int| 0 <= j < attrs.len() implies (#[trigger] attrs[j]).id
                == attrs2[j].id by {}
            lemma_find_index_ids_eq(attrs, attrs2, a.id);
            lemma_find_index_ids_eq(attrs, attrs2, q);
            if q != a.id {
                lemma_find_index_props(attrs, q);
                match spec_find_index(attrs, q) {
                    Some(j) => {
                        assert(attrs[j].id == q && attrs[i].id == a.id);
                        assert(j != i);
                        assert(attrs2[j] == attrs[j]);
                    },
                    None => {},
                }
            }
        },
        None => {
            lemma_find_index_push(attrs, a, a.id);
            lemma_find_index_push(attrs, a, q);
            assert(attrs.push(a)[attrs.len() as int] == a);
            if q != a.id {
                lemma_find_index_props(attrs, q);
                match spec_find_index(attrs, q) {
                    Some(j) => {
                        assert(attrs.push(a)[j] == attrs[j]);
                    },
                    None => {},
                }
            }
        },
    }
}

/// Whether the object is a key of the given class and type that allows
/// the given boolean operation attribute.
pub open spec fn spec_key_ops_ok(attrs: Seq<AttrView>, class: u64, ktype: u64, op: u64) -> bool {
    &&& spec_get_attr_as_ulong(attrs, CKA_CLASS) == Ok::<u64, KError>(class)
    &&& spec_get_attr_as_ulong(attrs, CKA_KEY_TYPE) == Ok::<u64, KError>(ktype)
    &&& spec_bool_attr(attrs, op, false)
}

impl Object {
    /// Assert the key's class, type and permission for one operation;
    /// anything else is `KEY_FUNCTION_NOT_PERMITTED`.
    pub fn check_key_ops(&self, class: u64, ktype: u64, op: u64) -> (r: KResult<()>)
        ensures
            r == if spec_key_ops_ok(self@.attrs, class, ktype, op) {
                Ok::<(), KError>(())
            } else {
                Err::<(), KError>(KError::RvError(CKR_KEY_FUNCTION_NOT_PERMITTED))
            },
    {
        match self.get_attr_as_ulong(CKA_CLASS) {
            Ok(c) => {
                if c != class {
                    return Err(KError::RvError(CKR_KEY_FUNCTION_NOT_PERMITTED));
                }
            },
            Err(_) => {
                return Err(KError::RvError(CKR_KEY_FUNCTION_NOT_PERMITTED));
            },
        }
        match self.get_attr_as_ulong(CKA_KEY_TYPE) {
            Ok(t) => {
                if t != ktype {
                    return Err(KError::RvError(CKR_KEY_FUNCTION_NOT_PERMITTED));
                }
            },
            Err(_) => {
                return Err(KError::RvError(CKR_KEY_FUNCTION_NOT_PERMITTED));
            },
        }
        match self.get_attr_as_bool(op) {
            Ok(true) => Ok(()),
            _ => Err(KError::RvError(CKR_KEY_FUNCTION_NOT_PERMITTED)),
        }
    }

    /// Keep an attribute the object already carries, if it matches byte
    /// for byte, or set it: the answer says whether the object now
    /// carries the wanted value.
    pub fn check_or_set_attr(&mut self, a: Attribute) -> (r: KResult<bool>)
        ensures
            match spec_find_attr(old(self)@.attrs, a@.id) {
                Some(b) => r == Ok::<bool, KError>(b.value == a@.value) && *final(self) == *old(
                    self,
                ),
                None => {
                    &&& r == Ok::<bool, KError>(true)
                    &&& final(self)@.attrs == old(self)@.attrs.push(a@)
                    &&& final(self)@.handle == old(self)@.handle
                    &&& final(self)@.session == old(self)@.session
                    &&& final(self)@.modified == true
                },
            },
    {
        if let Some(b) = self.find_attr(a.get_type()) {
            return Ok(eq_bytes(b.get_value().as_slice(), a.get_value().as_slice()));
        }
        proof {
            lemma_find_index_props(self@.attrs, a@.id);
        }
        let r = self.set_attr(a);
        match r {
            Ok(()) => Ok(true),
            Err(e) => Err(e),
        }
    }
}

/* object creation */

/// Decode a whole template, or fail with the first entry's error.
pub open spec fn spec_decode_entries(entries: Seq<CkAttrView>) -> KResult<Seq<AttrView>>
    decreases entries.len(),
{
    if entries.len() == 0 {
        Ok(Seq::empty())
    } else {
        match spec_decode_entries(entries.drop_last()) {
            Err(e) => Err(e),
            Ok(s) => match spec_decode_entry(entries.last()) {
                Err(e) => Err(e),
                Ok(a) => Ok(s.push(a)),
            },
        }
    }
}

/// A failing entry after a clean prefix decides the whole decode.
proof fn lemma_decode_entries_err(entries: Seq<CkAttrView>, k: int, e: KError)
    requires
        0 <= k < entries.len(),
        spec_decode_entries(entries.take(k)) is Ok,
        spec_decode_entry(entries[k]) == Err::<AttrView, KError>(e),
    ensures
        spec_decode_entries(entries) == Err::<Seq<AttrView>, KError>(e),
    decreases entries.len(),
{
    if k == entries.len() - 1 {
        assert(entries.drop_last() =~= entries.take(k));
    } else {
        assert(entries.drop_last().take(k) =~= entries.take(k));
        assert(entries.drop_last()[k] == entries[k]);
        lemma_decode_entries_err(entries.drop_last(), k, e);
    }
}

/// A schema entry: default value carrier and flags, in model form.
pub open spec fn spec_oa(id: u64, atype: AttrType, value: Seq<u8>, flags: u64) -> OAView {
    OAView { attr: AttrView { id, atype, value }, flags }
}

/// The attribute schema of plain data objects: the common object and
/// storage attributes plus the data-object attributes.
pub open spec fn spec_data_object_schema() -> Seq<OAView> {
    seq![
        spec_oa(CKA_CLASS, AttrType::NumType, spec_u64_to_le_bytes(0), OAF_REQUIRED_ON_CREATE),
        spec_oa(CKA_TOKEN, AttrType::BoolType, seq![0u8], OAF_DEFVAL),
        spec_oa(CKA_PRIVATE, AttrType::BoolType, seq![0u8], OAF_DEFVAL),
        spec_oa(CKA_MODIFIABLE, AttrType::BoolType, seq![1u8], OAF_DEFVAL),
        spec_oa(CKA_LABEL, AttrType::StringType, Seq::empty(), 0),
        spec_oa(CKA_COPYABLE, AttrType::BoolType, seq![1u8], OAF_DEFVAL),
        spec_oa(CKA_DESTROYABLE, AttrType::BoolType, seq![1u8], OAF_DEFVAL),
        spec_oa(CKA_UNIQUE_ID, AttrType::StringType, Seq::empty(), OAF_REQUIRED_ON_CREATE),
        spec_oa(CKA_APPLICATION, AttrType::StringType, Seq::empty(), OAF_REQUIRED_ON_CREATE),
        spec_oa(CKA_OBJECT_ID, AttrType::BytesType, Seq::empty(), 0),
        spec_oa(CKA_VALUE, AttrType::BytesType, Seq::empty(), OAF_REQUIRED_ON_CREATE),
    ]
}

/// Build the data-object schema.
pub fn data_object_schema() -> (r: Vec<ObjectAttr>)
    ensures
        r@.map_values(|c: ObjectAttr| c@) == spec_data_object_schema(),
{
    let mut v: Vec<ObjectAttr> = Vec::new();
    v.push(ObjectAttr::new(from_ulong(CKA_CLASS, 0), OAF_REQUIRED_ON_CREATE));
    v.push(ObjectAttr::new(from_bool(CKA_TOKEN, false), OAF_DEFVAL));
    v.push(ObjectAttr::new(from_bool(CKA_PRIVATE, false), OAF_DEFVAL));
    v.push(ObjectAttr::new(from_bool(CKA_MODIFIABLE, true), OAF_DEFVAL));
    v.push(ObjectAttr::new(from_string(CKA_LABEL, Vec::new()), 0));
    v.push(ObjectAttr::new(from_bool(CKA_COPYABLE, true), OAF_DEFVAL));
    v.push(ObjectAttr::new(from_bool(CKA_DESTROYABLE, true), OAF_DEFVAL));
    v.push(ObjectAttr::new(from_string(CKA_UNIQUE_ID, Vec::new()), OAF_REQUIRED_ON_CREATE));
    v.push(ObjectAttr::new(from_string(CKA_APPLICATION, Vec::new()), OAF_REQUIRED_ON_CREATE));
    v.push(ObjectAttr::new(from_bytes(CKA_OBJECT_ID, Vec::new()), 0));
    v.push(ObjectAttr::new(from_bytes(CKA_VALUE, Vec::new()), OAF_REQUIRED_ON_CREATE));
    assert(v@.map_values(|c: ObjectAttr| c@) =~= spec_data_object_schema());
    v
}

/// The class a decoded template asks for, where it carries one.
pub open spec fn spec_template_class(decoded: Seq<AttrView>) -> Option<u64> {
    match spec_get_attr_as_ulong(decoded, CKA_CLASS) {
        Ok(c) => Some(c),
        Err(_) => None,
    }
}

/// Validate a data object against its schema and fill defaults.
pub fn create_data_object(obj: Object) -> (r: KResult<Object>)
    ensures
        ({
            let rc = spec_check_rc(obj@.attrs, spec_data_object_schema(), OAF_REQUIRED_ON_CREATE);
            if rc == CKR_OK {
                r matches Ok(o) && o@.handle == obj@.handle && o@.session == obj@.session
                    && o@.modified == obj@.modified && o@.attrs == obj@.attrs
                    + spec_missing_defaults(obj@.attrs, spec_data_object_schema())
            } else {
                r == Err::<Object, KError>(KError::RvError(rc))
            }
        }),
{
    let mut obj = obj;
    let cattrs = data_object_schema();
    let rc = basic_object_attrs_checks(&mut obj, &cattrs, OAF_REQUIRED_ON_CREATE);
    if rc != CKR_OK {
        return Err(KError::RvError(rc));
    }
    Ok(obj)
}

/// What `create` returns, given the unique-id attribute the run drew
/// and the decoded template.
pub open spec fn spec_create_result(
    handle: u64,
    uv: AttrView,
    decoded: Seq<AttrView>,
    r: KResult<Object>,
) -> bool {
    let attrs1 = seq![uv] + decoded;
    match spec_template_class(decoded) {
        Some(c) => if c == CKO_DATA {
            let rc = spec_check_rc(attrs1, spec_data_object_schema(), OAF_REQUIRED_ON_CREATE);
            if rc == CKR_OK {
                r matches Ok(o) && o@.handle == handle && o@.session == 0 && o@.modified == false
                    && o@.attrs == attrs1 + spec_missing_defaults(
                    attrs1,
                    spec_data_object_schema(),
                )
            } else {
                r == Err::<Object, KError>(KError::RvError(rc))
            }
        } else if c == CKO_CERTIFICATE {
            r == Err::<Object, KError>(KError::RvError(CKR_FUNCTION_FAILED))
        } else {
            r == Err::<Object, KError>(KError::RvError(CKR_ATTRIBUTE_VALUE_INVALID))
        },
        None => r == Err::<Object, KError>(KError::RvError(CKR_TEMPLATE_INCOMPLETE)),
    }
}

/// Create an object from a caller template: draw a fresh unique id,
/// decode the template, and hand the object to its class's validation.
/// Only data objects are created here; keys go through their factories.
pub fn create(handle: u64, template: &[CkAttribute]) -> (r: KResult<Object>)
    ensures
        r == Err::<Object, KError>(KError::RvError(CKR_GENERAL_ERROR)) || ({
            let entries = template@.map_values(|e: CkAttribute| e@);
            match spec_decode_entries(entries) {
                Err(e) => r == Err::<Object, KError>(e),
                Ok(decoded) => exists|uv: AttrView|
                    uv.id == CKA_UNIQUE_ID && uv.atype == AttrType::StringType && uv.value.len()
                        == 36 && #[trigger] spec_create_result(handle, uv, decoded, r),
            }
        }),
{
    let ghost entries = template@.map_values(|e: CkAttribute| e@);
    let mut obj = Object::new(handle);
    let uid = match generate_unique_id() {
        Ok(u) => u,
        Err(_) => {
            return Err(KError::RvError(CKR_GENERAL_ERROR));
        },
    };
    let ua = from_string(CKA_UNIQUE_ID, uid);
    let ghost uv = ua@;
    append_attr(&mut obj, ua);

    let mut k: usize = 0;
    proof {
        assert(entries.take(0) =~= Seq::<CkAttrView>::empty());
        assert(obj@.attrs =~= seq![uv]);
    }
    while k < template.len()
        invariant
            0 <= k <= entries.len(),
            entries == template@.map_values(|e: CkAttribute| e@),
            entries.len() == template@.len(),
            obj@.handle == handle,
            obj@.session == 0,
            obj@.modified == false,
            uv.id == CKA_UNIQUE_ID,
            uv.atype == AttrType::StringType,
            uv.value.len() == 36,
            spec_decode_entries(entries.take(k as int)) matches Ok(decoded) && obj@.attrs == seq![
                uv,
            ] + decoded,
        decreases entries.len() - k,
    {
        proof {
            assert(entries.take(k as int + 1).drop_last() =~= entries.take(k as int));
            assert(entries.take(k as int + 1).last() == entries[k as int]);
        }
        match template[k].to_attribute() {
            Ok(a) => {
                append_attr(&mut obj, a);
                assert(spec_decode_entries(entries.take(k as int + 1)) matches Ok(d) && obj@.attrs
                    =~= seq![uv] + d);
            },
            Err(e) => {
                proof {
                    lemma_decode_entries_err(entries, k as int, e);
                }
                return Err(e);
            },
        }
        k += 1;
    }
    proof {
        assert(entries.take(entries.len() as int) =~= entries);
    }
    let ghost decoded = spec_decode_entries(entries)->Ok_0;
    proof {
        let attrs1 = seq![uv] + decoded;
        assert(attrs1.len() > 0 && attrs1[0].id != CKA_CLASS);
        assert(attrs1.skip(1) =~= decoded);
        lemma_find_index_props(decoded, CKA_CLASS);
        match spec_find_index(decoded, CKA_CLASS) {
            Some(i) => {
                assert(spec_find_index(attrs1, CKA_CLASS) == Some(i + 1));
                assert(attrs1[i + 1] == decoded[i]);
            },
            None => {
                assert(spec_find_index(attrs1, CKA_CLASS) is None);
            },
        }
        assert(spec_get_attr_as_ulong(obj@.attrs, CKA_CLASS) == spec_get_attr_as_ulong(
            decoded,
            CKA_CLASS,
        ));
    }
    let class = match obj.get_attr_as_ulong(CKA_CLASS) {
        Ok(c) => c,
        Err(_) => {
            assert(spec_create_result(handle, uv, decoded, Err(KError::RvError(
                CKR_TEMPLATE_INCOMPLETE,
            ))));
            return Err(KError::RvError(CKR_TEMPLATE_INCOMPLETE));
        },
    };
    if class == CKO_DATA {
        let r = create_data_object(obj);
        assert(spec_create_result(handle, uv, decoded, r));
        r
    } else if class == CKO_CERTIFICATE {
        assert(spec_create_result(handle, uv, decoded, Err(KError::RvError(CKR_FUNCTION_FAILED))));
        Err(KError::RvError(CKR_FUNCTION_FAILED))
    } else {
        assert(spec_create_result(handle, uv, decoded, Err(KError::RvError(
            CKR_ATTRIBUTE_VALUE_INVALID,
        ))));
        Err(KError::RvError(CKR_ATTRIBUTE_VALUE_INVALID))
    }
}

/// What a factory's generic object build returns, given the unique-id
/// attribute the run drew and the decoded template.
pub open spec fn spec_build_result(
    cviews: Seq<OAView>,
    req_flag: u64,
    uv: AttrView,
    decoded: Seq<AttrView>,
    r: KResult<Object>,
) -> bool {
    let attrs1 = seq![uv] + decoded;
    let rc = spec_check_rc(attrs1, cviews, req_flag);
    if rc == CKR_OK {
        r matches Ok(o) && o@.handle == 0 && o@.session == 0 && o@.modified == false && o@.attrs
            == attrs1 + spec_missing_defaults(attrs1, cviews)
    } else {
        r == Err::<Object, KError>(KError::RvError(rc))
    }
}

/// What the generic build returns once a unique id was drawn: the
/// decoded template put through the schema check.
pub open spec fn spec_build_outcome(
    entries: Seq<CkAttrView>,
    cviews: Seq<OAView>,
    req_flag: u64,
    r: KResult<Object>,
) -> bool {
    match spec_decode_entries(entries) {
        Err(e) => r == Err::<Object, KError>(e),
        Ok(decoded) => exists|uv: AttrView|
            uv.id == CKA_UNIQUE_ID && uv.atype == AttrType::StringType && uv.value.len() == 36
                && #[trigger] spec_build_result(cviews, req_flag, uv, decoded, r),
    }
}

/// The generic part of a factory's object creation: draw a fresh unique
/// id, decode the template, check it against the schema and fill
/// defaults.  A failing random source is reported as `GENERAL_ERROR`.
pub fn default_object_build(
    cattrs: &Vec<ObjectAttr>,
    template: &[CkAttribute],
    req_flag: u64,
) -> (r: KResult<Object>)
    ensures
        r == Err::<Object, KError>(KError::RvError(CKR_GENERAL_ERROR)) || spec_build_outcome(
            template@.map_values(|e: CkAttribute| e@),
            cattrs@.map_values(|c: ObjectAttr| c@),
            req_flag,
            r,
        ),
{
    let ghost entries = template@.map_values(|e: CkAttribute| e@);
    let ghost cviews = cattrs@.map_values(|c: ObjectAttr| c@);
    let mut obj = Object::new(0);
    let uid = match generate_unique_id() {
        Ok(u) => u,
        Err(_) => {
            return Err(KError::RvError(CKR_GENERAL_ERROR));
        },
    };
    let ua = from_string(CKA_UNIQUE_ID, uid);
    let ghost uv = ua@;
    append_attr(&mut obj, ua);

    let mut k: usize = 0;
    proof {
        assert(entries.take(0) =~= Seq::<CkAttrView>::empty());
        assert(obj@.attrs =~= seq![uv]);
    }
    while k < template.len()
        invariant
            0 <= k <= entries.len(),
            entries == template@.map_values(|e: CkAttribute| e@),
            entries.len() == template@.len(),
            obj@.handle == 0,
            obj@.session == 0,
            obj@.modified == false,
            uv.id == CKA_UNIQUE_ID,
            uv.atype == AttrType::StringType,
            uv.value.len() == 36,
            spec_decode_entries(entries.take(k as int)) matches Ok(decoded) && obj@.attrs == seq![
                uv,
            ] + decoded,
        decreases entries.len() - k,
    {
        proof {
            assert(entries.take(k as int + 1).drop_last() =~= entries.take(k as int));
            assert(entries.take(k as int + 1).last() == entries[k as int]);
        }
        match template[k].to_attribute() {
            Ok(a) => {
                append_attr(&mut obj, a);
                assert(spec_decode_entries(entries.take(k as int + 1)) matches Ok(d) && obj@.attrs
                    =~= seq![uv] + d);
            },
            Err(e) => {
                proof {
                    lemma_decode_entries_err(entries, k as int, e);
                }
                return Err(e);
            },
        }
        k += 1;
    }
    proof {
        assert(entries.take(entries.len() as int) =~= entries);
    }
    let ghost decoded = spec_decode_entries(entries)->Ok_0;
    let rc = basic_object_attrs_checks(&mut obj, cattrs, req_flag);
    if rc != CKR_OK {
        assert(spec_build_result(cviews, req_flag, uv, decoded, Err(KError::RvError(rc))));
        assert(spec_build_outcome(entries, cviews, req_flag, Err(KError::RvError(rc))));
        return Err(KError::RvError(rc));
    }
    assert(spec_build_result(cviews, req_flag, uv, decoded, Ok(obj)));
    assert(spec_build_outcome(entries, cviews, req_flag, Ok(obj)));
    Ok(obj)
}

/// The ulong a template entry with the given id asks for, where the
/// template carries one.
pub open spec fn spec_template_ulong(entries: Seq<CkAttrView>, id: u64) -> KResult<Option<u64>> {
    match spec_find_template_entry(entries, id) {
        None => Ok(None),
        Some(e) => match e.value {
            Some(v) => if v.len() == 8 {
                Ok(Some(spec_u64_from_le_bytes(v)))
            } else {
                Err(KError::RvError(CKR_ATTRIBUTE_VALUE_INVALID))
            },
            None => Err(KError::RvError(CKR_ATTRIBUTE_VALUE_INVALID)),
        },
    }
}

/// The first template entry with the given id, if any.
pub open spec fn spec_find_template_entry(entries: Seq<CkAttrView>, id: u64) -> Option<CkAttrView>
    decreases entries.len(),
{
    if entries.len() == 0 {
        None
    } else if entries[0].id == id {
        Some(entries[0])
    } else {
        spec_find_template_entry(entries.skip(1), id)
    }
}

/// Read the ulong a template asks for under the given id.
pub fn template_ulong(template: &[CkAttribute], id: u64) -> (r: KResult<Option<u64>>)
    ensures
        r == spec_template_ulong(template@.map_values(|e: CkAttribute| e@), id),
{
    let ghost entries = template@.map_values(|e: CkAttribute| e@);
    let mut k: usize = 0;
    proof {
        assert(entries.skip(0) =~= entries);
    }
    while k < template.len()
        invariant
            0 <= k <= entries.len(),
            entries == template@.map_values(|e: CkAttribute| e@),
            entries.len() == template@.len(),
            spec_find_template_entry(entries, id) == spec_find_template_entry(
                entries.skip(k as int),
                id,
            ),
        decreases entries.len() - k,
    {
        proof {
            assert(entries.skip(k as int)[0] == entries[k as int]);
            assert(entries.skip(k as int).skip(1) =~= entries.skip(k as int + 1));
        }
        if template[k].id == id {
            match &template[k].value {
                Some(v) => {
                    if v.len() != 8 {
                        return Err(KError::RvError(CKR_ATTRIBUTE_VALUE_INVALID));
                    }
                    return Ok(Some(vstd::bytes::u64_from_le_bytes(v.as_slice())));
                },
                None => {
                    return Err(KError::RvError(CKR_ATTRIBUTE_VALUE_INVALID));
                },
            }
        }
        k += 1;
    }
    proof {
        assert(entries.skip(k as int) =~= Seq::<CkAttrView>::empty());
    }
    Ok(None)
}

/// Decoding a whole template decodes it entry by entry, in order.
pub proof fn lemma_decode_entries_pointwise(entries: Seq<CkAttrView>, decoded: Seq<AttrView>)
    requires
        spec_decode_entries(entries) == Ok::<Seq<AttrView>, KError>(decoded),
    ensures
        decoded.len() == entries.len(),
        forall|j: int|
            0 <= j < entries.len() ==> spec_decode_entry(#[trigger] entries[j]) == Ok::<
                AttrView,
                KError,
            >(decoded[j]),
    decreases entries.len(),
{
    if entries.len() > 0 {
        let front = entries.drop_last();
        let dfront = spec_decode_entries(front)->Ok_0;
        lemma_decode_entries_pointwise(front, dfront);
        assert(decoded =~= dfront.push(spec_decode_entry(entries.last())->Ok_0));
        assert forall|j: int| 0 <= j < entries.len() implies spec_decode_entry(
            #[trigger] entries[j],
        ) == Ok::<AttrView, KError>(decoded[j]) by {
            if j < entries.len() - 1 {
                assert(entries[j] == front[j]);
                assert(decoded[j] == dfront[j]);
            }
        }
    }
}

/// A first match over the decoded attributes lands where it lands over
/// the template: at the decode of the first entry with the id.
pub proof fn lemma_find_attr_decoded(entries: Seq<CkAttrView>, decoded: Seq<AttrView>, id: u64)
    requires
        decoded.len() == entries.len(),
        forall|j: int|
            0 <= j < entries.len() ==> spec_decode_entry(#[trigger] entries[j]) == Ok::<
                AttrView,
                KError,
            >(decoded[j]),
    ensures
        match spec_find_template_entry(entries, id) {
            None => spec_find_attr(decoded, id) is None,
            Some(e) => spec_find_attr(decoded, id) matches Some(a) && spec_decode_entry(e) == Ok::<
                AttrView,
                KError,
            >(a),
        },
    decreases entries.len(),
{
    if entries.len() > 0 {
        assert(spec_decode_entry(entries[0]) == Ok::<AttrView, KError>(decoded[0]));
        assert(decoded[0].id == entries[0].id);
        if entries[0].id == id {
            assert(spec_find_template_entry(entries, id) == Some(entries[0]));
            assert(spec_find_index(decoded, id) == Some(0int));
        } else {
            assert forall|j: int|
                0 <= j < entries.skip(1).len() implies spec_decode_entry(
                #[trigger] entries.skip(1)[j],
            ) == Ok::<AttrView, KError>(decoded.skip(1)[j]) by {
                assert(entries.skip(1)[j] == entries[j + 1]);
                assert(decoded.skip(1)[j] == decoded[j + 1]);
            }
            lemma_find_attr_decoded(entries.skip(1), decoded.skip(1), id);
            assert(spec_find_template_entry(entries, id) == spec_find_template_entry(
                entries.skip(1),
                id,
            ));
            match spec_find_index(decoded.skip(1), id) {
                Some(k) => {
                    lemma_find_index_props(decoded.skip(1), id);
                    assert(spec_find_index(decoded, id) == Some(k + 1));
                    assert(decoded[k + 1] == decoded.skip(1)[k]);
                },
                None => {
                    assert(spec_find_index(decoded, id) is None);
                },
            }
        }
    }
}

/// A first match over a concatenation: found on the left it stays
/// there; absent on the left it is the right side's match.
pub proof fn lemma_find_attr_append(a: Seq<AttrView>, b: Seq<AttrView>, id: u64)
    ensures
        spec_has_attr(a, id) ==> spec_find_attr(a + b, id) == spec_find_attr(a, id),
        !spec_has_attr(a, id) ==> spec_find_attr(a + b, id) == spec_find_attr(b, id),
    decreases a.len(),
{
    if a.len() == 0 {
        assert(a + b =~= b);
    } else {
        assert((a + b)[0] == a[0]);
        if a[0].id != id {
            assert((a + b).skip(1) =~= a.skip(1) + b);
            lemma_find_attr_append(a.skip(1), b, id);
            match spec_find_index(a.skip(1) + b, id) {
                Some(k) => {
                    lemma_find_index_props(a.skip(1) + b, id);
                    assert(spec_find_index(a + b, id) == Some(k + 1));
                    assert((a + b)[k + 1] == (a.skip(1) + b)[k]);
                    if spec_has_attr(a.skip(1), id) {
                        match spec_find_index(a.skip(1), id) {
                            Some(m) => {
                                lemma_find_index_props(a.skip(1), id);
                                assert(spec_find_index(a, id) == Some(m + 1));
                                assert(a[m + 1] == a.skip(1)[m]);
                            },
                            None => {},
                        }
                    }
                },
                None => {
                    assert(spec_find_index(a + b, id) is None);
                    assert(spec_find_index(a, id) is None);
                },
            }
        }
    }
}

/// The first template entry found under an id carries that id.
pub proof fn lemma_find_template_props(entries: Seq<CkAttrView>, id: u64)
    ensures
        spec_find_template_entry(entries, id) matches Some(e) ==> e.id == id,
    decreases entries.len(),
{
    if entries.len() > 0 && entries[0].id != id {
        lemma_find_template_props(entries.skip(1), id);
    }
}

/// The ulong a template asks for under an id reappears, decoded, as the
/// matching attribute of the built attribute sequence, provided the
/// schema gives the id the ulong kind and no default supplies it first.
pub proof fn lemma_template_ulong_built(
    entries: Seq<CkAttrView>,
    decoded: Seq<AttrView>,
    uv: AttrView,
    cviews: Seq<OAView>,
    id: u64,
)
    requires
        spec_decode_entries(entries) == Ok::<Seq<AttrView>, KError>(decoded),
        uv.id == CKA_UNIQUE_ID,
        id != CKA_UNIQUE_ID,
        spec_attr_kind(id) == Some(AttrType::NumType),
    ensures
        ({
            let attrs1 = seq![uv] + decoded;
            let attrs2 = attrs1 + spec_missing_defaults(attrs1, cviews);
            match spec_template_ulong(entries, id) {
                Ok(Some(vl)) => spec_get_attr_as_ulong(attrs2, id) == Ok::<u64, KError>(vl),
                Ok(None) => spec_get_attr_as_ulong(attrs2, id) == spec_get_attr_as_ulong(
                    spec_missing_defaults(attrs1, cviews),
                    id,
                ),
                Err(_) => true,
            }
        }),
{
    let attrs1 = seq![uv] + decoded;
    let attrs2 = attrs1 + spec_missing_defaults(attrs1, cviews);
    lemma_decode_entries_pointwise(entries, decoded);
    lemma_find_attr_decoded(entries, decoded, id);
    assert(!spec_has_attr(seq![uv], id)) by {
        assert(seq![uv][0].id != id);
        assert(seq![uv].skip(1) =~= Seq::<AttrView>::empty());
        assert(spec_find_index(Seq::<AttrView>::empty(), id) is None);
        assert(spec_find_index(seq![uv], id) is None);
    }
    lemma_find_attr_append(seq![uv], decoded, id);
    lemma_find_attr_append(attrs1, spec_missing_defaults(attrs1, cviews), id);
    match spec_template_ulong(entries, id) {
        Ok(opt) => match opt {
            Some(vl) => {
                lemma_find_template_props(entries, id);
                let e = spec_find_template_entry(entries, id)->Some_0;
                let a = spec_find_attr(decoded, id)->Some_0;
                assert(spec_decode_entry(e) == Ok::<AttrView, KError>(a));
                assert(e.id == id);
                assert(a.atype == AttrType::NumType);
                assert(a.value == e.value->Some_0);
                assert(spec_find_attr(attrs1, id) == Some(a));
                assert(spec_find_attr(attrs2, id) == Some(a));
            },
            None => {
                assert(spec_find_attr(decoded, id) is None);
                assert(spec_find_attr(attrs1, id) is None);
            },
        },
        Err(_) => {},
    }
}

/// Where no schema entry carrying a default has the id, the filled
/// defaults cannot supply it.
pub proof fn lemma_missing_defaults_absent(attrs: Seq<AttrView>, cattrs: Seq<OAView>, id: u64)
    requires
        forall|k: int|
            0 <= k < cattrs.len() && (#[trigger] cattrs[k]).flags & OAF_DEFVAL != 0
                ==> cattrs[k].attr.id != id,
    ensures
        !spec_has_attr(spec_missing_defaults(attrs, cattrs), id),
    decreases cattrs.len(),
{
    if cattrs.len() == 0 {
        assert(spec_missing_defaults(attrs, cattrs) =~= Seq::<AttrView>::empty());
        assert(spec_find_index(Seq::<AttrView>::empty(), id) is None);
    } else {
        let front = cattrs.drop_last();
        assert forall|k: int|
            0 <= k < front.len() && (#[trigger] front[k]).flags & OAF_DEFVAL != 0 implies front[k].attr.id
            != id by {
            assert(front[k] == cattrs[k]);
        }
        lemma_missing_defaults_absent(attrs, front, id);
        let d0 = spec_missing_defaults(attrs, front);
        let tail = if cattrs.last().flags & OAF_DEFVAL != 0 && !spec_has_attr(
            attrs,
            cattrs.last().attr.id,
        ) {
            seq![cattrs.last().attr]
        } else {
            Seq::<AttrView>::empty()
        };
        lemma_find_index_props(d0, id);
        lemma_has_attr_append(d0, tail, id);
        if tail.len() > 0 {
            assert(cattrs.last().flags & OAF_DEFVAL != 0);
            assert(cattrs[cattrs.len() - 1] == cattrs.last());
            assert(tail[0].id != id);
            assert(tail.skip(1) =~= Seq::<AttrView>::empty());
            assert(spec_find_index(tail, id) is None);
        } else {
            assert(spec_find_index(Seq::<AttrView>::empty(), id) is None);
        }
    }
}

/// Generate a secret key's material: draw `VALUE_LEN` random bytes and
/// set them as `VALUE`.
pub fn default_secret_key_generate(key: &mut Object) -> (r: KResult<()>)
    ensures
        final(key)@.handle == old(key)@.handle,
        final(key)@.session == old(key)@.session,
        match spec_get_attr_as_ulong(old(key)@.attrs, CKA_VALUE_LEN) {
            Err(_) => r == Err::<(), KError>(KError::RvError(CKR_TEMPLATE_INCOMPLETE))
                && *final(key) == *old(key),
            Ok(vl) => {
                &&& (r matches Ok(()) ==> {
                    &&& spec_get_attr_as_bytes(final(key)@.attrs, CKA_VALUE) matches Ok(v)
                        && v.len() == vl
                    &&& forall|q: u64|
                        q != CKA_VALUE ==> spec_find_attr(final(key)@.attrs, q) == spec_find_attr(
                            old(key)@.attrs,
                            q,
                        )
                })
                &&& (r matches Err(e) ==> e == KError::RvError(CKR_GENERAL_ERROR) && *final(key)
                    == *old(key))
            },
        },
{
    let vl = match key.get_attr_as_ulong(CKA_VALUE_LEN) {
        Ok(vl) => vl,
        Err(_) => {
            return Err(KError::RvError(CKR_TEMPLATE_INCOMPLETE));
        },
    };
    if vl > usize::MAX as u64 {
        return Err(KError::RvError(CKR_GENERAL_ERROR));
    }
    let data = match fill_random(vl as usize) {
        Ok(d) => d,
        Err(_) => {
            return Err(KError::RvError(CKR_GENERAL_ERROR));
        },
    };
    let a = from_bytes(CKA_VALUE, data);
    let ghost av = a@;
    let ghost attrs0 = key@.attrs;
    let r = key.set_attr(a);
    proof {
        lemma_set_attr_find(attrs0, av, 0);
        assert forall|q: u64| q != CKA_VALUE implies spec_find_attr(key@.attrs, q)
            == spec_find_attr(attrs0, q) by {
            lemma_set_attr_find(attrs0, av, q);
        }
    }
    match r {
        Ok(()) => Ok(()),
        Err(e) => Err(e),
    }
}

/// The attributes every locally generated key carries: `LOCAL`, the
/// generating mechanism, and the `ALWAYS_SENSITIVE` /
/// `NEVER_EXTRACTABLE` history flags.
pub fn default_key_attributes(key: &mut Object, mech: u64) -> (r: KResult<()>)
    ensures
        r == Ok::<(), KError>(()),
        final(key)@.handle == old(key)@.handle,
        final(key)@.session == old(key)@.session,
        spec_bool_attr(final(key)@.attrs, CKA_LOCAL, false),
        spec_get_attr_as_ulong(final(key)@.attrs, CKA_KEY_GEN_MECHANISM) == Ok::<u64, KError>(
            mech,
        ),
        forall|q: u64|
            q != CKA_LOCAL && q != CKA_KEY_GEN_MECHANISM && q != CKA_ALWAYS_SENSITIVE && q
                != CKA_NEVER_EXTRACTABLE ==> spec_find_attr(final(key)@.attrs, q)
                == spec_find_attr(old(key)@.attrs, q),
{
    let sensitive = key.is_sensitive();
    let extractable = key.is_extractable();
    set_attr_traced(key, from_bool(CKA_ALWAYS_SENSITIVE, sensitive));
    set_attr_traced(key, from_bool(CKA_NEVER_EXTRACTABLE, !extractable));
    set_attr_traced(key, from_bool(CKA_LOCAL, true));
    set_attr_traced(key, from_ulong(CKA_KEY_GEN_MECHANISM, mech));
    proof {
        vstd::bytes::lemma_auto_spec_u64_to_from_le_bytes();
    }
    Ok(())
}

/// Set one attribute, restating where every lookup lands afterwards.
pub fn set_attr_traced(obj: &mut Object, a: Attribute)
    ensures
        final(obj)@.handle == old(obj)@.handle,
        final(obj)@.session == old(obj)@.session,
        final(obj)@.modified == true,
        final(obj)@.attrs == match spec_find_index(old(obj)@.attrs, a@.id) {
            Some(i) => old(obj)@.attrs.update(i, a@),
            None => old(obj)@.attrs.push(a@),
        },
        spec_find_attr(final(obj)@.attrs, a@.id) == Some(a@),
        forall|q: u64|
            q != a@.id ==> spec_find_attr(final(obj)@.attrs, q) == spec_find_attr(
                old(obj)@.attrs,
                q,
            ),
{
    let ghost attrs0 = obj@.attrs;
    let ghost av = a@;
    let _ = obj.set_attr(a);
    proof {
        lemma_set_attr_find(attrs0, av, 0);
        assert forall|q: u64| q != av.id implies spec_find_attr(obj@.attrs, q) == spec_find_attr(
            attrs0,
            q,
        ) by {
            lemma_set_attr_find(attrs0, av, q);
        }
    }
}

} // verus!
