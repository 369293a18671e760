//! JSON import and export of objects, used for seeding token contents
//! and for administrative export.
//!
//! The form here is the canonical value tree: a list of objects, each a
//! handle and a map from attribute id to value, where a boolean is a
//! JSON boolean, a number carries the machine ulong whose canonical
//! text is its decimal string, and a byte string carries the octets
//! whose canonical text is their base64 form.  Rendering that tree to
//! text (and the symbolic attribute names) is the serializer's concern,
//! outside the verified core.  Attributes whose id the schema does not
//! know are dropped on import without failing the surrounding object.

use vstd::prelude::*;
use vstd::bytes::{spec_u64_from_le_bytes, spec_u64_to_le_bytes, u64_from_le_bytes};

use crate::attribute::{
    attr_kind, clone_bytes, spec_attr_kind, Attribute, AttrType, AttrView,
};
use crate::object::Object;

verus! {

/// A JSON value in canonical form.
#[derive(Debug, Clone)]
pub enum JsonValue {
    Bool(bool),
    Num(u64),
    Str(Vec<u8>),
    Bytes(Vec<u8>),
}

/// The mathematical model of a JSON value.
pub enum JsonValueV {
    Bool(bool),
    Num(u64),
    Str(Seq<u8>),
    Bytes(Seq<u8>),
}

impl View for JsonValue {
    type V = JsonValueV;

    open spec fn view(&self) -> JsonValueV {
        match self {
            JsonValue::Bool(b) => JsonValueV::Bool(*b),
            JsonValue::Num(n) => JsonValueV::Num(*n),
            JsonValue::Str(s) => JsonValueV::Str(s@),
            JsonValue::Bytes(b) => JsonValueV::Bytes(b@),
        }
    }
}

/// One exported attribute: the id names it.
#[derive(Debug, Clone)]
pub struct JsonAttribute {
    pub id: u64,
    pub value: JsonValue,
}

/// The model of one exported attribute.
pub struct JsonAttrV {
    pub id: u64,
    pub value: JsonValueV,
}

impl View for JsonAttribute {
    type V = JsonAttrV;

    open spec fn view(&self) -> JsonAttrV {
        JsonAttrV { id: self.id, value: self.value@ }
    }
}

/// One exported object.
#[derive(Debug, Clone)]
pub struct JsonObject {
    pub handle: u64,
    pub attributes: Vec<JsonAttribute>,
}

/// An attribute in canonical form: its kind is the schema's kind for
/// its id, and its bytes are a lawful encoding of that kind.
pub open spec fn spec_attr_canonical(a: AttrView) -> bool {
    &&& spec_attr_kind(a.id) == Some(a.atype)
    &&& (a.atype == AttrType::BoolType ==> a.value.len() == 1 && (a.value[0] == 0 || a.value[0]
        == 1))
    &&& (a.atype == AttrType::NumType ==> a.value.len() == 8)
}

/// The JSON value of one attribute, where it has a canonical one.
pub open spec fn spec_attr_to_json(a: AttrView) -> Option<JsonValueV> {
    if a.atype == AttrType::BoolType {
        if a.value.len() == 1 {
            Some(JsonValueV::Bool(a.value[0] != 0))
        } else {
            None
        }
    } else if a.atype == AttrType::NumType {
        if a.value.len() == 8 {
            Some(JsonValueV::Num(spec_u64_from_le_bytes(a.value)))
        } else {
            None
        }
    } else if a.atype == AttrType::BytesType {
        Some(JsonValueV::Bytes(a.value))
    } else if a.atype == AttrType::StringType {
        Some(JsonValueV::Str(a.value))
    } else {
        None
    }
}

/// The attribute a named JSON value imports to, under the schema's kind
/// for the id; an unknown id or a value of the wrong shape is dropped.
pub open spec fn spec_attr_from_json(id: u64, v: JsonValueV) -> Option<AttrView> {
    match spec_attr_kind(id) {
        None => None,
        Some(k) => match v {
            JsonValueV::Bool(b) => if k == AttrType::BoolType {
                Some(
                    AttrView {
                        id,
                        atype: k,
                        value: seq![crate::attribute::spec_bool_byte(b)],
                    },
                )
            } else {
                None
            },
            JsonValueV::Num(n) => if k == AttrType::NumType {
                Some(AttrView { id, atype: k, value: spec_u64_to_le_bytes(n) })
            } else {
                None
            },
            JsonValueV::Bytes(b) => if k == AttrType::BytesType {
                Some(AttrView { id, atype: k, value: b })
            } else {
                None
            },
            JsonValueV::Str(s) => if k == AttrType::StringType {
                Some(AttrView { id, atype: k, value: s })
            } else {
                None
            },
        },
    }
}

/// The exported form of an attribute sequence: each attribute with a
/// canonical JSON value, in order.
pub open spec fn spec_attrs_to_json(attrs: Seq<AttrView>) -> Seq<JsonAttrV>
    decreases attrs.len(),
{
    if attrs.len() == 0 {
        Seq::empty()
    } else {
        spec_attrs_to_json(attrs.drop_last()) + (match spec_attr_to_json(attrs.last()) {
            Some(v) => seq![JsonAttrV { id: attrs.last().id, value: v }],
            None => Seq::empty(),
        })
    }
}

/// The imported form of an exported attribute list, unknown names
/// dropped.
pub open spec fn spec_attrs_from_json(s: Seq<JsonAttrV>) -> Seq<AttrView>
    decreases s.len(),
{
    if s.len() == 0 {
        Seq::empty()
    } else {
        spec_attrs_from_json(s.drop_last()) + (match spec_attr_from_json(
            s.last().id,
            s.last().value,
        ) {
            Some(a) => seq![a],
            None => Seq::empty(),
        })
    }
}

/// One canonical attribute survives the round trip.
proof fn lemma_attr_round_trip(a: AttrView)
    requires
        spec_attr_canonical(a),
    ensures
        spec_attr_to_json(a) matches Some(v) && spec_attr_from_json(a.id, v) == Some(a),
{
    vstd::bytes::lemma_auto_spec_u64_to_from_le_bytes();
    if a.atype == AttrType::BoolType {
        assert(seq![crate::attribute::spec_bool_byte(a.value[0] != 0)] =~= a.value);
    }
}

/// Law: the JSON round trip is the identity on the observable attribute
/// set.  For every attribute sequence in canonical form (each id known
/// to the schema, each value a lawful encoding of the schema's kind),
/// importing the export restores the sequence exactly.
pub proof fn lemma_json_round_trip(attrs: Seq<AttrView>)
    requires
        forall|j: int| 0 <= j < attrs.len() ==> spec_attr_canonical(#[trigger] attrs[j]),
    ensures
        spec_attrs_from_json(spec_attrs_to_json(attrs)) == attrs,
    decreases attrs.len(),
{
    if attrs.len() == 0 {
        assert(spec_attrs_from_json(spec_attrs_to_json(attrs)) =~= attrs);
    } else {
        let front = attrs.drop_last();
        assert forall|j: int| 0 <= j < front.len() implies spec_attr_canonical(
            #[trigger] front[j],
        ) by {
            assert(front[j] == attrs[j]);
        }
        lemma_json_round_trip(front);
        lemma_attr_round_trip(attrs.last());
        let v = spec_attr_to_json(attrs.last())->Some_0;
        let tail = seq![JsonAttrV { id: attrs.last().id, value: v }];
        let s = spec_attrs_to_json(front) + tail;
        assert(s.drop_last() =~= spec_attrs_to_json(front));
        assert(s.last() == tail[0]);
        assert(spec_attrs_from_json(s) =~= attrs) by {
            assert(spec_attrs_from_json(s.drop_last()) == front);
            assert(spec_attr_from_json(s.last().id, s.last().value) == Some(attrs.last()));
            assert(front + seq![attrs.last()] =~= attrs);
        }
    }
}

/// The JSON value of one attribute.
pub fn attr_to_json(a: &Attribute) -> (r: Option<JsonValue>)
    ensures
        match spec_attr_to_json(a@) {
            Some(v) => r matches Some(w) && w@ == v,
            None => r is None,
        },
{
    match a.get_attrtype() {
        AttrType::BoolType => {
            if a.get_value().len() == 1 {
                Some(JsonValue::Bool(a.get_value()[0] != 0))
            } else {
                None
            }
        },
        AttrType::NumType => {
            if a.get_value().len() == 8 {
                Some(JsonValue::Num(u64_from_le_bytes(a.get_value().as_slice())))
            } else {
                None
            }
        },
        AttrType::BytesType => Some(JsonValue::Bytes(clone_bytes(a.get_value()))),
        AttrType::StringType => Some(JsonValue::Str(clone_bytes(a.get_value()))),
        _ => None,
    }
}

/// The attribute a named JSON value imports to.
pub fn attr_from_json(id: u64, v: &JsonValue) -> (r: Option<Attribute>)
    ensures
        match spec_attr_from_json(id, v@) {
            Some(a) => r matches Some(b) && b@ == a,
            None => r is None,
        },
{
    let k = match attr_kind(id) {
        Some(k) => k,
        None => {
            return None;
        },
    };
    match v {
        JsonValue::Bool(b) => {
            if k == AttrType::BoolType {
                Some(crate::attribute::from_bool(id, *b))
            } else {
                None
            }
        },
        JsonValue::Num(n) => {
            if k == AttrType::NumType {
                Some(crate::attribute::from_ulong(id, *n))
            } else {
                None
            }
        },
        JsonValue::Bytes(b) => {
            if k == AttrType::BytesType {
                Some(crate::attribute::from_bytes(id, clone_bytes(b)))
            } else {
                None
            }
        },
        JsonValue::Str(s) => {
            if k == AttrType::StringType {
                Some(crate::attribute::from_string(id, clone_bytes(s)))
            } else {
                None
            }
        },
    }
}

/// Export objects: each object's handle and its attributes' canonical
/// JSON values, in order.
pub fn objects_to_json(objects: &Vec<Object>) -> (r: Vec<JsonObject>)
    ensures
        r@.len() == objects@.len(),
        forall|j: int| 0 <= j < objects@.len() ==> (#[trigger] r@[j]).handle == objects@[j]@.handle
            && r@[j].attributes@.map_values(|x: JsonAttribute| x@) == spec_attrs_to_json(
            objects@[j]@.attrs,
        ),
{
    let mut out: Vec<JsonObject> = Vec::new();
    let mut i: usize = 0;
    while i < objects.len()
        invariant
            0 <= i <= objects@.len(),
            out@.len() == i,
            forall|j: int| 0 <= j < i ==> (#[trigger] out@[j]).handle == objects@[j]@.handle
                && out@[j].attributes@.map_values(|x: JsonAttribute| x@) == spec_attrs_to_json(
                objects@[j]@.attrs,
            ),
        decreases objects@.len() - i,
    {
        let ghost attrs = objects@[i as int]@.attrs;
        let obj = &objects[i];
        let mut ja: Vec<JsonAttribute> = Vec::new();
        let mut k: usize = 0;
        proof {
            assert(attrs.take(0) =~= Seq::<AttrView>::empty());
            assert(ja@.map_values(|x: JsonAttribute| x@) =~= spec_attrs_to_json(attrs.take(0)));
        }
        while k < obj.attributes.len()
            invariant
                0 <= k <= attrs.len(),
                obj == &objects@[i as int],
                0 <= i < objects@.len(),
                attrs == objects@[i as int]@.attrs,
                attrs.len() == obj.attributes@.len(),
                ja@.map_values(|x: JsonAttribute| x@) == spec_attrs_to_json(attrs.take(k as int)),
            decreases attrs.len() - k,
        {
            proof {
                assert(attrs.take(k as int + 1).drop_last() =~= attrs.take(k as int));
                assert(attrs.take(k as int + 1).last() == attrs[k as int]);
            }
            let a = &obj.attributes[k];
            match attr_to_json(a) {
                Some(v) => {
                    ja.push(JsonAttribute { id: a.get_type(), value: v });
                },
                None => {},
            }
            proof {
                assert(ja@.map_values(|x: JsonAttribute| x@) =~= spec_attrs_to_json(
                    attrs.take(k as int + 1),
                ));
            }
            k += 1;
        }
        proof {
            assert(attrs.take(attrs.len() as int) =~= attrs);
        }
        out.push(JsonObject { handle: obj.get_handle(), attributes: ja });
        i += 1;
    }
    out
}

/// Import objects: rebuild each object from its exported attributes,
/// dropping attributes whose id the schema does not know.
pub fn json_to_objects(json: &Vec<JsonObject>) -> (r: Vec<Object>)
    ensures
        r@.len() == json@.len(),
        forall|j: int| 0 <= j < json@.len() ==> (#[trigger] r@[j])@.handle == json@[j].handle
            && r@[j]@.session == 0 && r@[j]@.modified == false && r@[j]@.attrs
            == spec_attrs_from_json(json@[j].attributes@.map_values(|x: JsonAttribute| x@)),
{
    let mut out: Vec<Object> = Vec::new();
    let mut i: usize = 0;
    while i < json.len()
        invariant
            0 <= i <= json@.len(),
            out@.len() == i,
            forall|j: int| 0 <= j < i ==> (#[trigger] out@[j])@.handle == json@[j].handle
                && out@[j]@.session == 0 && out@[j]@.modified == false && out@[j]@.attrs
                == spec_attrs_from_json(json@[j].attributes@.map_values(|x: JsonAttribute| x@)),
        decreases json@.len() - i,
    {
        let jo = &json[i];
        let ghost entries = jo.attributes@.map_values(|x: JsonAttribute| x@);
        let mut obj = Object::new(jo.handle);
        let mut k: usize = 0;
        proof {
            assert(entries.take(0) =~= Seq::<JsonAttrV>::empty());
            assert(obj@.attrs =~= spec_attrs_from_json(entries.take(0)));
        }
        while k < jo.attributes.len()
            invariant
                0 <= k <= entries.len(),
                jo == &json@[i as int],
                0 <= i < json@.len(),
                entries == jo.attributes@.map_values(|x: JsonAttribute| x@),
                entries.len() == jo.attributes@.len(),
                obj@.handle == json@[i as int].handle,
                obj@.session == 0,
                obj@.modified == false,
                obj@.attrs == spec_attrs_from_json(entries.take(k as int)),
            decreases entries.len() - k,
        {
            proof {
                assert(entries.take(k as int + 1).drop_last() =~= entries.take(k as int));
                assert(entries.take(k as int + 1).last() == entries[k as int]);
            }
            match attr_from_json(jo.attributes[k].id, &jo.attributes[k].value) {
                Some(a) => {
                    crate::object::append_attr(&mut obj, a);
                },
                None => {},
            }
            proof {
                assert(obj@.attrs =~= spec_attrs_from_json(entries.take(k as int + 1)));
            }
            k += 1;
        }
        proof {
            assert(entries.take(entries.len() as int) =~= entries);
        }
        out.push(obj);
        i += 1;
    }
    out
}

} // verus!
