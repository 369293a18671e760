//! The mechanism registry: a mapping from mechanism identifiers to
//! descriptors.  Descriptors advertise capability flags and construct
//! the operation state machines; the registry is built once at
//! initialisation and read thereafter.

use vstd::prelude::*;

use crate::aes::{AesKDFOperation, AesKeyFactory, AesMacOperation, AesMechanism, AesOperation};
use crate::error::{KError, KResult};
use crate::interface::{
    CkAttribute, CKA_CLASS, CKA_KEY_TYPE, CKR_ATTRIBUTE_VALUE_INVALID, CKR_MECHANISM_INVALID,
    CKR_TEMPLATE_INCOMPLETE, MechanismInfo,
};
use crate::object::{spec_template_ulong, template_ulong};

verus! {

/// First value bound to the key in an association list.
pub open spec fn spec_assoc_find<K, V>(s: Seq<(K, V)>, k: K) -> Option<V>
    decreases s.len(),
{
    if s.len() == 0 {
        None
    } else if s[0].0 == k {
        Some(s[0].1)
    } else {
        spec_assoc_find(s.skip(1), k)
    }
}

/// Appending a fresh binding: lookups of other keys are unchanged, the
/// new key finds the new value where it was absent before.
pub proof fn lemma_assoc_find_push<K, V>(s: Seq<(K, V)>, k: K, v: V, q: K)
    ensures
        spec_assoc_find(s, q) is Some ==> spec_assoc_find(s.push((k, v)), q) == spec_assoc_find(
            s,
            q,
        ),
        spec_assoc_find(s, q) is None && q == k ==> spec_assoc_find(s.push((k, v)), q) == Some(v),
        spec_assoc_find(s, q) is None && q != k ==> spec_assoc_find(s.push((k, v)), q) is None,
    decreases s.len(),
{
    if s.len() == 0 {
        assert(s.push((k, v))[0] == (k, v));
        assert(s.push((k, v)).skip(1) =~= Seq::<(K, V)>::empty());
        assert(spec_assoc_find(Seq::<(K, V)>::empty(), q) is None);
        if q == k {
            assert(spec_assoc_find(s.push((k, v)), q) == Some(v));
        } else {
            assert(spec_assoc_find(s.push((k, v)), q) is None);
        }
    } else {
        assert(s.push((k, v))[0] == s[0]);
        if s[0].0 == q {
            assert(spec_assoc_find(s.push((k, v)), q) == Some(s[0].1));
            assert(spec_assoc_find(s, q) == Some(s[0].1));
        } else {
            assert(s.push((k, v)).skip(1) =~= s.skip(1).push((k, v)));
            lemma_assoc_find_push(s.skip(1), k, v, q);
            match spec_assoc_find(s.skip(1), q) {
                Some(x) => {
                    assert(spec_assoc_find(s, q) == Some(x));
                    assert(spec_assoc_find(s.push((k, v)), q) == Some(x));
                },
                None => {
                    assert(spec_assoc_find(s, q) is None);
                    if q == k {
                        assert(spec_assoc_find(s.skip(1).push((k, v)), q) == Some(v));
                        assert(spec_assoc_find(s.push((k, v)), q) == Some(v));
                    } else {
                        assert(spec_assoc_find(s.skip(1).push((k, v)), q) is None);
                        assert(spec_assoc_find(s.push((k, v)), q) is None);
                    }
                },
            }
        }
    }
}

/// What a first-match lookup means: the binding is in range, nothing
/// before it carries the key, and `None` means the key occurs nowhere.
pub proof fn lemma_assoc_find_props<K, V>(s: Seq<(K, V)>, k: K)
    ensures
        match spec_assoc_find(s, k) {
            Some(v) => exists|i: int|
                0 <= i < s.len() && (#[trigger] s[i]).0 == k && s[i].1 == v,
            None => forall|j: int| 0 <= j < s.len() ==> (#[trigger] s[j]).0 != k,
        },
    decreases s.len(),
{
    if s.len() > 0 && s[0].0 != k {
        lemma_assoc_find_props(s.skip(1), k);
        match spec_assoc_find(s.skip(1), k) {
            Some(v) => {
                let i = choose|i: int|
                    0 <= i < s.skip(1).len() && (#[trigger] s.skip(1)[i]).0 == k && s.skip(1)[i].1
                        == v;
                assert(s[i + 1] == s.skip(1)[i]);
            },
            None => {
                assert forall|j: int| 0 <= j < s.len() implies (#[trigger] s[j]).0 != k by {
                    if j > 0 {
                        assert(s[j] == s.skip(1)[j - 1]);
                    }
                }
            },
        }
    }
}

/// Replacing the value at the first binding of a key: that key now
/// finds the new value; every other key finds what it found before.
pub proof fn lemma_assoc_find_update<K, V>(s: Seq<(K, V)>, i: int, v2: V, q: K)
    requires
        0 <= i < s.len(),
        forall|j: int| 0 <= j < i ==> (#[trigger] s[j]).0 != s[i].0,
    ensures
        spec_assoc_find(s.update(i, (s[i].0, v2)), s[i].0) == Some(v2),
        q != s[i].0 ==> spec_assoc_find(s.update(i, (s[i].0, v2)), q) == spec_assoc_find(s, q),
    decreases s.len(),
{
    let k = s[i].0;
    let s2 = s.update(i, (k, v2));
    if i == 0 {
        assert(s2[0] == (k, v2));
        assert(spec_assoc_find(s2, k) == Some(v2));
        if q != k {
            assert(s2.skip(1) =~= s.skip(1));
        }
    } else {
        assert(s2[0] == s[0]);
        assert(s[0].0 != k);
        assert(s2.skip(1) =~= s.skip(1).update(i - 1, (s.skip(1)[i - 1].0, v2)));
        assert forall|j: int| 0 <= j < i - 1 implies (#[trigger] s.skip(1)[j]).0 != s.skip(1)[i
            - 1].0 by {
            assert(s.skip(1)[j] == s[j + 1]);
        }
        lemma_assoc_find_update(s.skip(1), i - 1, v2, q);
        assert(s.skip(1)[i - 1] == s[i]);
    }
}

/// An operation constructed by a mechanism descriptor.
pub enum Operation {
    Encryption(AesOperation),
    Decryption(AesOperation),
    Sign(AesMacOperation),
    Verify(AesMacOperation),
    Derive(AesKDFOperation),
}

/// The pair that selects an object factory.
#[derive(Debug, Clone, Copy, PartialEq, Eq, Structural)]
pub struct ObjectType {
    pub class: u64,
    pub key_type: u64,
}

impl ObjectType {
    pub fn new(class: u64, key_type: u64) -> (r: ObjectType)
        ensures
            r == (ObjectType { class, key_type }),
    {
        ObjectType { class, key_type }
    }
}

/// A registered object factory, tagged by the key family it validates.
pub enum Factory {
    AesKey(AesKeyFactory),
}

impl Factory {
    pub open spec fn wf(&self) -> bool {
        match self {
            Factory::AesKey(f) => f.wf(),
        }
    }
}

/// The factory registry: `(class, key type)` to factory, first binding
/// wins.
pub struct ObjectFactories {
    pub entries: Vec<(ObjectType, Factory)>,
}

impl ObjectFactories {
    pub open spec fn spec_get(&self, ot: ObjectType) -> Option<Factory> {
        spec_assoc_find(self.entries@, ot)
    }

    /// Every registered factory carries its schema.
    pub open spec fn wf(&self) -> bool {
        forall|i: int| 0 <= i < self.entries@.len() ==> (#[trigger] self.entries@[i]).1.wf()
    }

    pub fn new() -> (r: ObjectFactories)
        ensures
            r.entries@ == Seq::<(ObjectType, Factory)>::empty(),
            r.wf(),
    {
        let r = ObjectFactories { entries: Vec::new() };
        assert(r.entries@ =~= Seq::<(ObjectType, Factory)>::empty());
        r
    }

    /// Register a factory for a class and key type.
    pub fn add_factory(&mut self, ot: ObjectType, f: Factory)
        requires
            f.wf(),
            old(self).wf(),
        ensures
            final(self).entries@ == old(self).entries@.push((ot, f)),
            final(self).wf(),
    {
        self.entries.push((ot, f));
        assert forall|i: int| 0 <= i < self.entries@.len() implies (#[trigger] self.entries@[i]).1.wf() by {
            if i < old(self).entries@.len() {
                assert(self.entries@[i] == old(self).entries@[i]);
            }
        }
    }

    /// The factory registered for the pair, or `ATTRIBUTE_VALUE_INVALID`.
    pub fn get_factory(&self, ot: ObjectType) -> (r: KResult<&Factory>)
        requires
            self.wf(),
        ensures
            match self.spec_get(ot) {
                Some(f) => r matches Ok(g) && *g == f && g.wf(),
                None => r == Err::<&Factory, KError>(
                    KError::RvError(CKR_ATTRIBUTE_VALUE_INVALID),
                ),
            },
    {
        let ghost s = self.entries@;
        let mut i: usize = 0;
        proof {
            assert(s.skip(0) =~= s);
        }
        while i < self.entries.len()
            invariant
                0 <= i <= s.len(),
                s == self.entries@,
                s.len() == self.entries@.len(),
                self.wf(),
                spec_assoc_find(s, ot) == spec_assoc_find(s.skip(i as int), ot),
            decreases s.len() - i,
        {
            proof {
                assert(s.skip(i as int)[0] == s[i as int]);
                assert(s.skip(i as int).skip(1) =~= s.skip(i as int + 1));
            }
            if self.entries[i].0 == ot {
                assert(s[i as int].1.wf());
                return Ok(&self.entries[i].1);
            }
            i += 1;
        }
        proof {
            assert(s.skip(i as int) =~= Seq::<(ObjectType, Factory)>::empty());
        }
        Err(KError::RvError(CKR_ATTRIBUTE_VALUE_INVALID))
    }

    /// The factory a key template selects through its `CLASS` and
    /// `KEY_TYPE`; a template without both is incomplete.
    pub fn get_obj_factory_from_key_template(&self, template: &[CkAttribute]) -> (r: KResult<
        &Factory,
    >)
        requires
            self.wf(),
        ensures
            ({
                let entries = template@.map_values(|e: CkAttribute| e@);
                match (spec_template_ulong(entries, CKA_CLASS), spec_template_ulong(
                    entries,
                    CKA_KEY_TYPE,
                )) {
                    (Ok(Some(c)), Ok(Some(t))) => match self.spec_get(
                        ObjectType { class: c, key_type: t },
                    ) {
                        Some(f) => r matches Ok(g) && *g == f && g.wf(),
                        None => r == Err::<&Factory, KError>(
                            KError::RvError(CKR_ATTRIBUTE_VALUE_INVALID),
                        ),
                    },
                    _ => r == Err::<&Factory, KError>(
                        KError::RvError(CKR_TEMPLATE_INCOMPLETE),
                    ),
                }
            }),
    {
        let class = match template_ulong(template, CKA_CLASS) {
            Ok(Some(c)) => c,
            _ => {
                return Err(KError::RvError(CKR_TEMPLATE_INCOMPLETE));
            },
        };
        let key_type = match template_ulong(template, CKA_KEY_TYPE) {
            Ok(Some(t)) => t,
            _ => {
                return Err(KError::RvError(CKR_TEMPLATE_INCOMPLETE));
            },
        };
        self.get_factory(ObjectType { class, key_type })
    }
}

/// The registry: mechanism id to descriptor, first binding wins.
pub struct Mechanisms {
    pub entries: Vec<(u64, AesMechanism)>,
}

impl Mechanisms {
    pub open spec fn spec_get(&self, id: u64) -> Option<AesMechanism> {
        spec_assoc_find(self.entries@, id)
    }

    pub fn new() -> (r: Mechanisms)
        ensures
            r.entries@ == Seq::<(u64, AesMechanism)>::empty(),
    {
        let r = Mechanisms { entries: Vec::new() };
        assert(r.entries@ =~= Seq::<(u64, AesMechanism)>::empty());
        r
    }

    /// Install a descriptor for a mechanism id.
    pub fn add_mechanism(&mut self, id: u64, m: AesMechanism)
        ensures
            final(self).entries@ == old(self).entries@.push((id, m)),
    {
        self.entries.push((id, m));
    }

    /// The descriptor registered for the id, or `MECHANISM_INVALID`.
    pub fn get(&self, id: u64) -> (r: KResult<&AesMechanism>)
        ensures
            match self.spec_get(id) {
                Some(m) => r matches Ok(d) && *d == m,
                None => r == Err::<&AesMechanism, KError>(
                    KError::RvError(CKR_MECHANISM_INVALID),
                ),
            },
    {
        let ghost s = self.entries@;
        let mut i: usize = 0;
        proof {
            assert(s.skip(0) =~= s);
        }
        while i < self.entries.len()
            invariant
                0 <= i <= s.len(),
                s == self.entries@,
                s.len() == self.entries@.len(),
                spec_assoc_find(s, id) == spec_assoc_find(s.skip(i as int), id),
            decreases s.len() - i,
        {
            proof {
                assert(s.skip(i as int)[0] == s[i as int]);
                assert(s.skip(i as int).skip(1) =~= s.skip(i as int + 1));
            }
            if self.entries[i].0 == id {
                return Ok(&self.entries[i].1);
            }
            i += 1;
        }
        proof {
            assert(s.skip(i as int) =~= Seq::<(u64, AesMechanism)>::empty());
        }
        Err(KError::RvError(CKR_MECHANISM_INVALID))
    }

    pub fn len(&self) -> (r: usize)
        ensures
            r == self.entries@.len(),
    {
        self.entries.len()
    }
}

} // verus!
