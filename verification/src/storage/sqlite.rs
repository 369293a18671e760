//! The relational storage backend: objects are cached in memory, keyed
//! by their unique id, and token-resident objects are persisted to a
//! single-table database, one row per attribute.
//!
//! Every multi-statement write runs inside a transaction that is rolled
//! back unless it reaches the explicit commit.  What a query returns
//! depends on the database file, so the trusted wrappers promise only
//! the shape of the rows; everything done with the rows afterwards is
//! verified.

use vstd::prelude::*;

use vstd::string::StringExecFns;

use crate::attribute::{clone_bytes, eq_bytes, spec_decode_entry};
use crate::error::{KError, KResult};
use crate::mechanism::{lemma_assoc_find_push, lemma_assoc_find_update, spec_assoc_find};
use crate::interface::{
    CkAttribute, CKA_UNIQUE_ID, CKR_CRYPTOKI_NOT_INITIALIZED, CKR_DEVICE_MEMORY,
    CKR_GENERAL_ERROR, CKR_TOKEN_NOT_PRESENT,
};
use crate::interface::CKA_TOKEN;
use crate::object::{
    spec_bool_attr, spec_find_index, spec_get_attr_as_string, spec_match_template, Object,
    ObjView,
};

verus! {

#[verifier::external_type_specification]
#[verifier::external_body]
pub struct ExConnection(rusqlite::Connection);

/// One stored row: object row id, attribute id, value bytes.
pub type Row = (i64, u64, Vec<u8>);

/// The model of one stored row.
pub type RowV = (i64, u64, Seq<u8>);

pub open spec fn spec_row_view(r: Row) -> RowV {
    (r.0, r.1, r.2@)
}

/// Relies on `rusqlite::Connection::open`: opens or creates the
/// database file; what it holds depends on the disk.
#[verifier::external_body]
fn db_open(filename: &str) -> (r: KResult<rusqlite::Connection>)
    ensures
        r matches Err(e) ==> e == KError::RvError(CKR_TOKEN_NOT_PRESENT),
{
    match rusqlite::Connection::open(filename) {
        Ok(c) => Ok(c),
        Err(_) => Err(KError::RvError(CKR_TOKEN_NOT_PRESENT)),
    }
}

/// Relies on `rusqlite::Connection::open_in_memory`: a fresh private
/// in-memory database.
#[verifier::external_body]
fn db_open_in_memory() -> (r: KResult<rusqlite::Connection>)
    ensures
        r matches Err(e) ==> e == KError::RvError(CKR_TOKEN_NOT_PRESENT),
{
    match rusqlite::Connection::open_in_memory() {
        Ok(c) => Ok(c),
        Err(_) => Err(KError::RvError(CKR_TOKEN_NOT_PRESENT)),
    }
}

/// Relies on `rusqlite::Connection::query_row`: how many tables named
/// `objects` the database schema holds.
#[verifier::external_body]
fn db_table_count(conn: &rusqlite::Connection) -> (r: KResult<i64>)
    ensures
        r matches Err(e) ==> e == KError::RvError(CKR_DEVICE_MEMORY),
{
    match conn.query_row(
        "SELECT count(*) FROM sqlite_master WHERE type='table' AND name='objects'",
        [],
        |row| row.get(0),
    ) {
        Ok(n) => Ok(n),
        Err(_) => Err(KError::RvError(CKR_DEVICE_MEMORY)),
    }
}

/// Relies on `rusqlite::Connection::execute_batch`: runs one SQL
/// statement (transaction control and table management here).
#[verifier::external_body]
fn db_exec(conn: &rusqlite::Connection, sql: &str) -> (r: KResult<()>)
    ensures
        r matches Err(e) ==> e == KError::RvError(CKR_DEVICE_MEMORY),
{
    match conn.execute_batch(sql) {
        Ok(()) => Ok(()),
        Err(_) => Err(KError::RvError(CKR_DEVICE_MEMORY)),
    }
}

/// Relies on `rusqlite::Statement::query_map`: all rows of objects that
/// carry the given attribute value, in the database's order.
#[verifier::external_body]
fn db_rows_by_attr_val(conn: &rusqlite::Connection, attr: u64, val: &[u8]) -> (r: KResult<
    Vec<Row>,
>)
    ensures
        r matches Err(e) ==> e == KError::RvError(CKR_DEVICE_MEMORY),
{
    let bad = |_: rusqlite::Error| KError::RvError(CKR_DEVICE_MEMORY);
    let mut stmt = conn.prepare(
        "SELECT id, attr, val FROM objects WHERE id IN (SELECT id FROM objects WHERE attr = ? AND val = ?) ORDER BY id",
    ).map_err(bad)?;
    let rows = stmt.query_map(
        (attr as i64, val),
        |r| Ok((r.get(0)?, r.get::<_, i64>(1)? as u64, r.get(2)?)),
    ).map_err(bad)?;
    rows.collect::<Result<Vec<Row>, _>>().map_err(bad)
}

/// Relies on `rusqlite::Statement::query_map`: the rows of the objects
/// whose id satisfies every `(attr, val)` pair of the query, ordered by
/// id.  The query text is built by the verified caller.
#[verifier::external_body]
fn db_rows_filtered(conn: &rusqlite::Connection, query: &str, pairs: &Vec<(u64, Vec<u8>)>) -> (r:
    KResult<Vec<Row>>)
    ensures
        r matches Err(e) ==> e == KError::RvError(CKR_DEVICE_MEMORY),
{
    let bad = |_: rusqlite::Error| KError::RvError(CKR_DEVICE_MEMORY);
    let ps: Vec<rusqlite::types::Value> = pairs.iter().flat_map(
        |p| [(p.0 as i64).into(), p.1.clone().into()],
    ).collect();
    let mut stmt = conn.prepare(query).map_err(bad)?;
    let rows = stmt.query_map(
        rusqlite::params_from_iter(ps),
        |r| Ok((r.get(0)?, r.get::<_, i64>(1)? as u64, r.get(2)?)),
    ).map_err(bad)?;
    rows.collect::<Result<Vec<Row>, _>>().map_err(bad)
}

/// Relies on `rusqlite::Statement::query_row`: the row id of the object
/// carrying the unique id, or zero where there is none.
#[verifier::external_body]
fn db_object_id_for_uid(conn: &rusqlite::Connection, uid: &[u8]) -> (r: KResult<i64>)
    ensures
        r matches Err(e) ==> e == KError::RvError(CKR_DEVICE_MEMORY),
{
    let mut stmt = conn.prepare("SELECT id FROM objects WHERE attr = ? AND val = ?").map_err(
        |_| KError::RvError(CKR_DEVICE_MEMORY),
    )?;
    match stmt.query_row((CKA_UNIQUE_ID as i64, uid), |row| row.get(0)) {
        Ok(n) => Ok(n),
        Err(rusqlite::Error::QueryReturnedNoRows) => Ok(0),
        Err(_) => Err(KError::RvError(CKR_DEVICE_MEMORY)),
    }
}

/// Relies on `rusqlite::Connection::query_row`: the largest row id in
/// use, zero on an empty table.
#[verifier::external_body]
fn db_max_id(conn: &rusqlite::Connection) -> (r: KResult<i64>)
    ensures
        r matches Err(e) ==> e == KError::RvError(CKR_DEVICE_MEMORY),
{
    match conn.query_row("SELECT IFNULL(MAX(id), 0) FROM objects", [], |row| row.get(0)) {
        Ok(n) => Ok(n),
        Err(_) => Err(KError::RvError(CKR_DEVICE_MEMORY)),
    }
}

/// Relies on `rusqlite::Connection::execute`: insert or replace one
/// attribute row; the reserved at-rest marker stays zero.
#[verifier::external_body]
fn db_insert_row(conn: &rusqlite::Connection, id: i64, attr: u64, val: &[u8]) -> (r: KResult<()>)
    ensures
        r matches Err(e) ==> e == KError::RvError(CKR_DEVICE_MEMORY),
{
    match conn.execute(
        "INSERT OR REPLACE INTO objects VALUES (?, ?, ?, ?)",
        (id, attr as i64, val, 0i64),
    ) {
        Ok(_) => Ok(()),
        Err(_) => Err(KError::RvError(CKR_DEVICE_MEMORY)),
    }
}

/// Relies on `rusqlite::Connection::execute`: delete every row of one
/// object.
#[verifier::external_body]
fn db_delete_rows(conn: &rusqlite::Connection, id: i64) -> (r: KResult<()>)
    ensures
        r matches Err(e) ==> e == KError::RvError(CKR_DEVICE_MEMORY),
{
    match conn.execute("DELETE FROM objects WHERE id = ?", (id,)) {
        Ok(_) => Ok(()),
        Err(_) => Err(KError::RvError(CKR_DEVICE_MEMORY)),
    }
}

/// What one row decodes to: a template entry carrying the value bytes,
/// put through the attribute schema.
pub open spec fn spec_row_decode(row: RowV) -> KResult<crate::attribute::AttrView> {
    spec_decode_entry(
        crate::interface::CkAttrView { id: row.1, value: Some(row.2), len: row.2.len() as u64 },
    )
}

/// Install one attribute into a group: replace in place or append (the
/// model of `Object::set_attr`).
pub open spec fn spec_group_set(
    attrs: Seq<crate::attribute::AttrView>,
    a: crate::attribute::AttrView,
) -> Seq<crate::attribute::AttrView> {
    match spec_find_index(attrs, a.id) {
        Some(i) => attrs.update(i, a),
        None => attrs.push(a),
    }
}

/// The attribute groups a row sequence rebuilds: rows with one id make
/// one object while the id runs on; a leading row id of zero is the
/// malformed-row case.
pub open spec fn spec_rows_to_groups(rows: Seq<RowV>) -> KResult<
    Seq<(i64, Seq<crate::attribute::AttrView>)>,
>
    decreases rows.len(),
{
    if rows.len() == 0 {
        Ok(Seq::empty())
    } else {
        match spec_rows_to_groups(rows.drop_last()) {
            Err(e) => Err(e),
            Ok(groups) => {
                let row = rows.last();
                match spec_row_decode(row) {
                    Err(e) => Err(e),
                    Ok(a) => if groups.len() > 0 && groups.last().0 == row.0 {
                        Ok(
                            groups.update(
                                groups.len() - 1,
                                (groups.last().0, spec_group_set(groups.last().1, a)),
                            ),
                        )
                    } else if row.0 == 0 {
                        Err(KError::RvError(CKR_GENERAL_ERROR))
                    } else {
                        Ok(groups.push((row.0, seq![a])))
                    },
                }
            },
        }
    }
}

/// Rebuild objects from stored rows: one object per run of equal row
/// ids, each row becoming one attribute.
pub fn rows_to_objects(rows: &Vec<Row>) -> (r: KResult<Vec<Object>>)
    ensures
        ({
            let rv = rows@.map_values(|x: Row| spec_row_view(x));
            match spec_rows_to_groups(rv) {
                Err(e) => r == Err::<Vec<Object>, KError>(e),
                Ok(groups) => r matches Ok(objs) && objs@.len() == groups.len() && forall|j: int|
                    0 <= j < groups.len() ==> (#[trigger] objs@[j])@.attrs == groups[j].1
                        && objs@[j]@.handle == 0 && objs@[j]@.session == 0,
            }
        }),
{
    let ghost rv = rows@.map_values(|x: Row| spec_row_view(x));
    let mut objid: i64 = 0;
    let mut objects: Vec<Object> = Vec::new();
    let mut k: usize = 0;
    proof {
        assert(rv.take(0) =~= Seq::<RowV>::empty());
    }
    while k < rows.len()
        invariant
            0 <= k <= rv.len(),
            rv == rows@.map_values(|x: Row| spec_row_view(x)),
            rv.len() == rows@.len(),
            spec_rows_to_groups(rv.take(k as int)) matches Ok(groups) && objects@.len()
                == groups.len() && (forall|j: int|
                0 <= j < groups.len() ==> (#[trigger] objects@[j])@.attrs == groups[j].1
                    && objects@[j]@.handle == 0 && objects@[j]@.session == 0) && (groups.len() > 0
                ==> objid == groups.last().0) && (groups.len() == 0 ==> objid == 0),
        decreases rv.len() - k,
    {
        proof {
            assert(rv.take(k as int + 1).drop_last() =~= rv.take(k as int));
            assert(rv.take(k as int + 1).last() == rv[k as int]);
        }
        let id = rows[k].0;
        let entry = CkAttribute {
            id: rows[k].1,
            value: Some(crate::attribute::clone_bytes(&rows[k].2)),
            len: rows[k].2.len() as u64,
        };
        let a = match entry.to_attribute() {
            Ok(a) => a,
            Err(e) => {
                proof {
                    lemma_rows_groups_err(rv, k as int, e);
                }
                return Err(e);
            },
        };
        if objid != id {
            if id == 0 {
                proof {
                    lemma_rows_groups_err(rv, k as int, KError::RvError(CKR_GENERAL_ERROR));
                }
                return Err(KError::RvError(CKR_GENERAL_ERROR));
            }
            objid = id;
            objects.push(Object::new(0));
        }
        let n = objects.len();
        if n == 0 {
            proof {
                lemma_rows_groups_err(rv, k as int, KError::RvError(CKR_GENERAL_ERROR));
            }
            return Err(KError::RvError(CKR_GENERAL_ERROR));
        }
        let mut last = objects.remove(n - 1);
        let ghost before = last@.attrs;
        let _ = last.set_attr(a);
        let ghost gs = spec_rows_to_groups(rv.take(k as int))->Ok_0;
        objects.push(last);
        proof {
            let groups2 = spec_rows_to_groups(rv.take(k as int + 1))->Ok_0;
            assert(objects@.len() == groups2.len());
            assert forall|j: int| 0 <= j < groups2.len() implies (#[trigger] objects@[j])@.attrs
                == groups2[j].1 && objects@[j]@.handle == 0 && objects@[j]@.session == 0 by {
                if j < groups2.len() - 1 {
                    assert(objects@[j] == old_objects_at(objects@, j));
                }
            }
        }
        k += 1;
    }
    proof {
        assert(rv.take(rv.len() as int) =~= rv);
    }
    Ok(objects)
}

/// A helping name for a sequence index (keeps the quantified proof
/// step readable).
pub open spec fn old_objects_at(s: Seq<Object>, j: int) -> Object {
    s[j]
}

/// The model of the cache: unique-id bytes paired with objects.
pub open spec fn spec_cache_view(c: Seq<(Vec<u8>, Object)>) -> Seq<(Seq<u8>, Object)> {
    c.map_values(|p: (Vec<u8>, Object)| (p.0@, p.1))
}

/// What installing an object in the cache leaves behind: the entry for
/// the unique id holds the object with its modified flag cleared,
/// keeping the handle and session of any entry it replaces; every other
/// entry is untouched.
pub open spec fn spec_cache_obj_post(
    c0: Seq<(Seq<u8>, Object)>,
    c1: Seq<(Seq<u8>, Object)>,
    uid: Seq<u8>,
    obj: Object,
) -> bool {
    &&& match spec_assoc_find(c0, uid) {
        Some(old_o) => c1.len() == c0.len() && (spec_assoc_find(c1, uid) matches Some(o) && o@
            == (ObjView {
            handle: old_o@.handle,
            session: old_o@.session,
            modified: false,
            attrs: obj@.attrs,
        })),
        None => c1.len() == c0.len() + 1 && (spec_assoc_find(c1, uid) matches Some(o) && o@ == (
        ObjView { modified: false, ..obj@ })),
    }
    &&& forall|q: Seq<u8>| q != uid ==> spec_assoc_find(c1, q) == spec_assoc_find(c0, q)
}

/// The cache without the entries of one unique id, in order.
pub open spec fn spec_cache_remove(c: Seq<(Seq<u8>, Object)>, uid: Seq<u8>) -> Seq<
    (Seq<u8>, Object),
>
    decreases c.len(),
{
    if c.len() == 0 {
        Seq::empty()
    } else {
        spec_cache_remove(c.drop_last(), uid) + (
        if c.last().0 == uid {
            Seq::empty()
        } else {
            seq![c.last()]
        })
    }
}

/// The cached objects that match a template, in cache order.
pub open spec fn spec_cache_matching(
    c: Seq<(Seq<u8>, Object)>,
    entries: Seq<crate::interface::CkAttrView>,
) -> Seq<Object>
    decreases c.len(),
{
    if c.len() == 0 {
        Seq::empty()
    } else {
        spec_cache_matching(c.drop_last(), entries) + (
        if spec_match_template(c.last().1@.attrs, entries) {
            seq![c.last().1]
        } else {
            Seq::empty()
        })
    }
}

/// The rows one object persists as: one `(row id, attribute id, value)`
/// triple per attribute, in attribute order.
pub fn object_to_rows(objid: i64, obj: &Object) -> (r: Vec<Row>)
    ensures
        r@.map_values(|x: Row| spec_row_view(x)) == spec_object_rows(objid, obj@.attrs),
{
    let ghost attrs = obj@.attrs;
    let mut rows: Vec<Row> = Vec::new();
    let mut k: usize = 0;
    proof {
        assert(rows@.map_values(|x: Row| spec_row_view(x)) =~= spec_object_rows(
            objid,
            attrs.take(0),
        ));
    }
    while k < obj.attributes.len()
        invariant
            0 <= k <= attrs.len(),
            attrs == obj@.attrs,
            attrs.len() == obj.attributes@.len(),
            rows@.map_values(|x: Row| spec_row_view(x)) == spec_object_rows(
                objid,
                attrs.take(k as int),
            ),
        decreases attrs.len() - k,
    {
        let a = &obj.attributes[k];
        rows.push((objid, a.get_type(), clone_bytes(a.get_value())));
        proof {
            assert(attrs[k as int] == obj.attributes@[k as int]@);
            assert(attrs.take(k as int + 1) =~= attrs.take(k as int).push(attrs[k as int]));
            assert(spec_object_rows(objid, attrs.take(k as int + 1)) =~= spec_object_rows(
                objid,
                attrs.take(k as int),
            ).push((objid, attrs[k as int].id, attrs[k as int].value)));
            assert(rows@.map_values(|x: Row| spec_row_view(x)) =~= spec_object_rows(
                objid,
                attrs.take(k as int + 1),
            ));
        }
        k += 1;
    }
    proof {
        assert(attrs.take(attrs.len() as int) =~= attrs);
    }
    rows
}

/// The fixed text of the search query for a template of `n` entries:
/// the row selection, an id-intersection of one subquery per entry, and
/// the ascending row-id order.
pub open spec fn spec_search_query(n: int) -> Seq<char> {
    if n <= 0 {
        "SELECT id, attr, val FROM objects"@ + " ORDER BY id"@
    } else {
        spec_search_prefix(n) + " )"@ + " ORDER BY id"@
    }
}

/// The selection and the first `n` intersected subqueries.
pub open spec fn spec_search_prefix(n: int) -> Seq<char>
    decreases n,
{
    if n <= 1 {
        "SELECT id, attr, val FROM objects"@ + " WHERE id IN ( "@
            + "SELECT id FROM objects WHERE attr = ? AND val = ?"@
    } else {
        spec_search_prefix(n - 1) + " INTERSECT "@
            + "SELECT id FROM objects WHERE attr = ? AND val = ?"@
    }
}

/// Build the search query text for a template of `n` entries.
fn search_query_text(n: usize) -> (r: String)
    ensures
        r@ == spec_search_query(n as int),
{
    let mut query = String::from_str("SELECT id, attr, val FROM objects");
    let mut k: usize = 0;
    while k < n
        invariant
            0 <= k <= n,
            k == 0 ==> query@ == "SELECT id, attr, val FROM objects"@,
            k > 0 ==> query@ == spec_search_prefix(k as int),
        decreases n - k,
    {
        if k == 0 {
            query.append(" WHERE id IN ( ");
        } else {
            query.append(" INTERSECT ");
        }
        query.append("SELECT id FROM objects WHERE attr = ? AND val = ?");
        proof {
            if k == 0 {
                assert(query@ =~= spec_search_prefix(1));
            } else {
                assert(query@ =~= spec_search_prefix(k as int + 1));
            }
        }
        k += 1;
    }
    if n > 0 {
        query.append(" )");
    }
    query.append(" ORDER BY id");
    proof {
        assert(query@ =~= spec_search_query(n as int));
    }
    query
}

/// The `(attribute, value)` pairs a template binds into the search
/// query: its entries in order, a missing buffer standing for the empty
/// value.
pub fn template_to_pairs(template: &[CkAttribute]) -> (r: Vec<(u64, Vec<u8>)>)
    ensures
        r@.len() == template@.len(),
        forall|j: int|
            0 <= j < template@.len() ==> (#[trigger] r@[j]).0 == template@[j]@.id && r@[j].1@ == (
            match template@[j]@.value {
                Some(v) => v,
                None => Seq::<u8>::empty(),
            }),
{
    let mut pairs: Vec<(u64, Vec<u8>)> = Vec::new();
    let mut k: usize = 0;
    while k < template.len()
        invariant
            0 <= k <= template@.len(),
            pairs@.len() == k,
            forall|j: int|
                0 <= j < k ==> (#[trigger] pairs@[j]).0 == template@[j]@.id && pairs@[j].1@ == (
                match template@[j]@.value {
                    Some(v) => v,
                    None => Seq::<u8>::empty(),
                }),
        decreases template@.len() - k,
    {
        let v = match &template[k].value {
            Some(v) => clone_bytes(v),
            None => Vec::new(),
        };
        pairs.push((template[k].id, v));
        k += 1;
    }
    pairs
}

/// The cache-backed relational store.
pub struct SqliteStorage {
    pub filename: String,
    pub conn: rusqlite::Connection,
    pub cache: Vec<(Vec<u8>, Object)>,
}

impl SqliteStorage {
    /// The model of this store's cache.
    pub open spec fn cview(&self) -> Seq<(Seq<u8>, Object)> {
        spec_cache_view(self.cache@)
    }

    /// Whether the database behind the connection holds the objects
    /// table.
    pub fn is_initialized(&self) -> (r: KResult<()>)
        ensures
            r == Ok::<(), KError>(()) || r == Err::<(), KError>(
                KError::RvError(CKR_CRYPTOKI_NOT_INITIALIZED),
            ) || r == Err::<(), KError>(KError::RvError(CKR_DEVICE_MEMORY)),
    {
        let count = match db_table_count(&self.conn) {
            Ok(n) => n,
            Err(_) => {
                return Err(KError::RvError(CKR_DEVICE_MEMORY));
            },
        };
        if count == 1 {
            Ok(())
        } else if count == 0 {
            Err(KError::RvError(CKR_CRYPTOKI_NOT_INITIALIZED))
        } else {
            Err(KError::RvError(CKR_DEVICE_MEMORY))
        }
    }

    /// Drop and recreate the objects table inside one transaction; the
    /// drop may fail against a fresh database and is tolerated.
    pub fn db_reset(&mut self) -> (r: KResult<()>)
        ensures
            final(self).cache == old(self).cache,
            final(self).filename == old(self).filename,
    {
        if let Err(e) = db_exec(&self.conn, "BEGIN IMMEDIATE") {
            return Err(e);
        }
        let _ = db_exec(&self.conn, "DROP TABLE objects");
        if let Err(e) = db_exec(
            &self.conn,
            "CREATE TABLE objects (id int NOT NULL, attr int NOT NULL, val blob, enc int, UNIQUE (id, attr))",
        ) {
            let _ = db_exec(&self.conn, "ROLLBACK");
            return Err(e);
        }
        db_exec(&self.conn, "COMMIT")
    }

    /// Open the token file, drop the cache, and demand the table.
    pub fn open(&mut self, filename: &String) -> (r: KResult<()>)
        ensures
            r == Err::<(), KError>(KError::RvError(CKR_TOKEN_NOT_PRESENT)) || (
            final(self).cache@.len() == 0 && final(self).filename@ == filename@),
    {
        self.filename = filename.clone();
        match db_open(self.filename.as_str()) {
            Ok(c) => {
                self.conn = c;
            },
            Err(e) => {
                return Err(e);
            },
        }
        self.cache.clear();
        self.is_initialized()
    }

    pub fn reinit(&mut self) -> (r: KResult<()>)
        ensures
            final(self).cache == old(self).cache,
            final(self).filename == old(self).filename,
    {
        self.db_reset()
    }

    /// Install an object in the cache under its unique id: the modified
    /// flag is cleared, and the handle and session of a replaced entry
    /// are kept.
    pub fn cache_obj(&mut self, uid: &Vec<u8>, obj: Object)
        ensures
            final(self).filename == old(self).filename,
            spec_cache_obj_post(old(self).cview(), final(self).cview(), uid@, obj),
    {
        let ghost c0 = self.cview();
        let ghost objv0 = obj;
        let mut nobj = obj;
        nobj.reset_modified();
        let mut i: usize = 0;
        proof {
            assert(c0.skip(0) =~= c0);
        }
        while i < self.cache.len()
            invariant
                0 <= i <= c0.len(),
                *self == *old(self),
                c0 == self.cview(),
                c0.len() == self.cache@.len(),
                nobj@ == (ObjView { modified: false, ..objv0@ }),
                objv0 == obj,
                spec_assoc_find(c0, uid@) == spec_assoc_find(c0.skip(i as int), uid@),
                forall|j: int| 0 <= j < i ==> (#[trigger] c0[j]).0 != uid@,
            decreases c0.len() - i,
        {
            proof {
                assert(c0.skip(i as int)[0] == c0[i as int]);
                assert(c0.skip(i as int).skip(1) =~= c0.skip(i as int + 1));
            }
            if eq_bytes(self.cache[i].0.as_slice(), uid.as_slice()) {
                proof {
                    assert(c0[i as int] == ((self.cache@[i as int].0@, self.cache@[i as int].1)));
                    assert(c0[i as int].0 == uid@);
                }
                let h = self.cache[i].1.get_handle();
                let s = self.cache[i].1.get_session();
                nobj.set_handle(h);
                nobj.set_session(s);
                let ghost objv = nobj;
                let ghost old_o = c0[i as int].1;
                self.cache.set(i, (clone_bytes(uid), nobj));
                proof {
                    assert(self.cview() =~= c0.update(i as int, (uid@, objv)));
                    lemma_assoc_find_update(c0, i as int, objv, uid@);
                    assert(spec_assoc_find(c0, uid@) == Some(old_o));
                    assert(objv@ == (ObjView {
                        handle: old_o@.handle,
                        session: old_o@.session,
                        modified: false,
                        attrs: objv0@.attrs,
                    }));
                    assert(spec_assoc_find(self.cview(), uid@) == Some(objv));
                    assert forall|q: Seq<u8>| q != uid@ implies spec_assoc_find(
                        self.cview(),
                        q,
                    ) == spec_assoc_find(c0, q) by {
                        lemma_assoc_find_update(c0, i as int, objv, q);
                    }
                    assert(spec_cache_obj_post(c0, self.cview(), uid@, objv0));
                }
                return ;
            }
            i += 1;
        }
        proof {
            assert(c0.skip(i as int) =~= Seq::<(Seq<u8>, Object)>::empty());
            assert(spec_assoc_find(c0, uid@) is None);
        }
        let ghost objv = nobj;
        self.cache.push((clone_bytes(uid), nobj));
        proof {
            assert(self.cview() =~= c0.push((uid@, objv)));
            lemma_assoc_find_push(c0, uid@, objv, uid@);
            assert forall|q: Seq<u8>| q != uid@ implies spec_assoc_find(self.cview(), q)
                == spec_assoc_find(c0, q) by {
                lemma_assoc_find_push(c0, uid@, objv, q);
            }
        }
    }

    /// The cached object under the unique id, if any.
    pub fn get_cached_by_uid(&self, uid: &Vec<u8>) -> (r: KResult<&Object>)
        ensures
            match spec_assoc_find(self.cview(), uid@) {
                Some(o) => r matches Ok(g) && *g == o,
                None => r == Err::<&Object, KError>(KError::NotFound),
            },
    {
        let ghost c0 = self.cview();
        let mut i: usize = 0;
        proof {
            assert(c0.skip(0) =~= c0);
        }
        while i < self.cache.len()
            invariant
                0 <= i <= c0.len(),
                c0 == self.cview(),
                c0.len() == self.cache@.len(),
                spec_assoc_find(c0, uid@) == spec_assoc_find(c0.skip(i as int), uid@),
            decreases c0.len() - i,
        {
            proof {
                assert(c0.skip(i as int)[0] == c0[i as int]);
                assert(c0.skip(i as int).skip(1) =~= c0.skip(i as int + 1));
            }
            if eq_bytes(self.cache[i].0.as_slice(), uid.as_slice()) {
                return Ok(&self.cache[i].1);
            }
            i += 1;
        }
        proof {
            assert(c0.skip(i as int) =~= Seq::<(Seq<u8>, Object)>::empty());
        }
        Err(KError::NotFound)
    }

    /// The position of the unique id in the cache, if any.
    fn cache_index_of(&self, uid: &Vec<u8>) -> (r: Option<usize>)
        ensures
            match r {
                Some(i) => i < self.cview().len() && self.cview()[i as int].0 == uid@ && (forall|
                    j: int,
                |
                    0 <= j < i ==> (#[trigger] self.cview()[j]).0 != uid@) && spec_assoc_find(
                    self.cview(),
                    uid@,
                ) == Some(self.cview()[i as int].1),
                None => spec_assoc_find(self.cview(), uid@) is None,
            },
    {
        let ghost c0 = self.cview();
        let mut i: usize = 0;
        proof {
            assert(c0.skip(0) =~= c0);
        }
        while i < self.cache.len()
            invariant
                0 <= i <= c0.len(),
                c0 == self.cview(),
                c0.len() == self.cache@.len(),
                spec_assoc_find(c0, uid@) == spec_assoc_find(c0.skip(i as int), uid@),
                forall|j: int| 0 <= j < i ==> (#[trigger] c0[j]).0 != uid@,
            decreases c0.len() - i,
        {
            proof {
                assert(c0.skip(i as int)[0] == c0[i as int]);
                assert(c0.skip(i as int).skip(1) =~= c0.skip(i as int + 1));
            }
            if eq_bytes(self.cache[i].0.as_slice(), uid.as_slice()) {
                return Some(i);
            }
            i += 1;
        }
        proof {
            assert(c0.skip(i as int) =~= Seq::<(Seq<u8>, Object)>::empty());
        }
        None
    }

    /// A mutable reference to the cached object under the unique id; a
    /// miss re-reads the object from the database and installs it
    /// first.  Afterwards the cache holds, under that id, exactly what
    /// the caller leaves behind the reference.
    pub fn get_cached_by_uid_mut(&mut self, uid: &Vec<u8>) -> (r: KResult<&mut Object>)
        ensures
            r matches Ok(m) ==> spec_assoc_find(final(self).cview(), uid@) == Some(*final(m)),
            match spec_assoc_find(old(self).cview(), uid@) {
                Some(o) => r matches Ok(m) && *m == o,
                None => true,
            },
    {
        let hit = self.cache_index_of(uid).is_some();
        if !hit {
            let obj = match Self::search_by_unique_id(&self.conn, uid) {
                Ok(o) => o,
                Err(e) => {
                    return Err(e);
                },
            };
            self.cache_obj(uid, obj);
        }
        let idx = match self.cache_index_of(uid) {
            Some(i) => i,
            None => {
                assert(false);
                return Err(KError::NotFound);
            },
        };
        let ghost mid = self.cview();
        let ghost midc = self.cache@;
        let ghost kv = midc[idx as int].0;
        proof {
            assert(kv@ == uid@);
            assert forall|v: Object| #[trigger] spec_assoc_find(
                spec_cache_view(midc.update(idx as int, (kv, v))),
                uid@,
            ) == Some(v) by {
                assert(spec_cache_view(midc.update(idx as int, (kv, v))) =~= mid.update(
                    idx as int,
                    (uid@, v),
                ));
                lemma_assoc_find_update(mid, idx as int, v, uid@);
            }
        }
        let m = &mut self.cache[idx].1;
        Ok(m)
    }

    /// Every cached object, in cache order.
    pub fn get_all_cached(&self) -> (r: Vec<&Object>)
        ensures
            r@.len() == self.cview().len(),
            forall|j: int| 0 <= j < r@.len() ==> *r@[j] == (#[trigger] self.cview()[j]).1,
    {
        let mut result: Vec<&Object> = Vec::new();
        let mut i: usize = 0;
        while i < self.cache.len()
            invariant
                0 <= i <= self.cache@.len(),
                result@.len() == i,
                forall|j: int| 0 <= j < i ==> *result@[j] == (#[trigger] self.cview()[j]).1,
            decreases self.cache@.len() - i,
        {
            result.push(&self.cache[i].1);
            i += 1;
        }
        result
    }

    /// Load one object's rows from the database and rebuild it.
    fn search_by_unique_id(conn: &rusqlite::Connection, uid: &Vec<u8>) -> (r: KResult<Object>)
        ensures
            r matches Ok(o) ==> o@.handle == 0 && o@.session == 0,
    {
        let rows = db_rows_by_attr_val(conn, CKA_UNIQUE_ID, uid.as_slice())?;
        let mut objects = rows_to_objects(&rows)?;
        let n = objects.len();
        if n == 0 {
            Err(KError::NotFound)
        } else if n == 1 {
            match objects.pop() {
                Some(o) => Ok(o),
                None => Err(KError::RvError(CKR_GENERAL_ERROR)),
            }
        } else {
            Err(KError::RvError(CKR_GENERAL_ERROR))
        }
    }

    /// Translate a template into an id-intersection query, run it, and
    /// rebuild the objects, ordered by row id.  What is handed to the
    /// database is contracted piecewise: the text is
    /// `spec_search_query` of the entry count, the bound pairs are the
    /// template's entries in order (`template_to_pairs`), and the
    /// answer is the `rows_to_objects` rebuild of whatever rows the
    /// database returned.
    fn search_with_filter(conn: &rusqlite::Connection, template: &[CkAttribute]) -> (r: KResult<
        Vec<Object>,
    >)
        ensures
            r matches Ok(objs) ==> forall|j: int|
                0 <= j < objs@.len() ==> (#[trigger] objs@[j])@.handle == 0 && objs@[j]@.session
                    == 0,
    {
        let query = search_query_text(template.len());
        let pairs = template_to_pairs(template);
        let rows = db_rows_filtered(conn, query.as_str(), &pairs)?;
        rows_to_objects(&rows)
    }

    /// Fetch by unique id: a cached session object is served from the
    /// cache; a token object is re-read from the database and installed
    /// in the cache, keeping a prior entry's handle and session.
    pub fn fetch_by_uid(&mut self, uid: &Vec<u8>) -> (r: KResult<&Object>)
        ensures
            final(self).filename == old(self).filename,
            r matches Ok(o) ==> spec_assoc_find(final(self).cview(), uid@) == Some(*o),
            match spec_assoc_find(old(self).cview(), uid@) {
                Some(o) => !spec_bool_attr(o@.attrs, CKA_TOKEN, false) ==> (r matches Ok(p) && *p
                    == o && final(self).cview() == old(self).cview()),
                None => true,
            },
    {
        let is_token = match self.get_cached_by_uid(uid) {
            Ok(o) => o.is_token(),
            Err(_) => true,
        };
        if is_token {
            let obj = match Self::search_by_unique_id(&self.conn, uid) {
                Ok(o) => o,
                Err(e) => {
                    return Err(e);
                },
            };
            self.cache_obj(uid, obj);
        }
        self.get_cached_by_uid(uid)
    }

    /// Persist a token object (one transaction: old rows out, one row
    /// per attribute in) and install it in the cache either way.
    pub fn store(&mut self, uid: &Vec<u8>, obj: Object) -> (r: KResult<()>)
        ensures
            final(self).filename == old(self).filename,
            r matches Ok(()) ==> spec_cache_obj_post(
                old(self).cview(),
                final(self).cview(),
                uid@,
                obj,
            ),
            !spec_bool_attr(obj@.attrs, CKA_TOKEN, false) ==> r == Ok::<(), KError>(()),
    {
        if obj.is_token() {
            if let Err(e) = db_exec(&self.conn, "BEGIN IMMEDIATE") {
                return Err(e);
            }
            match Self::store_object(&self.conn, uid, &obj) {
                Ok(()) => {
                    if let Err(e) = db_exec(&self.conn, "COMMIT") {
                        return Err(e);
                    }
                },
                Err(e) => {
                    let _ = db_exec(&self.conn, "ROLLBACK");
                    return Err(e);
                },
            }
        }
        self.cache_obj(uid, obj);
        Ok(())
    }

    /// Write one object's attribute rows under its row id (a fresh one
    /// where it has none yet): the rows handed to the database are
    /// exactly `spec_object_rows` of the object, one per attribute, in
    /// order.  What the database then holds has no model here; the
    /// library's own refusal is the row-id overflow.
    fn store_object(conn: &rusqlite::Connection, uid: &Vec<u8>, obj: &Object) -> (r: KResult<()>)
        ensures
            r matches Err(e) ==> e == KError::RvError(CKR_DEVICE_MEMORY) || e == KError::RvError(
                CKR_GENERAL_ERROR,
            ),
    {
        let objid = Self::delete_object(conn, uid)?;
        let objid = if objid == 0 {
            let maxid = db_max_id(conn)?;
            if maxid == i64::MAX || maxid < 0 {
                return Err(KError::RvError(CKR_GENERAL_ERROR));
            }
            maxid + 1
        } else {
            objid
        };
        let rows = object_to_rows(objid, obj);
        let mut k: usize = 0;
        while k < rows.len()
            decreases rows@.len() - k,
        {
            match db_insert_row(conn, rows[k].0, rows[k].1, rows[k].2.as_slice()) {
                Ok(()) => {},
                Err(_) => {
                    return Err(KError::RvError(CKR_DEVICE_MEMORY));
                },
            }
            k += 1;
        }
        Ok(())
    }

    /// Delete an object's rows; the answer is the row id it had, zero
    /// where it had none.
    fn delete_object(conn: &rusqlite::Connection, uid: &Vec<u8>) -> (r: KResult<i64>)
        ensures
            r matches Err(e) ==> e == KError::RvError(CKR_DEVICE_MEMORY),
    {
        let objid = db_object_id_for_uid(conn, uid.as_slice())?;
        if objid != 0 {
            db_delete_rows(conn, objid)?;
        }
        Ok(objid)
    }

    /// Flush: in one transaction, persist every cached, modified,
    /// token-resident object and clear every modified flag.
    pub fn flush(&mut self) -> (r: KResult<()>)
        ensures
            final(self).filename == old(self).filename,
            r matches Ok(()) ==> {
                &&& final(self).cview().len() == old(self).cview().len()
                &&& forall|j: int|
                    0 <= j < old(self).cview().len() ==> (#[trigger] final(self).cview()[j]).0
                        == old(self).cview()[j].0 && final(self).cview()[j].1@ == (ObjView {
                        modified: false,
                        ..old(self).cview()[j].1@
                    })
            },
            ({
                let c0 = old(self).cview();
                let c1 = final(self).cview();
                c1.len() == c0.len() && forall|j: int|
                    0 <= j < c0.len() ==> (#[trigger] c1[j]).0 == c0[j].0 && (c1[j].1@ == c0[j].1@
                        || c1[j].1@ == (ObjView { modified: false, ..c0[j].1@ }))
            }),
    {
        let ghost c0 = self.cview();
        if let Err(e) = db_exec(&self.conn, "BEGIN IMMEDIATE") {
            return Err(e);
        }
        let mut i: usize = 0;
        while i < self.cache.len()
            invariant
                0 <= i <= c0.len(),
                c0 == old(self).cview(),
                c0.len() == self.cache@.len(),
                self.filename == old(self).filename,
                forall|j: int|
                    0 <= j < i ==> (#[trigger] self.cview()[j]).0 == c0[j].0
                        && self.cview()[j].1@ == (ObjView { modified: false, ..c0[j].1@ }),
                forall|j: int| i <= j < c0.len() ==> (#[trigger] self.cview()[j]) == c0[j],
            decreases c0.len() - i,
        {
            let ghost cpre = self.cache@;
            let ghost vpre = self.cview();
            let mut pair = self.cache.remove(i);
            if pair.1.is_modified() {
                pair.1.reset_modified();
                if pair.1.is_token() {
                    if let Err(e) = Self::store_object(&self.conn, &pair.0, &pair.1) {
                        let _ = db_exec(&self.conn, "ROLLBACK");
                        let ghost pv2 = pair;
                        self.cache.insert(i, pair);
                        proof {
                            assert(self.cache@ =~= cpre.update(i as int, pv2));
                            assert(self.cview() =~= vpre.update(i as int, (pv2.0@, pv2.1)));
                            assert(vpre[i as int] == c0[i as int]);
                            assert(pv2.1@ == (ObjView {
                                modified: false,
                                ..c0[i as int].1@
                            }));
                            assert forall|j: int| 0 <= j < c0.len() implies (#[trigger] self.cview()[j]).0
                                == c0[j].0 && (self.cview()[j].1@ == c0[j].1@ || self.cview()[j].1@
                                == (ObjView { modified: false, ..c0[j].1@ })) by {
                                if j != i {
                                    assert(self.cview()[j] == vpre[j]);
                                }
                            }
                        }
                        return Err(e);
                    }
                }
            } else {
                pair.1.reset_modified();
            }
            let ghost pv = pair;
            self.cache.insert(i, pair);
            proof {
                assert(self.cache@ =~= cpre.update(i as int, pv));
                assert(self.cview() =~= vpre.update(i as int, (pv.0@, pv.1)));
                assert(pv.0@ == vpre[i as int].0);
                assert(vpre[i as int] == c0[i as int]);
                assert(pv.1@ == (ObjView { modified: false, ..c0[i as int].1@ }));
            }
            i += 1;
        }
        db_exec(&self.conn, "COMMIT")
    }

    /// Search: merge the database's matches into the cache, then answer
    /// with every cached object that matches the template, in cache
    /// order.  Cache order is insertion order; database matches arrive
    /// ordered by ascending row id, so on a freshly opened token the
    /// answer is ordered by insertion id, session objects cached
    /// earlier coming first.
    pub fn search(&mut self, template: &[CkAttribute]) -> (r: KResult<Vec<&Object>>)
        ensures
            final(self).filename == old(self).filename,
            r matches Ok(v) ==> v@.map_values(|o: &Object| *o) == spec_cache_matching(
                final(self).cview(),
                template@.map_values(|e: CkAttribute| e@),
            ),
    {
        let ghost entries = template@.map_values(|e: CkAttribute| e@);
        let mut objects = match Self::search_with_filter(&self.conn, template) {
            Ok(objs) => objs,
            Err(e) => {
                return Err(e);
            },
        };
        while objects.len() > 0
            invariant
                self.filename == old(self).filename,
            decreases objects@.len(),
        {
            let obj = objects.remove(0);
            match obj.get_attr_as_string(CKA_UNIQUE_ID) {
                Ok(uid) => {
                    self.cache_obj(&uid, obj);
                },
                Err(_) => {},
            }
        }
        let ghost cv = self.cview();
        let mut result: Vec<&Object> = Vec::new();
        let mut i: usize = 0;
        proof {
            assert(cv.take(0) =~= Seq::<(Seq<u8>, Object)>::empty());
            assert(result@.map_values(|o: &Object| *o) =~= spec_cache_matching(
                cv.take(0),
                entries,
            ));
        }
        while i < self.cache.len()
            invariant
                0 <= i <= cv.len(),
                cv == self.cview(),
                cv.len() == self.cache@.len(),
                entries == template@.map_values(|e: CkAttribute| e@),
                result@.map_values(|o: &Object| *o) == spec_cache_matching(
                    cv.take(i as int),
                    entries,
                ),
            decreases cv.len() - i,
        {
            proof {
                assert(cv.take(i as int + 1).drop_last() =~= cv.take(i as int));
                assert(cv.take(i as int + 1).last() == cv[i as int]);
            }
            if self.cache[i].1.match_template(template) {
                result.push(&self.cache[i].1);
            }
            proof {
                assert(result@.map_values(|o: &Object| *o) =~= spec_cache_matching(
                    cv.take(i as int + 1),
                    entries,
                ));
            }
            i += 1;
        }
        proof {
            assert(cv.take(cv.len() as int) =~= cv);
        }
        Ok(result)
    }

    /// Drop an object from the cache and, for a token object, from the
    /// database.
    pub fn remove_by_uid(&mut self, uid: &Vec<u8>) -> (r: KResult<()>)
        ensures
            final(self).filename == old(self).filename,
            r matches Ok(()) ==> final(self).cview() == spec_cache_remove(
                old(self).cview(),
                uid@,
            ),
            match spec_assoc_find(old(self).cview(), uid@) {
                Some(o) => !spec_bool_attr(o@.attrs, CKA_TOKEN, false) ==> r == Ok::<(), KError>(
                    (),
                ),
                None => true,
            },
    {
        let is_token = match self.get_cached_by_uid(uid) {
            Ok(o) => o.is_token(),
            Err(_) => true,
        };
        let ghost c0 = self.cview();
        let mut kept: Vec<(Vec<u8>, Object)> = Vec::new();
        let ghost mut k: int = 0;
        proof {
            assert(c0.take(0) =~= Seq::<(Seq<u8>, Object)>::empty());
            assert(spec_cache_view(kept@) =~= spec_cache_remove(c0.take(0), uid@));
            assert(spec_cache_view(self.cache@).skip(0) =~= c0.skip(0));
        }
        while self.cache.len() > 0
            invariant
                0 <= k <= c0.len(),
                self.filename == old(self).filename,
                self.cache@.len() == c0.len() - k,
                spec_cache_view(self.cache@) == c0.skip(k),
                spec_cache_view(kept@) == spec_cache_remove(c0.take(k), uid@),
            decreases self.cache@.len(),
        {
            proof {
                assert(c0.take(k + 1).drop_last() =~= c0.take(k));
                assert(c0.take(k + 1).last() == c0[k]);
                assert(c0.skip(k)[0] == c0[k]);
            }
            let ghost cpre = self.cache@;
            let pair = self.cache.remove(0);
            proof {
                assert(self.cache@ =~= cpre.skip(1));
                assert(spec_cache_view(cpre.skip(1)) =~= spec_cache_view(cpre).skip(1));
                assert(spec_cache_view(cpre).skip(1) =~= c0.skip(k).skip(1));
                assert(c0.skip(k).skip(1) =~= c0.skip(k + 1));
                assert((pair.0@, pair.1) == c0[k]);
            }
            if !eq_bytes(pair.0.as_slice(), uid.as_slice()) {
                kept.push(pair);
            }
            proof {
                assert(spec_cache_view(kept@) =~= spec_cache_remove(c0.take(k + 1), uid@));
                k = k + 1;
            }
        }
        proof {
            assert(c0.take(c0.len() as int) =~= c0);
        }
        self.cache = kept;
        if is_token {
            if let Err(e) = db_exec(&self.conn, "BEGIN IMMEDIATE") {
                return Err(e);
            }
            match Self::delete_object(&self.conn, uid) {
                Ok(_) => {
                    if let Err(e) = db_exec(&self.conn, "COMMIT") {
                        return Err(e);
                    }
                },
                Err(e) => {
                    let _ = db_exec(&self.conn, "ROLLBACK");
                    return Err(e);
                },
            }
        }
        Ok(())
    }
}

/// A storage backend over a fresh private in-memory database.
pub fn sqlite() -> (r: KResult<SqliteStorage>)
    ensures
        r matches Ok(s) ==> s.cview().len() == 0,
{
    let conn = db_open_in_memory()?;
    let s = SqliteStorage { filename: String::new(), conn, cache: Vec::new() };
    assert(s.cview() =~= Seq::<(Seq<u8>, Object)>::empty());
    Ok(s)
}

/// The rows one object's attributes persist as, under one row id.
pub open spec fn spec_object_rows(id: i64, attrs: Seq<crate::attribute::AttrView>) -> Seq<RowV> {
    attrs.map_values(|a: crate::attribute::AttrView| (id, a.id, a.value))
}

/// Law (the in-memory half of the storage round trip): rebuilding the
/// rows that one object's attributes persist as yields exactly that
/// object again — one group carrying the attributes in their stored
/// order.  It asks only that the row id is lawful, that each attribute
/// re-decodes to itself under the schema, and that the ids are unique,
/// which the object invariant gives.
pub proof fn lemma_store_rows_round_trip(id: i64, attrs: Seq<crate::attribute::AttrView>)
    requires
        id != 0,
        forall|j: int|
            0 <= j < attrs.len() ==> spec_row_decode(
                (id, (#[trigger] attrs[j]).id, attrs[j].value),
            ) == Ok::<crate::attribute::AttrView, KError>(attrs[j]),
        forall|i: int, j: int|
            0 <= i < j < attrs.len() ==> (#[trigger] attrs[i]).id != (#[trigger] attrs[j]).id,
    ensures
        attrs.len() == 0 ==> spec_rows_to_groups(spec_object_rows(id, attrs)) == Ok::<
            Seq<(i64, Seq<crate::attribute::AttrView>)>,
            KError,
        >(Seq::empty()),
        attrs.len() > 0 ==> spec_rows_to_groups(spec_object_rows(id, attrs)) == Ok::<
            Seq<(i64, Seq<crate::attribute::AttrView>)>,
            KError,
        >(seq![(id, attrs)]),
    decreases attrs.len(),
{
    let rows = spec_object_rows(id, attrs);
    if attrs.len() == 0 {
        assert(rows =~= Seq::<RowV>::empty());
    } else {
        let front = attrs.drop_last();
        let a = attrs.last();
        assert forall|j: int| 0 <= j < front.len() implies spec_row_decode(
            (id, (#[trigger] front[j]).id, front[j].value),
        ) == Ok::<crate::attribute::AttrView, KError>(front[j]) by {
            assert(front[j] == attrs[j]);
        }
        assert forall|i: int, j: int| 0 <= i < j < front.len() implies (#[trigger] front[i]).id
            != (#[trigger] front[j]).id by {
            assert(front[i] == attrs[i] && front[j] == attrs[j]);
        }
        lemma_store_rows_round_trip(id, front);
        assert(rows.drop_last() =~= spec_object_rows(id, front));
        assert(rows.last() == (id, a.id, a.value));
        if front.len() == 0 {
            assert(spec_rows_to_groups(rows) == Ok::<
                Seq<(i64, Seq<crate::attribute::AttrView>)>,
                KError,
            >(seq![(id, seq![a])]));
            assert(seq![a] =~= attrs);
        } else {
            let groups = seq![(id, front)];
            assert forall|j: int| 0 <= j < front.len() implies (#[trigger] front[j]).id != a.id
                by {
                assert(front[j] == attrs[j] && a == attrs[attrs.len() - 1]);
            }
            crate::object::lemma_find_index_props(front, a.id);
            assert(spec_find_index(front, a.id) is None);
            assert(spec_group_set(front, a) == front.push(a));
            assert(front.push(a) =~= attrs);
            assert(groups.update(0, (id, attrs)) =~= seq![(id, attrs)]);
        }
    }
}

/// A failing row after a clean prefix decides the whole rebuild.
proof fn lemma_rows_groups_err(rows: Seq<RowV>, k: int, e: KError)
    requires
        0 <= k < rows.len(),
        spec_rows_to_groups(rows.take(k)) is Ok,
        ({
            let groups = spec_rows_to_groups(rows.take(k))->Ok_0;
            match spec_row_decode(rows[k]) {
                Err(e2) => e == e2,
                Ok(_) => !(groups.len() > 0 && groups.last().0 == rows[k].0) && rows[k].0 == 0
                    && e == KError::RvError(CKR_GENERAL_ERROR),
            }
        }),
    ensures
        spec_rows_to_groups(rows) == Err::<Seq<(i64, Seq<crate::attribute::AttrView>)>, KError>(
            e,
        ),
    decreases rows.len(),
{
    if k == rows.len() - 1 {
        assert(rows.drop_last() =~= rows.take(k));
    } else {
        assert(rows.drop_last().take(k) =~= rows.take(k));
        assert(rows.drop_last()[k] == rows[k]);
        lemma_rows_groups_err(rows.drop_last(), k, e);
    }
}

} // verus!
