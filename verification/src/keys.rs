//! Key grammar of the routing metadata store.
//!
//! Two key families share the store:
//!
//! * the *global key*, `__tg-{catalog}-{schema}-{table}`, which resolves a
//!   table name to its catalog record, and
//! * the *route key*, `__table_route-{id}-{catalog}-{schema}-{table}`,
//!   where `{id}` is the table id as four little-endian bytes at a fixed
//!   offset, which resolves a table id to its placement record.
//!
//! Names are byte strings that must not contain the separator byte; the
//! encoders reject names that do. The two families differ in their prefix,
//! so no global key ever equals a route key.

use vstd::prelude::*;
use vstd::bytes::{spec_u32_from_le_bytes, u32_from_le_bytes, u32_to_le_bytes};
use vstd::slice::{slice_subrange, slice_to_vec};

use crate::codec::{append_slice, spec_enc_u32};
use crate::error::Error;
use crate::{check_name_ok, name_ok, KEY_SEPARATOR};

verus! {

/// Copies a byte vector; the copy has the same view.
pub fn clone_bytes(v: &Vec<u8>) -> (r: Vec<u8>)
    ensures
        r@ == v@,
{
    slice_to_vec(v.as_slice())
}

// ---------------------------------------------------------------------------
// The name types
// ---------------------------------------------------------------------------
/// Spec-level view of a three-part table name.
pub struct TableNameV {
    pub catalog_name: Seq<u8>,
    pub schema_name: Seq<u8>,
    pub table_name: Seq<u8>,
}

impl TableNameV {
    /// The names can appear as fields of an encoded key.
    pub open spec fn wf(self) -> bool {
        name_ok(self.catalog_name) && name_ok(self.schema_name) && name_ok(self.table_name)
    }
}

/// A fully qualified table name: catalog, schema, and local table name.
#[derive(Debug, PartialEq, Clone)]
pub struct TableName {
    pub catalog_name: Vec<u8>,
    pub schema_name: Vec<u8>,
    pub table_name: Vec<u8>,
}

impl View for TableName {
    type V = TableNameV;

    open spec fn view(&self) -> TableNameV {
        TableNameV {
            catalog_name: self.catalog_name@,
            schema_name: self.schema_name@,
            table_name: self.table_name@,
        }
    }
}

impl TableName {
    /// Builds a fully qualified table name from its three parts.
    pub fn new(catalog_name: Vec<u8>, schema_name: Vec<u8>, table_name: Vec<u8>) -> (r: TableName)
        ensures
            r@.catalog_name == catalog_name@,
            r@.schema_name == schema_name@,
            r@.table_name == table_name@,
    {
        TableName { catalog_name, schema_name, table_name }
    }
}

/// A borrowed reference to a table by its three-part name.
#[derive(Debug, PartialEq, Clone)]
pub struct TableReference {
    pub catalog: Vec<u8>,
    pub schema: Vec<u8>,
    pub table: Vec<u8>,
}

impl View for TableReference {
    type V = TableNameV;

    open spec fn view(&self) -> TableNameV {
        TableNameV {
            catalog_name: self.catalog@,
            schema_name: self.schema@,
            table_name: self.table@,
        }
    }
}

// ---------------------------------------------------------------------------
// The key types
// ---------------------------------------------------------------------------
/// The name-based key under which a table's catalog record is stored.
#[derive(Debug, PartialEq, Clone)]
pub struct TableGlobalKey {
    pub catalog_name: Vec<u8>,
    pub schema_name: Vec<u8>,
    pub table_name: Vec<u8>,
}

impl View for TableGlobalKey {
    type V = TableNameV;

    open spec fn view(&self) -> TableNameV {
        TableNameV {
            catalog_name: self.catalog_name@,
            schema_name: self.schema_name@,
            table_name: self.table_name@,
        }
    }
}

/// Spec-level view of a route key: a table id plus the three-part name.
pub struct TableRouteKeyV {
    pub table_id: u32,
    pub name: TableNameV,
}

impl TableRouteKeyV {
    /// The names can appear as fields of an encoded key.
    pub open spec fn wf(self) -> bool {
        self.name.wf()
    }
}

/// The id-based key under which a table's placement record is stored.
#[derive(Debug, PartialEq, Clone)]
pub struct TableRouteKey {
    pub table_id: u32,
    pub catalog_name: Vec<u8>,
    pub schema_name: Vec<u8>,
    pub table_name: Vec<u8>,
}

impl View for TableRouteKey {
    type V = TableRouteKeyV;

    open spec fn view(&self) -> TableRouteKeyV {
        TableRouteKeyV {
            table_id: self.table_id,
            name: TableNameV {
                catalog_name: self.catalog_name@,
                schema_name: self.schema_name@,
                table_name: self.table_name@,
            },
        }
    }
}

// ---------------------------------------------------------------------------
// The key prefixes
// ---------------------------------------------------------------------------
/// The bytes of `"__tg-"`, the prefix of every global key.
pub open spec fn spec_global_key_prefix() -> Seq<u8> {
    seq![95u8, 95u8, 116u8, 103u8, 45u8]
}

/// The bytes of `"__table_route-"`, the prefix of every route key.
pub open spec fn spec_route_key_prefix() -> Seq<u8> {
    seq![95u8, 95u8, 116u8, 97u8, 98u8, 108u8, 101u8, 95u8, 114u8, 111u8, 117u8, 116u8, 101u8, 45u8]
}

/// Builds the global-key prefix.
fn global_key_prefix() -> (r: Vec<u8>)
    ensures
        r@ == spec_global_key_prefix(),
{
    let mut v: Vec<u8> = Vec::new();
    v.push(95);
    v.push(95);
    v.push(116);
    v.push(103);
    v.push(45);
    proof {
        assert(v@ =~= spec_global_key_prefix());
    }
    v
}

/// Builds the route-key prefix.
fn route_key_prefix() -> (r: Vec<u8>)
    ensures
        r@ == spec_route_key_prefix(),
{
    let mut v: Vec<u8> = Vec::new();
    v.push(95);
    v.push(95);
    v.push(116);
    v.push(97);
    v.push(98);
    v.push(108);
    v.push(101);
    v.push(95);
    v.push(114);
    v.push(111);
    v.push(117);
    v.push(116);
    v.push(101);
    v.push(45);
    proof {
        assert(v@ =~= spec_route_key_prefix());
    }
    v
}

/// Whether `b` starts with `p`.
fn starts_with(b: &Vec<u8>, p: &Vec<u8>) -> (r: bool)
    ensures
        r == (b@.len() >= p@.len() && b@.subrange(0, p@.len() as int) == p@),
{
    if b.len() < p.len() {
        return false;
    }
    let mut i: usize = 0;
    while i < p.len()
        invariant
            0 <= i <= p@.len() <= b@.len(),
            forall|j: int| 0 <= j < i ==> b@[j] == p@[j],
        decreases p@.len() - i,
    {
        if b[i] != p[i] {
            proof {
                assert(b@.subrange(0, p@.len() as int)[i as int] == b@[i as int]);
            }
            return false;
        }
        i = i + 1;
    }
    proof {
        assert(b@.subrange(0, p@.len() as int) =~= p@);
    }
    true
}

// ---------------------------------------------------------------------------
// Finding the separator
// ---------------------------------------------------------------------------
/// The position of the first occurrence of `x` in `s` at or after `from`.
pub open spec fn spec_find(s: Seq<u8>, from: int, x: u8) -> Option<int>
    decreases s.len() - from,
{
    if from < 0 || from >= s.len() {
        None
    } else if s[from] == x {
        Some(from)
    } else {
        spec_find(s, from + 1, x)
    }
}

/// If `x` sits at `j` and nowhere in `[from, j)`, the find returns `j`.
pub proof fn lemma_find_exact(s: Seq<u8>, from: int, j: int, x: u8)
    requires
        0 <= from <= j < s.len(),
        s[j] == x,
        forall|k: int| from <= k < j ==> s[k] != x,
    ensures
        spec_find(s, from, x) == Some(j),
    decreases j - from,
{
    if from < j {
        lemma_find_exact(s, from + 1, j, x);
    }
}

/// If `x` occurs nowhere at or after `from`, the find returns `None`.
pub proof fn lemma_find_none(s: Seq<u8>, from: int, x: u8)
    requires
        0 <= from,
        forall|k: int| from <= k < s.len() ==> s[k] != x,
    ensures
        spec_find(s, from, x) is None,
    decreases s.len() - from,
{
    if from < s.len() {
        lemma_find_none(s, from + 1, x);
    }
}

/// Finds the first occurrence of `x` in `b` at or after `from`.
pub fn find_byte(b: &Vec<u8>, from: usize, x: u8) -> (r: Option<usize>)
    ensures
        match r {
            Some(i) => spec_find(b@, from as int, x) == Some(i as int) && from <= i && (i as int)
                < b@.len(),
            None => spec_find(b@, from as int, x) is None,
        },
{
    let mut i: usize = from;
    while i < b.len()
        invariant
            from <= i,
            i <= b@.len() || i == from,
            forall|k: int| from <= k < i ==> b@[k] != x,
        decreases b@.len() - i,
    {
        if b[i] == x {
            proof {
                lemma_find_exact(b@, from as int, i as int, x);
            }
            return Some(i);
        }
        i = i + 1;
    }
    proof {
        lemma_find_none(b@, from as int, x);
    }
    None
}

// ---------------------------------------------------------------------------
// Global keys
// ---------------------------------------------------------------------------
/// The canonical encoding of a global key:
/// `__tg-{catalog}-{schema}-{table}`.
pub open spec fn spec_enc_global_key(k: TableNameV) -> Seq<u8> {
    spec_global_key_prefix() + k.catalog_name + seq![KEY_SEPARATOR] + k.schema_name + seq![
        KEY_SEPARATOR,
    ] + k.table_name
}

/// The decoding of a global key: the prefix, then three fields split on the
/// separator. `None` if the bytes do not match the grammar.
pub open spec fn spec_dec_global_key(b: Seq<u8>) -> Option<TableNameV> {
    if b.len() >= 5 && b.subrange(0, 5) == spec_global_key_prefix() {
        match spec_find(b, 5, KEY_SEPARATOR) {
            Some(i1) => match spec_find(b, i1 + 1, KEY_SEPARATOR) {
                Some(i2) => if spec_find(b, i2 + 1, KEY_SEPARATOR) is None {
                    Some(
                        TableNameV {
                            catalog_name: b.subrange(5, i1),
                            schema_name: b.subrange(i1 + 1, i2),
                            table_name: b.subrange(i2 + 1, b.len() as int),
                        },
                    )
                } else {
                    None
                },
                None => None,
            },
            None => None,
        }
    } else {
        None
    }
}

/// Encodes the global key of a three-part name given as separate fields.
/// Returns the encoded bytes, or `MalformedKey` carrying them if a name
/// contains the separator and so would not parse back into the same fields.
pub fn encode_name_key(catalog_name: &Vec<u8>, schema_name: &Vec<u8>, table_name: &Vec<u8>) -> (r:
    Result<Vec<u8>, Error>)
    ensures
        ({
            let n = TableNameV {
                catalog_name: catalog_name@,
                schema_name: schema_name@,
                table_name: table_name@,
            };
            &&& n.wf() ==> (r matches Ok(b) && b@ == spec_enc_global_key(n))
            &&& !n.wf() ==> (r matches Err(e) && e@ == (crate::error::ErrorV::MalformedKey {
                key: spec_enc_global_key(n),
            }))
        }),
{
    let ghost n = TableNameV {
        catalog_name: catalog_name@,
        schema_name: schema_name@,
        table_name: table_name@,
    };
    let mut out = global_key_prefix();
    append_slice(&mut out, catalog_name.as_slice());
    out.push(KEY_SEPARATOR);
    append_slice(&mut out, schema_name.as_slice());
    out.push(KEY_SEPARATOR);
    append_slice(&mut out, table_name.as_slice());
    proof {
        assert(out@ =~= spec_enc_global_key(n));
    }
    if check_name_ok(catalog_name) && check_name_ok(schema_name) && check_name_ok(table_name) {
        Ok(out)
    } else {
        Err(Error::MalformedKey { key: out })
    }
}

/// Encodes a global key. Returns the encoded bytes, or `MalformedKey`
/// carrying them if a name contains the separator and so would not parse
/// back into the same fields.
pub fn encode_global_key(key: &TableGlobalKey) -> (r: Result<Vec<u8>, Error>)
    ensures
        key@.wf() ==> (r matches Ok(b) && b@ == spec_enc_global_key(key@)),
        !key@.wf() ==> (r matches Err(e) && e@ == (crate::error::ErrorV::MalformedKey {
            key: spec_enc_global_key(key@),
        })),
{
    encode_name_key(&key.catalog_name, &key.schema_name, &key.table_name)
}

/// Decodes a global key, or returns `MalformedKey` carrying the bytes.
pub fn decode_global_key(b: &Vec<u8>) -> (r: Result<TableGlobalKey, Error>)
    ensures
        match spec_dec_global_key(b@) {
            Some(k) => r matches Ok(key) && key@ == k,
            None => r matches Err(e) && e@ == (crate::error::ErrorV::MalformedKey { key: b@ }),
        },
{
    let n = b.len();
    proof {
        assert(n == b@.len());
    }
    let prefix = global_key_prefix();
    if !starts_with(b, &prefix) {
        return Err(Error::MalformedKey { key: clone_bytes(b) });
    }
    let i1 = match find_byte(b, 5, KEY_SEPARATOR) {
        Some(i) => i,
        None => {
            return Err(Error::MalformedKey { key: clone_bytes(b) });
        },
    };
    let i2 = match find_byte(b, i1 + 1, KEY_SEPARATOR) {
        Some(i) => i,
        None => {
            return Err(Error::MalformedKey { key: clone_bytes(b) });
        },
    };
    match find_byte(b, i2 + 1, KEY_SEPARATOR) {
        Some(_) => Err(Error::MalformedKey { key: clone_bytes(b) }),
        None => Ok(
            TableGlobalKey {
                catalog_name: slice_to_vec(slice_subrange(b.as_slice(), 5, i1)),
                schema_name: slice_to_vec(slice_subrange(b.as_slice(), i1 + 1, i2)),
                table_name: slice_to_vec(slice_subrange(b.as_slice(), i2 + 1, b.len())),
            },
        ),
    }
}

/// Law: a well-formed global key decodes back to exactly the fields it was
/// encoded from.
pub proof fn lemma_global_key_round_trip(k: TableNameV)
    requires
        k.wf(),
    ensures
        spec_dec_global_key(spec_enc_global_key(k)) == Some(k),
{
    let b = spec_enc_global_key(k);
    let cl = k.catalog_name.len() as int;
    let sl = k.schema_name.len() as int;
    let tl = k.table_name.len() as int;
    let i1 = 5 + cl;
    let i2 = i1 + 1 + sl;
    assert(b.len() == 5 + cl + 1 + sl + 1 + tl);
    assert(b.subrange(0, 5) =~= spec_global_key_prefix());
    assert(b[i1] == KEY_SEPARATOR);
    assert(b[i2] == KEY_SEPARATOR);
    assert forall|j: int| 5 <= j < i1 implies b[j] != KEY_SEPARATOR by {
        assert(b[j] == k.catalog_name[j - 5]);
    }
    lemma_find_exact(b, 5, i1, KEY_SEPARATOR);
    assert forall|j: int| i1 + 1 <= j < i2 implies b[j] != KEY_SEPARATOR by {
        assert(b[j] == k.schema_name[j - (i1 + 1)]);
    }
    lemma_find_exact(b, i1 + 1, i2, KEY_SEPARATOR);
    assert forall|j: int| i2 + 1 <= j < b.len() implies b[j] != KEY_SEPARATOR by {
        assert(b[j] == k.table_name[j - (i2 + 1)]);
    }
    lemma_find_none(b, i2 + 1, KEY_SEPARATOR);
    assert(b.subrange(5, i1) =~= k.catalog_name);
    assert(b.subrange(i1 + 1, i2) =~= k.schema_name);
    assert(b.subrange(i2 + 1, b.len() as int) =~= k.table_name);
}

// ---------------------------------------------------------------------------
// Route keys
// ---------------------------------------------------------------------------
/// The canonical encoding of a route key:
/// `__table_route-{id}-{catalog}-{schema}-{table}`, with the table id as
/// four little-endian bytes at a fixed offset.
pub open spec fn spec_enc_route_key(k: TableRouteKeyV) -> Seq<u8> {
    spec_route_key_prefix() + spec_enc_u32(k.table_id) + seq![KEY_SEPARATOR]
        + k.name.catalog_name + seq![KEY_SEPARATOR] + k.name.schema_name + seq![KEY_SEPARATOR]
        + k.name.table_name
}

/// The decoding of a route key: the prefix, four id bytes at a fixed offset,
/// a separator, then three fields split on the separator.
pub open spec fn spec_dec_route_key(b: Seq<u8>) -> Option<TableRouteKeyV> {
    if b.len() >= 19 && b.subrange(0, 14) == spec_route_key_prefix() && b[18] == KEY_SEPARATOR {
        match spec_find(b, 19, KEY_SEPARATOR) {
            Some(i1) => match spec_find(b, i1 + 1, KEY_SEPARATOR) {
                Some(i2) => if spec_find(b, i2 + 1, KEY_SEPARATOR) is None {
                    Some(
                        TableRouteKeyV {
                            table_id: spec_u32_from_le_bytes(b.subrange(14, 18)),
                            name: TableNameV {
                                catalog_name: b.subrange(19, i1),
                                schema_name: b.subrange(i1 + 1, i2),
                                table_name: b.subrange(i2 + 1, b.len() as int),
                            },
                        },
                    )
                } else {
                    None
                },
                None => None,
            },
            None => None,
        }
    } else {
        None
    }
}

/// Encodes a route key. Returns the encoded bytes, or `MalformedKey`
/// carrying them if a name contains the separator.
pub fn encode_route_key(key: &TableRouteKey) -> (r: Result<Vec<u8>, Error>)
    ensures
        key@.wf() ==> (r matches Ok(b) && b@ == spec_enc_route_key(key@)),
        !key@.wf() ==> (r matches Err(e) && e@ == (crate::error::ErrorV::MalformedKey {
            key: spec_enc_route_key(key@),
        })),
{
    let mut out = route_key_prefix();
    let id_bytes = u32_to_le_bytes(key.table_id);
    append_slice(&mut out, id_bytes.as_slice());
    out.push(KEY_SEPARATOR);
    append_slice(&mut out, key.catalog_name.as_slice());
    out.push(KEY_SEPARATOR);
    append_slice(&mut out, key.schema_name.as_slice());
    out.push(KEY_SEPARATOR);
    append_slice(&mut out, key.table_name.as_slice());
    proof {
        assert(out@ =~= spec_enc_route_key(key@));
    }
    if check_name_ok(&key.catalog_name) && check_name_ok(&key.schema_name) && check_name_ok(
        &key.table_name,
    ) {
        Ok(out)
    } else {
        Err(Error::MalformedKey { key: out })
    }
}

/// Decodes a route key, or returns `MalformedKey` carrying the bytes.
pub fn decode_route_key(b: &Vec<u8>) -> (r: Result<TableRouteKey, Error>)
    ensures
        match spec_dec_route_key(b@) {
            Some(k) => r matches Ok(key) && key@ == k,
            None => r matches Err(e) && e@ == (crate::error::ErrorV::MalformedKey { key: b@ }),
        },
{
    let n = b.len();
    proof {
        assert(n == b@.len());
    }
    let prefix = route_key_prefix();
    if !(starts_with(b, &prefix) && b.len() >= 19) {
        return Err(Error::MalformedKey { key: clone_bytes(b) });
    }
    if b[18] != KEY_SEPARATOR {
        return Err(Error::MalformedKey { key: clone_bytes(b) });
    }
    let table_id = u32_from_le_bytes(slice_subrange(b.as_slice(), 14, 18));
    let i1 = match find_byte(b, 19, KEY_SEPARATOR) {
        Some(i) => i,
        None => {
            return Err(Error::MalformedKey { key: clone_bytes(b) });
        },
    };
    let i2 = match find_byte(b, i1 + 1, KEY_SEPARATOR) {
        Some(i) => i,
        None => {
            return Err(Error::MalformedKey { key: clone_bytes(b) });
        },
    };
    match find_byte(b, i2 + 1, KEY_SEPARATOR) {
        Some(_) => Err(Error::MalformedKey { key: clone_bytes(b) }),
        None => Ok(
            TableRouteKey {
                table_id,
                catalog_name: slice_to_vec(slice_subrange(b.as_slice(), 19, i1)),
                schema_name: slice_to_vec(slice_subrange(b.as_slice(), i1 + 1, i2)),
                table_name: slice_to_vec(slice_subrange(b.as_slice(), i2 + 1, b.len())),
            },
        ),
    }
}

/// Law: a well-formed route key decodes back to exactly the fields it was
/// encoded from.
pub proof fn lemma_route_key_round_trip(k: TableRouteKeyV)
    requires
        k.wf(),
    ensures
        spec_dec_route_key(spec_enc_route_key(k)) == Some(k),
{
    let b = spec_enc_route_key(k);
    let cl = k.name.catalog_name.len() as int;
    let sl = k.name.schema_name.len() as int;
    let tl = k.name.table_name.len() as int;
    vstd::bytes::lemma_auto_spec_u32_to_from_le_bytes();
    assert(spec_enc_u32(k.table_id).len() == 4);
    let i1 = 19 + cl;
    let i2 = i1 + 1 + sl;
    assert(b.len() == 19 + cl + 1 + sl + 1 + tl);
    assert(b.subrange(0, 14) =~= spec_route_key_prefix());
    assert(b.subrange(14, 18) =~= spec_enc_u32(k.table_id));
    assert(spec_u32_from_le_bytes(spec_enc_u32(k.table_id)) == k.table_id);
    assert(b[18] == KEY_SEPARATOR);
    assert(b[i1] == KEY_SEPARATOR);
    assert(b[i2] == KEY_SEPARATOR);
    assert forall|j: int| 19 <= j < i1 implies b[j] != KEY_SEPARATOR by {
        assert(b[j] == k.name.catalog_name[j - 19]);
    }
    lemma_find_exact(b, 19, i1, KEY_SEPARATOR);
    assert forall|j: int| i1 + 1 <= j < i2 implies b[j] != KEY_SEPARATOR by {
        assert(b[j] == k.name.schema_name[j - (i1 + 1)]);
    }
    lemma_find_exact(b, i1 + 1, i2, KEY_SEPARATOR);
    assert forall|j: int| i2 + 1 <= j < b.len() implies b[j] != KEY_SEPARATOR by {
        assert(b[j] == k.name.table_name[j - (i2 + 1)]);
    }
    lemma_find_none(b, i2 + 1, KEY_SEPARATOR);
    assert(b.subrange(19, i1) =~= k.name.catalog_name);
    assert(b.subrange(i1 + 1, i2) =~= k.name.schema_name);
    assert(b.subrange(i2 + 1, b.len() as int) =~= k.name.table_name);
}

/// Law: the global key encoding is injective on well-formed names: equal
/// keys can only come from equal names.
pub proof fn lemma_global_key_injective(a: TableNameV, b: TableNameV)
    requires
        a.wf(),
        b.wf(),
        spec_enc_global_key(a) == spec_enc_global_key(b),
    ensures
        a == b,
{
    lemma_global_key_round_trip(a);
    lemma_global_key_round_trip(b);
}

/// Law: the route key encoding is injective on well-formed keys: equal
/// keys can only come from equal ids and names.
pub proof fn lemma_route_key_injective(a: TableRouteKeyV, b: TableRouteKeyV)
    requires
        a.wf(),
        b.wf(),
        spec_enc_route_key(a) == spec_enc_route_key(b),
    ensures
        a == b,
{
    lemma_route_key_round_trip(a);
    lemma_route_key_round_trip(b);
}

/// Law: no encoded global key ever equals an encoded route key; the two
/// families differ at a fixed byte of their prefixes.
pub proof fn lemma_key_families_disjoint(g: TableNameV, r: TableRouteKeyV)
    ensures
        spec_enc_global_key(g) != spec_enc_route_key(r),
{
    let gb = spec_enc_global_key(g);
    let rb = spec_enc_route_key(r);
    assert(gb[3] == 103u8);
    assert(rb[3] == 97u8);
}

} // verus!
