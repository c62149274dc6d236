//! The routing store: typed read, write and batched-fetch operations over
//! the key-value substrate.
//!
//! * [`get_table_global_value`] resolves a name-based key to the table's
//!   catalog record; an absent key is `Ok(None)`, never an error.
//! * [`get_table_route_value`] resolves an id-based key to the table's
//!   placement record; an absent key is a [`Error::TableRouteNotFound`],
//!   because a resolved table id without a route is a metadata
//!   inconsistency, not "the table does not exist".
//! * [`put_table_route_value`] overwrites the placement record wholesale:
//!   last write wins, and writing the same record twice leaves the store
//!   exactly as writing it once.
//! * [`fetch_table`] composes the two reads; [`fetch_tables`] resolves many
//!   names through the catalog metadata manager, silently skipping names
//!   without catalog info and aborting on the first hard error.

use vstd::prelude::*;

use crate::error::{Error, ErrorV};
use crate::keys::{
    clone_bytes, encode_global_key, encode_name_key, encode_route_key, spec_enc_global_key,
    spec_enc_route_key, TableGlobalKey, TableName, TableNameV, TableReference, TableRouteKey,
    TableRouteKeyV,
};
use crate::kv::{ByteMap, KvStore};
use crate::values::{
    decode_global_value, decode_route_value, encode_route_value, spec_dec_global_value,
    spec_dec_route_value, spec_enc_route_value, TableGlobalValue, TableGlobalValueV,
    TableInfoValue, TableInfoValueV, TableRouteValue, TableRouteValueV,
};

verus! {

// ---------------------------------------------------------------------------
// The catalog metadata manager
// ---------------------------------------------------------------------------
/// The catalog metadata manager: an already-consistent store of per-table
/// info, consulted by the batched fetch to resolve a table name to its id
/// without going through the global-key path. Viewed as a map from the
/// canonical global key of a name to the record registered under it.
pub struct TableMetadataManager {
    infos: ByteMap<TableInfoValue>,
}

impl View for TableMetadataManager {
    type V = Map<Seq<u8>, TableInfoValueV>;

    closed spec fn view(&self) -> Map<Seq<u8>, TableInfoValueV> {
        self.infos@
    }
}

impl TableMetadataManager {
    /// The internal invariant of the manager. Established by
    /// [`TableMetadataManager::new`] and preserved by every method.
    pub closed spec fn wf(&self) -> bool {
        self.infos.wf()
    }

    /// An empty manager.
    pub fn new() -> (r: TableMetadataManager)
        ensures
            r@ == Map::<Seq<u8>, TableInfoValueV>::empty(),
            r.wf(),
    {
        TableMetadataManager { infos: ByteMap::new() }
    }

    /// Registers a table's info under its own name, overwriting any
    /// previous record. Rejects a record whose name cannot form a key.
    pub fn put_table_info(&mut self, info: TableInfoValue) -> (r: Result<(), Error>)
        requires
            old(self).wf(),
        ensures
            final(self).wf(),
            info@.name.wf() ==> (r is Ok && final(self)@ == old(self)@.insert(
                spec_enc_global_key(info@.name),
                info@,
            )),
            !info@.name.wf() ==> (r matches Err(e) && e@ == (ErrorV::MalformedKey {
                key: spec_enc_global_key(info@.name),
            }) && final(self)@ == old(self)@),
    {
        match encode_name_key(&info.catalog_name, &info.schema_name, &info.table_name) {
            Ok(kb) => {
                self.infos.insert(kb, info);
                Ok(())
            },
            Err(e) => Err(e),
        }
    }

    /// Resolves a table name to its registered info; `None` exactly when
    /// nothing is registered under the name.
    pub fn get_table_info<'a>(&'a self, table_name: &TableName) -> (r: Option<&'a TableInfoValue>)
        requires
            self.wf(),
        ensures
            match r {
                Some(info) => table_name@.wf() && self@.contains_key(
                    spec_enc_global_key(table_name@),
                ) && info@ == self@[spec_enc_global_key(table_name@)],
                None => !table_name@.wf() || !self@.contains_key(
                    spec_enc_global_key(table_name@),
                ),
            },
    {
        match encode_name_key(
            &table_name.catalog_name,
            &table_name.schema_name,
            &table_name.table_name,
        ) {
            Ok(kb) => self.infos.get(kb.as_slice()),
            Err(_) => None,
        }
    }
}

/// The dependencies a routing operation runs against: the key-value store
/// and the catalog metadata manager, injected rather than ambient.
pub struct Context {
    pub kv_store: KvStore,
    pub table_metadata_manager: TableMetadataManager,
}

impl Context {
    /// Both injected dependencies satisfy their internal invariants.
    pub open spec fn wf(&self) -> bool {
        self.kv_store.wf() && self.table_metadata_manager.wf()
    }
}

// ---------------------------------------------------------------------------
// Spec-level descriptions of the operations
// ---------------------------------------------------------------------------
/// What reading a global key returns: `Ok(None)` exactly when the key is
/// absent, the decoded record when present and decodable, and
/// `InvalidCatalogValue` when present but undecodable.
pub open spec fn spec_get_global_value(store: Map<Seq<u8>, Seq<u8>>, name: TableNameV) -> Result<
    Option<TableGlobalValueV>,
    ErrorV,
> {
    if !name.wf() {
        Err(ErrorV::MalformedKey { key: spec_enc_global_key(name) })
    } else {
        let kb = spec_enc_global_key(name);
        if !store.contains_key(kb) {
            Ok(None)
        } else {
            match spec_dec_global_value(store[kb]) {
                Some(g) => Ok(Some(g)),
                None => Err(ErrorV::InvalidCatalogValue { value: store[kb] }),
            }
        }
    }
}

/// What reading a route key returns: `TableRouteNotFound` exactly when the
/// key is absent, the decoded record when present and decodable, and
/// `DecodeTableRoute` when present but undecodable.
pub open spec fn spec_get_route_value(store: Map<Seq<u8>, Seq<u8>>, key: TableRouteKeyV) -> Result<
    TableRouteValueV,
    ErrorV,
> {
    if !key.wf() {
        Err(ErrorV::MalformedKey { key: spec_enc_route_key(key) })
    } else {
        let kb = spec_enc_route_key(key);
        if !store.contains_key(kb) {
            Err(ErrorV::TableRouteNotFound { key: kb })
        } else {
            match spec_dec_route_value(store[kb]) {
                Some(v) => Ok(v),
                None => Err(ErrorV::DecodeTableRoute { value: store[kb] }),
            }
        }
    }
}

/// What fetching one table returns: `Ok(None)` when the name has no catalog
/// record; otherwise the catalog record paired with the placement record
/// under the route key derived from the resolved table id, any route
/// failure propagated rather than folded into `None`.
pub open spec fn spec_fetch_table(store: Map<Seq<u8>, Seq<u8>>, name: TableNameV) -> Result<
    Option<(TableGlobalValueV, TableRouteValueV)>,
    ErrorV,
> {
    match spec_get_global_value(store, name) {
        Err(e) => Err(e),
        Ok(None) => Ok(None),
        Ok(Some(g)) => match spec_get_route_value(
            store,
            TableRouteKeyV { table_id: g.table_id, name },
        ) {
            Ok(v) => Ok(Some((g, v))),
            Err(e) => Err(e),
        },
    }
}

/// What fetching many tables returns, in input order: a name without
/// catalog info is skipped silently; a resolved name whose route cannot be
/// read aborts the whole batch with that error and no partial results.
pub open spec fn spec_fetch_tables(
    mgr: Map<Seq<u8>, TableInfoValueV>,
    store: Map<Seq<u8>, Seq<u8>>,
    names: Seq<TableNameV>,
) -> Result<Seq<(TableInfoValueV, TableRouteValueV)>, ErrorV>
    decreases names.len(),
{
    if names.len() == 0 {
        Ok(Seq::empty())
    } else {
        let n = names[0];
        let rest = names.drop_first();
        if !n.wf() || !mgr.contains_key(spec_enc_global_key(n)) {
            spec_fetch_tables(mgr, store, rest)
        } else {
            let info = mgr[spec_enc_global_key(n)];
            match spec_get_route_value(
                store,
                TableRouteKeyV { table_id: info.table_id, name: info.name },
            ) {
                Err(e) => Err(e),
                Ok(v) => match spec_fetch_tables(mgr, store, rest) {
                    Ok(s) => Ok(seq![(info, v)] + s),
                    Err(e) => Err(e),
                },
            }
        }
    }
}

// ---------------------------------------------------------------------------
// Views of the executable results
// ---------------------------------------------------------------------------
/// The view of a global-value read result.
pub open spec fn view_global_result(r: Result<Option<TableGlobalValue>, Error>) -> Result<
    Option<TableGlobalValueV>,
    ErrorV,
> {
    match r {
        Ok(None) => Ok(None),
        Ok(Some(g)) => Ok(Some(g@)),
        Err(e) => Err(e@),
    }
}

/// The view of a route-value read result.
pub open spec fn view_route_result(r: Result<TableRouteValue, Error>) -> Result<
    TableRouteValueV,
    ErrorV,
> {
    match r {
        Ok(v) => Ok(v@),
        Err(e) => Err(e@),
    }
}

/// The view of a single-table fetch result.
pub open spec fn view_fetch_table_result(
    r: Result<Option<(TableGlobalValue, TableRouteValue)>, Error>,
) -> Result<Option<(TableGlobalValueV, TableRouteValueV)>, ErrorV> {
    match r {
        Ok(None) => Ok(None),
        Ok(Some((g, v))) => Ok(Some((g@, v@))),
        Err(e) => Err(e@),
    }
}

/// The view of a batched fetch result.
pub open spec fn view_fetch_tables_result(
    r: Result<Vec<(TableInfoValue, TableRouteValue)>, Error>,
) -> Result<Seq<(TableInfoValueV, TableRouteValueV)>, ErrorV> {
    match r {
        Ok(v) => Ok(v@.map_values(|p: (TableInfoValue, TableRouteValue)| (p.0@, p.1@))),
        Err(e) => Err(e@),
    }
}

// ---------------------------------------------------------------------------
// The operations
// ---------------------------------------------------------------------------
/// Reads the catalog record stored under a global key. An absent key is
/// `Ok(None)` — callers distinguish "table does not exist" from failure —
/// and stored bytes that do not decode are an `InvalidCatalogValue` error.
pub fn get_table_global_value(kv_store: &KvStore, key: &TableGlobalKey) -> (r: Result<
    Option<TableGlobalValue>,
    Error,
>)
    requires
        kv_store.wf(),
    ensures
        view_global_result(r) == spec_get_global_value(kv_store@, key@),
{
    let kb = match encode_global_key(key) {
        Ok(kb) => kb,
        Err(e) => {
            return Err(e);
        },
    };
    match kv_store.get(kb.as_slice()) {
        None => Ok(None),
        Some(bytes) => match decode_global_value(&bytes) {
            Ok(v) => Ok(Some(v)),
            Err(e) => Err(e),
        },
    }
}

/// Reads the placement record stored under a route key. An absent key is a
/// `TableRouteNotFound` error — a resolved table id without a route is a
/// metadata inconsistency — and stored bytes that do not decode are a
/// `DecodeTableRoute` error.
pub fn get_table_route_value(kv_store: &KvStore, key: &TableRouteKey) -> (r: Result<
    TableRouteValue,
    Error,
>)
    requires
        kv_store.wf(),
    ensures
        view_route_result(r) == spec_get_route_value(kv_store@, key@),
{
    let kb = match encode_route_key(key) {
        Ok(kb) => kb,
        Err(e) => {
            return Err(e);
        },
    };
    match kv_store.get(kb.as_slice()) {
        None => Err(Error::TableRouteNotFound { key: kb }),
        Some(bytes) => decode_route_value(&bytes),
    }
}

/// Writes a placement record under a route key, overwriting any previous
/// record without reading it back: last write wins. Succeeds for every
/// record under a well-formed key; encoding never fails.
pub fn put_table_route_value(kv_store: &mut KvStore, key: &TableRouteKey, value: TableRouteValue)
    -> (r: Result<(), Error>)
    requires
        old(kv_store).wf(),
    ensures
        final(kv_store).wf(),
        key@.wf() ==> (r is Ok && final(kv_store)@ == old(kv_store)@.insert(
            spec_enc_route_key(key@),
            spec_enc_route_value(value@),
        )),
        !key@.wf() ==> (r matches Err(e) && e@ == (ErrorV::MalformedKey {
            key: spec_enc_route_key(key@),
        }) && final(kv_store)@ == old(kv_store)@),
{
    let kb = match encode_route_key(key) {
        Ok(kb) => kb,
        Err(e) => {
            return Err(e);
        },
    };
    let vb = encode_route_value(&value);
    let _ = kv_store.put(kb, vb, false);
    Ok(())
}

/// Builds the route key of a table from its resolved id and its global key.
pub fn table_route_key(table_id: u32, t: &TableGlobalKey) -> (r: TableRouteKey)
    ensures
        r@ == (TableRouteKeyV { table_id, name: t@ }),
{
    TableRouteKey {
        table_id,
        catalog_name: clone_bytes(&t.catalog_name),
        schema_name: clone_bytes(&t.schema_name),
        table_name: clone_bytes(&t.table_name),
    }
}

/// Resolves a table reference to its catalog record and placement record.
/// A name without a catalog record is `Ok(None)`; a catalog record whose
/// route is missing or unreadable propagates the error, never `None`.
pub fn fetch_table(kv_store: &KvStore, table_ref: &TableReference) -> (r: Result<
    Option<(TableGlobalValue, TableRouteValue)>,
    Error,
>)
    requires
        kv_store.wf(),
    ensures
        view_fetch_table_result(r) == spec_fetch_table(kv_store@, table_ref@),
{
    let tgk = TableGlobalKey {
        catalog_name: clone_bytes(&table_ref.catalog),
        schema_name: clone_bytes(&table_ref.schema),
        table_name: clone_bytes(&table_ref.table),
    };
    let tgv = match get_table_global_value(kv_store, &tgk) {
        Ok(v) => v,
        Err(e) => {
            return Err(e);
        },
    };
    match tgv {
        Some(tgv) => {
            let trk = table_route_key(tgv.table_id(), &tgk);
            match get_table_route_value(kv_store, &trk) {
                Ok(trv) => Ok(Some((tgv, trv))),
                Err(e) => Err(e),
            }
        },
        None => Ok(None),
    }
}

/// Resolves many table names, in input order, through the catalog metadata
/// manager. A name without catalog info is skipped silently, so the batch
/// survives stale or since-dropped names; the first route error aborts the
/// whole batch with no partial results.
pub fn fetch_tables(ctx: &Context, table_names: Vec<TableName>) -> (r: Result<
    Vec<(TableInfoValue, TableRouteValue)>,
    Error,
>)
    requires
        ctx.wf(),
    ensures
        view_fetch_tables_result(r) == spec_fetch_tables(
            ctx.table_metadata_manager@,
            ctx.kv_store@,
            table_names@.map_values(|n: TableName| n@),
        ),
{
    let ghost mgr = ctx.table_metadata_manager@;
    let ghost store = ctx.kv_store@;
    let ghost nv = table_names@.map_values(|n: TableName| n@);
    let mut tables: Vec<(TableInfoValue, TableRouteValue)> = Vec::new();
    let mut i: usize = 0;
    proof {
        assert(nv.skip(0) =~= nv);
        assert(tables@.map_values(|p: (TableInfoValue, TableRouteValue)| (p.0@, p.1@))
            =~= Seq::<(TableInfoValueV, TableRouteValueV)>::empty());
        match spec_fetch_tables(mgr, store, nv) {
            Ok(s) => {
                assert(Seq::<(TableInfoValueV, TableRouteValueV)>::empty() + s =~= s);
            },
            Err(e) => {},
        }
    }
    while i < table_names.len()
        invariant
            0 <= i <= table_names@.len(),
            ctx.wf(),
            mgr == ctx.table_metadata_manager@,
            store == ctx.kv_store@,
            nv == table_names@.map_values(|n: TableName| n@),
            nv.len() == table_names@.len(),
            match spec_fetch_tables(mgr, store, nv.skip(i as int)) {
                Ok(s) => spec_fetch_tables(mgr, store, nv) == Ok::<
                    Seq<(TableInfoValueV, TableRouteValueV)>,
                    ErrorV,
                >(tables@.map_values(|p: (TableInfoValue, TableRouteValue)| (p.0@, p.1@)) + s),
                Err(e) => spec_fetch_tables(mgr, store, nv) == Err::<
                    Seq<(TableInfoValueV, TableRouteValueV)>,
                    ErrorV,
                >(e),
            },
        decreases table_names@.len() - i,
    {
        proof {
            assert(nv.skip(i as int)[0] == nv[i as int]);
            assert(nv.skip(i as int).drop_first() =~= nv.skip(i + 1 as int));
            assert(nv[i as int] == table_names@[i as int]@);
        }
        let table_name = &table_names[i];
        match ctx.table_metadata_manager.get_table_info(table_name) {
            None => {},
            Some(info) => {
                let trk = TableRouteKey {
                    table_id: info.table_id,
                    catalog_name: clone_bytes(&info.catalog_name),
                    schema_name: clone_bytes(&info.schema_name),
                    table_name: clone_bytes(&info.table_name),
                };
                let owned_info = info.clone();
                match get_table_route_value(&ctx.kv_store, &trk) {
                    Err(e) => {
                        return Err(e);
                    },
                    Ok(trv) => {
                        proof {
                            let f = |p: (TableInfoValue, TableRouteValue)| (p.0@, p.1@);
                            assert(tables@.push((owned_info, trv)).map_values(f)
                                =~= tables@.map_values(f).push((owned_info@, trv@)));
                            match spec_fetch_tables(mgr, store, nv.skip(i + 1 as int)) {
                                Ok(s2) => {
                                    assert(tables@.map_values(f) + (seq![(owned_info@, trv@)] + s2)
                                        =~= tables@.map_values(f).push((owned_info@, trv@)) + s2);
                                },
                                Err(e) => {},
                            }
                        }
                        tables.push((owned_info, trv));
                    },
                }
            },
        }
        i = i + 1;
    }
    proof {
        assert(nv.skip(nv.len() as int) =~= Seq::<TableNameV>::empty());
        assert(tables@.map_values(|p: (TableInfoValue, TableRouteValue)| (p.0@, p.1@))
            + Seq::<(TableInfoValueV, TableRouteValueV)>::empty() =~= tables@.map_values(
            |p: (TableInfoValue, TableRouteValue)| (p.0@, p.1@),
        ));
    }
    Ok(tables)
}

// ---------------------------------------------------------------------------
// Laws
// ---------------------------------------------------------------------------
/// Law: overwriting is idempotent. Writing the same placement record twice
/// under the same key leaves the store exactly as writing it once; with
/// [`put_table_route_value`]'s contract, two equal puts give equal stores.
pub proof fn lemma_put_route_value_idempotent(
    store: Map<Seq<u8>, Seq<u8>>,
    key: TableRouteKeyV,
    value: TableRouteValueV,
)
    ensures
        store.insert(spec_enc_route_key(key), spec_enc_route_value(value)).insert(
            spec_enc_route_key(key),
            spec_enc_route_value(value),
        ) == store.insert(spec_enc_route_key(key), spec_enc_route_value(value)),
{
    let kb = spec_enc_route_key(key);
    let vb = spec_enc_route_value(value);
    assert(store.insert(kb, vb).insert(kb, vb) =~= store.insert(kb, vb));
}

/// Law: not-found is never conflated. On a store holding neither key, the
/// global read returns `Ok(None)` while the route read fails with
/// `TableRouteNotFound` carrying the missing key.
pub proof fn lemma_not_found_distinction(
    store: Map<Seq<u8>, Seq<u8>>,
    name: TableNameV,
    key: TableRouteKeyV,
)
    requires
        name.wf(),
        key.wf(),
        !store.contains_key(spec_enc_global_key(name)),
        !store.contains_key(spec_enc_route_key(key)),
    ensures
        spec_get_global_value(store, name) == Ok::<Option<TableGlobalValueV>, ErrorV>(None),
        spec_get_route_value(store, key) == Err::<TableRouteValueV, ErrorV>(
            ErrorV::TableRouteNotFound { key: spec_enc_route_key(key) },
        ),
{
}

/// Law: the batched fetch skips a name with no catalog info and carries on
/// with the remaining names, in order, without erring.
pub proof fn lemma_fetch_tables_skips_missing(
    mgr: Map<Seq<u8>, TableInfoValueV>,
    store: Map<Seq<u8>, Seq<u8>>,
    n: TableNameV,
    rest: Seq<TableNameV>,
)
    requires
        !n.wf() || !mgr.contains_key(spec_enc_global_key(n)),
    ensures
        spec_fetch_tables(mgr, store, seq![n] + rest) == spec_fetch_tables(mgr, store, rest),
{
    let s = seq![n] + rest;
    assert(s[0] == n);
    assert(s.drop_first() =~= rest);
}

/// Law: the batched fetch aborts on the first hard error. If a name
/// resolves but its route read fails, the whole batch fails with that
/// error and returns no results, not even those of earlier names.
pub proof fn lemma_fetch_tables_aborts_on_error(
    mgr: Map<Seq<u8>, TableInfoValueV>,
    store: Map<Seq<u8>, Seq<u8>>,
    n: TableNameV,
    rest: Seq<TableNameV>,
    e: ErrorV,
)
    requires
        n.wf(),
        mgr.contains_key(spec_enc_global_key(n)),
        ({
            let info = mgr[spec_enc_global_key(n)];
            spec_get_route_value(store, TableRouteKeyV { table_id: info.table_id, name: info.name })
                == Err::<TableRouteValueV, ErrorV>(e)
        }),
    ensures
        spec_fetch_tables(mgr, store, seq![n] + rest) == Err::<
            Seq<(TableInfoValueV, TableRouteValueV)>,
            ErrorV,
        >(e),
{
    let s = seq![n] + rest;
    assert(s[0] == n);
    assert(s.drop_first() =~= rest);
}

/// Law: a batched fetch that succeeds returns at most as many records as
/// it was given names, the skipped names accounting for the difference.
pub proof fn lemma_fetch_tables_output_bounded(
    mgr: Map<Seq<u8>, TableInfoValueV>,
    store: Map<Seq<u8>, Seq<u8>>,
    names: Seq<TableNameV>,
)
    ensures
        spec_fetch_tables(mgr, store, names) matches Ok(s) ==> s.len() <= names.len(),
    decreases names.len(),
{
    if names.len() > 0 {
        lemma_fetch_tables_output_bounded(mgr, store, names.drop_first());
    }
}

} // verus!
