//! Stored value types of the routing metadata store and their codecs.
//!
//! * [`TableGlobalValue`] is the catalog record stored under a global key:
//!   the table id plus an opaque metadata blob.
//! * [`TableRouteValue`] is the placement record stored under a route key:
//!   the peers (cluster nodes) and, per region, the leader peer index and the
//!   follower peer indexes.
//! * [`TableInfoValue`] is the per-table record served by the catalog
//!   metadata manager; it is not persisted by this crate.
//!
//! The codecs are length-prefixed binary encodings built from the
//! combinators of [`crate::codec`]; both decoders reject trailing bytes.
//! Decoding an encoding yields the encoded value, lists kept in order.

use vstd::prelude::*;
use vstd::bytes::spec_u32_from_le_bytes;
use vstd::slice::{slice_subrange, slice_to_vec};

use crate::codec::{
    dec_bytes, dec_opt_bytes, dec_u64, enc_bytes, enc_opt_bytes, enc_u32, enc_u64, append_slice,
    lemma_dec_bytes_enc, lemma_dec_opt_bytes_enc, lemma_dec_u64_enc, spec_dec_bytes,
    spec_dec_opt_bytes, spec_dec_u64, spec_enc_bytes, spec_enc_opt_bytes, spec_enc_u32,
    spec_enc_u64,
};
use crate::error::Error;
use crate::keys::{clone_bytes, TableNameV};

verus! {

// ---------------------------------------------------------------------------
// The value types and their views
// ---------------------------------------------------------------------------
/// Spec-level view of a peer.
pub struct PeerV {
    pub id: u64,
    pub addr: Seq<u8>,
}

/// A cluster node identity: a numeric id and an address.
#[derive(Debug, PartialEq, Clone)]
pub struct Peer {
    pub id: u64,
    pub addr: Vec<u8>,
}

impl View for Peer {
    type V = PeerV;

    open spec fn view(&self) -> PeerV {
        PeerV { id: self.id, addr: self.addr@ }
    }
}

/// Spec-level view of a region descriptor.
pub struct RegionV {
    pub id: u64,
    pub partition: Option<Seq<u8>>,
}

/// A region descriptor: a region id, unique within its table, and an
/// optional partition expression.
#[derive(Debug, PartialEq, Clone)]
pub struct Region {
    pub id: u64,
    pub partition: Option<Vec<u8>>,
}

impl View for Region {
    type V = RegionV;

    open spec fn view(&self) -> RegionV {
        RegionV {
            id: self.id,
            partition: match self.partition {
                Option::None => Option::None,
                Option::Some(ref p) => Option::Some(p@),
            },
        }
    }
}

/// Spec-level view of a region route.
pub struct RegionRouteV {
    pub region: RegionV,
    pub leader_peer_index: u64,
    pub follower_peer_indexes: Seq<u64>,
}

/// The placement of one region: exactly one leader peer index and zero or
/// more follower peer indexes, all indexes into the `peers` list of the
/// enclosing [`TableRouteValue`].
#[derive(Debug, PartialEq, Clone)]
pub struct RegionRoute {
    pub region: Region,
    pub leader_peer_index: u64,
    pub follower_peer_indexes: Vec<u64>,
}

impl View for RegionRoute {
    type V = RegionRouteV;

    open spec fn view(&self) -> RegionRouteV {
        RegionRouteV {
            region: self.region@,
            leader_peer_index: self.leader_peer_index,
            follower_peer_indexes: self.follower_peer_indexes@,
        }
    }
}

/// Spec-level view of a placement record.
pub struct TableRouteValueV {
    pub peers: Seq<PeerV>,
    pub region_routes: Seq<RegionRouteV>,
}

/// The placement record of one table: its peers and, per region, the
/// leader and follower assignment by peer index.
#[derive(Debug, PartialEq, Clone)]
pub struct TableRouteValue {
    pub peers: Vec<Peer>,
    pub region_routes: Vec<RegionRoute>,
}

impl View for TableRouteValue {
    type V = TableRouteValueV;

    open spec fn view(&self) -> TableRouteValueV {
        TableRouteValueV {
            peers: self.peers@.map_values(|p: Peer| p@),
            region_routes: self.region_routes@.map_values(|r: RegionRoute| r@),
        }
    }
}

/// Spec-level view of a catalog record.
pub struct TableGlobalValueV {
    pub table_id: u32,
    pub table_meta: Seq<u8>,
}

/// The catalog record of one table: its immutable id and an opaque
/// metadata blob (schema columns, engine name, and the like), replaced
/// wholesale on schema-altering operations.
#[derive(Debug, PartialEq, Clone)]
pub struct TableGlobalValue {
    pub table_id: u32,
    pub table_meta: Vec<u8>,
}

impl View for TableGlobalValue {
    type V = TableGlobalValueV;

    open spec fn view(&self) -> TableGlobalValueV {
        TableGlobalValueV { table_id: self.table_id, table_meta: self.table_meta@ }
    }
}

impl TableGlobalValue {
    /// The table id recorded in this catalog record.
    pub fn table_id(&self) -> (r: u32)
        ensures
            r == self@.table_id,
    {
        self.table_id
    }
}

/// Spec-level view of a catalog-manager record.
pub struct TableInfoValueV {
    pub table_id: u32,
    pub name: TableNameV,
}

/// The per-table record served by the catalog metadata manager: the table
/// id and the three-part name it resolves.
#[derive(Debug, PartialEq)]
pub struct TableInfoValue {
    pub table_id: u32,
    pub catalog_name: Vec<u8>,
    pub schema_name: Vec<u8>,
    pub table_name: Vec<u8>,
}

impl Clone for TableInfoValue {
    /// Copies the record; the copy has the same view.
    fn clone(&self) -> (r: Self)
        ensures
            r@ == self@,
    {
        TableInfoValue {
            table_id: self.table_id,
            catalog_name: clone_bytes(&self.catalog_name),
            schema_name: clone_bytes(&self.schema_name),
            table_name: clone_bytes(&self.table_name),
        }
    }
}

impl View for TableInfoValue {
    type V = TableInfoValueV;

    open spec fn view(&self) -> TableInfoValueV {
        TableInfoValueV {
            table_id: self.table_id,
            name: TableNameV {
                catalog_name: self.catalog_name@,
                schema_name: self.schema_name@,
                table_name: self.table_name@,
            },
        }
    }
}

// ---------------------------------------------------------------------------
// Well-formedness: every length fits the length prefix of the encoding
// ---------------------------------------------------------------------------
/// The peer's address length fits the length prefix.
pub open spec fn wf_peer(p: PeerV) -> bool {
    p.addr.len() <= u64::MAX
}

/// The region's partition expression length fits the length prefix.
pub open spec fn wf_region(r: RegionV) -> bool {
    r.partition matches Some(s) ==> s.len() <= u64::MAX
}

/// The route's region and follower count fit their length prefixes.
pub open spec fn wf_region_route(rr: RegionRouteV) -> bool {
    wf_region(rr.region) && rr.follower_peer_indexes.len() <= u64::MAX
}

/// Every list and byte field of the record fits its length prefix. Holds of
/// the view of every executable [`TableRouteValue`].
pub open spec fn wf_route_value(v: TableRouteValueV) -> bool {
    &&& v.peers.len() <= u64::MAX
    &&& v.region_routes.len() <= u64::MAX
    &&& forall|i: int| 0 <= i < v.peers.len() ==> wf_peer(#[trigger] v.peers[i])
    &&& forall|i: int| 0 <= i < v.region_routes.len() ==> wf_region_route(
        #[trigger] v.region_routes[i],
    )
}

/// The semantic invariant of one region route against a peer count: the
/// leader index is valid, and the follower indexes are valid, distinct, and
/// exclude the leader.
pub open spec fn valid_region_route(rr: RegionRouteV, n_peers: nat) -> bool {
    &&& rr.leader_peer_index < n_peers
    &&& forall|j: int|
        0 <= j < rr.follower_peer_indexes.len() ==> #[trigger] rr.follower_peer_indexes[j]
            < n_peers && rr.follower_peer_indexes[j] != rr.leader_peer_index
    &&& forall|j1: int, j2: int|
        0 <= j1 < j2 < rr.follower_peer_indexes.len() ==> #[trigger] rr.follower_peer_indexes[j1]
            != #[trigger] rr.follower_peer_indexes[j2]
}

/// The semantic invariant of a placement record: every referenced peer
/// index is valid, the leader is not repeated among the followers, peer
/// ids are distinct, and a region id appears in at most one route.
pub open spec fn valid_route_value(v: TableRouteValueV) -> bool {
    &&& forall|i: int|
        0 <= i < v.region_routes.len() ==> valid_region_route(
            #[trigger] v.region_routes[i],
            v.peers.len(),
        )
    &&& forall|i: int, j: int|
        0 <= i < j < v.peers.len() ==> (#[trigger] v.peers[i]).id != (#[trigger] v.peers[j]).id
    &&& forall|i: int, j: int|
        0 <= i < j < v.region_routes.len() ==> (#[trigger] v.region_routes[i]).region.id
            != (#[trigger] v.region_routes[j]).region.id
}

// ---------------------------------------------------------------------------
// Spec-level encoders
// ---------------------------------------------------------------------------
/// Encoding of a peer: its id, then its address.
pub open spec fn spec_enc_peer(p: PeerV) -> Seq<u8> {
    spec_enc_u64(p.id) + spec_enc_bytes(p.addr)
}

/// Encoding of a region: its id, then its optional partition expression.
pub open spec fn spec_enc_region(r: RegionV) -> Seq<u8> {
    spec_enc_u64(r.id) + spec_enc_opt_bytes(r.partition)
}

/// Encoding of the elements of a `u64` list, in order.
pub open spec fn spec_enc_u64s(s: Seq<u64>) -> Seq<u8>
    decreases s.len(),
{
    if s.len() == 0 {
        Seq::empty()
    } else {
        spec_enc_u64(s[0]) + spec_enc_u64s(s.drop_first())
    }
}

/// Encoding of a `u64` list: its count, then its elements.
pub open spec fn spec_enc_u64_list(s: Seq<u64>) -> Seq<u8> {
    spec_enc_u64(s.len() as u64) + spec_enc_u64s(s)
}

/// Encoding of a region route: the region, the leader peer index, then the
/// follower peer indexes.
pub open spec fn spec_enc_region_route(rr: RegionRouteV) -> Seq<u8> {
    spec_enc_region(rr.region) + spec_enc_u64(rr.leader_peer_index) + spec_enc_u64_list(
        rr.follower_peer_indexes,
    )
}

/// Encoding of the elements of a peer list, in order.
pub open spec fn spec_enc_peers(s: Seq<PeerV>) -> Seq<u8>
    decreases s.len(),
{
    if s.len() == 0 {
        Seq::empty()
    } else {
        spec_enc_peer(s[0]) + spec_enc_peers(s.drop_first())
    }
}

/// Encoding of the elements of a region route list, in order.
pub open spec fn spec_enc_region_routes(s: Seq<RegionRouteV>) -> Seq<u8>
    decreases s.len(),
{
    if s.len() == 0 {
        Seq::empty()
    } else {
        spec_enc_region_route(s[0]) + spec_enc_region_routes(s.drop_first())
    }
}

/// Encoding of a placement record: the peer count and peers, then the
/// route count and routes.
pub open spec fn spec_enc_route_value(v: TableRouteValueV) -> Seq<u8> {
    spec_enc_u64(v.peers.len() as u64) + spec_enc_peers(v.peers) + spec_enc_u64(
        v.region_routes.len() as u64,
    ) + spec_enc_region_routes(v.region_routes)
}

/// Encoding of a catalog record: the table id, then the metadata blob.
pub open spec fn spec_enc_global_value(g: TableGlobalValueV) -> Seq<u8> {
    spec_enc_u32(g.table_id) + g.table_meta
}

// ---------------------------------------------------------------------------
// Spec-level decoders
// ---------------------------------------------------------------------------
/// Decodes a peer at `pos`.
pub open spec fn spec_dec_peer(b: Seq<u8>, pos: int) -> Option<(PeerV, int)> {
    match spec_dec_u64(b, pos) {
        Some((id, p)) => match spec_dec_bytes(b, p) {
            Some((addr, p2)) => Some((PeerV { id, addr }, p2)),
            None => None,
        },
        None => None,
    }
}

/// Decodes a region at `pos`.
pub open spec fn spec_dec_region(b: Seq<u8>, pos: int) -> Option<(RegionV, int)> {
    match spec_dec_u64(b, pos) {
        Some((id, p)) => match spec_dec_opt_bytes(b, p) {
            Some((partition, p2)) => Some((RegionV { id, partition }, p2)),
            None => None,
        },
        None => None,
    }
}

/// Decodes `n` consecutive `u64` elements at `pos`.
pub open spec fn spec_dec_u64s(b: Seq<u8>, pos: int, n: u64) -> Option<(Seq<u64>, int)>
    decreases n,
{
    if n == 0 {
        Some((Seq::empty(), pos))
    } else {
        match spec_dec_u64(b, pos) {
            Some((x, p)) => match spec_dec_u64s(b, p, (n - 1) as u64) {
                Some((s, p2)) => Some((seq![x] + s, p2)),
                None => None,
            },
            None => None,
        }
    }
}

/// Decodes a `u64` list (count, then elements) at `pos`.
pub open spec fn spec_dec_u64_list(b: Seq<u8>, pos: int) -> Option<(Seq<u64>, int)> {
    match spec_dec_u64(b, pos) {
        Some((n, p)) => spec_dec_u64s(b, p, n),
        None => None,
    }
}

/// Decodes a region route at `pos`.
pub open spec fn spec_dec_region_route(b: Seq<u8>, pos: int) -> Option<(RegionRouteV, int)> {
    match spec_dec_region(b, pos) {
        Some((region, p)) => match spec_dec_u64(b, p) {
            Some((leader, p2)) => match spec_dec_u64_list(b, p2) {
                Some((followers, p3)) => Some(
                    (
                        RegionRouteV {
                            region,
                            leader_peer_index: leader,
                            follower_peer_indexes: followers,
                        },
                        p3,
                    ),
                ),
                None => None,
            },
            None => None,
        },
        None => None,
    }
}

/// Decodes `n` consecutive peers at `pos`.
pub open spec fn spec_dec_peers(b: Seq<u8>, pos: int, n: u64) -> Option<(Seq<PeerV>, int)>
    decreases n,
{
    if n == 0 {
        Some((Seq::empty(), pos))
    } else {
        match spec_dec_peer(b, pos) {
            Some((x, p)) => match spec_dec_peers(b, p, (n - 1) as u64) {
                Some((s, p2)) => Some((seq![x] + s, p2)),
                None => None,
            },
            None => None,
        }
    }
}

/// Decodes `n` consecutive region routes at `pos`.
pub open spec fn spec_dec_region_routes(b: Seq<u8>, pos: int, n: u64) -> Option<
    (Seq<RegionRouteV>, int),
>
    decreases n,
{
    if n == 0 {
        Some((Seq::empty(), pos))
    } else {
        match spec_dec_region_route(b, pos) {
            Some((x, p)) => match spec_dec_region_routes(b, p, (n - 1) as u64) {
                Some((s, p2)) => Some((seq![x] + s, p2)),
                None => None,
            },
            None => None,
        }
    }
}

/// Decodes a whole placement record; `None` on malformed or trailing bytes.
pub open spec fn spec_dec_route_value(b: Seq<u8>) -> Option<TableRouteValueV> {
    match spec_dec_u64(b, 0) {
        Some((np, p)) => match spec_dec_peers(b, p, np) {
            Some((peers, p2)) => match spec_dec_u64(b, p2) {
                Some((nr, p3)) => match spec_dec_region_routes(b, p3, nr) {
                    Some((region_routes, p4)) => if p4 == b.len() {
                        Some(TableRouteValueV { peers, region_routes })
                    } else {
                        None
                    },
                    None => None,
                },
                None => None,
            },
            None => None,
        },
        None => None,
    }
}

/// Decodes a whole catalog record; `None` if too short.
pub open spec fn spec_dec_global_value(b: Seq<u8>) -> Option<TableGlobalValueV> {
    if b.len() >= 4 {
        Some(
            TableGlobalValueV {
                table_id: spec_u32_from_le_bytes(b.subrange(0, 4)),
                table_meta: b.subrange(4, b.len() as int),
            },
        )
    } else {
        None
    }
}

// ---------------------------------------------------------------------------
// Encoders appended elementwise
// ---------------------------------------------------------------------------
/// Appending an element to a `u64` list appends its encoding.
pub proof fn lemma_enc_u64s_push(s: Seq<u64>, x: u64)
    ensures
        spec_enc_u64s(s.push(x)) == spec_enc_u64s(s) + spec_enc_u64(x),
    decreases s.len(),
{
    if s.len() == 0 {
        assert(s.push(x).drop_first() =~= Seq::<u64>::empty());
        assert(spec_enc_u64(x) + spec_enc_u64s(Seq::<u64>::empty()) =~= spec_enc_u64(x));
        assert(spec_enc_u64s(s) + spec_enc_u64(x) =~= spec_enc_u64(x));
    } else {
        assert(s.push(x).drop_first() =~= s.drop_first().push(x));
        lemma_enc_u64s_push(s.drop_first(), x);
        assert(spec_enc_u64(s[0]) + (spec_enc_u64s(s.drop_first()) + spec_enc_u64(x)) =~= (
        spec_enc_u64(s[0]) + spec_enc_u64s(s.drop_first())) + spec_enc_u64(x));
    }
}

/// Appending a peer to a peer list appends its encoding.
pub proof fn lemma_enc_peers_push(s: Seq<PeerV>, x: PeerV)
    ensures
        spec_enc_peers(s.push(x)) == spec_enc_peers(s) + spec_enc_peer(x),
    decreases s.len(),
{
    if s.len() == 0 {
        assert(s.push(x).drop_first() =~= Seq::<PeerV>::empty());
        assert(spec_enc_peer(x) + spec_enc_peers(Seq::<PeerV>::empty()) =~= spec_enc_peer(x));
        assert(spec_enc_peers(s) + spec_enc_peer(x) =~= spec_enc_peer(x));
    } else {
        assert(s.push(x).drop_first() =~= s.drop_first().push(x));
        lemma_enc_peers_push(s.drop_first(), x);
        assert(spec_enc_peer(s[0]) + (spec_enc_peers(s.drop_first()) + spec_enc_peer(x)) =~= (
        spec_enc_peer(s[0]) + spec_enc_peers(s.drop_first())) + spec_enc_peer(x));
    }
}

/// Appending a region route to a route list appends its encoding.
pub proof fn lemma_enc_region_routes_push(s: Seq<RegionRouteV>, x: RegionRouteV)
    ensures
        spec_enc_region_routes(s.push(x)) == spec_enc_region_routes(s) + spec_enc_region_route(x),
    decreases s.len(),
{
    if s.len() == 0 {
        assert(s.push(x).drop_first() =~= Seq::<RegionRouteV>::empty());
        assert(spec_enc_region_route(x) + spec_enc_region_routes(Seq::<RegionRouteV>::empty())
            =~= spec_enc_region_route(x));
        assert(spec_enc_region_routes(s) + spec_enc_region_route(x) =~= spec_enc_region_route(x));
    } else {
        assert(s.push(x).drop_first() =~= s.drop_first().push(x));
        lemma_enc_region_routes_push(s.drop_first(), x);
        assert(spec_enc_region_route(s[0]) + (spec_enc_region_routes(s.drop_first())
            + spec_enc_region_route(x)) =~= (spec_enc_region_route(s[0])
            + spec_enc_region_routes(s.drop_first())) + spec_enc_region_route(x));
    }
}

// ---------------------------------------------------------------------------
// Round-trip lemmas: decoding an embedded encoding yields the encoded value
// ---------------------------------------------------------------------------
/// Decoding a peer whose encoding sits at `pos` in `b` yields it back.
pub proof fn lemma_dec_peer_enc(b: Seq<u8>, pos: int, p: PeerV)
    requires
        0 <= pos,
        wf_peer(p),
        pos + spec_enc_peer(p).len() <= b.len(),
        b.subrange(pos, pos + spec_enc_peer(p).len()) == spec_enc_peer(p),
    ensures
        spec_dec_peer(b, pos) == Some((p, pos + spec_enc_peer(p).len())),
{
    vstd::bytes::lemma_auto_spec_u64_to_from_le_bytes();
    let a = spec_enc_u64(p.id);
    let c = spec_enc_bytes(p.addr);
    assert(a.len() == 8);
    crate::codec::lemma_split_sub(b, pos, a, c);
    lemma_dec_u64_enc(b, pos, p.id);
    lemma_dec_bytes_enc(b, pos + 8, p.addr);
}

/// Decoding a region whose encoding sits at `pos` in `b` yields it back.
pub proof fn lemma_dec_region_enc(b: Seq<u8>, pos: int, r: RegionV)
    requires
        0 <= pos,
        wf_region(r),
        pos + spec_enc_region(r).len() <= b.len(),
        b.subrange(pos, pos + spec_enc_region(r).len()) == spec_enc_region(r),
    ensures
        spec_dec_region(b, pos) == Some((r, pos + spec_enc_region(r).len())),
{
    vstd::bytes::lemma_auto_spec_u64_to_from_le_bytes();
    let a = spec_enc_u64(r.id);
    let c = spec_enc_opt_bytes(r.partition);
    assert(a.len() == 8);
    crate::codec::lemma_split_sub(b, pos, a, c);
    lemma_dec_u64_enc(b, pos, r.id);
    lemma_dec_opt_bytes_enc(b, pos + 8, r.partition);
}

/// Decoding `u64` elements whose encodings sit at `pos` in `b` yields them.
pub proof fn lemma_dec_u64s_enc(b: Seq<u8>, pos: int, s: Seq<u64>)
    requires
        0 <= pos,
        s.len() <= u64::MAX,
        pos + spec_enc_u64s(s).len() <= b.len(),
        b.subrange(pos, pos + spec_enc_u64s(s).len()) == spec_enc_u64s(s),
    ensures
        spec_dec_u64s(b, pos, s.len() as u64) == Some((s, pos + spec_enc_u64s(s).len())),
    decreases s.len(),
{
    vstd::bytes::lemma_auto_spec_u64_to_from_le_bytes();
    if s.len() == 0 {
        assert(s =~= Seq::<u64>::empty());
    } else {
        let a = spec_enc_u64(s[0]);
        let c = spec_enc_u64s(s.drop_first());
        assert(a.len() == 8);
        crate::codec::lemma_split_sub(b, pos, a, c);
        lemma_dec_u64_enc(b, pos, s[0]);
        lemma_dec_u64s_enc(b, pos + 8, s.drop_first());
        assert(seq![s[0]] + s.drop_first() =~= s);
    }
}

/// Decoding a `u64` list whose encoding sits at `pos` in `b` yields it.
pub proof fn lemma_dec_u64_list_enc(b: Seq<u8>, pos: int, s: Seq<u64>)
    requires
        0 <= pos,
        s.len() <= u64::MAX,
        pos + spec_enc_u64_list(s).len() <= b.len(),
        b.subrange(pos, pos + spec_enc_u64_list(s).len()) == spec_enc_u64_list(s),
    ensures
        spec_dec_u64_list(b, pos) == Some((s, pos + spec_enc_u64_list(s).len())),
{
    vstd::bytes::lemma_auto_spec_u64_to_from_le_bytes();
    let a = spec_enc_u64(s.len() as u64);
    let c = spec_enc_u64s(s);
    assert(a.len() == 8);
    crate::codec::lemma_split_sub(b, pos, a, c);
    lemma_dec_u64_enc(b, pos, s.len() as u64);
    lemma_dec_u64s_enc(b, pos + 8, s);
}

/// Decoding a region route whose encoding sits at `pos` in `b` yields it.
pub proof fn lemma_dec_region_route_enc(b: Seq<u8>, pos: int, rr: RegionRouteV)
    requires
        0 <= pos,
        wf_region_route(rr),
        pos + spec_enc_region_route(rr).len() <= b.len(),
        b.subrange(pos, pos + spec_enc_region_route(rr).len()) == spec_enc_region_route(rr),
    ensures
        spec_dec_region_route(b, pos) == Some((rr, pos + spec_enc_region_route(rr).len())),
{
    vstd::bytes::lemma_auto_spec_u64_to_from_le_bytes();
    let a = spec_enc_region(rr.region);
    let m = spec_enc_u64(rr.leader_peer_index);
    let c = spec_enc_u64_list(rr.follower_peer_indexes);
    assert(m.len() == 8);
    crate::codec::lemma_split_sub(b, pos, a + m, c);
    crate::codec::lemma_split_sub(b, pos, a, m);
    lemma_dec_region_enc(b, pos, rr.region);
    lemma_dec_u64_enc(b, pos + a.len(), rr.leader_peer_index);
    lemma_dec_u64_list_enc(b, pos + a.len() + 8, rr.follower_peer_indexes);
}

/// Decoding peers whose encodings sit at `pos` in `b` yields them, in order.
pub proof fn lemma_dec_peers_enc(b: Seq<u8>, pos: int, s: Seq<PeerV>)
    requires
        0 <= pos,
        s.len() <= u64::MAX,
        forall|i: int| 0 <= i < s.len() ==> wf_peer(#[trigger] s[i]),
        pos + spec_enc_peers(s).len() <= b.len(),
        b.subrange(pos, pos + spec_enc_peers(s).len()) == spec_enc_peers(s),
    ensures
        spec_dec_peers(b, pos, s.len() as u64) == Some((s, pos + spec_enc_peers(s).len())),
    decreases s.len(),
{
    if s.len() == 0 {
        assert(s =~= Seq::<PeerV>::empty());
    } else {
        let a = spec_enc_peer(s[0]);
        let c = spec_enc_peers(s.drop_first());
        crate::codec::lemma_split_sub(b, pos, a, c);
        lemma_dec_peer_enc(b, pos, s[0]);
        lemma_dec_peers_enc(b, pos + a.len(), s.drop_first());
        assert(seq![s[0]] + s.drop_first() =~= s);
    }
}

/// Decoding region routes whose encodings sit at `pos` in `b` yields them,
/// in order.
pub proof fn lemma_dec_region_routes_enc(b: Seq<u8>, pos: int, s: Seq<RegionRouteV>)
    requires
        0 <= pos,
        s.len() <= u64::MAX,
        forall|i: int| 0 <= i < s.len() ==> wf_region_route(#[trigger] s[i]),
        pos + spec_enc_region_routes(s).len() <= b.len(),
        b.subrange(pos, pos + spec_enc_region_routes(s).len()) == spec_enc_region_routes(s),
    ensures
        spec_dec_region_routes(b, pos, s.len() as u64) == Some(
            (s, pos + spec_enc_region_routes(s).len()),
        ),
    decreases s.len(),
{
    if s.len() == 0 {
        assert(s =~= Seq::<RegionRouteV>::empty());
    } else {
        let a = spec_enc_region_route(s[0]);
        let c = spec_enc_region_routes(s.drop_first());
        crate::codec::lemma_split_sub(b, pos, a, c);
        lemma_dec_region_route_enc(b, pos, s[0]);
        lemma_dec_region_routes_enc(b, pos + a.len(), s.drop_first());
        assert(seq![s[0]] + s.drop_first() =~= s);
    }
}

/// Law: a placement record decodes back to exactly the value it was encoded
/// from, lists kept in order.
pub proof fn lemma_route_value_round_trip(v: TableRouteValueV)
    requires
        wf_route_value(v),
    ensures
        spec_dec_route_value(spec_enc_route_value(v)) == Some(v),
{
    vstd::bytes::lemma_auto_spec_u64_to_from_le_bytes();
    let b = spec_enc_route_value(v);
    let a1 = spec_enc_u64(v.peers.len() as u64);
    let a2 = spec_enc_peers(v.peers);
    let a3 = spec_enc_u64(v.region_routes.len() as u64);
    let a4 = spec_enc_region_routes(v.region_routes);
    assert(a1.len() == 8);
    assert(a3.len() == 8);
    assert(b.subrange(0, b.len() as int) =~= b);
    crate::codec::lemma_split_sub(b, 0, (a1 + a2) + a3, a4);
    crate::codec::lemma_split_sub(b, 0, a1 + a2, a3);
    crate::codec::lemma_split_sub(b, 0, a1, a2);
    lemma_dec_u64_enc(b, 0, v.peers.len() as u64);
    lemma_dec_peers_enc(b, 8, v.peers);
    lemma_dec_u64_enc(b, 8 + a2.len() as int, v.region_routes.len() as u64);
    lemma_dec_region_routes_enc(b, 16 + a2.len() as int, v.region_routes);
}

/// Law: a catalog record decodes back to exactly the value it was encoded
/// from.
pub proof fn lemma_global_value_round_trip(g: TableGlobalValueV)
    ensures
        spec_dec_global_value(spec_enc_global_value(g)) == Some(g),
{
    vstd::bytes::lemma_auto_spec_u32_to_from_le_bytes();
    let b = spec_enc_global_value(g);
    assert(b.subrange(0, 4) =~= spec_enc_u32(g.table_id));
    assert(vstd::bytes::spec_u32_from_le_bytes(spec_enc_u32(g.table_id)) == g.table_id);
    assert(b.subrange(4, b.len() as int) =~= g.table_meta);
}

// ---------------------------------------------------------------------------
// Executable encoders
// ---------------------------------------------------------------------------
/// Appends the encoding of a peer to `out`.
fn enc_peer(out: &mut Vec<u8>, p: &Peer)
    ensures
        final(out)@ == old(out)@ + spec_enc_peer(p@),
{
    enc_u64(out, p.id);
    enc_bytes(out, &p.addr);
    proof {
        assert(out@ =~= old(out)@ + spec_enc_peer(p@));
    }
}

/// Appends the encoding of a region to `out`.
fn enc_region(out: &mut Vec<u8>, r: &Region)
    ensures
        final(out)@ == old(out)@ + spec_enc_region(r@),
{
    enc_u64(out, r.id);
    enc_opt_bytes(out, &r.partition);
    proof {
        assert(out@ =~= old(out)@ + spec_enc_region(r@));
    }
}

/// Appends the encoding of a `u64` list to `out`.
fn enc_u64_list(out: &mut Vec<u8>, v: &Vec<u64>)
    ensures
        final(out)@ == old(out)@ + spec_enc_u64_list(v@),
{
    enc_u64(out, v.len() as u64);
    let mut i: usize = 0;
    while i < v.len()
        invariant
            0 <= i <= v@.len(),
            out@ == old(out)@ + spec_enc_u64(v@.len() as u64) + spec_enc_u64s(
                v@.subrange(0, i as int),
            ),
        decreases v@.len() - i,
    {
        proof {
            assert(v@.subrange(0, i + 1 as int) =~= v@.subrange(0, i as int).push(v@[i as int]));
            lemma_enc_u64s_push(v@.subrange(0, i as int), v@[i as int]);
        }
        enc_u64(out, v[i]);
        i = i + 1;
    }
    proof {
        assert(v@.subrange(0, v@.len() as int) =~= v@);
        assert(out@ =~= old(out)@ + spec_enc_u64_list(v@));
    }
}

/// Appends the encoding of a region route to `out`.
fn enc_region_route(out: &mut Vec<u8>, rr: &RegionRoute)
    ensures
        final(out)@ == old(out)@ + spec_enc_region_route(rr@),
{
    enc_region(out, &rr.region);
    enc_u64(out, rr.leader_peer_index);
    enc_u64_list(out, &rr.follower_peer_indexes);
    proof {
        assert(out@ =~= old(out)@ + spec_enc_region_route(rr@));
    }
}

/// Encodes a placement record. Encoding never fails; the result is the
/// canonical encoding of the value.
pub fn encode_route_value(v: &TableRouteValue) -> (r: Vec<u8>)
    ensures
        r@ == spec_enc_route_value(v@),
{
    let ghost pv = v@.peers;
    let ghost rv = v@.region_routes;
    let mut out: Vec<u8> = Vec::new();
    enc_u64(&mut out, v.peers.len() as u64);
    let mut i: usize = 0;
    while i < v.peers.len()
        invariant
            0 <= i <= v.peers@.len(),
            pv == v@.peers,
            pv.len() == v.peers@.len(),
            forall|k: int| 0 <= k < v.peers@.len() ==> pv[k] == #[trigger] v.peers@[k]@,
            out@ == spec_enc_u64(pv.len() as u64) + spec_enc_peers(pv.subrange(0, i as int)),
        decreases v.peers@.len() - i,
    {
        proof {
            assert(pv.subrange(0, i + 1 as int) =~= pv.subrange(0, i as int).push(pv[i as int]));
            lemma_enc_peers_push(pv.subrange(0, i as int), pv[i as int]);
        }
        enc_peer(&mut out, &v.peers[i]);
        i = i + 1;
    }
    proof {
        assert(pv.subrange(0, pv.len() as int) =~= pv);
    }
    enc_u64(&mut out, v.region_routes.len() as u64);
    let ghost mid = out@;
    let mut j: usize = 0;
    while j < v.region_routes.len()
        invariant
            0 <= j <= v.region_routes@.len(),
            rv == v@.region_routes,
            rv.len() == v.region_routes@.len(),
            forall|k: int|
                0 <= k < v.region_routes@.len() ==> rv[k] == #[trigger] v.region_routes@[k]@,
            out@ == mid + spec_enc_region_routes(rv.subrange(0, j as int)),
        decreases v.region_routes@.len() - j,
    {
        proof {
            assert(rv.subrange(0, j + 1 as int) =~= rv.subrange(0, j as int).push(rv[j as int]));
            lemma_enc_region_routes_push(rv.subrange(0, j as int), rv[j as int]);
        }
        enc_region_route(&mut out, &v.region_routes[j]);
        j = j + 1;
    }
    proof {
        assert(rv.subrange(0, rv.len() as int) =~= rv);
        assert(out@ =~= spec_enc_route_value(v@));
    }
    out
}

/// Encodes a catalog record. Encoding never fails.
pub fn encode_global_value(g: &TableGlobalValue) -> (r: Vec<u8>)
    ensures
        r@ == spec_enc_global_value(g@),
{
    let mut out: Vec<u8> = Vec::new();
    enc_u32(&mut out, g.table_id);
    append_slice(&mut out, g.table_meta.as_slice());
    proof {
        assert(out@ =~= spec_enc_global_value(g@));
    }
    out
}

// ---------------------------------------------------------------------------
// Executable decoders
// ---------------------------------------------------------------------------
/// Decodes a peer at `pos`.
fn dec_peer(buf: &Vec<u8>, pos: usize) -> (r: Option<(Peer, usize)>)
    ensures
        match r {
            Some((x, p)) => spec_dec_peer(buf@, pos as int) == Some((x@, p as int)),
            None => spec_dec_peer(buf@, pos as int) is None,
        },
{
    match dec_u64(buf, pos) {
        None => None,
        Some((id, p)) => match dec_bytes(buf, p) {
            None => None,
            Some((addr, p2)) => Some((Peer { id, addr }, p2)),
        },
    }
}

/// Decodes a region at `pos`.
fn dec_region(buf: &Vec<u8>, pos: usize) -> (r: Option<(Region, usize)>)
    ensures
        match r {
            Some((x, p)) => spec_dec_region(buf@, pos as int) == Some((x@, p as int)),
            None => spec_dec_region(buf@, pos as int) is None,
        },
{
    match dec_u64(buf, pos) {
        None => None,
        Some((id, p)) => match dec_opt_bytes(buf, p) {
            None => None,
            Some((partition, p2)) => Some((Region { id, partition }, p2)),
        },
    }
}

/// Decodes `n` consecutive `u64` elements at `pos`.
fn dec_u64_vec(buf: &Vec<u8>, pos: usize, n: u64) -> (r: Option<(Vec<u64>, usize)>)
    ensures
        match r {
            Some((v, p)) => spec_dec_u64s(buf@, pos as int, n) == Some((v@, p as int)),
            None => spec_dec_u64s(buf@, pos as int, n) is None,
        },
{
    let mut acc: Vec<u64> = Vec::new();
    let mut cur = pos;
    let mut j: u64 = 0;
    proof {
        match spec_dec_u64s(buf@, pos as int, n) {
            Some((s, p)) => {
                assert(Seq::<u64>::empty() + s =~= s);
            },
            None => {},
        }
    }
    while j < n
        invariant
            0 <= j <= n,
            match spec_dec_u64s(buf@, cur as int, (n - j) as u64) {
                Some((s, p)) => spec_dec_u64s(buf@, pos as int, n) == Some((acc@ + s, p)),
                None => spec_dec_u64s(buf@, pos as int, n) is None,
            },
        decreases n - j,
    {
        match dec_u64(buf, cur) {
            None => {
                return None;
            },
            Some((x, p)) => {
                proof {
                    match spec_dec_u64s(buf@, p as int, (n - j - 1) as u64) {
                        Some((s2, p2)) => {
                            assert(acc@ + (seq![x] + s2) =~= acc@.push(x) + s2);
                        },
                        None => {},
                    }
                }
                acc.push(x);
                cur = p;
                j = j + 1;
            },
        }
    }
    proof {
        assert(acc@ + Seq::<u64>::empty() =~= acc@);
    }
    Some((acc, cur))
}

/// Decodes a `u64` list (count, then elements) at `pos`.
fn dec_u64_list(buf: &Vec<u8>, pos: usize) -> (r: Option<(Vec<u64>, usize)>)
    ensures
        match r {
            Some((v, p)) => spec_dec_u64_list(buf@, pos as int) == Some((v@, p as int)),
            None => spec_dec_u64_list(buf@, pos as int) is None,
        },
{
    match dec_u64(buf, pos) {
        None => None,
        Some((n, p)) => dec_u64_vec(buf, p, n),
    }
}

/// Decodes a region route at `pos`.
fn dec_region_route(buf: &Vec<u8>, pos: usize) -> (r: Option<(RegionRoute, usize)>)
    ensures
        match r {
            Some((x, p)) => spec_dec_region_route(buf@, pos as int) == Some((x@, p as int)),
            None => spec_dec_region_route(buf@, pos as int) is None,
        },
{
    match dec_region(buf, pos) {
        None => None,
        Some((region, p)) => match dec_u64(buf, p) {
            None => None,
            Some((leader, p2)) => match dec_u64_list(buf, p2) {
                None => None,
                Some((followers, p3)) => Some(
                    (
                        RegionRoute {
                            region,
                            leader_peer_index: leader,
                            follower_peer_indexes: followers,
                        },
                        p3,
                    ),
                ),
            },
        },
    }
}

/// Decodes `n` consecutive peers at `pos`.
fn dec_peer_vec(buf: &Vec<u8>, pos: usize, n: u64) -> (r: Option<(Vec<Peer>, usize)>)
    ensures
        match r {
            Some((v, p)) => spec_dec_peers(buf@, pos as int, n) == Some(
                (v@.map_values(|x: Peer| x@), p as int),
            ),
            None => spec_dec_peers(buf@, pos as int, n) is None,
        },
{
    let mut acc: Vec<Peer> = Vec::new();
    let mut cur = pos;
    let mut j: u64 = 0;
    proof {
        assert(acc@.map_values(|x: Peer| x@) =~= Seq::<PeerV>::empty());
        match spec_dec_peers(buf@, pos as int, n) {
            Some((s, p)) => {
                assert(Seq::<PeerV>::empty() + s =~= s);
            },
            None => {},
        }
    }
    while j < n
        invariant
            0 <= j <= n,
            match spec_dec_peers(buf@, cur as int, (n - j) as u64) {
                Some((s, p)) => spec_dec_peers(buf@, pos as int, n) == Some(
                    (acc@.map_values(|x: Peer| x@) + s, p),
                ),
                None => spec_dec_peers(buf@, pos as int, n) is None,
            },
        decreases n - j,
    {
        match dec_peer(buf, cur) {
            None => {
                return None;
            },
            Some((x, p)) => {
                proof {
                    assert(acc@.push(x).map_values(|q: Peer| q@) =~= acc@.map_values(
                        |q: Peer| q@,
                    ).push(x@));
                    match spec_dec_peers(buf@, p as int, (n - j - 1) as u64) {
                        Some((s2, p2)) => {
                            assert(acc@.map_values(|q: Peer| q@) + (seq![x@] + s2)
                                =~= acc@.map_values(|q: Peer| q@).push(x@) + s2);
                        },
                        None => {},
                    }
                }
                acc.push(x);
                cur = p;
                j = j + 1;
            },
        }
    }
    proof {
        assert(acc@.map_values(|x: Peer| x@) + Seq::<PeerV>::empty() =~= acc@.map_values(
            |x: Peer| x@,
        ));
    }
    Some((acc, cur))
}

/// Decodes `n` consecutive region routes at `pos`.
fn dec_region_route_vec(buf: &Vec<u8>, pos: usize, n: u64) -> (r: Option<(Vec<RegionRoute>, usize)>)
    ensures
        match r {
            Some((v, p)) => spec_dec_region_routes(buf@, pos as int, n) == Some(
                (v@.map_values(|x: RegionRoute| x@), p as int),
            ),
            None => spec_dec_region_routes(buf@, pos as int, n) is None,
        },
{
    let mut acc: Vec<RegionRoute> = Vec::new();
    let mut cur = pos;
    let mut j: u64 = 0;
    proof {
        assert(acc@.map_values(|x: RegionRoute| x@) =~= Seq::<RegionRouteV>::empty());
        match spec_dec_region_routes(buf@, pos as int, n) {
            Some((s, p)) => {
                assert(Seq::<RegionRouteV>::empty() + s =~= s);
            },
            None => {},
        }
    }
    while j < n
        invariant
            0 <= j <= n,
            match spec_dec_region_routes(buf@, cur as int, (n - j) as u64) {
                Some((s, p)) => spec_dec_region_routes(buf@, pos as int, n) == Some(
                    (acc@.map_values(|x: RegionRoute| x@) + s, p),
                ),
                None => spec_dec_region_routes(buf@, pos as int, n) is None,
            },
        decreases n - j,
    {
        match dec_region_route(buf, cur) {
            None => {
                return None;
            },
            Some((x, p)) => {
                proof {
                    assert(acc@.push(x).map_values(|q: RegionRoute| q@) =~= acc@.map_values(
                        |q: RegionRoute| q@,
                    ).push(x@));
                    match spec_dec_region_routes(buf@, p as int, (n - j - 1) as u64) {
                        Some((s2, p2)) => {
                            assert(acc@.map_values(|q: RegionRoute| q@) + (seq![x@] + s2)
                                =~= acc@.map_values(|q: RegionRoute| q@).push(x@) + s2);
                        },
                        None => {},
                    }
                }
                acc.push(x);
                cur = p;
                j = j + 1;
            },
        }
    }
    proof {
        assert(acc@.map_values(|x: RegionRoute| x@) + Seq::<RegionRouteV>::empty()
            =~= acc@.map_values(|x: RegionRoute| x@));
    }
    Some((acc, cur))
}

/// Decodes a placement record, or returns `DecodeTableRoute` carrying the
/// bytes if they are malformed or leave trailing garbage.
pub fn decode_route_value(b: &Vec<u8>) -> (r: Result<TableRouteValue, Error>)
    ensures
        match spec_dec_route_value(b@) {
            Some(v) => r matches Ok(val) && val@ == v,
            None => r matches Err(e) && e@ == (crate::error::ErrorV::DecodeTableRoute {
                value: b@,
            }),
        },
{
    match dec_u64(b, 0) {
        None => Err(Error::DecodeTableRoute { value: clone_bytes(b) }),
        Some((np, p)) => match dec_peer_vec(b, p, np) {
            None => Err(Error::DecodeTableRoute { value: clone_bytes(b) }),
            Some((peers, p2)) => match dec_u64(b, p2) {
                None => Err(Error::DecodeTableRoute { value: clone_bytes(b) }),
                Some((nr, p3)) => match dec_region_route_vec(b, p3, nr) {
                    None => Err(Error::DecodeTableRoute { value: clone_bytes(b) }),
                    Some((region_routes, p4)) => {
                        if p4 == b.len() {
                            Ok(TableRouteValue { peers, region_routes })
                        } else {
                            Err(Error::DecodeTableRoute { value: clone_bytes(b) })
                        }
                    },
                },
            },
        },
    }
}

// ---------------------------------------------------------------------------
// The semantic invariant, checked, and the derived region distribution
// ---------------------------------------------------------------------------
/// Whether the indexes of a `u64` list are pairwise distinct.
fn check_u64s_distinct(v: &Vec<u64>) -> (r: bool)
    ensures
        r == (forall|j1: int, j2: int| 0 <= j1 < j2 < v@.len() ==> v@[j1] != v@[j2]),
{
    let n = v.len();
    let mut i: usize = 0;
    while i < n
        invariant
            0 <= i <= n,
            n == v@.len(),
            forall|j1: int, j2: int| 0 <= j1 < j2 < n && j1 < i ==> v@[j1] != v@[j2],
        decreases n - i,
    {
        let mut j: usize = i + 1;
        while j < n
            invariant
                i < j <= n,
                i < n,
                n == v@.len(),
                forall|j2: int| i < j2 < j ==> v@[i as int] != v@[j2],
            decreases n - j,
        {
            if v[i] == v[j] {
                return false;
            }
            j = j + 1;
        }
        i = i + 1;
    }
    true
}

/// Checks one region route against a peer count.
fn check_region_route(rr: &RegionRoute, n_peers: u64) -> (r: bool)
    ensures
        r == valid_region_route(rr@, n_peers as nat),
{
    if rr.leader_peer_index >= n_peers {
        return false;
    }
    let mut j: usize = 0;
    while j < rr.follower_peer_indexes.len()
        invariant
            0 <= j <= rr@.follower_peer_indexes.len(),
            rr@.leader_peer_index < n_peers,
            rr@.follower_peer_indexes == rr.follower_peer_indexes@,
            forall|k: int|
                0 <= k < j ==> #[trigger] rr@.follower_peer_indexes[k] < n_peers
                    && rr@.follower_peer_indexes[k] != rr@.leader_peer_index,
        decreases rr@.follower_peer_indexes.len() - j,
    {
        let f = rr.follower_peer_indexes[j];
        if f >= n_peers || f == rr.leader_peer_index {
            proof {
                assert(rr@.follower_peer_indexes[j as int] == f);
            }
            return false;
        }
        j = j + 1;
    }
    let distinct = check_u64s_distinct(&rr.follower_peer_indexes);
    proof {
        assert(rr@.follower_peer_indexes == rr.follower_peer_indexes@);
    }
    distinct
}

/// Checks the semantic invariant of a placement record: every referenced
/// peer index valid, followers distinct and excluding their leader, peer
/// ids distinct, and each region id in at most one route.
pub fn check_route_value(v: &TableRouteValue) -> (r: bool)
    ensures
        r == valid_route_value(v@),
{
    let n_peers = v.peers.len() as u64;
    let mut i: usize = 0;
    while i < v.region_routes.len()
        invariant
            0 <= i <= v.region_routes@.len(),
            n_peers == v@.peers.len(),
            v@.region_routes.len() == v.region_routes@.len(),
            forall|k: int|
                0 <= k < v.region_routes@.len() ==> #[trigger] v@.region_routes[k]
                    == v.region_routes@[k]@,
            forall|k: int|
                0 <= k < i ==> valid_region_route(#[trigger] v@.region_routes[k], v@.peers.len()),
        decreases v.region_routes@.len() - i,
    {
        if !check_region_route(&v.region_routes[i], n_peers) {
            proof {
                assert(v@.region_routes[i as int] == v.region_routes@[i as int]@);
                assert(!valid_region_route(v@.region_routes[i as int], v@.peers.len()));
            }
            return false;
        }
        i = i + 1;
    }
    let mut a: usize = 0;
    let np = v.peers.len();
    while a < np
        invariant
            0 <= a <= np,
            np == v.peers@.len(),
            v@.peers.len() == v.peers@.len(),
            forall|k: int| 0 <= k < v.peers@.len() ==> #[trigger] v@.peers[k] == v.peers@[k]@,
            forall|j1: int, j2: int|
                0 <= j1 < j2 < np && j1 < a ==> (#[trigger] v@.peers[j1]).id != (
                #[trigger] v@.peers[j2]).id,
            forall|k: int|
                0 <= k < v@.region_routes.len() ==> valid_region_route(
                    #[trigger] v@.region_routes[k],
                    v@.peers.len(),
                ),
        decreases np - a,
    {
        let mut b: usize = a + 1;
        while b < np
            invariant
                a < b <= np,
                a < np,
                np == v.peers@.len(),
                v@.peers.len() == v.peers@.len(),
                forall|k: int| 0 <= k < v.peers@.len() ==> #[trigger] v@.peers[k] == v.peers@[k]@,
                forall|j2: int|
                    a < j2 < b ==> (#[trigger] v@.peers[a as int]).id != (
                    #[trigger] v@.peers[j2]).id,
            decreases np - b,
        {
            if v.peers[a].id == v.peers[b].id {
                proof {
                    assert(v@.peers[a as int] == v.peers@[a as int]@);
                    assert(v@.peers[b as int] == v.peers@[b as int]@);
                }
                return false;
            }
            b = b + 1;
        }
        a = a + 1;
    }
    let mut a: usize = 0;
    let nr = v.region_routes.len();
    while a < nr
        invariant
            0 <= a <= nr,
            nr == v.region_routes@.len(),
            v@.region_routes.len() == v.region_routes@.len(),
            forall|k: int|
                0 <= k < v.region_routes@.len() ==> #[trigger] v@.region_routes[k]
                    == v.region_routes@[k]@,
            forall|j1: int, j2: int|
                0 <= j1 < j2 < nr && j1 < a ==> (#[trigger] v@.region_routes[j1]).region.id != (
                #[trigger] v@.region_routes[j2]).region.id,
            forall|k: int|
                0 <= k < v@.region_routes.len() ==> valid_region_route(
                    #[trigger] v@.region_routes[k],
                    v@.peers.len(),
                ),
            forall|j1: int, j2: int|
                0 <= j1 < j2 < v@.peers.len() ==> (#[trigger] v@.peers[j1]).id != (
                #[trigger] v@.peers[j2]).id,
        decreases nr - a,
    {
        let mut b: usize = a + 1;
        while b < nr
            invariant
                a < b <= nr,
                a < nr,
                nr == v.region_routes@.len(),
                v@.region_routes.len() == v.region_routes@.len(),
                forall|k: int|
                    0 <= k < v.region_routes@.len() ==> #[trigger] v@.region_routes[k]
                        == v.region_routes@[k]@,
                forall|j2: int|
                    a < j2 < b ==> (#[trigger] v@.region_routes[a as int]).region.id != (
                    #[trigger] v@.region_routes[j2]).region.id,
            decreases nr - b,
        {
            if v.region_routes[a].region.id == v.region_routes[b].region.id {
                proof {
                    assert(v@.region_routes[a as int] == v.region_routes@[a as int]@);
                    assert(v@.region_routes[b as int] == v.region_routes@[b as int]@);
                }
                return false;
            }
            b = b + 1;
        }
        a = a + 1;
    }
    true
}

/// The region ids led by the peer at `idx`, in route order.
pub open spec fn spec_regions_led_by(routes: Seq<RegionRouteV>, idx: u64) -> Seq<u64>
    decreases routes.len(),
{
    if routes.len() == 0 {
        Seq::empty()
    } else {
        let rest = spec_regions_led_by(routes.drop_last(), idx);
        if routes.last().leader_peer_index == idx {
            rest.push(routes.last().region.id)
        } else {
            rest
        }
    }
}

/// The derived region distribution: for each peer, in peer order, the
/// region ids for which that peer is leader, in route order. Computable
/// from the placement record alone.
pub fn region_distribution(v: &TableRouteValue) -> (r: Vec<(u64, Vec<u64>)>)
    ensures
        r@.len() == v@.peers.len(),
        forall|i: int|
            0 <= i < r@.len() ==> (#[trigger] r@[i]).0 == v@.peers[i].id && r@[i].1@
                == spec_regions_led_by(v@.region_routes, i as u64),
{
    let mut out: Vec<(u64, Vec<u64>)> = Vec::new();
    let mut i: usize = 0;
    while i < v.peers.len()
        invariant
            0 <= i <= v.peers@.len(),
            v@.peers.len() == v.peers@.len(),
            forall|k: int| 0 <= k < v.peers@.len() ==> #[trigger] v@.peers[k] == v.peers@[k]@,
            v@.region_routes.len() == v.region_routes@.len(),
            forall|k: int|
                0 <= k < v.region_routes@.len() ==> #[trigger] v@.region_routes[k]
                    == v.region_routes@[k]@,
            out@.len() == i,
            forall|k: int|
                0 <= k < i ==> (#[trigger] out@[k]).0 == v@.peers[k].id && out@[k].1@
                    == spec_regions_led_by(v@.region_routes, k as u64),
        decreases v.peers@.len() - i,
    {
        let idx = i as u64;
        let mut led: Vec<u64> = Vec::new();
        let mut j: usize = 0;
        proof {
            assert(v@.region_routes.subrange(0, 0) =~= Seq::<RegionRouteV>::empty());
        }
        while j < v.region_routes.len()
            invariant
                0 <= j <= v.region_routes@.len(),
                v@.region_routes.len() == v.region_routes@.len(),
                forall|k: int|
                    0 <= k < v.region_routes@.len() ==> #[trigger] v@.region_routes[k]
                        == v.region_routes@[k]@,
                led@ == spec_regions_led_by(v@.region_routes.subrange(0, j as int), idx),
            decreases v.region_routes@.len() - j,
        {
            proof {
                assert(v@.region_routes.subrange(0, j + 1 as int).drop_last()
                    =~= v@.region_routes.subrange(0, j as int));
                assert(v@.region_routes.subrange(0, j + 1 as int).last() == v@.region_routes[
                    j as int]);
            }
            if v.region_routes[j].leader_peer_index == idx {
                led.push(v.region_routes[j].region.id);
            }
            j = j + 1;
        }
        proof {
            assert(v@.region_routes.subrange(0, v@.region_routes.len() as int)
                =~= v@.region_routes);
        }
        out.push((v.peers[i].id, led));
        i = i + 1;
    }
    out
}

/// Decodes a catalog record, or returns `InvalidCatalogValue` carrying the
/// bytes if they are too short.
pub fn decode_global_value(b: &Vec<u8>) -> (r: Result<TableGlobalValue, Error>)
    ensures
        match spec_dec_global_value(b@) {
            Some(g) => r matches Ok(val) && val@ == g,
            None => r matches Err(e) && e@ == (crate::error::ErrorV::InvalidCatalogValue {
                value: b@,
            }),
        },
{
    if b.len() >= 4 {
        let id = vstd::bytes::u32_from_le_bytes(slice_subrange(b.as_slice(), 0, 4));
        let meta = slice_to_vec(slice_subrange(b.as_slice(), 4, b.len()));
        Ok(TableGlobalValue { table_id: id, table_meta: meta })
    } else {
        Err(Error::InvalidCatalogValue { value: clone_bytes(b) })
    }
}

} // verus!

