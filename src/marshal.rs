use vstd::prelude::*;

use crate::geometry::{Edge, Point};

verus! {

/// The ways a packing request or a native result record can be refused.
#[derive(Clone, Copy, Debug, PartialEq, Eq, Structural)]
pub enum MarshalError {
    /// The stated terminal count or the flat buffer length does not match
    /// the number of points.
    SizeMismatch,
    /// The record reports a negative element count.
    NegativeCount,
    /// The record reports a positive element count with a null buffer.
    NullBufferWithNonzeroCount,
    /// An edge names an index outside the node set, or joins a node to itself.
    InvalidEdge,
    /// The reported tree length is below zero.
    NegativeLength,
}

// ---------------------------------------------------------------------------
// Flat coordinate buffers
// ---------------------------------------------------------------------------

/// The interleaved layout `[x0, y0, x1, y1, ...]` of a point sequence.
pub open spec fn flat_of(ps: Seq<Point>) -> Seq<u64> {
    Seq::new(2 * ps.len(), |k: int| if k % 2 == 0 { ps[k / 2].x } else { ps[k / 2].y })
}

/// The first `n` points read from an interleaved buffer, point `i` taken
/// from offsets `2i` and `2i + 1`.
pub open spec fn points_of(flat: Seq<u64>, n: int) -> Seq<Point> {
    Seq::new(n as nat, |i: int| Point { x: flat[2 * i], y: flat[2 * i + 1] })
}

/// The first `n` edges read from an interleaved index buffer, edge `i` taken
/// from offsets `2i` and `2i + 1`.
pub open spec fn edges_of(flat: Seq<i32>, n: int) -> Seq<Edge> {
    Seq::new(n as nat, |i: int| Edge { a: flat[2 * i], b: flat[2 * i + 1] })
}

/// Packing then reading back at offsets `2i` and `2i + 1` gives point `i`
/// again, for every point sequence.
pub proof fn lemma_pack_round_trip(ps: Seq<Point>)
    ensures
        flat_of(ps).len() == 2 * ps.len(),
        forall|i: int|
            0 <= i < ps.len() ==> flat_of(ps)[2 * i] == ps[i].x && flat_of(ps)[2 * i + 1]
                == ps[i].y,
        points_of(flat_of(ps), ps.len() as int) == ps,
{
    assert forall|i: int| 0 <= i < ps.len() implies flat_of(ps)[2 * i] == ps[i].x && flat_of(
        ps,
    )[2 * i + 1] == ps[i].y by {
        assert((2 * i) % 2 == 0 && (2 * i) / 2 == i);
        assert((2 * i + 1) % 2 == 1 && (2 * i + 1) / 2 == i);
    }
    assert(points_of(flat_of(ps), ps.len() as int) =~= ps);
}

/// Writes `terms` into a fresh interleaved buffer of `2 * terms.len()` values.
fn pack_seq(terms: &[Point]) -> (r: Vec<u64>)
    requires
        terms@.len() <= i32::MAX,
    ensures
        r@ == flat_of(terms@),
{
    let n = terms.len();
    let mut flat: Vec<u64> = Vec::new();
    let mut i: usize = 0;
    while i < n
        invariant
            n == terms@.len() <= i32::MAX,
            i <= n,
            flat@.len() == 2 * i,
            forall|j: int|
                0 <= j < i ==> flat@[2 * j] == terms@[j].x && flat@[2 * j + 1] == terms@[j].y,
        decreases n - i,
    {
        let p = terms[i];
        flat.push(p.x);
        flat.push(p.y);
        i = i + 1;
    }
    assert forall|k: int| 0 <= k < flat@.len() implies flat@[k] == flat_of(terms@)[k] by {
        let j = k / 2;
        assert(0 <= j < n && (k == 2 * j || k == 2 * j + 1));
    }
    assert(flat@ =~= flat_of(terms@));
    flat
}

/// Packs a sequence of terminals into the flat buffer the native routine
/// reads. `nterms` is the terminal count handed to that routine and must
/// equal the number of points.
pub fn pack_points(nterms: i32, terms: &Vec<Point>) -> (r: Result<Vec<u64>, MarshalError>)
    ensures
        match r {
            Ok(flat) => nterms == terms@.len() && flat@ == flat_of(terms@),
            Err(e) => nterms != terms@.len() && e == MarshalError::SizeMismatch,
        },
{
    if nterms < 0 || terms.len() != nterms as usize {
        return Err(MarshalError::SizeMismatch);
    }
    Ok(pack_seq(terms.as_slice()))
}

/// Packs a fixed number `L` of terminals, where `L2` is the length the flat
/// buffer is declared with. The pair is refused unless `L2 == 2 * L` and the
/// stated terminal count `nterms` equals `L`.
pub fn pack_points_fixed<const L: usize, const L2: usize>(nterms: i32, terms: &[Point; L]) -> (r:
    Result<Vec<u64>, MarshalError>)
    ensures
        match r {
            Ok(flat) => L2 == 2 * L && nterms == L && flat@ == flat_of(terms@),
            Err(e) => (L2 != 2 * L || nterms != L) && e == MarshalError::SizeMismatch,
        },
{
    if nterms < 0 || L != nterms as usize || L2 / 2 != L || L2 % 2 != 0 {
        return Err(MarshalError::SizeMismatch);
    }
    Ok(pack_seq(terms.as_slice()))
}

// ---------------------------------------------------------------------------
// Native result records
// ---------------------------------------------------------------------------

/// The record the native routine hands back, with its two buffers given as
/// the values readable at their addresses: `None` stands for a null pointer.
/// The record is consumed by [`ESMT::from_c_esmt`] and kept nowhere else.
#[allow(non_camel_case_types)]
#[derive(Clone, Debug)]
pub struct C_ESMT {
    /// Bit pattern of the reported tree length.
    pub length: u64,
    /// Number of Steiner points.
    pub nsps: i32,
    /// Interleaved Steiner point coordinates.
    pub sps: Option<Vec<u64>>,
    /// Number of edges.
    pub nedges: i32,
    /// Interleaved edge endpoint indices.
    pub edges: Option<Vec<i32>>,
}

impl C_ESMT {
    pub open spec fn sps_seq(&self) -> Seq<u64> {
        match self.sps {
            Some(v) => v@,
            None => Seq::empty(),
        }
    }

    pub open spec fn edges_seq(&self) -> Seq<i32> {
        match self.edges {
            Some(v) => v@,
            None => Seq::empty(),
        }
    }

    /// What the native side guarantees: a non-null buffer holds at least two
    /// values per counted element.
    pub open spec fn buffers_readable(&self) -> bool {
        &&& (self.sps is Some && self.nsps >= 0 ==> self.sps_seq().len() >= 2 * self.nsps)
        &&& (self.edges is Some && self.nedges >= 0 ==> self.edges_seq().len() >= 2
            * self.nedges)
    }
}

/// An owned Euclidean Steiner minimal tree, copied out of a native record.
#[derive(Clone, Debug)]
pub struct ESMT {
    /// Bit pattern of the total tree length.
    pub length: u64,
    /// Steiner points, in the order the native routine reported them.
    pub sps: Vec<Point>,
    /// Edges over terminals followed by Steiner points.
    pub edges: Vec<Edge>,
}

/// The mathematical content of an [`ESMT`].
pub ghost struct EsmtView {
    pub length: u64,
    pub sps: Seq<Point>,
    pub edges: Seq<Edge>,
}

impl View for ESMT {
    type V = EsmtView;

    open spec fn view(&self) -> EsmtView {
        EsmtView { length: self.length, sps: self.sps@, edges: self.edges@ }
    }
}

/// A binary64 bit pattern whose value is below zero: a negative finite
/// number or negative infinity. Negative zero and NaNs are not below zero.
pub open spec fn is_negative_f64(bits: u64) -> bool {
    0x8000_0000_0000_0000u64 < bits <= 0xfff0_0000_0000_0000u64
}

/// The refusal owed for a buffer with `count` elements, `present` being
/// false for a null pointer.
pub open spec fn count_error(count: i32, present: bool) -> Option<MarshalError> {
    if count < 0 {
        Some(MarshalError::NegativeCount)
    } else if !present && count > 0 {
        Some(MarshalError::NullBufferWithNonzeroCount)
    } else {
        None
    }
}

/// Every edge joins two distinct nodes out of `node_count`.
pub open spec fn all_edges_valid(edges: Seq<Edge>, node_count: int) -> bool {
    forall|i: int| 0 <= i < edges.len() ==> #[trigger] edges[i].valid_for(node_count)
}

/// The result of unpacking `rec` for a tree over `nterms` terminals: the
/// Steiner point buffer is checked first, then the edge buffer and each
/// edge, then the length.
pub open spec fn unpack_spec(nterms: int, rec: C_ESMT) -> Result<EsmtView, MarshalError> {
    let sps = points_of(rec.sps_seq(), rec.nsps as int);
    let edges = edges_of(rec.edges_seq(), rec.nedges as int);
    match count_error(rec.nsps, rec.sps is Some) {
        Some(e) => Err(e),
        None => match count_error(rec.nedges, rec.edges is Some) {
            Some(e) => Err(e),
            None => if !all_edges_valid(edges, nterms + rec.nsps) {
                Err(MarshalError::InvalidEdge)
            } else if is_negative_f64(rec.length) {
                Err(MarshalError::NegativeLength)
            } else {
                Ok(EsmtView { length: rec.length, sps, edges })
            },
        },
    }
}

/// Unpacking depends on no buffer value past the first two per counted
/// element: two records that agree on their counts, their null pointers,
/// their length and those leading values unpack alike, whatever follows.
pub proof fn lemma_unpack_reads_counted_prefix(nterms: int, r1: C_ESMT, r2: C_ESMT)
    requires
        r1.buffers_readable(),
        r2.buffers_readable(),
        r1.length == r2.length,
        r1.nsps == r2.nsps,
        r1.nedges == r2.nedges,
        (r1.sps is Some) == (r2.sps is Some),
        (r1.edges is Some) == (r2.edges is Some),
        forall|k: int| 0 <= k < 2 * r1.nsps ==> r1.sps_seq()[k] == r2.sps_seq()[k],
        forall|k: int| 0 <= k < 2 * r1.nedges ==> r1.edges_seq()[k] == r2.edges_seq()[k],
    ensures
        unpack_spec(nterms, r1) == unpack_spec(nterms, r2),
{
    if count_error(r1.nsps, r1.sps is Some) is None && count_error(
        r1.nedges,
        r1.edges is Some,
    ) is None {
        let n = r1.nsps as int;
        let m = r1.nedges as int;
        assert forall|i: int| 0 <= i < n implies points_of(r1.sps_seq(), n)[i] == points_of(
            r2.sps_seq(),
            n,
        )[i] by {
            assert(r1.sps_seq()[2 * i] == r2.sps_seq()[2 * i]);
            assert(r1.sps_seq()[2 * i + 1] == r2.sps_seq()[2 * i + 1]);
        }
        assert forall|i: int| 0 <= i < m implies edges_of(r1.edges_seq(), m)[i] == edges_of(
            r2.edges_seq(),
            m,
        )[i] by {
            assert(r1.edges_seq()[2 * i] == r2.edges_seq()[2 * i]);
            assert(r1.edges_seq()[2 * i + 1] == r2.edges_seq()[2 * i + 1]);
        }
        assert(points_of(r1.sps_seq(), n) =~= points_of(r2.sps_seq(), n));
        assert(edges_of(r1.edges_seq(), m) =~= edges_of(r2.edges_seq(), m));
    }
}

/// How many values may be read from a buffer that holds `count` elements of
/// two values each, `present` being false for a null pointer.
pub fn readable_len(count: i32, present: bool) -> (r: Result<usize, MarshalError>)
    ensures
        match r {
            Ok(n) => count_error(count, present) is None && n == 2 * count,
            Err(e) => count_error(count, present) == Some(e),
        },
{
    if count < 0 {
        Err(MarshalError::NegativeCount)
    } else if !present && count > 0 {
        Err(MarshalError::NullBufferWithNonzeroCount)
    } else {
        Ok(2 * (count as usize))
    }
}

/// Whether `i` names one of `nterms + nsps` nodes.
fn index_in_range(i: i32, nterms: usize, nsps: i32) -> (r: bool)
    requires
        nsps >= 0,
    ensures
        r == (0 <= i < nterms + nsps),
{
    if i < 0 {
        false
    } else {
        let iu = i as usize;
        iu < nterms || iu - nterms < nsps as usize
    }
}

/// Whether `e` joins two distinct nodes out of `nterms + nsps`.
pub fn edge_is_valid(e: &Edge, nterms: usize, nsps: i32) -> (r: bool)
    requires
        nsps >= 0,
    ensures
        r == e.valid_for(nterms + nsps),
{
    index_in_range(e.a, nterms, nsps) && index_in_range(e.b, nterms, nsps) && e.a != e.b
}

fn copy_points(flat: &Vec<u64>, n: usize) -> (r: Vec<Point>)
    requires
        flat@.len() >= 2 * n,
    ensures
        r@ == points_of(flat@, n as int),
{
    let len = flat.len();
    let mut out: Vec<Point> = Vec::new();
    let mut i: usize = 0;
    while i < n
        invariant
            i <= n,
            len == flat@.len() >= 2 * n,
            out@.len() == i,
            forall|j: int|
                0 <= j < i ==> out@[j] == (Point { x: flat@[2 * j], y: flat@[2 * j + 1] }),
        decreases n - i,
    {
        out.push(Point::new(flat[2 * i], flat[2 * i + 1]));
        i = i + 1;
    }
    assert(out@ =~= points_of(flat@, n as int));
    out
}

fn copy_edges(flat: &Vec<i32>, n: usize, nterms: usize, nsps: i32) -> (r: Option<Vec<Edge>>)
    requires
        flat@.len() >= 2 * n,
        nsps >= 0,
    ensures
        match r {
            Some(out) => out@ == edges_of(flat@, n as int) && all_edges_valid(
                out@,
                nterms + nsps,
            ),
            None => !all_edges_valid(edges_of(flat@, n as int), nterms + nsps),
        },
{
    let ghost all = edges_of(flat@, n as int);
    let len = flat.len();
    let mut out: Vec<Edge> = Vec::new();
    let mut i: usize = 0;
    while i < n
        invariant
            i <= n,
            nsps >= 0,
            len == flat@.len() >= 2 * n,
            all == edges_of(flat@, n as int),
            out@ == all.subrange(0, i as int),
            all_edges_valid(out@, nterms + nsps),
        decreases n - i,
    {
        let e = Edge::new(flat[2 * i], flat[2 * i + 1]);
        assert(e == all[i as int]);
        if !edge_is_valid(&e, nterms, nsps) {
            return None;
        }
        out.push(e);
        i = i + 1;
        assert(out@ =~= all.subrange(0, i as int));
    }
    assert(out@ =~= all);
    Some(out)
}

impl ESMT {
    /// Copies every element of a native record into an owned tree over
    /// `nterms` terminals, refusing a record that breaks the native
    /// routine's contract. Only the first `2 * nsps` and `2 * nedges`
    /// values of the two buffers are read.
    pub fn from_c_esmt(nterms: usize, c_esmt: C_ESMT) -> (r: Result<ESMT, MarshalError>)
        requires
            c_esmt.buffers_readable(),
        ensures
            match r {
                Ok(t) => unpack_spec(nterms as int, c_esmt) == Ok::<EsmtView, MarshalError>(t@),
                Err(e) => unpack_spec(nterms as int, c_esmt) == Err::<EsmtView, MarshalError>(e),
            },
    {
        let ghost rec = c_esmt;
        let nsps_len = match readable_len(c_esmt.nsps, c_esmt.sps.is_some()) {
            Ok(n) => n,
            Err(e) => return Err(e),
        };
        let nedges_len = match readable_len(c_esmt.nedges, c_esmt.edges.is_some()) {
            Ok(n) => n,
            Err(e) => return Err(e),
        };
        let sp_buf: Vec<u64> = match c_esmt.sps {
            Some(v) => v,
            None => Vec::new(),
        };
        let edge_buf: Vec<i32> = match c_esmt.edges {
            Some(v) => v,
            None => Vec::new(),
        };
        assert(sp_buf@ == rec.sps_seq() && edge_buf@ == rec.edges_seq());
        let sps = copy_points(&sp_buf, nsps_len / 2);
        let edges = match copy_edges(&edge_buf, nedges_len / 2, nterms, c_esmt.nsps) {
            Some(es) => es,
            None => return Err(MarshalError::InvalidEdge),
        };
        if 0x8000_0000_0000_0000u64 < c_esmt.length && c_esmt.length <= 0xfff0_0000_0000_0000u64 {
            return Err(MarshalError::NegativeLength);
        }
        Ok(ESMT { length: c_esmt.length, sps, edges })
    }
}

} // verus!
