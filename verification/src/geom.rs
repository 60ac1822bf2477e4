//! Polygons over bit-pattern coordinates, and the representative-point
//! computation: pick the polygon of greatest area, triangulate it, pick
//! the triangle of greatest area, and return that triangle's centroid.
//! The floating-point geometry itself (areas, triangulation, centroids,
//! hulls) is computed by an outside geometry library behind trusted
//! wrappers with named results; the selection logic around those calls
//! is verified.
use vstd::prelude::*;

use crate::crs::PtBits;
use crate::numbits::float_lt;
use crate::numbits::bounded_bits;
use crate::numbits::finite_bits;
use crate::numbits::is_bounded_bits;
use crate::numbits::is_finite_bits;
use geo::Area;
use geo::Centroid;
use geo::ConcaveHull;
use geo::TriangulateEarcut;

verus! {

/// A triangle as three bit-pattern coordinates.
pub type TriBits = (PtBits, PtBits, PtBits);

/// One polygon: an exterior ring and zero or more interior rings,
/// each ring an ordered sequence of coordinates.
#[derive(Debug, PartialEq)]
pub struct PolyBits {
    pub exterior: Vec<PtBits>,
    pub interiors: Vec<Vec<PtBits>>,
}

/// The mathematical model of a polygon.
#[verifier::ext_equal]
pub struct PolyView {
    pub exterior: Seq<PtBits>,
    pub interiors: Seq<Seq<PtBits>>,
}

impl View for PolyBits {
    type V = PolyView;

    open spec fn view(&self) -> PolyView {
        PolyView { exterior: self.exterior@, interiors: self.interiors.deep_view() }
    }
}

/// The models of a sequence of polygons.
pub open spec fn view_polys(s: Seq<PolyBits>) -> Seq<PolyView> {
    Seq::new(s.len(), |i: int| s[i]@)
}

/// All rings of a polygon, exterior first.
pub open spec fn rings_of(p: PolyView) -> Seq<Seq<PtBits>> {
    seq![p.exterior] + p.interiors
}

impl PolyBits {
    /// An identical copy of the polygon.
    #[verifier::loop_isolation(false)]
    pub fn copy_of(&self) -> (r: PolyBits)
        ensures
            r@ == self@,
    {
        let mut ext: Vec<PtBits> = Vec::new();
        let mut i: usize = 0;
        while i < self.exterior.len()
            invariant
                0 <= i <= self.exterior@.len(),
                ext@ == self.exterior@.take(i as int),
            decreases self.exterior@.len() - i,
        {
            ext.push(self.exterior[i]);
            proof {
                assert(self.exterior@.take(i + 1) =~= self.exterior@.take(i as int).push(
                    self.exterior@[i as int],
                ));
            }
            i = i + 1;
        }
        let mut ints: Vec<Vec<PtBits>> = Vec::new();
        let mut j: usize = 0;
        while j < self.interiors.len()
            invariant
                0 <= j <= self.interiors@.len(),
                ints.deep_view() == self.interiors.deep_view().take(j as int),
            decreases self.interiors@.len() - j,
        {
            let mut ring: Vec<PtBits> = Vec::new();
            let mut k: usize = 0;
            while k < self.interiors[j].len()
                invariant
                    0 <= j < self.interiors@.len(),
                    0 <= k <= self.interiors@[j as int]@.len(),
                    ring@ == self.interiors@[j as int]@.take(k as int),
                decreases self.interiors@[j as int]@.len() - k,
            {
                ring.push(self.interiors[j][k]);
                proof {
                    assert(self.interiors@[j as int]@.take(k + 1) =~= self.interiors@[
                        j as int]@.take(k as int).push(self.interiors@[j as int]@[k as int]));
                }
                k = k + 1;
            }
            ints.push(ring);
            proof {
                assert(ring@ =~= self.interiors@[j as int]@);
                assert(ints.deep_view() =~= self.interiors.deep_view().take(j + 1));
            }
            j = j + 1;
        }
        proof {
            assert(ext@ =~= self.exterior@);
            assert(ints.deep_view() =~= self.interiors.deep_view());
        }
        PolyBits { exterior: ext, interiors: ints }
    }
}

// ---------------------------------------------------------------
// Trusted geometry computations, each with a named result
// ---------------------------------------------------------------
/// The unsigned area of the polygon with the given rings, as a bit
/// pattern.  The result depends on the rings alone.
pub uninterp spec fn polygon_area_of(rings: Seq<Seq<PtBits>>) -> u64;

/// A polygon of the geometry library, carried opaquely: its ring
/// collection cannot be declared to the verifier, so it lives behind
/// this struct and is only ever built by [`to_geo_poly`] and consumed
/// by the wrappers below.
#[verifier::external_body]
pub(crate) struct GeoPoly {
    pub(crate) inner: geo_types::Polygon,
}

/// Relies on geo_types constructors: copies the bit-pattern rings into
/// the geometry library's polygon, which closes any ring whose last
/// coordinate does not repeat its first.
#[verifier::external_body]
pub(crate) fn to_geo_poly(p: &PolyBits) -> GeoPoly {
    let cvt = |q: &PtBits| geo_types::Coord { x: bytemuck::cast(q.0), y: bytemuck::cast(q.1) };
    let ring = |r: &Vec<PtBits>| geo_types::LineString::from(
        r.iter().map(cvt).collect::<Vec<geo_types::Coord>>(),
    );
    let inner = geo_types::Polygon::new(ring(&p.exterior), p.interiors.iter().map(ring).collect());
    GeoPoly { inner }
}

/// Relies on geo's Area::unsigned_area for polygons.
#[verifier::external_body]
fn polygon_area(p: &PolyBits) -> (r: u64)
    ensures
        r == polygon_area_of(rings_of(p@)),
{
    to_geo_poly(p).inner.unsigned_area().to_bits()
}

/// The triangles the polygon with the given rings is cut into.  The
/// result depends on the rings alone.
pub uninterp spec fn earcut_of(rings: Seq<Seq<PtBits>>) -> Seq<TriBits>;

/// Every ring of the polygon has at least four coordinates — the
/// length the triangulation requires of closed rings.
pub open spec fn rings_closed(p: PolyView) -> bool {
    &&& p.exterior.len() >= 4
    &&& forall|i: int| 0 <= i < p.interiors.len() ==> (#[trigger] p.interiors[i]).len() >= 4
}

/// Every coordinate of the ring denotes finite numbers.
pub open spec fn ring_finite(r: Seq<PtBits>) -> bool {
    forall|i: int|
        0 <= i < r.len() ==> is_finite_bits((#[trigger] r[i]).0) && is_finite_bits(r[i].1)
}

/// Every coordinate of every ring of the polygon is finite: the form
/// the hull and triangulation algorithms accept.
pub open spec fn rings_finite(p: PolyView) -> bool {
    &&& ring_finite(p.exterior)
    &&& forall|i: int| 0 <= i < p.interiors.len() ==> ring_finite(#[trigger] p.interiors[i])
}

/// Whether every coordinate of the ring is finite.
#[verifier::loop_isolation(false)]
fn check_ring_finite(r: &Vec<PtBits>) -> (ok: bool)
    ensures
        ok == ring_finite(r@),
{
    let mut i: usize = 0;
    while i < r.len()
        invariant
            0 <= i <= r@.len(),
            forall|k: int|
                0 <= k < i ==> is_finite_bits((#[trigger] r@[k]).0) && is_finite_bits(r@[k].1),
        decreases r@.len() - i,
    {
        if !finite_bits(r[i].0) || !finite_bits(r[i].1) {
            return false;
        }
        i = i + 1;
    }
    true
}

/// Whether every coordinate of the polygon is finite.
#[verifier::loop_isolation(false)]
fn check_rings_finite(p: &PolyBits) -> (ok: bool)
    ensures
        ok == rings_finite(p@),
{
    if !check_ring_finite(&p.exterior) {
        return false;
    }
    let mut i: usize = 0;
    while i < p.interiors.len()
        invariant
            0 <= i <= p.interiors@.len(),
            ring_finite(p@.exterior),
            forall|k: int| 0 <= k < i ==> ring_finite(#[trigger] p@.interiors[k]),
        decreases p.interiors@.len() - i,
    {
        proof {
            assert(p@.interiors[i as int] == p.interiors@[i as int]@);
        }
        if !check_ring_finite(&p.interiors[i]) {
            return false;
        }
        i = i + 1;
    }
    true
}

/// Whether the polygon's rings are in the closed form the
/// triangulation accepts.
#[verifier::loop_isolation(false)]
fn check_rings_closed(p: &PolyBits) -> (r: bool)
    ensures
        r == rings_closed(p@),
{
    if p.exterior.len() < 4 {
        return false;
    }
    let mut i: usize = 0;
    while i < p.interiors.len()
        invariant
            0 <= i <= p.interiors@.len(),
            forall|k: int| 0 <= k < i ==> (#[trigger] p@.interiors[k]).len() >= 4,
        decreases p.interiors@.len() - i,
    {
        proof {
            assert(p@.interiors[i as int] == p.interiors@[i as int]@);
        }
        if p.interiors[i].len() < 4 {
            return false;
        }
        i = i + 1;
    }
    true
}

/// Relies on geo's TriangulateEarcut::earcut_triangles, which accepts
/// only polygons whose rings are closed (four coordinates at least)
/// and whose coordinates are finite.
#[verifier::external_body]
fn earcut(p: &PolyBits) -> (r: Vec<TriBits>)
    requires
        rings_closed(p@),
        rings_finite(p@),
    ensures
        r@ == earcut_of(rings_of(p@)),
{
    let back = |c: geo_types::Coord| (c.x.to_bits(), c.y.to_bits());
    to_geo_poly(p).inner.earcut_triangles().into_iter().map(
        |t: geo_types::Triangle| (back(t.v1()), back(t.v2()), back(t.v3())),
    ).collect()
}

/// The unsigned area of a triangle, as a bit pattern.  The result
/// depends on the corners alone.
pub uninterp spec fn tri_area_of(t: TriBits) -> u64;

/// Relies on geo's Area::unsigned_area for triangles.
#[verifier::external_body]
fn triangle_area(t: &TriBits) -> (r: u64)
    ensures
        r == tri_area_of(*t),
{
    let tri: geo_types::Triangle = geo_types::Triangle::new(
        geo_types::Coord { x: bytemuck::cast(t.0.0), y: bytemuck::cast(t.0.1) },
        geo_types::Coord { x: bytemuck::cast(t.1.0), y: bytemuck::cast(t.1.1) },
        geo_types::Coord { x: bytemuck::cast(t.2.0), y: bytemuck::cast(t.2.1) },
    );
    tri.unsigned_area().to_bits()
}

/// The centroid of a triangle.  The result depends on the corners alone.
pub uninterp spec fn centroid_of(t: TriBits) -> PtBits;

/// Relies on geo's Centroid for triangles.
#[verifier::external_body]
fn triangle_centroid(t: &TriBits) -> (r: PtBits)
    ensures
        r == centroid_of(*t),
{
    let tri: geo_types::Triangle = geo_types::Triangle::new(
        geo_types::Coord { x: bytemuck::cast(t.0.0), y: bytemuck::cast(t.0.1) },
        geo_types::Coord { x: bytemuck::cast(t.1.0), y: bytemuck::cast(t.1.1) },
        geo_types::Coord { x: bytemuck::cast(t.2.0), y: bytemuck::cast(t.2.1) },
    );
    let c = tri.centroid();
    (c.x().to_bits(), c.y().to_bits())
}

/// The exterior ring of the concave hull of the given polygons,
/// computed with concavity 1 and no length threshold.  The result
/// depends on the polygons alone.
pub uninterp spec fn concave_hull_of(polys: Seq<PolyView>) -> Seq<PtBits>;

/// Every coordinate of the ring is of moderate magnitude.
pub open spec fn ring_bounded(r: Seq<PtBits>) -> bool {
    forall|i: int|
        0 <= i < r.len() ==> is_bounded_bits((#[trigger] r[i]).0) && is_bounded_bits(r[i].1)
}

/// Every coordinate of every ring of the polygon is of moderate
/// magnitude.
pub open spec fn rings_bounded(p: PolyView) -> bool {
    &&& ring_bounded(p.exterior)
    &&& forall|i: int| 0 <= i < p.interiors.len() ==> ring_bounded(#[trigger] p.interiors[i])
}

/// Every coordinate of every polygon is of moderate magnitude: the
/// form the hull computation accepts.
pub open spec fn polys_bounded(polys: Seq<PolyView>) -> bool {
    forall|i: int| 0 <= i < polys.len() ==> rings_bounded(#[trigger] polys[i])
}

/// Whether every coordinate of the ring is of moderate magnitude.
#[verifier::loop_isolation(false)]
fn check_ring_bounded(r: &Vec<PtBits>) -> (ok: bool)
    ensures
        ok == ring_bounded(r@),
{
    let mut i: usize = 0;
    while i < r.len()
        invariant
            0 <= i <= r@.len(),
            forall|k: int|
                0 <= k < i ==> is_bounded_bits((#[trigger] r@[k]).0) && is_bounded_bits(r@[k].1),
        decreases r@.len() - i,
    {
        if !bounded_bits(r[i].0) || !bounded_bits(r[i].1) {
            return false;
        }
        i = i + 1;
    }
    true
}

/// Whether every coordinate of the polygon is of moderate magnitude.
#[verifier::loop_isolation(false)]
fn check_rings_bounded(p: &PolyBits) -> (ok: bool)
    ensures
        ok == rings_bounded(p@),
{
    if !check_ring_bounded(&p.exterior) {
        return false;
    }
    let mut i: usize = 0;
    while i < p.interiors.len()
        invariant
            0 <= i <= p.interiors@.len(),
            ring_bounded(p@.exterior),
            forall|k: int| 0 <= k < i ==> ring_bounded(#[trigger] p@.interiors[k]),
        decreases p.interiors@.len() - i,
    {
        proof {
            assert(p@.interiors[i as int] == p.interiors@[i as int]@);
        }
        if !check_ring_bounded(&p.interiors[i]) {
            return false;
        }
        i = i + 1;
    }
    true
}

/// Whether every coordinate of every polygon is of moderate magnitude.
#[verifier::loop_isolation(false)]
pub fn check_polys_bounded(polys: &Vec<PolyBits>) -> (ok: bool)
    ensures
        ok == polys_bounded(view_polys(polys@)),
{
    let ghost pv = view_polys(polys@);
    let mut i: usize = 0;
    while i < polys.len()
        invariant
            0 <= i <= polys@.len(),
            pv.len() == polys@.len(),
            forall|k: int| 0 <= k < i ==> rings_bounded(#[trigger] pv[k]),
        decreases polys@.len() - i,
    {
        proof {
            assert(pv[i as int] == polys@[i as int]@);
        }
        if !check_rings_bounded(&polys[i]) {
            proof {
                assert(!rings_bounded(pv[i as int]));
            }
            return false;
        }
        i = i + 1;
    }
    true
}

/// Relies on geo's ConcaveHull for multi-polygons (concavity 1, no
/// length threshold).  Its hull step orders points with comparisons
/// that are partial on floats; the magnitude bound on every admitted
/// coordinate keeps each coordinate difference and each dot product of
/// differences finite, so no comparison ever sees a non-number.
#[verifier::external_body]
pub fn concave_hull_ring(polys: &Vec<PolyBits>) -> (r: Vec<PtBits>)
    requires
        polys_bounded(view_polys(polys@)),
    ensures
        r@ == concave_hull_of(view_polys(polys@)),
{
    let parts: Vec<geo_types::Polygon> = polys.iter().map(|p| to_geo_poly(p).inner).collect();
    let opts = geo::concave_hull::ConcaveHullOptions {
        concavity: bytemuck::cast(0x3ff0000000000000u64),
        length_threshold: bytemuck::cast(0u64),
    };
    let hull = geo_types::MultiPolygon::new(parts).concave_hull_with_options(opts);
    hull.exterior().0.iter().map(|c| (c.x.to_bits(), c.y.to_bits())).collect()
}

// ---------------------------------------------------------------
// Verified selection: the representative point
// ---------------------------------------------------------------
/// The index of the greatest value among the first `i` entries under
/// the floating-point order, the last among equals — the way a fold
/// with a maximum comparison walks a list.
pub open spec fn argmax_upto(s: Seq<u64>, i: int) -> int
    decreases i,
{
    if i <= 1 {
        0
    } else {
        let b = argmax_upto(s, i - 1);
        if !float_lt(s[i - 1], s[b]) {
            i - 1
        } else {
            b
        }
    }
}

/// The representative point of a multi-polygon: the centroid of the
/// largest triangle of the triangulated largest part, or `None` when
/// there is no part or the triangulation is empty.
pub open spec fn spec_point_on_surface(polys: Seq<PolyView>) -> Option<PtBits> {
    if polys.len() == 0 {
        None
    } else {
        let areas = Seq::new(polys.len(), |i: int| polygon_area_of(rings_of(polys[i])));
        let pi = argmax_upto(areas, polys.len() as int);
        if !rings_closed(polys[pi]) || !rings_finite(polys[pi]) {
            None
        } else {
            let tris = earcut_of(rings_of(polys[pi]));
            if tris.len() == 0 {
                None
            } else {
                let tareas = Seq::new(tris.len(), |i: int| tri_area_of(tris[i]));
                let ti = argmax_upto(tareas, tris.len() as int);
                Some(centroid_of(tris[ti]))
            }
        }
    }
}

proof fn lemma_argmax_range(s: Seq<u64>, i: int)
    requires
        1 <= i <= s.len(),
    ensures
        0 <= argmax_upto(s, i) < i,
    decreases i,
{
    if i > 1 {
        lemma_argmax_range(s, i - 1);
    }
}

#[verifier::loop_isolation(false)]
fn argmax(areas: &Vec<u64>) -> (r: usize)
    requires
        areas@.len() >= 1,
    ensures
        r == argmax_upto(areas@, areas@.len() as int),
{
    let mut best: usize = 0;
    let mut j: usize = 1;
    while j < areas.len()
        invariant
            1 <= j <= areas@.len(),
            0 <= best < j,
            best == argmax_upto(areas@, j as int),
        decreases areas@.len() - j,
    {
        if !crate::numbits::lt_bits(areas[j], areas[best]) {
            best = j;
        }
        j = j + 1;
    }
    best
}


/// The representative point of a multi-polygon, guaranteed by the
/// construction (largest triangle's centroid) to lie inside the
/// polygon for non-degenerate inputs.
#[verifier::loop_isolation(false)]
pub fn point_on_surface(mp: &Vec<PolyBits>) -> (r: Option<PtBits>)
    ensures
        r == spec_point_on_surface(view_polys(mp@)),
{
    if mp.len() == 0 {
        return None;
    }
    let ghost polys = view_polys(mp@);
    let mut areas: Vec<u64> = Vec::new();
    let mut i: usize = 0;
    while i < mp.len()
        invariant
            0 <= i <= mp@.len(),
            areas@.len() == i,
            forall|k: int|
                0 <= k < i ==> areas@[k] == polygon_area_of(rings_of(#[trigger] polys[k])),
        decreases mp@.len() - i,
    {
        let a = polygon_area(&mp[i]);
        areas.push(a);
        i = i + 1;
    }
    proof {
        assert(areas@ =~= Seq::new(polys.len(), |k: int| polygon_area_of(rings_of(polys[k]))));
    }
    let pi = argmax(&areas);
    proof {
        lemma_argmax_range(areas@, areas@.len() as int);
    }
    if !check_rings_closed(&mp[pi]) || !check_rings_finite(&mp[pi]) {
        return None;
    }
    let tris = earcut(&mp[pi]);
    if tris.len() == 0 {
        return None;
    }
    let mut tareas: Vec<u64> = Vec::new();
    let mut j: usize = 0;
    while j < tris.len()
        invariant
            0 <= j <= tris@.len(),
            tareas@.len() == j,
            forall|k: int| 0 <= k < j ==> tareas@[k] == tri_area_of(#[trigger] tris@[k]),
        decreases tris@.len() - j,
    {
        let a = triangle_area(&tris[j]);
        tareas.push(a);
        j = j + 1;
    }
    proof {
        assert(tareas@ =~= Seq::new(tris@.len(), |k: int| tri_area_of(tris@[k])));
    }
    let ti = argmax(&tareas);
    proof {
        lemma_argmax_range(tareas@, tareas@.len() as int);
    }
    let c = triangle_centroid(&tris[ti]);
    Some(c)
}

} // verus!
