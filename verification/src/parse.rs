//! The geometry resolver and feature assembler: rebuilds the
//! point/curve/surface reference graph of one document, reprojects the
//! curves, assembles polygons, and joins parcel records with their
//! attributes.  Every function's result is pinned to a spec-level
//! mirror over the document's element-tree model.
use vstd::prelude::*;

use crate::crs::arbitrary_crs_name;
use crate::crs::crs_param;
use crate::crs::get_proj;
use crate::crs::transform_curves_crs;
use crate::crs::table_param;
use crate::crs::transformed_pt;
use crate::crs::wgs84_param;
use crate::crs::PtBits;
use crate::error::{Error, ErrorV};
use crate::geom::spec_point_on_surface;
use crate::geom::view_polys;
use crate::geom::point_on_surface;
use crate::geom::PolyBits;
use crate::geom::PolyView;
use crate::numbits::float_bits_of;
use crate::numbits::parse_float_bits;
use crate::text::is_u32_text;
use crate::text::parse_u32_text;
use crate::text::str_eq;
use crate::text::text_contains;
use crate::text::u32_text_val;
use crate::text::contains_str;
use crate::xml::attr_of;
use crate::xml::children_named;
use crate::xml::children_with;
use crate::xml::find_child;
use crate::xml::find_child_ns;
use crate::xml::find_desc;
use crate::xml::find_descendant;
use crate::xml::first_element_child;
use crate::xml::get_child_element;
use crate::xml::get_child_element_ns;
use crate::xml::get_xml_namespace;
use crate::xml::lemma_view_ref_seq;
use crate::xml::ns_zmn;
use crate::xml::ns_doc;
use crate::xml::desc_all;
use crate::xml::collect_descendants;
use crate::xml::XmlElem;
use crate::xml::XmlSpec;
use crate::xml::view_ref_seq;

verus! {

/// An identifier paired with a resolved coordinate.
pub type IdPt = (Seq<char>, PtBits);

/// The model of an identifier-to-coordinate map, in insertion order.
pub open spec fn pt_pairs_view(s: Seq<(String, PtBits)>) -> Seq<IdPt> {
    Seq::new(s.len(), |i: int| (s[i].0@, s[i].1))
}

/// Later entries shadow earlier ones, the way repeated inserts under
/// one key leave only the last value visible.
pub open spec fn lookup_pt_back(pairs: Seq<IdPt>, key: Seq<char>, i: int) -> Option<PtBits>
    decreases i,
{
    if i <= 0 || i > pairs.len() {
        None
    } else if pairs[i - 1].0 == key {
        Some(pairs[i - 1].1)
    } else {
        lookup_pt_back(pairs, key, i - 1)
    }
}

pub open spec fn lookup_pt(pairs: Seq<IdPt>, key: Seq<char>) -> Option<PtBits> {
    lookup_pt_back(pairs, key, pairs.len() as int)
}

/// Look up a coordinate by identifier, last declaration winning.
#[verifier::loop_isolation(false)]
pub fn pt_map_get(m: &Vec<(String, PtBits)>, key: &str) -> (r: Option<PtBits>)
    ensures
        r == lookup_pt(pt_pairs_view(m@), key@),
{
    let ghost pairs = pt_pairs_view(m@);
    let mut i: usize = m.len();
    while i > 0
        invariant
            0 <= i <= m@.len(),
            lookup_pt(pairs, key@) == lookup_pt_back(pairs, key@, i as int),
        decreases i,
    {
        if str_eq(m[i - 1].0.as_str(), key) {
            return Some(m[i - 1].1);
        }
        i = i - 1;
    }
    None
}

// ---------------------------------------------------------------
// Points
// ---------------------------------------------------------------
/// The text directly under an element, with a zero put in for silence.
pub open spec fn text_or_zero(e: XmlSpec) -> Seq<char> {
    match e.text {
        Some(t) => t,
        None => "0"@,
    }
}

/// Walk the children of a position element, keeping the value of the
/// last `X` and the last `Y`, each of which must parse as a number.
pub open spec fn scan_xy(cs: Seq<XmlSpec>, i: int, x: Option<u64>, y: Option<u64>) -> Result<
    (Option<u64>, Option<u64>),
    ErrorV,
>
    decreases cs.len() - i,
{
    if i < 0 || i >= cs.len() {
        Ok((x, y))
    } else if cs[i].name == "X"@ {
        match float_bits_of(text_or_zero(cs[i])) {
            Some(b) => scan_xy(cs, i + 1, Some(b), y),
            None => Err(ErrorV::ParseFloat(text_or_zero(cs[i]))),
        }
    } else if cs[i].name == "Y"@ {
        match float_bits_of(text_or_zero(cs[i])) {
            Some(b) => scan_xy(cs, i + 1, x, Some(b)),
            None => Err(ErrorV::ParseFloat(text_or_zero(cs[i]))),
        }
    } else {
        scan_xy(cs, i + 1, x, y)
    }
}

/// The coordinate declared by one point element: the X/Y pair of its
/// position subtree, in declaration order (x, y).
pub open spec fn spec_point_pos(point: XmlSpec) -> Result<PtBits, ErrorV> {
    match find_desc(point, "DirectPosition"@, ns_zmn()) {
        None => Err(ErrorV::MissingElement("pos"@)),
        Some(pos) => match scan_xy(pos.children, 0, None, None) {
            Err(e) => Err(e),
            Ok((xo, yo)) => match xo {
                None => Err(ErrorV::MissingElement("X"@)),
                Some(xb) => match yo {
                    None => Err(ErrorV::MissingElement("Y"@)),
                    Some(yb) => Ok((xb, yb)),
                },
            },
        },
    }
}

/// One point element resolved to its identifier and coordinate.
pub open spec fn spec_point_entry(point: XmlSpec) -> Result<IdPt, ErrorV> {
    match spec_point_pos(point) {
        Err(e) => Err(e),
        Ok(p) => match attr_of(point, "id"@) {
            None => Err(
                ErrorV::MissingAttribute { element: "GM_Point"@, attribute: "id"@ },
            ),
            Some(id) => Ok((id, p)),
        },
    }
}

pub open spec fn spec_points_from(pts: Seq<XmlSpec>, i: int) -> Result<Seq<IdPt>, ErrorV>
    decreases pts.len() - i,
{
    if i < 0 || i >= pts.len() {
        Ok(Seq::empty())
    } else {
        match spec_point_entry(pts[i]) {
            Err(e) => Err(e),
            Ok(en) => match spec_points_from(pts, i + 1) {
                Err(e) => Err(e),
                Ok(rest) => Ok(seq![en] + rest),
            },
        }
    }
}

/// The identifier-to-coordinate map declared by the spatial subtree.
pub open spec fn spec_parse_points(spatial: XmlSpec) -> Result<Seq<IdPt>, ErrorV> {
    spec_points_from(children_named(spatial, "GM_Point"@, ns_zmn()), 0)
}

/// The namespace URI of the spatial-primitive vocabulary, as a value.
pub fn zmn_uri() -> (r: &'static str)
    ensures
        r@ == ns_zmn(),
{
    match get_xml_namespace(Some("zmn")) {
        Some(u) => u,
        None => {
            proof {
                assert(false);
            }
            ""
        },
    }
}

/// The namespace URI of the outer document vocabulary, as a value.
pub fn doc_uri() -> (r: &'static str)
    ensures
        r@ == ns_doc(),
{
    match get_xml_namespace(None) {
        Some(u) => u,
        None => {
            proof {
                assert(false);
            }
            ""
        },
    }
}

/// Resolve the position of one point element.
#[verifier::loop_isolation(false)]
fn point_pos(point: &XmlElem) -> (r: Result<PtBits, Error>)
    ensures
        r matches Ok(p) ==> spec_point_pos(point@) == Ok::<PtBits, ErrorV>(p),
        r matches Err(e) ==> spec_point_pos(point@) == Err::<PtBits, ErrorV>(e@),
{
    let pos = match find_descendant(point, "DirectPosition", zmn_uri()) {
        Some(p) => p,
        None => {
            return Err(Error::MissingElement("pos".to_owned()));
        },
    };
    let ghost cs = pos@.children;
    proof {
        crate::xml::lemma_view_elem_seq(pos.children@);
    }
    let mut x: Option<u64> = None;
    let mut y: Option<u64> = None;
    let mut i: usize = 0;
    while i < pos.children.len()
        invariant
            0 <= i <= pos.children@.len(),
            cs == pos@.children,
            cs.len() == pos.children@.len(),
            forall|k: int| 0 <= k < cs.len() ==> cs[k] == pos.children@[k]@,
            scan_xy(cs, 0, None, None) == scan_xy(cs, i as int, x, y),
        decreases pos.children@.len() - i,
    {
        let c = &pos.children[i];
        if str_eq(c.name.as_str(), "X") {
            let t: &str = match c.text_ref() {
                Some(t) => t.as_str(),
                None => "0",
            };
            proof {
                assert(t@ == text_or_zero(cs[i as int]));
            }
            match parse_float_bits(t) {
                Some(b) => {
                    x = Some(b);
                },
                None => {
                    return Err(Error::ParseFloat(t.to_owned()));
                },
            }
        } else if str_eq(c.name.as_str(), "Y") {
            let t: &str = match c.text_ref() {
                Some(t) => t.as_str(),
                None => "0",
            };
            proof {
                assert(t@ == text_or_zero(cs[i as int]));
            }
            match parse_float_bits(t) {
                Some(b) => {
                    y = Some(b);
                },
                None => {
                    return Err(Error::ParseFloat(t.to_owned()));
                },
            }
        }
        i = i + 1;
    }
    let xb = match x {
        Some(b) => b,
        None => {
            return Err(Error::MissingElement("X".to_owned()));
        },
    };
    let yb = match y {
        Some(b) => b,
        None => {
            return Err(Error::MissingElement("Y".to_owned()));
        },
    };
    Ok((xb, yb))
}

/// Resolve every point declaration of the spatial subtree, in order.
#[verifier::loop_isolation(false)]
pub fn parse_points(spatial: &XmlElem) -> (r: Result<Vec<(String, PtBits)>, Error>)
    ensures
        r matches Ok(v) ==> spec_parse_points(spatial@) == Ok::<_, ErrorV>(pt_pairs_view(v@)),
        r matches Err(e) ==> spec_parse_points(spatial@) == Err::<Seq<IdPt>, _>(e@),
{
    let pts = children_with(spatial, "GM_Point", zmn_uri());
    let ghost elems = children_named(spatial@, "GM_Point"@, ns_zmn());
    proof {
        lemma_view_ref_seq(pts@);
    }
    let mut out: Vec<(String, PtBits)> = Vec::new();
    let mut i: usize = 0;
    while i < pts.len()
        invariant
            0 <= i <= pts@.len(),
            elems.len() == pts@.len(),
            forall|k: int| 0 <= k < elems.len() ==> elems[k] == pts@[k]@,
            spec_points_from(elems, 0) == (match spec_points_from(elems, i as int) {
                Ok(rest) => Ok::<Seq<IdPt>, ErrorV>(pt_pairs_view(out@) + rest),
                Err(e) => Err::<Seq<IdPt>, ErrorV>(e),
            }),
        decreases pts@.len() - i,
    {
        let p = pts[i];
        let pb = match point_pos(p) {
            Ok(pb) => pb,
            Err(e) => {
                return Err(e);
            },
        };
        let id = match p.attr("id") {
            Some(id) => id.clone(),
            None => {
                return Err(
                    Error::MissingAttribute {
                        element: "GM_Point".to_owned(),
                        attribute: "id".to_owned(),
                    },
                );
            },
        };
        let ghost prev = out@;
        out.push((id, pb));
        proof {
            assert(pt_pairs_view(out@) =~= pt_pairs_view(prev).push((id@, pb)));
            assert(pt_pairs_view(prev).push((id@, pb)) + (match spec_points_from(
                elems,
                i + 1,
            ) {
                Ok(rest) => rest,
                Err(_) => Seq::empty(),
            }) =~= pt_pairs_view(prev) + (seq![(id@, pb)] + (match spec_points_from(
                elems,
                i + 1,
            ) {
                Ok(rest) => rest,
                Err(_) => Seq::empty(),
            })));
        }
        i = i + 1;
    }
    proof {
        assert(pt_pairs_view(out@) + Seq::<IdPt>::empty() =~= pt_pairs_view(out@));
    }
    Ok(out)
}

// ---------------------------------------------------------------
// Curves
// ---------------------------------------------------------------
/// The coordinate of one curve element, direct or indirect, before
/// the axis swap.
pub open spec fn spec_curve_pos(curve: XmlSpec, points: Seq<IdPt>) -> Result<PtBits, ErrorV> {
    match find_child_ns(curve, "GM_Curve.segment"@, ns_zmn()) {
        None => Err(ErrorV::MissingElement("GM_Curve.segment"@)),
        Some(segment) => match find_desc(segment, "GM_PointArray.column"@, ns_zmn()) {
            None => Err(ErrorV::MissingElement("GM_PointArray.column"@)),
            Some(column) => if column.children.len() == 0 {
                Err(ErrorV::MissingElement("GM_Position.*"@))
            } else {
                spec_position(column.children[0], points)
            },
        },
    }
}

/// A position element resolved to a coordinate: a reference to a
/// declared point, or an inline X/Y pair.
pub open spec fn spec_position(pos: XmlSpec, points: Seq<IdPt>) -> Result<PtBits, ErrorV> {
    if pos.name == "GM_Position.indirect"@ {
        if pos.children.len() == 0 {
            Err(ErrorV::MissingElement("GM_Position.indirect"@))
        } else {
            match attr_of(pos.children[0], "idref"@) {
                None => Err(
                    ErrorV::MissingAttribute {
                        element: "GM_Position.indirect"@,
                        attribute: "idref"@,
                    },
                ),
                Some(idref) => match lookup_pt(points, idref) {
                    None => Err(ErrorV::PointNotFound(idref)),
                    Some(p) => Ok(p),
                },
            }
        }
    } else if pos.name == "GM_Position.direct"@ {
        match spec_direct_axis(pos, "X"@) {
            Err(e) => Err(e),
            Ok(xb) => match spec_direct_axis(pos, "Y"@) {
                Err(e) => Err(e),
                Ok(yb) => Ok((xb, yb)),
            },
        }
    } else {
        Err(ErrorV::UnexpectedElement(pos.name))
    }
}

/// One axis of an inline position: the named child's text, parsed.
pub open spec fn spec_direct_axis(pos: XmlSpec, axis: Seq<char>) -> Result<u64, ErrorV> {
    match find_child(pos, axis) {
        None => Err(ErrorV::MissingElement(axis)),
        Some(e) => match e.text {
            None => Err(ErrorV::MissingElement(axis)),
            Some(t) => match float_bits_of(t) {
                None => Err(ErrorV::ParseFloat(t)),
                Some(b) => Ok(b),
            },
        },
    }
}

/// One curve element resolved to its identifier and coordinate.  The
/// source declares northing/easting; the stored pair swaps the axes so
/// that downstream geometry receives (x = easting, y = northing).
pub open spec fn spec_curve_entry(curve: XmlSpec, points: Seq<IdPt>) -> Result<IdPt, ErrorV> {
    match attr_of(curve, "id"@) {
        None => Err(ErrorV::MissingAttribute { element: "GM_Curve"@, attribute: "id"@ }),
        Some(id) => match spec_curve_pos(curve, points) {
            Err(e) => Err(e),
            Ok(p) => Ok((id, (p.1, p.0))),
        },
    }
}

pub open spec fn spec_curves_from(cs: Seq<XmlSpec>, points: Seq<IdPt>, i: int) -> Result<
    Seq<IdPt>,
    ErrorV,
>
    decreases cs.len() - i,
{
    if i < 0 || i >= cs.len() {
        Ok(Seq::empty())
    } else {
        match spec_curve_entry(cs[i], points) {
            Err(e) => Err(e),
            Ok(en) => match spec_curves_from(cs, points, i + 1) {
                Err(e) => Err(e),
                Ok(rest) => Ok(seq![en] + rest),
            },
        }
    }
}

/// The identifier-to-coordinate map of the curves, axes swapped.
pub open spec fn spec_parse_curves(spatial: XmlSpec, points: Seq<IdPt>) -> Result<
    Seq<IdPt>,
    ErrorV,
> {
    spec_curves_from(children_named(spatial, "GM_Curve"@, ns_zmn()), points, 0)
}

/// Resolve one position element.
fn position_pt(pos: &XmlElem, points: &Vec<(String, PtBits)>) -> (r: Result<PtBits, Error>)
    ensures
        r matches Ok(p) ==> spec_position(pos@, pt_pairs_view(points@)) == Ok::<PtBits, ErrorV>(p),
        r matches Err(e) ==> spec_position(pos@, pt_pairs_view(points@)) == Err::<PtBits, ErrorV>(
            e@,
        ),
{
    if str_eq(pos.name.as_str(), "GM_Position.indirect") {
        let rf = match first_element_child(pos) {
            Some(rf) => rf,
            None => {
                return Err(Error::MissingElement("GM_Position.indirect".to_owned()));
            },
        };
        let idref = match rf.attr("idref") {
            Some(v) => v,
            None => {
                return Err(
                    Error::MissingAttribute {
                        element: "GM_Position.indirect".to_owned(),
                        attribute: "idref".to_owned(),
                    },
                );
            },
        };
        match pt_map_get(points, idref.as_str()) {
            Some(p) => Ok(p),
            None => Err(Error::PointNotFound(idref.clone())),
        }
    } else if str_eq(pos.name.as_str(), "GM_Position.direct") {
        let xb = match direct_axis(pos, "X") {
            Ok(b) => b,
            Err(e) => {
                return Err(e);
            },
        };
        let yb = match direct_axis(pos, "Y") {
            Ok(b) => b,
            Err(e) => {
                return Err(e);
            },
        };
        Ok((xb, yb))
    } else {
        Err(Error::UnexpectedElement(pos.name.clone()))
    }
}

/// Resolve one axis of an inline position.
fn direct_axis(pos: &XmlElem, axis: &str) -> (r: Result<u64, Error>)
    ensures
        r matches Ok(b) ==> spec_direct_axis(pos@, axis@) == Ok::<u64, ErrorV>(b),
        r matches Err(e) ==> spec_direct_axis(pos@, axis@) == Err::<u64, ErrorV>(e@),
{
    let e = match get_child_element(pos, axis) {
        Some(e) => e,
        None => {
            return Err(Error::MissingElement(axis.to_owned()));
        },
    };
    let t = match e.text_ref() {
        Some(t) => t,
        None => {
            return Err(Error::MissingElement(axis.to_owned()));
        },
    };
    match parse_float_bits(t.as_str()) {
        Some(b) => Ok(b),
        None => Err(Error::ParseFloat(t.clone())),
    }
}

/// Resolve one curve element.
fn curve_entry(curve: &XmlElem, points: &Vec<(String, PtBits)>) -> (r: Result<
    (String, PtBits),
    Error,
>)
    ensures
        r matches Ok(en) ==> spec_curve_entry(curve@, pt_pairs_view(points@)) == Ok::<
            IdPt,
            ErrorV,
        >((en.0@, en.1)),
        r matches Err(e) ==> spec_curve_entry(curve@, pt_pairs_view(points@)) == Err::<
            IdPt,
            ErrorV,
        >(e@),
{
    let id = match curve.attr("id") {
        Some(id) => id.clone(),
        None => {
            return Err(
                Error::MissingAttribute {
                    element: "GM_Curve".to_owned(),
                    attribute: "id".to_owned(),
                },
            );
        },
    };
    let segment = match get_child_element_ns(curve, "GM_Curve.segment", zmn_uri()) {
        Some(s) => s,
        None => {
            return Err(Error::MissingElement("GM_Curve.segment".to_owned()));
        },
    };
    let column = match find_descendant(segment, "GM_PointArray.column", zmn_uri()) {
        Some(c) => c,
        None => {
            return Err(Error::MissingElement("GM_PointArray.column".to_owned()));
        },
    };
    let pos = match first_element_child(column) {
        Some(p) => p,
        None => {
            return Err(Error::MissingElement("GM_Position.*".to_owned()));
        },
    };
    match position_pt(pos, points) {
        Ok(p) => Ok((id, (p.1, p.0))),
        Err(e) => Err(e),
    }
}

/// Resolve every curve declaration of the spatial subtree, in order.
#[verifier::loop_isolation(false)]
pub fn parse_curves(spatial: &XmlElem, points: &Vec<(String, PtBits)>) -> (r: Result<
    Vec<(String, PtBits)>,
    Error,
>)
    ensures
        r matches Ok(v) ==> spec_parse_curves(spatial@, pt_pairs_view(points@)) == Ok::<_, ErrorV>(
            pt_pairs_view(v@),
        ),
        r matches Err(e) ==> spec_parse_curves(spatial@, pt_pairs_view(points@)) == Err::<
            Seq<IdPt>,
            _,
        >(e@),
{
    let cs = children_with(spatial, "GM_Curve", zmn_uri());
    let ghost elems = children_named(spatial@, "GM_Curve"@, ns_zmn());
    let ghost pmodel = pt_pairs_view(points@);
    proof {
        lemma_view_ref_seq(cs@);
    }
    let mut out: Vec<(String, PtBits)> = Vec::new();
    let mut i: usize = 0;
    while i < cs.len()
        invariant
            0 <= i <= cs@.len(),
            elems.len() == cs@.len(),
            forall|k: int| 0 <= k < elems.len() ==> elems[k] == cs@[k]@,
            spec_curves_from(elems, pmodel, 0) == (match spec_curves_from(
                elems,
                pmodel,
                i as int,
            ) {
                Ok(rest) => Ok::<Seq<IdPt>, ErrorV>(pt_pairs_view(out@) + rest),
                Err(e) => Err::<Seq<IdPt>, ErrorV>(e),
            }),
        decreases cs@.len() - i,
    {
        let c = cs[i];
        let en = match curve_entry(c, points) {
            Ok(en) => en,
            Err(e) => {
                return Err(e);
            },
        };
        let ghost prev = out@;
        let ghost env = (en.0@, en.1);
        out.push(en);
        proof {
            assert(pt_pairs_view(out@) =~= pt_pairs_view(prev).push(env));
            assert(pt_pairs_view(prev).push(env) + (match spec_curves_from(
                elems,
                pmodel,
                i + 1,
            ) {
                Ok(rest) => rest,
                Err(_) => Seq::empty(),
            }) =~= pt_pairs_view(prev) + (seq![env] + (match spec_curves_from(
                elems,
                pmodel,
                i + 1,
            ) {
                Ok(rest) => rest,
                Err(_) => Seq::empty(),
            })));
        }
        i = i + 1;
    }
    proof {
        assert(pt_pairs_view(out@) + Seq::<IdPt>::empty() =~= pt_pairs_view(out@));
    }
    Ok(out)
}

// ---------------------------------------------------------------
// Surfaces
// ---------------------------------------------------------------
/// An identifier paired with a resolved polygon.
pub type IdPoly = (Seq<char>, PolyView);

/// The model of an identifier-to-polygon map, in insertion order.
pub open spec fn poly_pairs_view(s: Seq<(String, PolyBits)>) -> Seq<IdPoly> {
    Seq::new(s.len(), |i: int| (s[i].0@, s[i].1@))
}

pub open spec fn lookup_poly_back(pairs: Seq<IdPoly>, key: Seq<char>, i: int) -> Option<PolyView>
    decreases i,
{
    if i <= 0 || i > pairs.len() {
        None
    } else if pairs[i - 1].0 == key {
        Some(pairs[i - 1].1)
    } else {
        lookup_poly_back(pairs, key, i - 1)
    }
}

pub open spec fn lookup_poly(pairs: Seq<IdPoly>, key: Seq<char>) -> Option<PolyView> {
    lookup_poly_back(pairs, key, pairs.len() as int)
}

/// Look up a polygon by identifier, last declaration winning.
#[verifier::loop_isolation(false)]
pub fn poly_map_get<'a>(m: &'a Vec<(String, PolyBits)>, key: &str) -> (r: Option<&'a PolyBits>)
    ensures
        r is Some <==> lookup_poly(poly_pairs_view(m@), key@) is Some,
        r matches Some(p) ==> lookup_poly(poly_pairs_view(m@), key@) == Some(p@),
{
    let ghost pairs = poly_pairs_view(m@);
    let mut i: usize = m.len();
    while i > 0
        invariant
            0 <= i <= m@.len(),
            lookup_poly(pairs, key@) == lookup_poly_back(pairs, key@, i as int),
        decreases i,
    {
        if str_eq(m[i - 1].0.as_str(), key) {
            return Some(&m[i - 1].1);
        }
        i = i - 1;
    }
    None
}

/// The element children of each element of `es`, in order.
pub open spec fn children_of_all(es: Seq<XmlSpec>, i: int) -> Seq<XmlSpec>
    decreases es.len() - i,
{
    if i < 0 || i >= es.len() {
        Seq::empty()
    } else {
        es[i].children + children_of_all(es, i + 1)
    }
}

/// Collect the element children of every element of `es`, in order.
#[verifier::loop_isolation(false)]
fn children_of_elems<'a>(es: &Vec<&'a XmlElem>) -> (r: Vec<&'a XmlElem>)
    ensures
        view_ref_seq(r@) =~= children_of_all(view_ref_seq(es@), 0),
{
    let ghost evs = view_ref_seq(es@);
    proof {
        lemma_view_ref_seq(es@);
    }
    let mut out: Vec<&'a XmlElem> = Vec::new();
    let mut i: usize = 0;
    while i < es.len()
        invariant
            0 <= i <= es@.len(),
            evs == view_ref_seq(es@),
            evs.len() == es@.len(),
            forall|k: int| 0 <= k < evs.len() ==> evs[k] == es@[k]@,
            view_ref_seq(out@) + children_of_all(evs, i as int) =~= children_of_all(evs, 0),
        decreases es@.len() - i,
    {
        let e = es[i];
        proof {
            crate::xml::lemma_view_elem_seq(e.children@);
        }
        let ghost base = out@;
        let mut k: usize = 0;
        while k < e.children.len()
            invariant
                0 <= k <= e.children@.len(),
                view_ref_seq(out@) =~= view_ref_seq(base) + e@.children.take(k as int),
            decreases e.children@.len() - k,
        {
            let ghost prev = out@;
            out.push(&e.children[k]);
            proof {
                assert(out@.drop_last() =~= prev);
                assert(view_ref_seq(out@) =~= view_ref_seq(prev).push(e.children@[k as int]@));
                assert(e@.children.take(k + 1) =~= e@.children.take(k as int).push(
                    e@.children[k as int],
                ));
            }
            k = k + 1;
        }
        proof {
            assert(e@.children.take(e.children@.len() as int) =~= e@.children);
            assert(view_ref_seq(out@) =~= view_ref_seq(base) + evs[i as int].children);
            assert(view_ref_seq(base) + evs[i as int].children + children_of_all(evs, i + 1)
                =~= view_ref_seq(base) + (evs[i as int].children + children_of_all(evs, i + 1)));
        }
        i = i + 1;
    }
    out
}

/// The first polygon of the first patch that declares one.
pub open spec fn first_polygon_from(patches: Seq<XmlSpec>, i: int) -> Option<XmlSpec>
    decreases patches.len() - i,
{
    if i < 0 || i >= patches.len() {
        None
    } else {
        let polys = children_named(patches[i], "GM_Polygon"@, ns_zmn());
        if polys.len() > 0 {
            Some(polys[0])
        } else {
            first_polygon_from(patches, i + 1)
        }
    }
}

/// The curve references of a boundary: the element children of every
/// ring element under it (the boundary element itself included in the
/// search), in document order.
pub open spec fn ring_refs(container: XmlSpec) -> Seq<XmlSpec> {
    children_of_all(desc_all(container, "GM_Ring"@, ns_zmn()), 0)
}

/// Dereference each curve reference into its coordinate, in order.
pub open spec fn resolve_refs(refs: Seq<XmlSpec>, curves: Seq<IdPt>, i: int) -> Result<
    Seq<PtBits>,
    ErrorV,
>
    decreases refs.len() - i,
{
    if i < 0 || i >= refs.len() {
        Ok(Seq::empty())
    } else {
        match attr_of(refs[i], "idref"@) {
            None => Err(
                ErrorV::MissingAttribute { element: refs[i].name, attribute: "idref"@ },
            ),
            Some(cid) => match lookup_pt(curves, cid) {
                None => Err(ErrorV::PointNotFound(cid)),
                Some(p) => match resolve_refs(refs, curves, i + 1) {
                    Err(e) => Err(e),
                    Ok(rest) => Ok(seq![p] + rest),
                },
            },
        }
    }
}

/// A ring closed the way the geometry library closes one: the first
/// coordinate is repeated at the end unless it is already there.
pub open spec fn close_ring(r: Seq<PtBits>) -> Seq<PtBits> {
    if r.len() >= 1 && r.first() != r.last() {
        r.push(r.first())
    } else {
        r
    }
}

/// One ring of a boundary element: the dereferenced coordinates,
/// closed.
pub open spec fn spec_ring(container: XmlSpec, curves: Seq<IdPt>) -> Result<Seq<PtBits>, ErrorV> {
    match resolve_refs(ring_refs(container), curves, 0) {
        Err(e) => Err(e),
        Ok(ring) => Ok(close_ring(ring)),
    }
}

/// Close a ring the way the geometry library would.
fn close_ring_vec(r: Vec<PtBits>) -> (out: Vec<PtBits>)
    ensures
        out@ == close_ring(r@),
{
    let mut v = r;
    if v.len() >= 1 {
        let f = v[0];
        let l = v[v.len() - 1];
        if f.0 != l.0 || f.1 != l.1 {
            v.push(f);
        }
    }
    v
}

/// The interior rings: one per element child of every interior
/// boundary declaration of the polygon.
pub open spec fn spec_interiors(conts: Seq<XmlSpec>, curves: Seq<IdPt>, i: int) -> Result<
    Seq<Seq<PtBits>>,
    ErrorV,
>
    decreases conts.len() - i,
{
    if i < 0 || i >= conts.len() {
        Ok(Seq::empty())
    } else {
        match spec_ring(conts[i], curves) {
            Err(e) => Err(e),
            Ok(ring) => match spec_interiors(conts, curves, i + 1) {
                Err(e) => Err(e),
                Ok(rest) => Ok(seq![ring] + rest),
            },
        }
    }
}

/// The interior-boundary ring containers of a polygon.
pub open spec fn interior_containers(polygon: XmlSpec) -> Seq<XmlSpec> {
    children_of_all(desc_all(polygon, "GM_SurfaceBoundary.interior"@, ns_zmn()), 0)
}

/// One surface element resolved to its identifier and polygon.
pub open spec fn spec_surface_entry(surface: XmlSpec, curves: Seq<IdPt>) -> Result<IdPoly, ErrorV> {
    let patches = children_named(surface, "GM_Surface.patch"@, ns_zmn());
    match first_polygon_from(patches, 0) {
        None => Err(ErrorV::MissingElement("GM_Surface.patch"@)),
        Some(polygon) => match attr_of(surface, "id"@) {
            None => Err(
                ErrorV::MissingAttribute { element: "GM_Surface"@, attribute: "id"@ },
            ),
            Some(sid) => match find_desc(polygon, "GM_SurfaceBoundary.exterior"@, ns_zmn()) {
                None => Err(ErrorV::MissingElement("GM_SurfaceBoundary.exterior"@)),
                Some(ext) => match spec_ring(ext, curves) {
                    Err(e) => Err(e),
                    Ok(extring) => match spec_interiors(interior_containers(polygon), curves, 0) {
                        Err(e) => Err(e),
                        Ok(ints) => Ok(
                            (sid, PolyView { exterior: extring, interiors: ints }),
                        ),
                    },
                },
            },
        },
    }
}

pub open spec fn spec_surfaces_from(ss: Seq<XmlSpec>, curves: Seq<IdPt>, i: int) -> Result<
    Seq<IdPoly>,
    ErrorV,
>
    decreases ss.len() - i,
{
    if i < 0 || i >= ss.len() {
        Ok(Seq::empty())
    } else {
        match spec_surface_entry(ss[i], curves) {
            Err(e) => Err(e),
            Ok(en) => match spec_surfaces_from(ss, curves, i + 1) {
                Err(e) => Err(e),
                Ok(rest) => Ok(seq![en] + rest),
            },
        }
    }
}

/// The identifier-to-polygon map declared by the spatial subtree.
pub open spec fn spec_parse_surfaces(spatial: XmlSpec, curves: Seq<IdPt>) -> Result<
    Seq<IdPoly>,
    ErrorV,
> {
    spec_surfaces_from(children_named(spatial, "GM_Surface"@, ns_zmn()), curves, 0)
}

/// Collect the curve references of one boundary element.
fn ring_ref_elems<'a>(container: &'a XmlElem) -> (r: Vec<&'a XmlElem>)
    ensures
        view_ref_seq(r@) =~= ring_refs(container@),
{
    let mut rings: Vec<&'a XmlElem> = Vec::new();
    collect_descendants(container, "GM_Ring", zmn_uri(), &mut rings);
    proof {
        assert(view_ref_seq(rings@) =~= desc_all(container@, "GM_Ring"@, ns_zmn()));
    }
    children_of_elems(&rings)
}

/// Dereference the curve references of one ring.
#[verifier::loop_isolation(false)]
fn resolve_ring(refs: &Vec<&XmlElem>, curves: &Vec<(String, PtBits)>) -> (r: Result<
    Vec<PtBits>,
    Error,
>)
    ensures
        r matches Ok(v) ==> resolve_refs(view_ref_seq(refs@), pt_pairs_view(curves@), 0) == Ok::<
            _,
            ErrorV,
        >(v@),
        r matches Err(e) ==> resolve_refs(view_ref_seq(refs@), pt_pairs_view(curves@), 0) == Err::<
            Seq<PtBits>,
            _,
        >(e@),
{
    let ghost rv = view_ref_seq(refs@);
    let ghost cm = pt_pairs_view(curves@);
    proof {
        lemma_view_ref_seq(refs@);
    }
    let mut out: Vec<PtBits> = Vec::new();
    let mut i: usize = 0;
    while i < refs.len()
        invariant
            0 <= i <= refs@.len(),
            rv.len() == refs@.len(),
            forall|k: int| 0 <= k < rv.len() ==> rv[k] == refs@[k]@,
            resolve_refs(rv, cm, 0) == (match resolve_refs(rv, cm, i as int) {
                Ok(rest) => Ok::<Seq<PtBits>, ErrorV>(out@ + rest),
                Err(e) => Err::<Seq<PtBits>, ErrorV>(e),
            }),
        decreases refs@.len() - i,
    {
        let cc = refs[i];
        let cid = match cc.attr("idref") {
            Some(v) => v,
            None => {
                return Err(
                    Error::MissingAttribute {
                        element: cc.name.clone(),
                        attribute: "idref".to_owned(),
                    },
                );
            },
        };
        let p = match pt_map_get(curves, cid.as_str()) {
            Some(p) => p,
            None => {
                return Err(Error::PointNotFound(cid.clone()));
            },
        };
        let ghost prev = out@;
        out.push(p);
        proof {
            assert(out@ =~= prev.push(p));
            assert(prev.push(p) + (match resolve_refs(rv, cm, i + 1) {
                Ok(rest) => rest,
                Err(_) => Seq::empty(),
            }) =~= prev + (seq![p] + (match resolve_refs(rv, cm, i + 1) {
                Ok(rest) => rest,
                Err(_) => Seq::empty(),
            })));
        }
        i = i + 1;
    }
    proof {
        assert(out@ + Seq::<PtBits>::empty() =~= out@);
    }
    Ok(out)
}

/// Resolve one surface element to its identifier and polygon.
#[verifier::loop_isolation(false)]
fn surface_entry(surface: &XmlElem, curves: &Vec<(String, PtBits)>) -> (r: Result<
    (String, PolyBits),
    Error,
>)
    ensures
        r matches Ok(en) ==> spec_surface_entry(surface@, pt_pairs_view(curves@)) == Ok::<
            IdPoly,
            ErrorV,
        >((en.0@, en.1@)),
        r matches Err(e) ==> spec_surface_entry(surface@, pt_pairs_view(curves@)) == Err::<
            IdPoly,
            ErrorV,
        >(e@),
{
    let ghost cm = pt_pairs_view(curves@);
    let patches = children_with(surface, "GM_Surface.patch", zmn_uri());
    let ghost pv = children_named(surface@, "GM_Surface.patch"@, ns_zmn());
    proof {
        lemma_view_ref_seq(patches@);
    }
    let mut polygon: Option<&XmlElem> = None;
    let mut i: usize = 0;
    while i < patches.len()
        invariant
            0 <= i <= patches@.len(),
            pv.len() == patches@.len(),
            forall|k: int| 0 <= k < pv.len() ==> pv[k] == patches@[k]@,
            polygon is None,
            first_polygon_from(pv, 0) == first_polygon_from(pv, i as int),
        decreases patches@.len() - i,
    {
        let polys = children_with(patches[i], "GM_Polygon", zmn_uri());
        proof {
            lemma_view_ref_seq(polys@);
        }
        if polys.len() > 0 {
            polygon = Some(polys[0]);
            break ;
        }
        i = i + 1;
    }
    let polygon = match polygon {
        Some(p) => p,
        None => {
            return Err(Error::MissingElement("GM_Surface.patch".to_owned()));
        },
    };
    let sid = match surface.attr("id") {
        Some(v) => v.clone(),
        None => {
            return Err(
                Error::MissingAttribute {
                    element: "GM_Surface".to_owned(),
                    attribute: "id".to_owned(),
                },
            );
        },
    };
    let ext = match find_descendant(polygon, "GM_SurfaceBoundary.exterior", zmn_uri()) {
        Some(e) => e,
        None => {
            return Err(Error::MissingElement("GM_SurfaceBoundary.exterior".to_owned()));
        },
    };
    let ext_refs = ring_ref_elems(ext);
    let exterior = match resolve_ring(&ext_refs, curves) {
        Ok(v) => close_ring_vec(v),
        Err(e) => {
            return Err(e);
        },
    };
    let mut ibs: Vec<&XmlElem> = Vec::new();
    collect_descendants(polygon, "GM_SurfaceBoundary.interior", zmn_uri(), &mut ibs);
    let conts = children_of_elems(&ibs);
    let ghost cv = view_ref_seq(conts@);
    proof {
        assert(cv =~= interior_containers(polygon@));
        lemma_view_ref_seq(conts@);
    }
    let mut interiors: Vec<Vec<PtBits>> = Vec::new();
    let mut j: usize = 0;
    while j < conts.len()
        invariant
            0 <= j <= conts@.len(),
            cv.len() == conts@.len(),
            forall|k: int| 0 <= k < cv.len() ==> cv[k] == conts@[k]@,
            spec_interiors(cv, cm, 0) == (match spec_interiors(cv, cm, j as int) {
                Ok(rest) => Ok::<Seq<Seq<PtBits>>, ErrorV>(interiors.deep_view() + rest),
                Err(e) => Err::<Seq<Seq<PtBits>>, ErrorV>(e),
            }),
        decreases conts@.len() - j,
    {
        let refs = ring_ref_elems(conts[j]);
        let ring = match resolve_ring(&refs, curves) {
            Ok(v) => close_ring_vec(v),
            Err(e) => {
                return Err(e);
            },
        };
        let ghost prev = interiors.deep_view();
        let ghost ringv = ring@;
        interiors.push(ring);
        proof {
            assert(interiors.deep_view() =~~= prev.push(ringv));
            assert(prev.push(ringv) + (match spec_interiors(cv, cm, j + 1) {
                Ok(rest) => rest,
                Err(_) => Seq::empty(),
            }) =~= prev + (seq![ringv] + (match spec_interiors(cv, cm, j + 1) {
                Ok(rest) => rest,
                Err(_) => Seq::empty(),
            })));
        }
        j = j + 1;
    }
    proof {
        assert(interiors.deep_view() + Seq::<Seq<PtBits>>::empty() =~= interiors.deep_view());
    }
    let poly = PolyBits { exterior, interiors };
    Ok((sid, poly))
}

/// Resolve every surface declaration of the spatial subtree, in order.
#[verifier::loop_isolation(false)]
pub fn parse_surfaces(spatial: &XmlElem, curves: &Vec<(String, PtBits)>) -> (r: Result<
    Vec<(String, PolyBits)>,
    Error,
>)
    ensures
        r matches Ok(v) ==> spec_parse_surfaces(spatial@, pt_pairs_view(curves@)) == Ok::<
            _,
            ErrorV,
        >(poly_pairs_view(v@)),
        r matches Err(e) ==> spec_parse_surfaces(spatial@, pt_pairs_view(curves@)) == Err::<
            Seq<IdPoly>,
            _,
        >(e@),
{
    let ss = children_with(spatial, "GM_Surface", zmn_uri());
    let ghost elems = children_named(spatial@, "GM_Surface"@, ns_zmn());
    let ghost cm = pt_pairs_view(curves@);
    proof {
        lemma_view_ref_seq(ss@);
    }
    let mut out: Vec<(String, PolyBits)> = Vec::new();
    let mut i: usize = 0;
    while i < ss.len()
        invariant
            0 <= i <= ss@.len(),
            elems.len() == ss@.len(),
            forall|k: int| 0 <= k < elems.len() ==> elems[k] == ss@[k]@,
            spec_surfaces_from(elems, cm, 0) == (match spec_surfaces_from(elems, cm, i as int) {
                Ok(rest) => Ok::<Seq<IdPoly>, ErrorV>(poly_pairs_view(out@) + rest),
                Err(e) => Err::<Seq<IdPoly>, ErrorV>(e),
            }),
        decreases ss@.len() - i,
    {
        let su = ss[i];
        let en = match surface_entry(su, curves) {
            Ok(en) => en,
            Err(e) => {
                return Err(e);
            },
        };
        let ghost prev = out@;
        let ghost env = (en.0@, en.1@);
        out.push(en);
        proof {
            assert(poly_pairs_view(out@) =~= poly_pairs_view(prev).push(env));
            assert(poly_pairs_view(prev).push(env) + (match spec_surfaces_from(
                elems,
                cm,
                i + 1,
            ) {
                Ok(rest) => rest,
                Err(_) => Seq::empty(),
            }) =~= poly_pairs_view(prev) + (seq![env] + (match spec_surfaces_from(
                elems,
                cm,
                i + 1,
            ) {
                Ok(rest) => rest,
                Err(_) => Seq::empty(),
            })));
        }
        i = i + 1;
    }
    proof {
        assert(poly_pairs_view(out@) + Seq::<IdPoly>::empty() =~= poly_pairs_view(out@));
    }
    Ok(out)
}

// ---------------------------------------------------------------
// Document and feature types
// ---------------------------------------------------------------
/// One document handed to the parser: its name and its full text.
#[derive(Debug, PartialEq)]
pub struct FileData {
    pub file_name: String,
    pub contents: String,
}

/// What the caller wants included.
#[derive(Clone, Copy)]
pub struct ParseOptions {
    /// Keep documents whose coordinate system is the arbitrary sentinel.
    pub include_arbitrary_crs: bool,
    /// Keep parcels marked as outside the district or on a separate map.
    pub include_chikugai: bool,
}

/// The document-level attributes shared by every record of a document.
#[derive(Debug, PartialEq)]
pub struct CommonProperties {
    pub map_name: String,
    pub city_code: u32,
    pub city_name: String,
    pub crs_name: String,
    pub datum_type: Option<String>,
}

/// The model of the document-level attributes.
#[verifier::ext_equal]
pub struct CommonV {
    pub map_name: Seq<char>,
    pub city_code: u32,
    pub city_name: Seq<char>,
    pub crs_name: Seq<char>,
    pub datum_type: Option<Seq<char>>,
}

impl View for CommonProperties {
    type V = CommonV;

    open spec fn view(&self) -> CommonV {
        CommonV {
            map_name: self.map_name@,
            city_code: self.city_code,
            city_name: self.city_name@,
            crs_name: self.crs_name@,
            datum_type: self.datum_type.deep_view(),
        }
    }
}

/// The attributes of one parcel record.
#[derive(Debug, PartialEq)]
pub struct FeatureProperties {
    pub map_name: String,
    pub city_code: u32,
    pub city_name: String,
    pub crs_name: String,
    pub datum_type: Option<String>,
    pub fude_id: String,
    pub accuracy_class: Option<String>,
    pub oaza_code: Option<u32>,
    pub chome_code: Option<u32>,
    pub koaza_code: Option<u32>,
    pub spare_code: Option<u32>,
    pub oaza_name: Option<String>,
    pub chome_name: Option<String>,
    pub koaza_name: Option<String>,
    pub spare_name: Option<String>,
    pub chiban: Option<String>,
    pub coord_type: Option<String>,
    pub undetermined: Option<String>,
    /// Latitude of the representative point, as a bit pattern.
    pub rep_lat: u64,
    /// Longitude of the representative point, as a bit pattern.
    pub rep_lon: u64,
}

/// The model of a parcel record's attributes.
#[verifier::ext_equal]
pub struct FeaturePropsV {
    pub map_name: Seq<char>,
    pub city_code: u32,
    pub city_name: Seq<char>,
    pub crs_name: Seq<char>,
    pub datum_type: Option<Seq<char>>,
    pub fude_id: Seq<char>,
    pub accuracy_class: Option<Seq<char>>,
    pub oaza_code: Option<u32>,
    pub chome_code: Option<u32>,
    pub koaza_code: Option<u32>,
    pub spare_code: Option<u32>,
    pub oaza_name: Option<Seq<char>>,
    pub chome_name: Option<Seq<char>>,
    pub koaza_name: Option<Seq<char>>,
    pub spare_name: Option<Seq<char>>,
    pub chiban: Option<Seq<char>>,
    pub coord_type: Option<Seq<char>>,
    pub undetermined: Option<Seq<char>>,
    pub rep_lat: u64,
    pub rep_lon: u64,
}

impl View for FeatureProperties {
    type V = FeaturePropsV;

    open spec fn view(&self) -> FeaturePropsV {
        FeaturePropsV {
            map_name: self.map_name@,
            city_code: self.city_code,
            city_name: self.city_name@,
            crs_name: self.crs_name@,
            datum_type: self.datum_type.deep_view(),
            fude_id: self.fude_id@,
            accuracy_class: self.accuracy_class.deep_view(),
            oaza_code: self.oaza_code,
            chome_code: self.chome_code,
            koaza_code: self.koaza_code,
            spare_code: self.spare_code,
            oaza_name: self.oaza_name.deep_view(),
            chome_name: self.chome_name.deep_view(),
            koaza_name: self.koaza_name.deep_view(),
            spare_name: self.spare_name.deep_view(),
            chiban: self.chiban.deep_view(),
            coord_type: self.coord_type.deep_view(),
            undetermined: self.undetermined.deep_view(),
            rep_lat: self.rep_lat,
            rep_lon: self.rep_lon,
        }
    }
}

/// One assembled parcel record: its polygon and its attributes.
#[derive(Debug, PartialEq)]
pub struct Feature {
    pub geometry: Vec<PolyBits>,
    pub props: FeatureProperties,
}

/// The model of a parcel record.
#[verifier::ext_equal]
pub struct FeatureV {
    pub geometry: Seq<PolyView>,
    pub props: FeaturePropsV,
}

impl View for Feature {
    type V = FeatureV;

    open spec fn view(&self) -> FeatureV {
        FeatureV { geometry: view_polys(self.geometry@), props: self.props@ }
    }
}

/// The models of a sequence of records.
pub open spec fn view_feats(s: Seq<Feature>) -> Seq<FeatureV> {
    Seq::new(s.len(), |i: int| s[i]@)
}

/// One document's result: its name and its parcel records, in
/// declaration order.
#[derive(Debug, PartialEq)]
pub struct ParsedXML {
    pub file_name: String,
    pub features: Vec<Feature>,
}

/// The model of a document's result.
#[verifier::ext_equal]
pub struct ParsedV {
    pub file_name: Seq<char>,
    pub features: Seq<FeatureV>,
}

impl View for ParsedXML {
    type V = ParsedV;

    open spec fn view(&self) -> ParsedV {
        ParsedV { file_name: self.file_name@, features: view_feats(self.features@) }
    }
}

// ---------------------------------------------------------------
// Common properties
// ---------------------------------------------------------------
/// The text of a required child element.
pub open spec fn spec_req_text(root: XmlSpec, name: Seq<char>) -> Result<Seq<char>, ErrorV> {
    match find_child(root, name) {
        None => Err(ErrorV::MissingElement(name)),
        Some(e) => match e.text {
            None => Err(ErrorV::MissingElement(name)),
            Some(t) => Ok(t),
        },
    }
}

/// The document-level attributes, read from fixed-name children of the
/// root: map name, municipality code (a decimal integer), municipality
/// name, coordinate-system name, and an optional datum note.
pub open spec fn spec_parse_common(root: XmlSpec) -> Result<CommonV, ErrorV> {
    match spec_req_text(root, "地図名"@) {
        Err(e) => Err(e),
        Ok(map_name) => match spec_req_text(root, "市区町村コード"@) {
            Err(e) => Err(e),
            Ok(code_text) => match spec_req_text(root, "市区町村名"@) {
                Err(e) => Err(e),
                Ok(city_name) => match spec_req_text(root, "座標系"@) {
                    Err(e) => Err(e),
                    Ok(crs_name) => {
                        let datum = match find_child(root, "測地系判別"@) {
                            None => None,
                            Some(e) => e.text,
                        };
                        if is_u32_text(code_text) {
                            Ok(
                                CommonV {
                                    map_name,
                                    city_code: u32_text_val(code_text) as u32,
                                    city_name,
                                    crs_name,
                                    datum_type: datum,
                                },
                            )
                        } else {
                            Err(ErrorV::ParseInt(code_text))
                        }
                    },
                },
            },
        },
    }
}

/// The text of a required child element.
fn req_text<'a>(root: &'a XmlElem, name: &str) -> (r: Result<&'a String, Error>)
    ensures
        r matches Ok(t) ==> spec_req_text(root@, name@) == Ok::<Seq<char>, ErrorV>(t@),
        r matches Err(e) ==> spec_req_text(root@, name@) == Err::<Seq<char>, ErrorV>(e@),
{
    let e = match get_child_element(root, name) {
        Some(e) => e,
        None => {
            return Err(Error::MissingElement(name.to_owned()));
        },
    };
    match e.text_ref() {
        Some(t) => Ok(t),
        None => Err(Error::MissingElement(name.to_owned())),
    }
}

/// Read the document-level attributes from the root element.
pub fn parse_common_properties(root: &XmlElem) -> (r: Result<CommonProperties, Error>)
    ensures
        r matches Ok(c) ==> spec_parse_common(root@) == Ok::<CommonV, ErrorV>(c@),
        r matches Err(e) ==> spec_parse_common(root@) == Err::<CommonV, ErrorV>(e@),
{
    let map_name = match req_text(root, "地図名") {
        Ok(t) => t.clone(),
        Err(e) => {
            return Err(e);
        },
    };
    let code_text = match req_text(root, "市区町村コード") {
        Ok(t) => t.clone(),
        Err(e) => {
            return Err(e);
        },
    };
    let city_name = match req_text(root, "市区町村名") {
        Ok(t) => t.clone(),
        Err(e) => {
            return Err(e);
        },
    };
    let crs_name = match req_text(root, "座標系") {
        Ok(t) => t.clone(),
        Err(e) => {
            return Err(e);
        },
    };
    let datum_type: Option<String> = match get_child_element(root, "測地系判別") {
        None => None,
        Some(e) => match e.text_ref() {
            None => None,
            Some(t) => Some(t.clone()),
        },
    };
    let city_code = match parse_u32_text(code_text.as_str()) {
        Some(v) => v,
        None => {
            return Err(Error::ParseInt(code_text));
        },
    };
    Ok(CommonProperties { map_name, city_code, city_name, crs_name, datum_type })
}

// ---------------------------------------------------------------
// Feature assembly
// ---------------------------------------------------------------
/// A name-to-text attribute bag, in document order.
pub open spec fn text_pairs_view(s: Seq<(String, String)>) -> Seq<(Seq<char>, Seq<char>)> {
    Seq::new(s.len(), |i: int| (s[i].0@, s[i].1@))
}

pub open spec fn lookup_text_back(
    pairs: Seq<(Seq<char>, Seq<char>)>,
    key: Seq<char>,
    i: int,
) -> Option<Seq<char>>
    decreases i,
{
    if i <= 0 || i > pairs.len() {
        None
    } else if pairs[i - 1].0 == key {
        Some(pairs[i - 1].1)
    } else {
        lookup_text_back(pairs, key, i - 1)
    }
}

pub open spec fn lookup_text(pairs: Seq<(Seq<char>, Seq<char>)>, key: Seq<char>) -> Option<
    Seq<char>,
> {
    lookup_text_back(pairs, key, pairs.len() as int)
}

/// Look up an attribute value, the last occurrence winning.
#[verifier::loop_isolation(false)]
fn text_map_get<'a>(m: &'a Vec<(String, String)>, key: &str) -> (r: Option<&'a String>)
    ensures
        r is Some <==> lookup_text(text_pairs_view(m@), key@) is Some,
        r matches Some(v) ==> lookup_text(text_pairs_view(m@), key@) == Some(v@),
{
    let ghost pairs = text_pairs_view(m@);
    let mut i: usize = m.len();
    while i > 0
        invariant
            0 <= i <= m@.len(),
            lookup_text(pairs, key@) == lookup_text_back(pairs, key@, i as int),
        decreases i,
    {
        if str_eq(m[i - 1].0.as_str(), key) {
            return Some(&m[i - 1].1);
        }
        i = i - 1;
    }
    None
}

/// The text of an element, empty for silence.
pub open spec fn text_or_empty(e: XmlSpec) -> Seq<char> {
    match e.text {
        Some(t) => t,
        None => Seq::empty(),
    }
}

/// Walk a parcel's children: a shape element re-resolves the geometry
/// through the surface map; every other element is recorded in the
/// attribute bag.
pub open spec fn spec_fude_scan(
    cs: Seq<XmlSpec>,
    surfaces: Seq<IdPoly>,
    i: int,
    geom: Option<PolyView>,
    sref: Option<Seq<char>>,
    props: Seq<(Seq<char>, Seq<char>)>,
) -> Result<(Option<PolyView>, Option<Seq<char>>, Seq<(Seq<char>, Seq<char>)>), ErrorV>
    decreases cs.len() - i,
{
    if i < 0 || i >= cs.len() {
        Ok((geom, sref, props))
    } else if cs[i].name == "形状"@ {
        match attr_of(cs[i], "idref"@) {
            None => Err(
                ErrorV::MissingAttribute { element: "形状"@, attribute: "idref"@ },
            ),
            Some(idref) => spec_fude_scan(
                cs,
                surfaces,
                i + 1,
                lookup_poly(surfaces, idref),
                Some(idref),
                props,
            ),
        }
    } else {
        spec_fude_scan(
            cs,
            surfaces,
            i + 1,
            geom,
            sref,
            props.push((cs[i].name, text_or_empty(cs[i]))),
        )
    }
}

/// A numeric-coded optional attribute: parsed when it parses, absent
/// otherwise — a deliberate leniency.
pub open spec fn opt_code(o: Option<Seq<char>>) -> Option<u32> {
    match o {
        None => None,
        Some(t) => if is_u32_text(t) {
            Some(u32_text_val(t) as u32)
        } else {
            None
        },
    }
}

/// Build the record for one parcel from its resolved pieces.
pub open spec fn spec_feature_make(
    fid: Seq<char>,
    geom: Option<PolyView>,
    sref: Option<Seq<char>>,
    props: Seq<(Seq<char>, Seq<char>)>,
    common: CommonV,
) -> Result<Option<FeatureV>, ErrorV> {
    match geom {
        None => match sref {
            Some(id) => Err(ErrorV::PointNotFound(id)),
            None => Err(ErrorV::MissingElement("geometry"@)),
        },
        Some(poly) => match spec_point_on_surface(seq![poly]) {
            None => Err(ErrorV::Geometry("point on surface"@)),
            Some(pt) => Ok(
                Some(
                    FeatureV {
                        geometry: seq![poly],
                        props: FeaturePropsV {
                            map_name: common.map_name,
                            city_code: common.city_code,
                            city_name: common.city_name,
                            crs_name: common.crs_name,
                            datum_type: common.datum_type,
                            fude_id: fid,
                            accuracy_class: lookup_text(props, "精度区分"@),
                            oaza_code: opt_code(lookup_text(props, "大字コード"@)),
                            chome_code: opt_code(lookup_text(props, "丁目コード"@)),
                            koaza_code: opt_code(lookup_text(props, "小字コード"@)),
                            spare_code: opt_code(lookup_text(props, "予備コード"@)),
                            oaza_name: lookup_text(props, "大字名"@),
                            chome_name: lookup_text(props, "丁目名"@),
                            koaza_name: lookup_text(props, "小字名"@),
                            spare_name: lookup_text(props, "予備名"@),
                            chiban: lookup_text(props, "地番"@),
                            coord_type: lookup_text(props, "座標値種別"@),
                            undetermined: lookup_text(props, "筆界未定構成筆"@),
                            rep_lat: pt.1,
                            rep_lon: pt.0,
                        },
                    },
                ),
            ),
        },
    }
}

/// One parcel element: `None` when the exclusion filter drops it.
pub open spec fn spec_feature_entry(
    fude: XmlSpec,
    surfaces: Seq<IdPoly>,
    common: CommonV,
    include_chikugai: bool,
) -> Result<Option<FeatureV>, ErrorV> {
    match attr_of(fude, "id"@) {
        None => Err(ErrorV::MissingAttribute { element: "筆"@, attribute: "id"@ }),
        Some(fid) => match spec_fude_scan(fude.children, surfaces, 0, None, None, Seq::empty()) {
            Err(e) => Err(e),
            Ok((geom, sref, props)) => if !include_chikugai {
                match lookup_text(props, "地番"@) {
                    None => Err(ErrorV::MissingElement("地番"@)),
                    Some(chiban) => if text_contains(chiban, "地区外"@) || text_contains(
                        chiban,
                        "別図"@,
                    ) {
                        Ok(None)
                    } else {
                        spec_feature_make(fid, geom, sref, props, common)
                    },
                }
            } else {
                spec_feature_make(fid, geom, sref, props, common)
            },
        },
    }
}

pub open spec fn spec_features_from(
    fs: Seq<XmlSpec>,
    surfaces: Seq<IdPoly>,
    common: CommonV,
    include_chikugai: bool,
    i: int,
) -> Result<Seq<FeatureV>, ErrorV>
    decreases fs.len() - i,
{
    if i < 0 || i >= fs.len() {
        Ok(Seq::empty())
    } else {
        match spec_feature_entry(fs[i], surfaces, common, include_chikugai) {
            Err(e) => Err(e),
            Ok(None) => spec_features_from(fs, surfaces, common, include_chikugai, i + 1),
            Ok(Some(f)) => match spec_features_from(fs, surfaces, common, include_chikugai, i + 1) {
                Err(e) => Err(e),
                Ok(rest) => Ok(seq![f] + rest),
            },
        }
    }
}

/// The record set of the subject subtree, in declaration order.
pub open spec fn spec_parse_features(
    subject: XmlSpec,
    surfaces: Seq<IdPoly>,
    common: CommonV,
    include_chikugai: bool,
) -> Result<Seq<FeatureV>, ErrorV> {
    spec_features_from(
        children_named(subject, "筆"@, ns_doc()),
        surfaces,
        common,
        include_chikugai,
        0,
    )
}

/// Assemble the record for one parcel element.
#[verifier::loop_isolation(false)]
fn feature_entry(
    fude: &XmlElem,
    surfaces: &Vec<(String, PolyBits)>,
    common: &CommonProperties,
    options: &ParseOptions,
) -> (r: Result<Option<Feature>, Error>)
    ensures
        r matches Ok(o) ==> spec_feature_entry(
            fude@,
            poly_pairs_view(surfaces@),
            common@,
            options.include_chikugai,
        ) == Ok::<Option<FeatureV>, ErrorV>(
            match o {
                Some(f) => Some(f@),
                None => None,
            },
        ),
        r matches Err(e) ==> spec_feature_entry(
            fude@,
            poly_pairs_view(surfaces@),
            common@,
            options.include_chikugai,
        ) == Err::<Option<FeatureV>, ErrorV>(e@),
{
    let ghost sm = poly_pairs_view(surfaces@);
    let fid = match fude.attr("id") {
        Some(v) => v.clone(),
        None => {
            return Err(
                Error::MissingAttribute {
                    element: "筆".to_owned(),
                    attribute: "id".to_owned(),
                },
            );
        },
    };
    proof {
        crate::xml::lemma_view_elem_seq(fude.children@);
    }
    let ghost cs = fude@.children;
    let mut geometry: Option<&PolyBits> = None;
    let mut shape_ref: Option<&String> = None;
    let mut props: Vec<(String, String)> = Vec::new();
    proof {
        assert(text_pairs_view(props@) =~= Seq::empty());
    }
    let mut i: usize = 0;
    while i < fude.children.len()
        invariant
            0 <= i <= fude.children@.len(),
            cs == fude@.children,
            cs.len() == fude.children@.len(),
            forall|k: int| 0 <= k < cs.len() ==> cs[k] == fude.children@[k]@,
            spec_fude_scan(cs, sm, 0, None, None, Seq::empty()) == spec_fude_scan(
                cs,
                sm,
                i as int,
                match geometry {
                    Some(g) => Some(g@),
                    None => None,
                },
                match shape_ref {
                    Some(v) => Some(v@),
                    None => None,
                },
                text_pairs_view(props@),
            ),
        decreases fude.children@.len() - i,
    {
        let entry = &fude.children[i];
        if str_eq(entry.name.as_str(), "形状") {
            let idref = match entry.attr("idref") {
                Some(v) => v,
                None => {
                    return Err(
                        Error::MissingAttribute {
                            element: "形状".to_owned(),
                            attribute: "idref".to_owned(),
                        },
                    );
                },
            };
            geometry = poly_map_get(surfaces, idref.as_str());
            shape_ref = Some(idref);
        } else {
            let value: String = match entry.text_ref() {
                Some(t) => t.clone(),
                None => String::new(),
            };
            let ghost prev = props@;
            let ghost namev = entry.name@;
            let ghost valuev = value@;
            props.push((entry.name.clone(), value));
            proof {
                assert(text_pairs_view(props@) =~= text_pairs_view(prev).push((namev, valuev)));
            }
        }
        i = i + 1;
    }
    if !options.include_chikugai {
        let chiban = match text_map_get(&props, "地番") {
            Some(v) => v,
            None => {
                return Err(Error::MissingElement("地番".to_owned()));
            },
        };
        if contains_str(chiban.as_str(), "地区外") || contains_str(chiban.as_str(), "別図") {
            return Ok(None);
        }
    }
    let poly = match geometry {
        Some(p) => p,
        None => {
            return Err(
                match shape_ref {
                    Some(id) => Error::PointNotFound(id.clone()),
                    None => Error::MissingElement("geometry".to_owned()),
                },
            );
        },
    };
    let g = poly.copy_of();
    let mut gvec: Vec<PolyBits> = Vec::new();
    gvec.push(g);
    proof {
        assert(view_polys(gvec@) =~= seq![poly@]);
    }
    let pt = match point_on_surface(&gvec) {
        Some(pt) => pt,
        None => {
            return Err(Error::Geometry("point on surface".to_owned()));
        },
    };
    let fprops = FeatureProperties {
        map_name: common.map_name.clone(),
        city_code: common.city_code,
        city_name: common.city_name.clone(),
        crs_name: common.crs_name.clone(),
        datum_type: match &common.datum_type {
            Some(t) => Some(t.clone()),
            None => None,
        },
        fude_id: fid,
        accuracy_class: opt_text(&props, "精度区分"),
        oaza_code: code_field(&props, "大字コード"),
        chome_code: code_field(&props, "丁目コード"),
        koaza_code: code_field(&props, "小字コード"),
        spare_code: code_field(&props, "予備コード"),
        oaza_name: opt_text(&props, "大字名"),
        chome_name: opt_text(&props, "丁目名"),
        koaza_name: opt_text(&props, "小字名"),
        spare_name: opt_text(&props, "予備名"),
        chiban: opt_text(&props, "地番"),
        coord_type: opt_text(&props, "座標値種別"),
        undetermined: opt_text(&props, "筆界未定構成筆"),
        rep_lat: pt.1,
        rep_lon: pt.0,
    };
    let f = Feature { geometry: gvec, props: fprops };
    Ok(Some(f))
}

/// An optional attribute value out of the bag.
fn opt_text(m: &Vec<(String, String)>, key: &str) -> (r: Option<String>)
    ensures
        r.deep_view() == lookup_text(text_pairs_view(m@), key@),
{
    match text_map_get(m, key) {
        Some(v) => Some(v.clone()),
        None => None,
    }
}

/// An optional numeric-coded attribute out of the bag.
fn code_field(m: &Vec<(String, String)>, key: &str) -> (r: Option<u32>)
    ensures
        r == opt_code(lookup_text(text_pairs_view(m@), key@)),
{
    match text_map_get(m, key) {
        Some(v) => parse_u32_text(v.as_str()),
        None => None,
    }
}

/// Assemble every parcel record of the subject subtree, applying the
/// exclusion filter after geometry and attributes are resolved.
#[verifier::loop_isolation(false)]
pub fn parse_features(
    subject: &XmlElem,
    surfaces: &Vec<(String, PolyBits)>,
    common: &CommonProperties,
    options: &ParseOptions,
) -> (r: Result<Vec<Feature>, Error>)
    ensures
        r matches Ok(v) ==> spec_parse_features(
            subject@,
            poly_pairs_view(surfaces@),
            common@,
            options.include_chikugai,
        ) == Ok::<_, ErrorV>(view_feats(v@)),
        r matches Err(e) ==> spec_parse_features(
            subject@,
            poly_pairs_view(surfaces@),
            common@,
            options.include_chikugai,
        ) == Err::<Seq<FeatureV>, _>(e@),
{
    let fs = children_with(subject, "筆", doc_uri());
    let ghost elems = children_named(subject@, "筆"@, ns_doc());
    let ghost sm = poly_pairs_view(surfaces@);
    let ghost cv = common@;
    let ghost inc = options.include_chikugai;
    proof {
        lemma_view_ref_seq(fs@);
    }
    let mut out: Vec<Feature> = Vec::new();
    let mut i: usize = 0;
    while i < fs.len()
        invariant
            0 <= i <= fs@.len(),
            elems.len() == fs@.len(),
            forall|k: int| 0 <= k < elems.len() ==> elems[k] == fs@[k]@,
            cv == common@,
            inc == options.include_chikugai,
            sm == poly_pairs_view(surfaces@),
            spec_features_from(elems, sm, cv, inc, 0) == (match spec_features_from(
                elems,
                sm,
                cv,
                inc,
                i as int,
            ) {
                Ok(rest) => Ok::<Seq<FeatureV>, ErrorV>(view_feats(out@) + rest),
                Err(e) => Err::<Seq<FeatureV>, ErrorV>(e),
            }),
        decreases fs@.len() - i,
    {
        let fu = fs[i];
        match feature_entry(fu, surfaces, common, options) {
            Err(e) => {
                return Err(e);
            },
            Ok(None) => {},
            Ok(Some(f)) => {
                let ghost prev = out@;
                let ghost fv = f@;
                out.push(f);
                proof {
                    assert(view_feats(out@) =~= view_feats(prev).push(fv));
                    assert(view_feats(prev).push(fv) + (match spec_features_from(
                        elems,
                        sm,
                        cv,
                        inc,
                        i + 1,
                    ) {
                        Ok(rest) => rest,
                        Err(_) => Seq::empty(),
                    }) =~= view_feats(prev) + (seq![fv] + (match spec_features_from(
                        elems,
                        sm,
                        cv,
                        inc,
                        i + 1,
                    ) {
                        Ok(rest) => rest,
                        Err(_) => Seq::empty(),
                    })));
                }
            },
        }
        i = i + 1;
    }
    proof {
        assert(view_feats(out@) + Seq::<FeatureV>::empty() =~= view_feats(out@));
    }
    Ok(out)
}

// ---------------------------------------------------------------
// The document entry point
// ---------------------------------------------------------------
/// All curves reprojected, or a projection error when any coordinate
/// is rejected.
pub open spec fn spec_transform_curves(curves: Seq<IdPt>, src: Seq<char>, dst: Seq<char>) -> Result<
    Seq<IdPt>,
    ErrorV,
> {
    if forall|i: int|
        0 <= i < curves.len() ==> (#[trigger] transformed_pt(src, dst, curves[i].1)) is Some {
        Ok(
            Seq::new(
                curves.len(),
                |i: int|
                    (
                        curves[i].0,
                        match transformed_pt(src, dst, curves[i].1) {
                            Some(t) => t,
                            None => (0u64, 0u64),
                        },
                    ),
            ),
        )
    } else {
        Err(ErrorV::Projection)
    }
}

/// The spatial part of a document resolved into records: points, then
/// curves, then the optional reprojection, then surfaces, then the
/// parcel records.
pub open spec fn spec_resolve_spatial(
    file_name: Seq<char>,
    root: XmlSpec,
    common: CommonV,
    crsp: Option<Seq<char>>,
    opts: ParseOptions,
) -> Result<ParsedV, ErrorV> {
    match find_child(root, "空間属性"@) {
        None => Err(ErrorV::MissingElement("空間属性"@)),
        Some(spatial) => match spec_parse_points(spatial) {
            Err(e) => Err(e),
            Ok(points) => match spec_parse_curves(spatial, points) {
                Err(e) => Err(e),
                Ok(curves0) => match (match crsp {
                    None => Ok(curves0),
                    Some(p) => spec_transform_curves(curves0, p, wgs84_param()),
                }) {
                    Err(e) => Err(e),
                    Ok(curves) => match spec_parse_surfaces(spatial, curves) {
                        Err(e) => Err(e),
                        Ok(surfaces) => match find_child(root, "主題属性"@) {
                            None => Err(ErrorV::MissingElement("主題属性"@)),
                            Some(subject) => match spec_parse_features(
                                subject,
                                surfaces,
                                common,
                                opts.include_chikugai,
                            ) {
                                Err(e) => Err(e),
                                Ok(features) => Ok(ParsedV { file_name, features }),
                            },
                        },
                    },
                },
            },
        },
    }
}

/// What one document denotes under the given options: its record set,
/// an empty set for an arbitrary-system document when those are
/// excluded, or the error that aborts it.
pub open spec fn spec_parse_xml_content(
    file_name: Seq<char>,
    contents: Seq<char>,
    opts: ParseOptions,
) -> Result<ParsedV, ErrorV> {
    match crate::xml::xml_tree_of(contents) {
        None => Err(ErrorV::Xml),
        Some(root) => match spec_parse_common(root) {
            Err(e) => Err(e),
            Ok(common) => match spec_req_text(root, "座標系"@) {
                Err(e) => Err(e),
                Ok(crs_string) => if crs_string == arbitrary_crs_name() {
                    if !opts.include_arbitrary_crs {
                        Ok(ParsedV { file_name, features: Seq::empty() })
                    } else {
                        spec_resolve_spatial(file_name, root, common, None, opts)
                    }
                } else {
                    match crs_param(crs_string) {
                        None => Err(ErrorV::UnsupportedCrs(crs_string)),
                        Some(p) => spec_resolve_spatial(file_name, root, common, Some(p), opts),
                    }
                },
            },
        },
    }
}

/// Resolve one document into its record set.
pub fn parse_xml_content(file: &FileData, options: &ParseOptions) -> (r: Result<ParsedXML, Error>)
    ensures
        r matches Ok(v) ==> spec_parse_xml_content(file.file_name@, file.contents@, *options)
            == Ok::<ParsedV, ErrorV>(v@),
        r matches Err(e) ==> spec_parse_xml_content(file.file_name@, file.contents@, *options)
            == Err::<ParsedV, ErrorV>(e@),
{
    let root = match crate::xml::parse_xml_tree(file.contents.as_str()) {
        Some(r) => r,
        None => {
            return Err(Error::Xml);
        },
    };
    let common = match parse_common_properties(&root) {
        Ok(c) => c,
        Err(e) => {
            return Err(e);
        },
    };
    let crs_string = match req_text(&root, "座標系") {
        Ok(t) => t.clone(),
        Err(e) => {
            return Err(e);
        },
    };
    let crs: Option<&'static str> = match get_proj(crs_string.as_str()) {
        Ok(o) => o,
        Err(e) => {
            return Err(e);
        },
    };
    if crs.is_none() && !options.include_arbitrary_crs {
        let empty: Vec<Feature> = Vec::new();
        proof {
            assert(view_feats(empty@) =~= Seq::<FeatureV>::empty());
        }
        return Ok(ParsedXML { file_name: file.file_name.clone(), features: empty });
    }
    let spatial = match get_child_element(&root, "空間属性") {
        Some(e) => e,
        None => {
            return Err(Error::MissingElement("空間属性".to_owned()));
        },
    };
    let points = match parse_points(spatial) {
        Ok(v) => v,
        Err(e) => {
            return Err(e);
        },
    };
    let curves0 = match parse_curves(spatial, &points) {
        Ok(v) => v,
        Err(e) => {
            return Err(e);
        },
    };
    let ghost c0v = pt_pairs_view(curves0@);
    let curves: Vec<(String, PtBits)> = match crs {
        None => curves0,
        Some(src) => {
            proof {
                reveal_strlit("WGS84");
                reveal_strlit("任意座標系");
                assert("WGS84"@[0] != arbitrary_crs_name()[0]);
                assert("WGS84"@ != arbitrary_crs_name());
            }
            let tgt: &'static str = match get_proj("WGS84") {
                Ok(Some(t)) => t,
                _ => {
                    proof {
                        assert(false);
                    }
                    ""
                },
            };
            proof {
                assert(tgt@ == wgs84_param());
                assert(table_param(src@)) by {
                    assert(crs_param(crs_string@) == Some(src@));
                }
                assert(c0v.len() == curves0@.len());
                assert forall|k: int| 0 <= k < c0v.len() implies #[trigger] c0v[k]
                    == (curves0@[k].0@, curves0@[k].1) by {}
            }
            match transform_curves_crs(&curves0, src, tgt) {
                Ok(v) => {
                    proof {
                        assert forall|k: int| 0 <= k < c0v.len() implies (
                        #[trigger] transformed_pt(src@, wgs84_param(), c0v[k].1)) is Some by {
                            assert(transformed_pt(src@, tgt@, curves0@[k].1) is Some);
                        }
                        assert(spec_transform_curves(c0v, src@, wgs84_param()) is Ok);
                        assert(pt_pairs_view(v@) =~= (match spec_transform_curves(
                            c0v,
                            src@,
                            wgs84_param(),
                        ) {
                            Ok(c) => c,
                            Err(_) => Seq::empty(),
                        }));
                    }
                    v
                },
                Err(e) => {
                    proof {
                        assert(!(forall|k: int|
                            0 <= k < curves0@.len() ==> (#[trigger] transformed_pt(
                                src@,
                                tgt@,
                                curves0@[k].1,
                            )) is Some));
                        let bad = choose|k: int|
                            0 <= k < curves0@.len() && !(transformed_pt(
                                src@,
                                tgt@,
                                curves0@[k].1,
                            ) is Some);
                        assert(!(transformed_pt(src@, wgs84_param(), c0v[bad].1) is Some));
                        assert(spec_transform_curves(c0v, src@, wgs84_param()) is Err);
                    }
                    return Err(e);
                },
            }
        },
    };
    let surfaces = match parse_surfaces(spatial, &curves) {
        Ok(v) => v,
        Err(e) => {
            return Err(e);
        },
    };
    let subject = match get_child_element(&root, "主題属性") {
        Some(e) => e,
        None => {
            return Err(Error::MissingElement("主題属性".to_owned()));
        },
    };
    let features = match parse_features(subject, &surfaces, &common, options) {
        Ok(v) => v,
        Err(e) => {
            return Err(e);
        },
    };
    Ok(ParsedXML { file_name: file.file_name.clone(), features })
}

/// A resolved interior set has exactly one ring per ring container.
proof fn lemma_interiors_count(conts: Seq<XmlSpec>, curves: Seq<IdPt>, i: int)
    requires
        0 <= i <= conts.len(),
    ensures
        spec_interiors(conts, curves, i) matches Ok(ints) ==> ints.len() == conts.len() - i,
    decreases conts.len() - i,
{
    if i < conts.len() {
        lemma_interiors_count(conts, curves, i + 1);
    }
}

/// For every resolved surface, the assembled polygon has exactly as
/// many interior rings as the source declares interior-boundary ring
/// containers on the surface's first polygon.
pub proof fn lemma_interior_ring_count(surface: XmlSpec, curves: Seq<IdPt>)
    ensures
        spec_surface_entry(surface, curves) matches Ok(en) ==> (first_polygon_from(
            children_named(surface, "GM_Surface.patch"@, ns_zmn()),
            0,
        ) matches Some(polygon) && en.1.interiors.len() == interior_containers(polygon).len()),
{
    let patches = children_named(surface, "GM_Surface.patch"@, ns_zmn());
    match first_polygon_from(patches, 0) {
        None => {},
        Some(polygon) => {
            lemma_interiors_count(interior_containers(polygon), curves, 0);
        },
    }
}

} // verus!
