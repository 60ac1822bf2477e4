//! The columnar binary writer: a fixed column schema declared once,
//! records appended one at a time with absent attributes left null,
//! and a finalize step that yields the serialized container — or
//! nothing at all when no record was ever appended.
use vstd::prelude::*;

use crate::geom::view_polys;
use crate::geom::PolyBits;
use crate::geom::PolyView;
use crate::parse::FeaturePropsV;
use crate::parse::ParsedXML;
use crate::parse::view_feats;
use crate::outline::OutlineFeature;
use crate::outline::OutlinePropsV;
use crate::text::dec_digits;
use crate::text::u32_to_text;
use flatgeobuf::geozero::ColumnValue;
use flatgeobuf::geozero::PropertyProcessor;

verus! {

/// Options for the columnar writer.
#[derive(Debug, Clone, Copy)]
pub struct WriterOptions {
    /// Embed a spatial index in the finished container.
    pub write_index: bool,
}

/// What can go wrong at the writer: creating the in-memory builder,
/// appending a record, or serializing the finished container.
#[derive(Debug, Clone, Copy, PartialEq, Eq, Structural)]
pub enum WriterError {
    Create,
    Feature,
    Finalize,
}

/// One appended record, as the writer's ghost log sees it: the polygon
/// parts and the column values, absent values left null.
pub type RecordV = (Seq<PolyView>, Seq<Option<Seq<char>>>);

/// The parcel column schema: name and nullability, in column order.
/// This one list governs both schema registration and row emission.
pub open spec fn columns() -> Seq<(Seq<char>, bool)> {
    seq![
        ("地図名"@, false),
        ("市区町村コード"@, false),
        ("市区町村名"@, false),
        ("座標系"@, false),
        ("測地系判別"@, true),
        ("筆id"@, false),
        ("精度区分"@, true),
        ("大字コード"@, true),
        ("丁目コード"@, true),
        ("小字コード"@, true),
        ("予備コード"@, true),
        ("大字名"@, true),
        ("丁目名"@, true),
        ("小字名"@, true),
        ("予備名"@, true),
        ("地番"@, true),
        ("座標値種別"@, true),
        ("筆界未定構成筆"@, true),
    ]
}

/// The model of the column table as built at run time.
pub open spec fn table_view(s: Seq<(String, bool)>) -> Seq<(Seq<char>, bool)> {
    Seq::new(s.len(), |i: int| (s[i].0@, s[i].1))
}

/// The column table as a value, equal to the declared schema.
pub fn column_table() -> (r: Vec<(String, bool)>)
    ensures
        table_view(r@) == columns(),
{
    let mut t: Vec<(String, bool)> = Vec::new();
    t.push(("地図名".to_owned(), false));
    t.push(("市区町村コード".to_owned(), false));
    t.push(("市区町村名".to_owned(), false));
    t.push(("座標系".to_owned(), false));
    t.push(("測地系判別".to_owned(), true));
    t.push(("筆id".to_owned(), false));
    t.push(("精度区分".to_owned(), true));
    t.push(("大字コード".to_owned(), true));
    t.push(("丁目コード".to_owned(), true));
    t.push(("小字コード".to_owned(), true));
    t.push(("予備コード".to_owned(), true));
    t.push(("大字名".to_owned(), true));
    t.push(("丁目名".to_owned(), true));
    t.push(("小字名".to_owned(), true));
    t.push(("予備名".to_owned(), true));
    t.push(("地番".to_owned(), true));
    t.push(("座標値種別".to_owned(), true));
    t.push(("筆界未定構成筆".to_owned(), true));
    proof {
        assert(table_view(t@) =~= columns());
    }
    t
}

/// A numeric code rendered for its column, absent when the code is.
pub open spec fn code_text(o: Option<u32>) -> Option<Seq<char>> {
    match o {
        None => None,
        Some(v) => Some(dec_digits(v as int)),
    }
}

/// The column values of one parcel record, aligned with [`columns`].
pub open spec fn spec_feature_values(p: FeaturePropsV) -> Seq<Option<Seq<char>>> {
    seq![
        Some(p.map_name),
        Some(dec_digits(p.city_code as int)),
        Some(p.city_name),
        Some(p.crs_name),
        p.datum_type,
        Some(p.fude_id),
        p.accuracy_class,
        code_text(p.oaza_code),
        code_text(p.chome_code),
        code_text(p.koaza_code),
        code_text(p.spare_code),
        p.oaza_name,
        p.chome_name,
        p.koaza_name,
        p.spare_name,
        p.chiban,
        p.coord_type,
        p.undetermined,
    ]
}

/// The schema and the row emission can never drift apart: a record's
/// value list has exactly one entry per declared column, and a column
/// declared non-nullable always carries a value.
pub proof fn lemma_columns_emission_agree(p: FeaturePropsV)
    ensures
        spec_feature_values(p).len() == columns().len(),
        forall|i: int|
            0 <= i < columns().len() && !(#[trigger] columns()[i]).1 ==> spec_feature_values(p)[i]
                is Some,
{
    assert forall|i: int|
        0 <= i < columns().len() && !(#[trigger] columns()[i]).1 implies spec_feature_values(
        p,
    )[i] is Some by {
        if i == 0 || i == 1 || i == 2 || i == 3 || i == 5 {
        } else {
            assert(columns()[i].1);
        }
    }
}

/// The model of an optional-text vector.
pub open spec fn opt_texts_view(s: Seq<Option<String>>) -> Seq<Option<Seq<char>>> {
    Seq::new(s.len(), |i: int| s[i].deep_view())
}

fn push_some(vals: &mut Vec<Option<String>>, s: String)
    ensures
        opt_texts_view(final(vals)@) =~= opt_texts_view(old(vals)@).push(Some(s@)),
{
    let ghost prev = vals@;
    let ghost sv = s@;
    vals.push(Some(s));
    proof {
        assert(opt_texts_view(vals@) =~= opt_texts_view(prev).push(Some(sv)));
    }
}

fn push_opt(vals: &mut Vec<Option<String>>, s: Option<String>)
    ensures
        opt_texts_view(final(vals)@) =~= opt_texts_view(old(vals)@).push(s.deep_view()),
{
    let ghost prev = vals@;
    let ghost sv = s.deep_view();
    vals.push(s);
    proof {
        assert(opt_texts_view(vals@) =~= opt_texts_view(prev).push(sv));
    }
}

fn push_code(vals: &mut Vec<Option<String>>, o: Option<u32>)
    ensures
        opt_texts_view(final(vals)@) =~= opt_texts_view(old(vals)@).push(code_text(o)),
{
    match o {
        Some(v) => {
            let t = u32_to_text(v);
            push_some(vals, t);
        },
        None => {
            push_opt(vals, None);
        },
    }
}

fn clone_opt(s: &Option<String>) -> (r: Option<String>)
    ensures
        r.deep_view() == s.deep_view(),
{
    match s {
        Some(t) => Some(t.clone()),
        None => None,
    }
}

/// The column values of one parcel record, as strings.
pub fn feature_values(p: &crate::parse::FeatureProperties) -> (r: Vec<Option<String>>)
    ensures
        opt_texts_view(r@) == spec_feature_values(p@),
{
    let mut vals: Vec<Option<String>> = Vec::new();
    push_some(&mut vals, p.map_name.clone());
    push_some(&mut vals, u32_to_text(p.city_code));
    push_some(&mut vals, p.city_name.clone());
    push_some(&mut vals, p.crs_name.clone());
    push_opt(&mut vals, clone_opt(&p.datum_type));
    push_some(&mut vals, p.fude_id.clone());
    push_opt(&mut vals, clone_opt(&p.accuracy_class));
    push_code(&mut vals, p.oaza_code);
    push_code(&mut vals, p.chome_code);
    push_code(&mut vals, p.koaza_code);
    push_code(&mut vals, p.spare_code);
    push_opt(&mut vals, clone_opt(&p.oaza_name));
    push_opt(&mut vals, clone_opt(&p.chome_name));
    push_opt(&mut vals, clone_opt(&p.koaza_name));
    push_opt(&mut vals, clone_opt(&p.spare_name));
    push_opt(&mut vals, clone_opt(&p.chiban));
    push_opt(&mut vals, clone_opt(&p.coord_type));
    push_opt(&mut vals, clone_opt(&p.undetermined));
    proof {
        assert(opt_texts_view(vals@) =~= spec_feature_values(p@));
    }
    vals
}

// ---------------------------------------------------------------
// The trusted boundary to the container library
// ---------------------------------------------------------------
#[verifier::external_type_specification]
#[verifier::external_body]
pub struct ExFgbWriter<'a>(flatgeobuf::FgbWriter<'a>);

/// Relies on flatgeobuf::FgbWriter::create_with_options: builds an
/// in-memory writer for multi-polygons in the global geographic system.
#[verifier::external_body]
fn fgb_create(name: &str, write_index: bool) -> (r: Result<flatgeobuf::FgbWriter<'static>, ()>)
{
    let options = flatgeobuf::FgbWriterOptions {
        write_index,
        crs: flatgeobuf::FgbCrs { code: 4326, ..Default::default() },
        ..Default::default()
    };
    match flatgeobuf::FgbWriter::create_with_options(
        name,
        flatgeobuf::GeometryType::MultiPolygon,
        options,
    ) {
        Ok(w) => Ok(w),
        Err(_) => Err(()),
    }
}

/// Relies on flatgeobuf::FgbWriter::add_column: declares one string
/// column with the given nullability.
#[verifier::external_body]
fn fgb_add_column(w: &mut flatgeobuf::FgbWriter<'static>, name: &str, nullable: bool) {
    w.add_column(
        name,
        flatgeobuf::ColumnType::String,
        |_, col| {
            col.nullable = nullable;
        },
    );
}

/// Relies on flatgeobuf::FgbWriter::add_feature_geom: appends one
/// record, its geometry converted part for part, with the prepared
/// (index, column name, value) properties.
#[verifier::external_body]
fn fgb_add_feature(
    w: &mut flatgeobuf::FgbWriter<'static>,
    polys: &Vec<PolyBits>,
    props: &Vec<(usize, String, String)>,
) -> (r: Result<(), ()>)
{
    let parts: Vec<geo_types::Polygon> = polys.iter().map(
        |p| crate::geom::to_geo_poly(p).inner,
    ).collect();
    let geom: geo_types::Geometry = geo_types::MultiPolygon::new(parts).into();
    let res = w.add_feature_geom(geom, |feat| for (i, n, v) in props.iter() {
        let _ = feat.property(*i, n.as_str(), &ColumnValue::String(v.as_str()));
    });
    if res.is_ok() { Ok(()) } else { Err(()) }
}

/// Relies on flatgeobuf::FgbWriter::write: serializes the accumulated
/// records into the container bytes (magic bytes first).
#[verifier::external_body]
fn fgb_write_bytes(w: flatgeobuf::FgbWriter<'static>) -> (r: Result<Vec<u8>, ()>)
    ensures
        r matches Ok(b) ==> b@.len() >= 8,
{
    let mut out: Vec<u8> = Vec::new();
    match w.write(&mut out) {
        Ok(()) => Ok(out),
        Err(_) => Err(()),
    }
}

// ---------------------------------------------------------------
// The verified writer
// ---------------------------------------------------------------
/// The columnar writer: a fixed schema declared at construction, a
/// ghost log of every appended record, and a finalize step that yields
/// the container bytes only when something was written.
pub struct FGBWriter {
    fgb: flatgeobuf::FgbWriter<'static>,
    has_features: bool,
    names: Vec<(String, bool)>,
    records: Ghost<Seq<RecordV>>,
}

impl FGBWriter {
    /// The ghost log of appended records.
    pub closed spec fn records(&self) -> Seq<RecordV> {
        self.records@
    }

    /// The writer's invariant: the flag tracks whether the log is
    /// nonempty, and the column table is the declared schema.
    pub closed spec fn wf(&self) -> bool {
        &&& self.has_features <==> self.records@.len() > 0
        &&& table_view(self.names@) == columns()
    }

    /// Build a writer with the parcel schema registered, no records yet.
    pub fn new(options: &WriterOptions) -> (r: Result<FGBWriter, WriterError>)
        ensures
            r matches Ok(w) ==> w.wf() && w.records() == Seq::<RecordV>::empty(),
            r matches Err(e) ==> e == WriterError::Create,
    {
        let mut fgb = match fgb_create("mojxml", options.write_index) {
            Ok(w) => w,
            Err(_) => {
                return Err(WriterError::Create);
            },
        };
        let names = column_table();
        let mut i: usize = 0;
        while i < names.len()
            invariant
                table_view(names@) == columns(),
            decreases names@.len() - i,
        {
            fgb_add_column(&mut fgb, names[i].0.as_str(), names[i].1);
            i = i + 1;
        }
        Ok(FGBWriter { fgb, has_features: false, names, records: Ghost(Seq::empty()) })
    }

    /// The (index, name, value) triples of the present values.
    #[verifier::loop_isolation(false)]
    fn present_triples(&self, vals: &Vec<Option<String>>) -> (r: Vec<(usize, String, String)>)
        requires
            self.wf(),
            vals@.len() <= columns().len(),
        ensures
            forall|j: int|
                0 <= j < r@.len() ==> {
                    let (i, n, v) = #[trigger] r@[j];
                    &&& 0 <= i < vals@.len()
                    &&& n@ == columns()[i as int].0
                    &&& opt_texts_view(vals@)[i as int] == Some(v@)
                },
            forall|i: int|
                0 <= i < vals@.len() && (#[trigger] opt_texts_view(vals@)[i]) is Some
                    ==> exists|j: int| 0 <= j < r@.len() && (#[trigger] r@[j]).0 == i,
    {
        let mut out: Vec<(usize, String, String)> = Vec::new();
        let mut i: usize = 0;
        while i < vals.len()
            invariant
                0 <= i <= vals@.len(),
                forall|j: int|
                    0 <= j < out@.len() ==> {
                        let (ii, n, v) = #[trigger] out@[j];
                        &&& 0 <= ii < vals@.len()
                        &&& n@ == columns()[ii as int].0
                        &&& opt_texts_view(vals@)[ii as int] == Some(v@)
                    },
                forall|k: int|
                    0 <= k < i && (#[trigger] opt_texts_view(vals@)[k]) is Some ==> exists|j: int|
                        0 <= j < out@.len() && (#[trigger] out@[j]).0 == k,
            decreases vals@.len() - i,
        {
            let ghost prev = out@;
            match &vals[i] {
                Some(v) => {
                    out.push((i, self.names[i].0.clone(), v.clone()));
                },
                None => {},
            }
            proof {
                assert forall|k: int|
                    0 <= k < i + 1 && (#[trigger] opt_texts_view(vals@)[k]) is Some
                    implies exists|j: int|
                    0 <= j < out@.len() && (#[trigger] out@[j]).0 == k by {
                    if k < i {
                        let j = choose|j: int|
                            0 <= j < prev.len() && (#[trigger] prev[j]).0 == k;
                        assert(out@[j].0 == k);
                    } else {
                        assert(vals@[k].deep_view() is Some);
                        assert(out@.len() == prev.len() + 1);
                        assert(out@[out@.len() - 1].0 == k);
                    }
                }
            }
            i = i + 1;
        }
        out
    }

    /// Append one prepared record: geometry plus its column values.
    fn add_record(&mut self, polys: &Vec<PolyBits>, vals: Vec<Option<String>>) -> (r: Result<
        (),
        WriterError,
    >)
        requires
            old(self).wf(),
            vals@.len() <= columns().len(),
        ensures
            final(self).wf(),
            r matches Ok(_) ==> final(self).records() == old(self).records().push(
                (view_polys(polys@), opt_texts_view(vals@)),
            ),
            r matches Err(e) ==> e == WriterError::Feature && final(self).records() == old(
                self,
            ).records(),
    {
        let triples = self.present_triples(&vals);
        match fgb_add_feature(&mut self.fgb, polys, &triples) {
            Ok(()) => {
                self.has_features = true;
                proof {
                    self.records@ = self.records@.push((view_polys(polys@), opt_texts_view(vals@)));
                }
                Ok(())
            },
            Err(_) => Err(WriterError::Feature),
        }
    }

    /// Append every record of one document's result, in order.
    pub fn add_xml_features(&mut self, parsed: &ParsedXML) -> (r: Result<(), WriterError>)
        requires
            old(self).wf(),
        ensures
            final(self).wf(),
            r matches Ok(_) ==> final(self).records() == old(self).records()
                + spec_records_of(view_feats(parsed.features@)),
            r matches Err(e) ==> e == WriterError::Feature && (exists|k: int|
                0 <= k <= parsed.features@.len() && final(self).records() == old(self).records()
                    + spec_records_of(#[trigger] view_feats(parsed.features@).take(k))),
    {
        let ghost fv = view_feats(parsed.features@);
        let mut i: usize = 0;
        while i < parsed.features.len()
            invariant
                0 <= i <= parsed.features@.len(),
                fv == view_feats(parsed.features@),
                fv.len() == parsed.features@.len(),
                self.wf(),
                self.records() == old(self).records() + spec_records_of(fv.take(i as int)),
            decreases parsed.features@.len() - i,
        {
            let f = &parsed.features[i];
            let vals = feature_values(&f.props);
            proof {
                lemma_columns_emission_agree(f.props@);
                assert(opt_texts_view(vals@).len() == columns().len());
            }
            match self.add_record(&f.geometry, vals) {
                Ok(()) => {},
                Err(e) => {
                    proof {
                        assert(self.records() == old(self).records() + spec_records_of(
                            view_feats(parsed.features@).take(i as int),
                        ));
                    }
                    return Err(e);
                },
            }
            proof {
                lemma_records_of_take(fv, i as int);
            }
            i = i + 1;
        }
        proof {
            assert(fv.take(fv.len() as int) =~= fv);
        }
        Ok(())
    }

    /// Finalize: the container bytes when records were written, and
    /// nothing — never an error — when none were.
    pub fn flush(self) -> (r: Result<Option<Vec<u8>>, WriterError>)
        requires
            self.wf(),
        ensures
            r matches Ok(None) ==> self.records().len() == 0,
            r matches Ok(Some(b)) ==> self.records().len() > 0 && b@.len() >= 8,
            self.records().len() == 0 ==> r matches Ok(None),
            r matches Err(e) ==> e == WriterError::Finalize && self.records().len() > 0,
    {
        let FGBWriter { fgb, has_features, names, records } = self;
        if !has_features {
            Ok(None)
        } else {
            match fgb_write_bytes(fgb) {
                Ok(b) => Ok(Some(b)),
                Err(_) => Err(WriterError::Finalize),
            }
        }
    }
}

/// The ghost records denoted by a sequence of parcel records.
pub open spec fn spec_records_of(fs: Seq<crate::parse::FeatureV>) -> Seq<RecordV> {
    Seq::new(fs.len(), |i: int| (fs[i].geometry, spec_feature_values(fs[i].props)))
}

proof fn lemma_records_of_take(fs: Seq<crate::parse::FeatureV>, i: int)
    requires
        0 <= i < fs.len(),
    ensures
        spec_records_of(fs.take(i + 1)) =~= spec_records_of(fs.take(i)).push(
            (fs[i].geometry, spec_feature_values(fs[i].props)),
        ),
{
}

// ---------------------------------------------------------------
// The outline sink
// ---------------------------------------------------------------
/// The outline column schema: the document attributes and the count of
/// contributing parcels.
pub open spec fn outline_columns() -> Seq<(Seq<char>, bool)> {
    seq![
        ("地図名"@, false),
        ("市区町村コード"@, false),
        ("市区町村名"@, false),
        ("座標系"@, false),
        ("測地系判別"@, true),
        ("count"@, false),
    ]
}

/// The outline column table as a value, equal to the declared schema.
pub fn outline_column_table() -> (r: Vec<(String, bool)>)
    ensures
        table_view(r@) == outline_columns(),
{
    let mut t: Vec<(String, bool)> = Vec::new();
    t.push(("地図名".to_owned(), false));
    t.push(("市区町村コード".to_owned(), false));
    t.push(("市区町村名".to_owned(), false));
    t.push(("座標系".to_owned(), false));
    t.push(("測地系判別".to_owned(), true));
    t.push(("count".to_owned(), false));
    proof {
        assert(table_view(t@) =~= outline_columns());
    }
    t
}

/// The column values of one outline record, aligned with
/// [`outline_columns`].
pub open spec fn spec_outline_values(p: OutlinePropsV) -> Seq<Option<Seq<char>>> {
    seq![
        Some(p.map_name),
        Some(dec_digits(p.city_code as int)),
        Some(p.city_name),
        Some(p.crs_name),
        p.datum_type,
        Some(dec_digits(p.count as int)),
    ]
}

/// For outline records too, schema and emission cannot drift: one
/// value per declared column, non-nullable columns always present.
pub proof fn lemma_outline_emission_agree(p: OutlinePropsV)
    ensures
        spec_outline_values(p).len() == outline_columns().len(),
        forall|i: int|
            0 <= i < outline_columns().len() && !(#[trigger] outline_columns()[i]).1
                ==> spec_outline_values(p)[i] is Some,
{
    assert forall|i: int|
        0 <= i < outline_columns().len() && !(#[trigger] outline_columns()[i]).1
        implies spec_outline_values(p)[i] is Some by {
        if i == 0 || i == 1 || i == 2 || i == 3 || i == 5 {
        } else {
            assert(outline_columns()[i].1);
        }
    }
}

/// The column values of one outline record, as strings.
pub fn outline_values(p: &crate::outline::OutlineFeatureProperties) -> (r: Vec<Option<String>>)
    ensures
        opt_texts_view(r@) == spec_outline_values(p@),
{
    let mut vals: Vec<Option<String>> = Vec::new();
    push_some(&mut vals, p.map_name.clone());
    push_some(&mut vals, u32_to_text(p.city_code));
    push_some(&mut vals, p.city_name.clone());
    push_some(&mut vals, p.crs_name.clone());
    push_opt(&mut vals, clone_opt(&p.datum_type));
    push_some(&mut vals, u32_to_text(p.count));
    proof {
        assert(opt_texts_view(vals@) =~= spec_outline_values(p@));
    }
    vals
}

/// The writer for the optional outline output: the outline schema, a
/// ghost log of appended records, and the same finalize behaviour.
pub struct OutlineWriter {
    fgb: flatgeobuf::FgbWriter<'static>,
    has_features: bool,
    names: Vec<(String, bool)>,
    records: Ghost<Seq<RecordV>>,
}

impl OutlineWriter {
    /// The ghost log of appended outline records.
    pub closed spec fn records(&self) -> Seq<RecordV> {
        self.records@
    }

    pub closed spec fn wf(&self) -> bool {
        &&& self.has_features <==> self.records@.len() > 0
        &&& table_view(self.names@) == outline_columns()
    }

    /// Build an outline writer with its schema registered, no records yet.
    pub fn new(options: &WriterOptions) -> (r: Result<OutlineWriter, WriterError>)
        ensures
            r matches Ok(w) ==> w.wf() && w.records() == Seq::<RecordV>::empty(),
            r matches Err(e) ==> e == WriterError::Create,
    {
        let mut fgb = match fgb_create("mojxml", options.write_index) {
            Ok(w) => w,
            Err(_) => {
                return Err(WriterError::Create);
            },
        };
        let names = outline_column_table();
        let mut i: usize = 0;
        while i < names.len()
            invariant
                table_view(names@) == outline_columns(),
            decreases names@.len() - i,
        {
            fgb_add_column(&mut fgb, names[i].0.as_str(), names[i].1);
            i = i + 1;
        }
        Ok(OutlineWriter { fgb, has_features: false, names, records: Ghost(Seq::empty()) })
    }

    #[verifier::loop_isolation(false)]
    fn present_triples(&self, vals: &Vec<Option<String>>) -> (r: Vec<(usize, String, String)>)
        requires
            self.wf(),
            vals@.len() <= outline_columns().len(),
        ensures
            forall|j: int|
                0 <= j < r@.len() ==> {
                    let (i, n, v) = #[trigger] r@[j];
                    &&& 0 <= i < vals@.len()
                    &&& n@ == outline_columns()[i as int].0
                    &&& opt_texts_view(vals@)[i as int] == Some(v@)
                },
            forall|i: int|
                0 <= i < vals@.len() && (#[trigger] opt_texts_view(vals@)[i]) is Some
                    ==> exists|j: int| 0 <= j < r@.len() && (#[trigger] r@[j]).0 == i,
    {
        let mut out: Vec<(usize, String, String)> = Vec::new();
        let mut i: usize = 0;
        while i < vals.len()
            invariant
                0 <= i <= vals@.len(),
                forall|j: int|
                    0 <= j < out@.len() ==> {
                        let (ii, n, v) = #[trigger] out@[j];
                        &&& 0 <= ii < vals@.len()
                        &&& n@ == outline_columns()[ii as int].0
                        &&& opt_texts_view(vals@)[ii as int] == Some(v@)
                    },
                forall|k: int|
                    0 <= k < i && (#[trigger] opt_texts_view(vals@)[k]) is Some ==> exists|j: int|
                        0 <= j < out@.len() && (#[trigger] out@[j]).0 == k,
            decreases vals@.len() - i,
        {
            let ghost prev = out@;
            match &vals[i] {
                Some(v) => {
                    out.push((i, self.names[i].0.clone(), v.clone()));
                },
                None => {},
            }
            proof {
                assert forall|k: int|
                    0 <= k < i + 1 && (#[trigger] opt_texts_view(vals@)[k]) is Some
                    implies exists|j: int|
                    0 <= j < out@.len() && (#[trigger] out@[j]).0 == k by {
                    if k < i {
                        let j = choose|j: int|
                            0 <= j < prev.len() && (#[trigger] prev[j]).0 == k;
                        assert(out@[j].0 == k);
                    } else {
                        assert(vals@[k].deep_view() is Some);
                        assert(out@.len() == prev.len() + 1);
                        assert(out@[out@.len() - 1].0 == k);
                    }
                }
            }
            i = i + 1;
        }
        out
    }

    /// Append one outline record.
    pub fn add_outline_feature(&mut self, f: &OutlineFeature) -> (r: Result<(), WriterError>)
        requires
            old(self).wf(),
        ensures
            final(self).wf(),
            r matches Ok(_) ==> final(self).records() == old(self).records().push(
                (view_polys(f.geometry@), spec_outline_values(f.props@)),
            ),
            r matches Err(e) ==> e == WriterError::Feature && final(self).records() == old(
                self,
            ).records(),
    {
        let vals = outline_values(&f.props);
        proof {
            lemma_outline_emission_agree(f.props@);
            assert(opt_texts_view(vals@).len() == outline_columns().len());
        }
        let triples = self.present_triples(&vals);
        match fgb_add_feature(&mut self.fgb, &f.geometry, &triples) {
            Ok(()) => {
                self.has_features = true;
                proof {
                    self.records@ = self.records@.push(
                        (view_polys(f.geometry@), opt_texts_view(vals@)),
                    );
                }
                Ok(())
            },
            Err(_) => Err(WriterError::Feature),
        }
    }

    /// Finalize: the container bytes when records were written, and
    /// nothing — never an error — when none were.
    pub fn flush(self) -> (r: Result<Option<Vec<u8>>, WriterError>)
        requires
            self.wf(),
        ensures
            r matches Ok(None) ==> self.records().len() == 0,
            r matches Ok(Some(b)) ==> self.records().len() > 0 && b@.len() >= 8,
            self.records().len() == 0 ==> r matches Ok(None),
            r matches Err(e) ==> e == WriterError::Finalize && self.records().len() > 0,
    {
        let OutlineWriter { fgb, has_features, names, records } = self;
        if !has_features {
            Ok(None)
        } else {
            match fgb_write_bytes(fgb) {
                Ok(b) => Ok(Some(b)),
                Err(_) => Err(WriterError::Finalize),
            }
        }
    }
}

} // verus!
