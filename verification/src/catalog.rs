use vstd::prelude::*;

verus! {

#[verifier::external_type_specification]
#[verifier::external_body]
pub struct ExFeature(geojson::Feature);

/// The integer value of the named property in a feature's property bag,
/// when the bag holds one representable in 64 signed bits; a function of
/// the feature value and the key alone.
pub uninterp spec fn feature_i64_of(f: geojson::Feature, key: Seq<char>) -> Option<i64>;

/// The integer `code` property a feature carries, if any: the lookup key of
/// the route catalog.
pub open spec fn feature_code_of(f: geojson::Feature) -> Option<i64> {
    feature_i64_of(f, "code"@)
}

/// Relies on `serde_json::Map::get` and `serde_json::Value::as_i64`: reads
/// the named property out of the feature's property bag and returns its
/// value when that value is an integer representable in 64 signed bits.
#[verifier::external_body]
fn feature_i64_property(f: &geojson::Feature, key: &str) -> (r: Option<i64>)
    ensures
        r == feature_i64_of(*f, key@),
{
    match &f.properties {
        Some(props) => match props.get(key) {
            Some(v) => v.as_i64(),
            None => None,
        },
        None => None,
    }
}

/// Outcome of parsing route-geometry text as GeoJSON.
enum GeoParse {
    /// A feature collection, with its features in document order.
    Collection(Vec<geojson::Feature>),
    /// Well-formed GeoJSON of some other shape.
    OtherShape,
    /// Not GeoJSON at all; the parser's message.
    Invalid(String),
}

/// The text parses as well-formed GeoJSON; geojson's parser decides this
/// from the text alone.
pub uninterp spec fn geojson_parses(text: Seq<char>) -> bool;

/// The text's top-level GeoJSON shape is a feature collection.
pub uninterp spec fn geojson_is_feature_collection(text: Seq<char>) -> bool;

/// The features of the feature collection the text denotes, in document
/// order.
pub uninterp spec fn geojson_features_of(text: Seq<char>) -> Seq<geojson::Feature>;

/// Relies on `str::parse::<geojson::GeoJson>` (geojson's `FromStr`): parses
/// the text as GeoJSON and tells a feature collection apart from the other
/// document shapes.  The parse is a function of the text alone; its
/// outcome, and the features of a collection, go by the names above.
#[verifier::external_body]
fn parse_geojson_text(text: &str) -> (r: GeoParse)
    ensures
        match r {
            GeoParse::Collection(feats) => {
                &&& geojson_parses(text@)
                &&& geojson_is_feature_collection(text@)
                &&& feats@ == geojson_features_of(text@)
            },
            GeoParse::OtherShape => geojson_parses(text@)
                && !geojson_is_feature_collection(text@),
            GeoParse::Invalid(_) => !geojson_parses(text@),
        },
{
    match text.parse::<geojson::GeoJson>() {
        Ok(geojson::GeoJson::FeatureCollection(fc)) => GeoParse::Collection(fc.features),
        Ok(geojson::GeoJson::Feature(_)) => GeoParse::OtherShape,
        Ok(geojson::GeoJson::Geometry(_)) => GeoParse::OtherShape,
        Err(e) => GeoParse::Invalid(e.to_string()),
    }
}

/// One transit line: the integer lookup code read from its `code` property,
/// if its property bag has one, and the full feature it was read from.
pub struct RouteFeature {
    pub code: Option<i64>,
    pub feature: geojson::Feature,
}

impl RouteFeature {
    /// Pairs a feature with the line code read off its properties.
    pub fn from_feature(feature: geojson::Feature) -> (r: RouteFeature)
        ensures
            r.feature == feature,
            r.code == feature_code_of(feature),
    {
        let code = feature_i64_property(&feature, "code");
        RouteFeature { code, feature }
    }
}

/// Why route-geometry text was rejected at startup.
#[derive(Debug)]
pub enum CatalogError {
    /// The text parsed as GeoJSON, but not as a feature collection.
    NotACollection,
    /// The text did not parse as GeoJSON; the parser's message.
    Invalid(String),
}

impl CatalogError {
    /// A short description of the rejection.
    pub fn message(&self) -> (r: String)
        ensures
            match self {
                CatalogError::NotACollection => r@ == "Format incorrect"@,
                CatalogError::Invalid(m) => r@ == m@,
            },
    {
        match self {
            CatalogError::NotACollection => "Format incorrect".to_owned(),
            CatalogError::Invalid(m) => m.clone(),
        }
    }
}

/// The immutable, ordered collection of route features, frozen after the
/// startup load; lookup scans it in load order.
pub struct RouteCatalog {
    pub features: Vec<RouteFeature>,
}

impl RouteCatalog {
    /// Some feature of the catalog carries this line code.
    pub open spec fn has_code(&self, code: i64) -> bool {
        exists|i: int| 0 <= i < self.features@.len() && self.features@[i].code == Some(code)
    }

    /// Wraps each parsed feature with its line code, keeping document order.
    pub fn from_features(feats: Vec<geojson::Feature>) -> (r: RouteCatalog)
        ensures
            r.features@.len() == feats@.len(),
            forall|i: int| 0 <= i < feats@.len() ==> r.features@[i].feature == feats@[i],
            forall|i: int| 0 <= i < feats@.len() ==> r.features@[i].code == feature_code_of(
                feats@[i],
            ),
    {
        let ghost orig = feats@;
        let mut feats = feats;
        let mut out: Vec<RouteFeature> = Vec::new();
        while feats.len() > 0
            invariant
                out@.len() + feats@.len() == orig.len(),
                forall|i: int| 0 <= i < out@.len() ==> out@[i].feature == orig[i],
                forall|i: int| 0 <= i < out@.len() ==> out@[i].code == feature_code_of(orig[i]),
                forall|i: int| 0 <= i < feats@.len() ==> feats@[i] == orig[out@.len() + i],
            decreases feats@.len(),
        {
            let f = feats.remove(0);
            out.push(RouteFeature::from_feature(f));
        }
        RouteCatalog { features: out }
    }

    /// The index of the first feature whose `code` property equals the
    /// argument, in load order, or nothing when no feature matches.
    pub fn find_by_code(&self, code: i64) -> (r: Option<usize>)
        ensures
            match r {
                Some(i) => {
                    &&& i < self.features@.len()
                    &&& self.features@[i as int].code == Some(code)
                    &&& forall|j: int| 0 <= j < i ==> self.features@[j].code != Some(code)
                },
                None => !self.has_code(code),
            },
    {
        let mut i: usize = 0;
        while i < self.features.len()
            invariant
                i <= self.features@.len(),
                forall|j: int| 0 <= j < i ==> self.features@[j].code != Some(code),
            decreases self.features@.len() - i,
        {
            if let Some(c) = self.features[i].code {
                if c == code {
                    return Some(i);
                }
            }
            i = i + 1;
        }
        None
    }
}

/// Parses route-geometry text into the catalog: the text must be a GeoJSON
/// feature collection; anything else is a startup error.  On success the
/// catalog holds exactly the collection's features, in document order, each
/// paired with its line code, whether or not it carries one; a well-formed
/// document of another shape and unparsable text are told apart.
pub fn parse_catalog(text: &str) -> (r: Result<RouteCatalog, CatalogError>)
    ensures
        match r {
            Ok(c) => {
                &&& geojson_parses(text@)
                &&& geojson_is_feature_collection(text@)
                &&& c.features@.len() == geojson_features_of(text@).len()
                &&& forall|i: int|
                    0 <= i < c.features@.len() ==> c.features@[i].feature
                        == geojson_features_of(text@)[i]
                &&& forall|i: int|
                    0 <= i < c.features@.len() ==> c.features@[i].code == feature_code_of(
                        geojson_features_of(text@)[i],
                    )
            },
            Err(CatalogError::NotACollection) => geojson_parses(text@)
                && !geojson_is_feature_collection(text@),
            Err(CatalogError::Invalid(_)) => !geojson_parses(text@),
        },
{
    match parse_geojson_text(text) {
        GeoParse::Collection(feats) => Ok(RouteCatalog::from_features(feats)),
        GeoParse::OtherShape => Err(CatalogError::NotACollection),
        GeoParse::Invalid(m) => Err(CatalogError::Invalid(m)),
    }
}

} // verus!
