use bus_tracker::api::{self, LineLookup};
use bus_tracker::parse::parse_i64;
use bus_tracker::{CatalogError, RouteCatalog, RouteFeature};

fn feature_with_properties(props: serde_json::Map<String, serde_json::Value>) -> geojson::Feature {
    geojson::Feature {
        bbox: None,
        geometry: None,
        id: None,
        properties: Some(props),
        foreign_members: None,
    }
}

fn feature_with_code(code: i64) -> geojson::Feature {
    let mut props = serde_json::Map::new();
    props.insert("code".to_string(), serde_json::Value::from(code));
    feature_with_properties(props)
}

fn bare_feature() -> geojson::Feature {
    geojson::Feature {
        bbox: None,
        geometry: None,
        id: None,
        properties: None,
        foreign_members: None,
    }
}

fn catalog_of(feats: Vec<geojson::Feature>) -> RouteCatalog {
    RouteCatalog::from_features(feats)
}

#[test]
fn lookup_by_present_code_returns_the_feature() {
    let catalog = catalog_of(vec![feature_with_code(7), feature_with_code(42)]);
    match api::lookup_line(&catalog, "42") {
        LineLookup::Found(i) => {
            assert_eq!(i, 1);
            assert_eq!(catalog.features[i].feature, feature_with_code(42));
        }
        _ => panic!("expected the feature with code 42"),
    }
}

#[test]
fn lookup_by_absent_code_is_not_found() {
    let catalog = catalog_of(vec![feature_with_code(42)]);
    assert!(matches!(api::lookup_line(&catalog, "999"), LineLookup::NotFound));
}

#[test]
fn lookup_by_non_numeric_code_is_a_client_error() {
    let catalog = catalog_of(vec![feature_with_code(42)]);
    assert!(matches!(api::lookup_line(&catalog, "abc"), LineLookup::InvalidCode));
}

#[test]
fn lookup_returns_the_first_match_in_load_order() {
    let mut first = feature_with_code(5);
    first.id = Some(geojson::feature::Id::String("first".to_string()));
    let mut second = feature_with_code(5);
    second.id = Some(geojson::feature::Id::String("second".to_string()));
    let catalog = catalog_of(vec![bare_feature(), first.clone(), second]);
    match api::lookup_line(&catalog, "5") {
        LineLookup::Found(i) => {
            assert_eq!(i, 1);
            assert_eq!(catalog.features[i].feature, first);
        }
        _ => panic!("expected a match"),
    }
}

#[test]
fn features_without_properties_or_code_never_match() {
    let mut props = serde_json::Map::new();
    props.insert("name".to_string(), serde_json::Value::from("no code here"));
    let mut text_code = serde_json::Map::new();
    text_code.insert("code".to_string(), serde_json::Value::from("42"));
    let catalog = catalog_of(vec![
        bare_feature(),
        feature_with_properties(props),
        feature_with_properties(text_code),
    ]);
    assert!(matches!(api::lookup_line(&catalog, "42"), LineLookup::NotFound));
}

#[test]
fn from_feature_reads_the_integer_code() {
    let rf = RouteFeature::from_feature(feature_with_code(13));
    assert_eq!(rf.code, Some(13));
    let none = RouteFeature::from_feature(bare_feature());
    assert_eq!(none.code, None);
}

#[test]
fn parse_catalog_accepts_a_feature_collection() {
    let text = "{\"type\":\"FeatureCollection\",\"features\":[\
        {\"type\":\"Feature\",\"properties\":{\"code\":42},\
         \"geometry\":{\"type\":\"Point\",\"coordinates\":[1.5,2.5]}},\
        {\"type\":\"Feature\",\"properties\":{\"code\":7},\"geometry\":null}]}";
    let catalog = bus_tracker::catalog::parse_catalog(text).expect("should parse");
    assert_eq!(catalog.features.len(), 2);
    assert_eq!(catalog.features[0].code, Some(42));
    assert_eq!(catalog.features[1].code, Some(7));
    assert!(matches!(api::lookup_line(&catalog, "42"), LineLookup::Found(0)));
}

#[test]
fn parse_catalog_rejects_other_geojson_shapes() {
    let text = "{\"type\":\"Point\",\"coordinates\":[1.0,2.0]}";
    match bus_tracker::catalog::parse_catalog(text) {
        Err(e) => assert_eq!(e.message(), "Format incorrect"),
        Ok(_) => panic!("a bare geometry is not a feature collection"),
    }
}

#[test]
fn parse_catalog_rejects_malformed_text() {
    match bus_tracker::catalog::parse_catalog("not geojson at all") {
        Err(CatalogError::Invalid(m)) => assert!(!m.is_empty()),
        _ => panic!("malformed text must be rejected with the parser's message"),
    }
}

#[test]
fn invalid_and_not_found_line_messages_are_exact() {
    assert_eq!(api::msg_invalid_line_code(), "Code ligne invalide");
    assert_eq!(api::msg_line_not_found(), "Ligne non trouvée");
}

#[test]
fn parse_i64_accepts_plain_and_signed_decimals() {
    assert_eq!(parse_i64("42"), Some(42));
    assert_eq!(parse_i64("0"), Some(0));
    assert_eq!(parse_i64("-5"), Some(-5));
    assert_eq!(parse_i64("+7"), Some(7));
    assert_eq!(parse_i64("007"), Some(7));
}

#[test]
fn parse_i64_rejects_non_numbers() {
    assert_eq!(parse_i64("abc"), None);
    assert_eq!(parse_i64(""), None);
    assert_eq!(parse_i64("-"), None);
    assert_eq!(parse_i64("+"), None);
    assert_eq!(parse_i64("12a"), None);
    assert_eq!(parse_i64("4.5"), None);
    assert_eq!(parse_i64(" 12"), None);
    assert_eq!(parse_i64("1 2"), None);
    assert_eq!(parse_i64("--1"), None);
}

#[test]
fn parse_i64_handles_the_representable_bounds() {
    assert_eq!(parse_i64("9223372036854775807"), Some(i64::MAX));
    assert_eq!(parse_i64("9223372036854775808"), None);
    assert_eq!(parse_i64("-9223372036854775808"), Some(i64::MIN));
    assert_eq!(parse_i64("-9223372036854775809"), None);
    assert_eq!(parse_i64("99999999999999999999999"), None);
}

#[test]
fn parse_i64_agrees_with_the_standard_parser() {
    for s in [
        "42", "-42", "+0", "007", "", "x", "9223372036854775807", "9223372036854775808",
        "-9223372036854775808", "-9223372036854775809", "1e3", "0x10",
    ] {
        assert_eq!(parse_i64(s), s.parse::<i64>().ok(), "disagreement on {:?}", s);
    }
}
