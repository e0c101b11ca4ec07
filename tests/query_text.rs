use mongo_tunnel::query::{
    convert_document, convert_value, document_get, parse_special_wrapper, preprocess_query,
    Document, QueryValue,
};
use serde_json::Value;

fn from_json(v: &Value) -> QueryValue {
    match v {
        Value::Null => QueryValue::Null,
        Value::Bool(b) => QueryValue::Bool(*b),
        Value::Number(n) => match n.as_i64() {
            Some(i) => QueryValue::Int64(i),
            None => QueryValue::Double(n.as_f64().unwrap_or(0.0).to_bits()),
        },
        Value::String(s) => QueryValue::String(s.clone()),
        Value::Array(items) => QueryValue::Array(items.iter().map(from_json).collect()),
        Value::Object(map) => QueryValue::Document(
            map.iter().map(|(k, v)| (k.clone(), from_json(v))).collect(),
        ),
    }
}

fn parse_query(text: &str) -> Document {
    let json: Value = json5::from_str(&preprocess_query(text)).unwrap();
    match from_json(&json) {
        QueryValue::Document(d) => d,
        _ => panic!("not a document"),
    }
}

#[test]
fn test_parse_special_wrapper() {
    assert_eq!(
        parse_special_wrapper("ISODate(\"2025-08-28T00:00:00Z\")", "ISODate"),
        Some("\"2025-08-28T00:00:00Z\"")
    );
    assert_eq!(
        parse_special_wrapper("ObjectId(\"507f1f77bcf86cd799439011\")", "ObjectId"),
        Some("\"507f1f77bcf86cd799439011\"")
    );
    assert_eq!(
        parse_special_wrapper("NumberDecimal(\"123.456\")", "NumberDecimal"),
        Some("\"123.456\"")
    );
    assert_eq!(parse_special_wrapper("Invalid(\"123\")", "ISODate"), None);
}

#[test]
fn test_preprocess_query() {
    let query = "ISODate(\"2025-08-28T00:00:00Z\")";
    let processed = preprocess_query(query);
    assert_eq!(processed, "\"ISODate(2025-08-28T00:00:00Z)\"");
}

#[test]
fn test_convert_value() {
    let converted = convert_value(QueryValue::String("ISODate(2025-08-28T00:00:00Z)".to_string()));
    assert!(matches!(converted, QueryValue::DateTime(_)));

    let converted = convert_value(QueryValue::String("ObjectId(507f1f77bcf86cd799439011)".to_string()));
    assert!(matches!(converted, QueryValue::ObjectId(_)));

    let converted = convert_value(QueryValue::String("NumberDecimal(123.456)".to_string()));
    assert!(matches!(converted, QueryValue::Decimal128(_)));

    let converted = convert_value(QueryValue::String("Invalid(123)".to_string()));
    assert!(matches!(converted, QueryValue::String(_)));
}

#[test]
fn test_convert_document() {
    let query = r#"
		{
		date: ISODate("2025-08-28T00:00:00Z"),
		oid: ObjectId("507f1f77bcf86cd799439011"),
		decimal: NumberDecimal("123.456"),
		nested: {
			date: ISODate("2025-08-28T00:00:00Z")
			}
		}
	"#;
    let converted = convert_document(parse_query(query));
    assert!(matches!(document_get(&converted, "date"), Some(QueryValue::DateTime(_))));
    assert!(matches!(document_get(&converted, "oid"), Some(QueryValue::ObjectId(_))));
    assert!(matches!(document_get(&converted, "decimal"), Some(QueryValue::Decimal128(_))));
    assert!(matches!(document_get(&converted, "nested"), Some(QueryValue::Document(_))));
}

#[test]
fn date_marker_converts_to_its_instant() {
    let converted = convert_value(QueryValue::String("ISODate(2024-01-01T00:00:00Z)".to_string()));
    assert_eq!(converted, QueryValue::DateTime(1_704_067_200_000));
}

#[test]
fn object_id_marker_converts_to_its_bytes() {
    let converted = convert_value(QueryValue::String("ObjectId(507f1f77bcf86cd799439011)".to_string()));
    assert_eq!(
        converted,
        QueryValue::ObjectId([0x50, 0x7f, 0x1f, 0x77, 0xbc, 0xf8, 0x6c, 0xd7, 0x99, 0x43, 0x90, 0x11])
    );
}

#[test]
fn decimal_marker_matches_the_canonical_parser() {
    let expected: mongodb::bson::Decimal128 = "123.456".parse().unwrap();
    let converted = convert_value(QueryValue::String("NumberDecimal(123.456)".to_string()));
    assert_eq!(converted, QueryValue::Decimal128(expected.bytes()));
}

#[test]
fn wrapper_round_trip_for_each_tag() {
    let date = parse_query("{d: ISODate('2024-01-01T00:00:00Z')}");
    let direct = mongodb::bson::DateTime::parse_rfc3339_str("2024-01-01T00:00:00Z").unwrap();
    assert_eq!(
        convert_document(date),
        vec![("d".to_string(), QueryValue::DateTime(direct.timestamp_millis()))]
    );
    let oid = parse_query("{o: ObjectId('507f1f77bcf86cd799439011')}");
    let direct = mongodb::bson::oid::ObjectId::parse_str("507f1f77bcf86cd799439011").unwrap();
    assert_eq!(convert_document(oid), vec![("o".to_string(), QueryValue::ObjectId(direct.bytes()))]);
}

#[test]
fn bad_payload_stays_a_string() {
    let converted = convert_value(QueryValue::String("ObjectId(xyz)".to_string()));
    assert_eq!(converted, QueryValue::String("ObjectId(xyz)".to_string()));
    let converted = convert_value(QueryValue::String("ISODate(yesterday)".to_string()));
    assert_eq!(converted, QueryValue::String("ISODate(yesterday)".to_string()));
}

#[test]
fn unsupported_wrapper_passes_through() {
    let text = "{a: Invalid(\"123\"), b: NumberLong('7'), c: isodate('x')}";
    assert_eq!(preprocess_query(text), text);
}

#[test]
fn wrapper_needs_quoted_nonempty_content() {
    assert_eq!(preprocess_query("ISODate('')"), "ISODate('')");
    assert_eq!(preprocess_query("ISODate(2024)"), "ISODate(2024)");
    assert_eq!(preprocess_query("ObjectId('abc'x)"), "ObjectId('abc'x)");
    assert_eq!(preprocess_query("NumberDecimal('1.5\")"), "\"NumberDecimal(1.5)\"");
}

#[test]
fn several_calls_are_rewritten_in_place() {
    let text = "{a: ISODate(\"2024-01-01T00:00:00Z\"), b: [ObjectId('507f1f77bcf86cd799439011')]}";
    assert_eq!(
        preprocess_query(text),
        "{a: \"ISODate(2024-01-01T00:00:00Z)\", b: [\"ObjectId(507f1f77bcf86cd799439011)\"]}"
    );
}

#[test]
fn document_without_markers_is_unchanged() {
    let doc = parse_query("{status: 'A', n: 3, tags: ['x', 'y'], inner: {ok: true, none: null}}");
    let expected = parse_query("{status: 'A', n: 3, tags: ['x', 'y'], inner: {ok: true, none: null}}");
    let once = convert_document(doc);
    assert_eq!(once, expected);
    let twice = convert_document(once);
    assert_eq!(twice, expected);
}

#[test]
fn nested_marker_converts_only_in_place() {
    let doc = parse_query("{a:{b:[ISODate(\"2024-01-01T00:00:00Z\"), 1, \"x\"]}}");
    let converted = convert_document(doc);
    let expected = vec![(
        "a".to_string(),
        QueryValue::Document(vec![(
            "b".to_string(),
            QueryValue::Array(vec![
                QueryValue::DateTime(1_704_067_200_000),
                QueryValue::Int64(1),
                QueryValue::String("x".to_string()),
            ]),
        )]),
    )];
    assert_eq!(converted, expected);
}

#[test]
fn status_and_date_filter() {
    let converted =
        convert_document(parse_query("{status:\"A\", date: ISODate(\"2024-01-01T00:00:00Z\")}"));
    assert_eq!(converted.len(), 2);
    assert_eq!(document_get(&converted, "status"), Some(&QueryValue::String("A".to_string())));
    assert_eq!(document_get(&converted, "date"), Some(&QueryValue::DateTime(1_704_067_200_000)));
}

#[test]
fn document_get_finds_first_field() {
    let doc = vec![
        ("k".to_string(), QueryValue::Int32(1)),
        ("k".to_string(), QueryValue::Int32(2)),
    ];
    assert_eq!(document_get(&doc, "k"), Some(&QueryValue::Int32(1)));
    assert_eq!(document_get(&doc, "z"), None);
}
