use std::f32::consts::PI;

use road_follower::{
    road_map_from_document, DocValue, FractionNotationError, Road, RoadMap, RoadMapDeserializationError, RoadMapError,
    RoadTurnDirection,
};

type Doc = Vec<(String, DocValue<f32>)>;

fn parse_number(s: &str) -> Option<f32> {
    s.parse::<f32>().ok()
}

fn pi_ratio(a: f32, b: f32) -> f32 {
    PI * a / b
}

fn load(doc: &Doc) -> Result<RoadMap<Road<f32>>, RoadMapDeserializationError> {
    road_map_from_document(doc, &parse_number, &pi_ratio)
}

fn text(s: &str) -> DocValue<f32> {
    DocValue::Text(s.to_string())
}

fn entry(k: &str, v: DocValue<f32>) -> (String, DocValue<f32>) {
    (k.to_string(), v)
}

fn line_entry(sx: f32, sy: f32, ex: f32, ey: f32) -> DocValue<f32> {
    DocValue::Table(vec![
        entry("type", text("Line")),
        entry("start_x", DocValue::Float(sx)),
        entry("start_y", DocValue::Float(sy)),
        entry("end_x", DocValue::Float(ex)),
        entry("end_y", DocValue::Float(ey)),
    ])
}

fn turn_entry(start: &str, end: &str, dir: &str) -> DocValue<f32> {
    DocValue::Table(vec![
        entry("type", text("Turn")),
        entry("x", DocValue::Float(1.0)),
        entry("y", DocValue::Float(2.0)),
        entry("r", DocValue::Float(10.0)),
        entry("start", text(start)),
        entry("end", text(end)),
        entry("dir", text(dir)),
    ])
}

fn refs(items: &[&str]) -> DocValue<f32> {
    DocValue::Array(items.iter().map(|s| text(s)).collect())
}

fn document(roads: Vec<(String, DocValue<f32>)>, nodes: Vec<(String, DocValue<f32>)>) -> Doc {
    vec![entry("roads", DocValue::Table(roads)), entry("nodes", DocValue::Table(nodes))]
}

fn two_roads() -> Doc {
    document(
        vec![entry("a", line_entry(0.0, 0.0, 10.0, 0.0)), entry("b", turn_entry("0/1", "1/2", "CCW"))],
        vec![entry("a", refs(&["b"])), entry("b", refs(&["a", "b"]))],
    )
}

fn path_of(e: &RoadMapDeserializationError) -> Option<&str> {
    match e {
        RoadMapDeserializationError::MissingField { path }
        | RoadMapDeserializationError::InvalidFieldType { path }
        | RoadMapDeserializationError::UnknowRoadType { path, .. }
        | RoadMapDeserializationError::InvalidFractionNotation { path, .. }
        | RoadMapDeserializationError::InvalidDirectionNotation { path } => Some(path.as_str()),
        _ => None,
    }
}

#[test]
fn loads_a_valid_document() {
    let map = load(&two_roads()).unwrap();
    assert_eq!(map.get_amount_of_roads(), 2);
    assert_eq!(map.get_next_roads(0), &[1]);
    assert_eq!(map.get_next_roads(1), &[0, 1]);
    match map.get_road_by_id(0) {
        Road::Line { start, end } => {
            assert_eq!(*start, (0.0, 0.0));
            assert_eq!(*end, (10.0, 0.0));
        }
        _ => panic!("first road should be a line"),
    }
    match map.get_road_by_id(1) {
        Road::Turn { coordinates, radius, start_angle, end_angle, direction } => {
            assert_eq!(*coordinates, (1.0, 2.0));
            assert_eq!(*radius, 10.0);
            assert_eq!(*start_angle, 0.0);
            assert!((end_angle - PI / 2.0).abs() < 1e-6);
            assert_eq!(*direction, RoadTurnDirection::CCW);
        }
        _ => panic!("second road should be a turn"),
    }
}

#[test]
fn missing_roads_table() {
    let doc = vec![entry("nodes", DocValue::Table(vec![]))];
    let e = load(&doc).unwrap_err();
    assert!(matches!(e, RoadMapDeserializationError::MissingField { .. }));
    assert_eq!(path_of(&e), Some("roads"));
}

#[test]
fn nodes_not_a_table() {
    let doc = vec![entry("roads", DocValue::Table(vec![])), entry("nodes", DocValue::Integer(3))];
    let e = load(&doc).unwrap_err();
    assert!(matches!(e, RoadMapDeserializationError::InvalidFieldType { .. }));
    assert_eq!(path_of(&e), Some("nodes"));
}

#[test]
fn empty_roads_table_is_an_empty_map() {
    let e = load(&document(vec![], vec![])).unwrap_err();
    assert!(matches!(e, RoadMapDeserializationError::RoadMapError { error: RoadMapError::NoRoadsPresent }));
}

#[test]
fn road_entry_not_a_table() {
    let e = load(&document(vec![entry("a", DocValue::Boolean(true))], vec![])).unwrap_err();
    assert!(matches!(e, RoadMapDeserializationError::InvalidFieldType { .. }));
    assert_eq!(path_of(&e), Some("roads.a"));
}

#[test]
fn missing_road_type() {
    let road = DocValue::Table(vec![entry("start_x", DocValue::Float(0.0))]);
    let e = load(&document(vec![entry("a", road)], vec![])).unwrap_err();
    assert!(matches!(e, RoadMapDeserializationError::MissingField { .. }));
    assert_eq!(path_of(&e), Some("roads.a.type"));
}

#[test]
fn unknown_road_type() {
    let road = DocValue::Table(vec![entry("type", text("Spiral"))]);
    let e = load(&document(vec![entry("a", road)], vec![])).unwrap_err();
    match e {
        RoadMapDeserializationError::UnknowRoadType { path, value } => {
            assert_eq!(path, "roads.a.type");
            assert_eq!(value, "Spiral");
        }
        other => panic!("unexpected error {:?}", other),
    }
}

#[test]
fn missing_line_field() {
    let road = DocValue::Table(vec![
        entry("type", text("Line")),
        entry("start_x", DocValue::Float(0.0)),
        entry("start_y", DocValue::Float(0.0)),
        entry("end_y", DocValue::Float(0.0)),
    ]);
    let e = load(&document(vec![entry("a", road)], vec![])).unwrap_err();
    assert!(matches!(e, RoadMapDeserializationError::MissingField { .. }));
    assert_eq!(path_of(&e), Some("roads.a.end_x"));
}

#[test]
fn integer_coordinate_is_a_wrong_type() {
    let road = DocValue::Table(vec![
        entry("type", text("Line")),
        entry("start_x", DocValue::Integer(0)),
    ]);
    let e = load(&document(vec![entry("a", road)], vec![])).unwrap_err();
    assert!(matches!(e, RoadMapDeserializationError::InvalidFieldType { .. }));
    assert_eq!(path_of(&e), Some("roads.a.start_x"));
}

#[test]
fn bad_fraction_in_a_turn() {
    let doc = document(vec![entry("t", turn_entry("1/2", "half", "CW"))], vec![entry("t", refs(&["t"]))]);
    match load(&doc).unwrap_err() {
        RoadMapDeserializationError::InvalidFractionNotation { path, error } => {
            assert_eq!(path, "roads.t.end");
            assert_eq!(error, FractionNotationError::DivisionSymbolAbsent);
        }
        other => panic!("unexpected error {:?}", other),
    }
    let doc = document(vec![entry("t", turn_entry("a/2", "1/2", "CW"))], vec![entry("t", refs(&["t"]))]);
    match load(&doc).unwrap_err() {
        RoadMapDeserializationError::InvalidFractionNotation { path, error } => {
            assert_eq!(path, "roads.t.start");
            assert_eq!(error, FractionNotationError::InvalidNumerator);
        }
        other => panic!("unexpected error {:?}", other),
    }
}

#[test]
fn bad_direction_in_a_turn() {
    let doc = document(vec![entry("t", turn_entry("0/1", "1/2", "LEFT"))], vec![entry("t", refs(&["t"]))]);
    let e = load(&doc).unwrap_err();
    assert!(matches!(e, RoadMapDeserializationError::InvalidDirectionNotation { .. }));
    assert_eq!(path_of(&e), Some("roads.t.dir"));
}

#[test]
fn missing_node_entry() {
    let doc = document(vec![entry("a", line_entry(0.0, 0.0, 1.0, 0.0))], vec![]);
    let e = load(&doc).unwrap_err();
    assert!(matches!(e, RoadMapDeserializationError::MissingField { .. }));
    assert_eq!(path_of(&e), Some("nodes.a"));
}

#[test]
fn node_entry_not_an_array() {
    let doc = document(vec![entry("a", line_entry(0.0, 0.0, 1.0, 0.0))], vec![entry("a", text("a"))]);
    let e = load(&doc).unwrap_err();
    assert!(matches!(e, RoadMapDeserializationError::InvalidFieldType { .. }));
    assert_eq!(path_of(&e), Some("nodes.a"));
}

#[test]
fn node_item_of_a_wrong_type() {
    let next = DocValue::Array(vec![text("a"), DocValue::Float(1.0)]);
    let doc = document(vec![entry("a", line_entry(0.0, 0.0, 1.0, 0.0))], vec![entry("a", next)]);
    let e = load(&doc).unwrap_err();
    assert!(matches!(e, RoadMapDeserializationError::InvalidFieldType { .. }));
    assert_eq!(path_of(&e), Some("nodes.a[1]"));
}

#[test]
fn unknown_reference() {
    let doc = document(
        vec![entry("a", line_entry(0.0, 0.0, 1.0, 0.0)), entry("b", line_entry(1.0, 0.0, 2.0, 0.0))],
        vec![entry("a", refs(&["b"])), entry("b", refs(&["c", "d"]))],
    );
    match load(&doc).unwrap_err() {
        RoadMapDeserializationError::UnknownRoadReferece { reference } => assert_eq!(reference, "c"),
        other => panic!("unexpected error {:?}", other),
    }
}

#[test]
fn integer_references_name_numeric_keys() {
    let doc = document(
        vec![entry("1", line_entry(0.0, 0.0, 1.0, 0.0)), entry("-2", line_entry(1.0, 0.0, 2.0, 0.0))],
        vec![
            entry("1", DocValue::Array(vec![DocValue::Integer(-2)])),
            entry("-2", DocValue::Array(vec![DocValue::Integer(1), text("-2")])),
        ],
    );
    let map = load(&doc).unwrap();
    assert_eq!(map.get_next_roads(0), &[1]);
    assert_eq!(map.get_next_roads(1), &[0, 1]);
}

#[test]
fn dead_end_in_document() {
    let doc = document(
        vec![entry("a", line_entry(0.0, 0.0, 1.0, 0.0))],
        vec![entry("a", DocValue::Array(vec![]))],
    );
    let e = load(&doc).unwrap_err();
    assert!(matches!(e, RoadMapDeserializationError::RoadMapError { error: RoadMapError::DeadEndPresent }));
}

#[test]
fn road_errors_come_before_reference_errors() {
    let doc = document(
        vec![entry("a", line_entry(0.0, 0.0, 1.0, 0.0)), entry("b", DocValue::Table(vec![entry("type", text("Arc"))]))],
        vec![entry("a", refs(&["zzz"])), entry("b", refs(&["a"]))],
    );
    let e = load(&doc).unwrap_err();
    assert!(matches!(e, RoadMapDeserializationError::UnknowRoadType { .. }));
}
