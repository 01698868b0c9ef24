use perceptron::pointing::extract;
use perceptron::types::{BoundingBox, OutputFormat, Point, Pointing, Polygon};

#[test]
fn extract_single_point() {
    let text = "<point mention=\"target\"> (100,200) </point>";
    let result = extract(text, &OutputFormat::Point);
    assert_eq!(
        result,
        Some(Pointing::Points(vec![Point {
            x: 100,
            y: 200,
            mention: Some("target".to_string()),
        }]))
    );
}

#[test]
fn extract_single_box() {
    let text = "<point_box mention=\"cat\" t=0.95> (10,20) (100,200) </point_box>";
    let result = extract(text, &OutputFormat::Box);
    assert_eq!(
        result,
        Some(Pointing::Boxes(vec![BoundingBox {
            x1: 10,
            y1: 20,
            x2: 100,
            y2: 200,
            mention: Some("cat".to_string()),
        }]))
    );
}

#[test]
fn extract_single_polygon() {
    let text = "<polygon mention=\"triangle\"> (0,0) (100,0) (100,100) </polygon>";
    let result = extract(text, &OutputFormat::Polygon);
    assert_eq!(
        result,
        Some(Pointing::Polygons(vec![Polygon {
            hull: vec![(0, 0), (100, 0), (100, 100)],
            mention: Some("triangle".to_string()),
        }]))
    );
}

#[test]
fn extract_collection_with_inheritance() {
    let text = "<collection mention=\"cat\" t=0.85>\n            <point_box> (10,20) (30,40) </point_box>\n            <point_box mention=\"explicit\"> (50,60) (70,80) </point_box>\n        </collection>";
    let result = extract(text, &OutputFormat::Box);
    let boxes = match result {
        Some(Pointing::Boxes(b)) => b,
        other => panic!("Expected Pointing::Boxes, got {:?}", other),
    };
    assert_eq!(boxes.len(), 2);
    assert_eq!(boxes[0].mention, Some("cat".to_string()));
    // Child with explicit mention keeps its own
    assert_eq!(boxes[1].mention, Some("explicit".to_string()));
}

#[test]
fn extract_mixed_standalone_and_collection() {
    let text = "\n            <point_box mention=\"dog\"> (1,2) (3,4) </point_box>\n            <collection mention=\"cat\">\n                <point_box> (10,20) (30,40) </point_box>\n            </collection>\n            <point_box mention=\"bird\"> (50,60) (70,80) </point_box>\n        ";
    let result = extract(text, &OutputFormat::Box);
    let boxes = match result {
        Some(Pointing::Boxes(b)) => b,
        other => panic!("Expected Pointing::Boxes, got {:?}", other),
    };
    assert_eq!(boxes.len(), 3);
    // Collections are processed first, then standalone items
    assert_eq!(boxes[0].mention, Some("cat".to_string()));
    assert_eq!(boxes[1].mention, Some("dog".to_string()));
    assert_eq!(boxes[2].mention, Some("bird".to_string()));
}

#[test]
fn extract_text_format_returns_none() {
    let text = "<point_box> (10,20) (30,40) </point_box>";
    assert_eq!(extract(text, &OutputFormat::Text), None);
}

#[test]
fn extract_invalid_coords_skipped() {
    let text = "<point> no coords here </point>";
    assert_eq!(extract(text, &OutputFormat::Point), None);
}

#[test]
fn extract_multiple_points() {
    let text = "\n            <point> (10,20) </point>\n            <point mention=\"a\"> (30,40) </point>\n            <point t=0.5> (50,60) </point>\n        ";
    let result = extract(text, &OutputFormat::Point);
    let points = match result {
        Some(Pointing::Points(p)) => p,
        other => panic!("Expected Pointing::Points, got {:?}", other),
    };
    assert_eq!(points.len(), 3);
    assert_eq!(
        points[0],
        Point {
            x: 10,
            y: 20,
            mention: None
        }
    );
    assert_eq!(
        points[1],
        Point {
            x: 30,
            y: 40,
            mention: Some("a".to_string())
        }
    );
    assert_eq!(
        points[2],
        Point {
            x: 50,
            y: 60,
            mention: None
        }
    );
}

#[test]
fn extract_box_with_one_pair_dropped() {
    let text = "<point_box mention=\"cat\"> (10,20) </point_box>";
    assert_eq!(extract(text, &OutputFormat::Box), None);
}

#[test]
fn extract_polygon_with_two_pairs_dropped() {
    let text = "<polygon> (0,0) (10,0) </polygon>";
    assert_eq!(extract(text, &OutputFormat::Polygon), None);
}

#[test]
fn extract_is_deterministic() {
    let text = "<point mention=\"a\"> (1,2) </point> <collection mention=\"c\"><point> (3,4) </point></collection>";
    let first = extract(text, &OutputFormat::Point);
    let second = extract(text, &OutputFormat::Point);
    assert_eq!(first, second);
    let empty_first = extract("no tags at all", &OutputFormat::Box);
    let empty_second = extract("no tags at all", &OutputFormat::Box);
    assert_eq!(empty_first, empty_second);
    assert_eq!(empty_first, None);
}

#[test]
fn extract_collection_boxes_precede_standalone() {
    // The standalone tag comes physically first, yet the collection's two
    // unlabeled children lead the result.
    let text = "<point_box mention=\"bird\"> (1,2) (3,4) </point_box>\n         <collection mention=\"cat\">\n             <point_box> (10,20) (30,40) </point_box>\n             <point_box> (50,60) (70,80) </point_box>\n         </collection>";
    let result = extract(text, &OutputFormat::Box);
    let boxes = match result {
        Some(Pointing::Boxes(b)) => b,
        other => panic!("Expected Pointing::Boxes, got {:?}", other),
    };
    assert_eq!(boxes.len(), 3);
    assert_eq!(boxes[0].mention, Some("cat".to_string()));
    assert_eq!(boxes[0].x1, 10);
    assert_eq!(boxes[1].mention, Some("cat".to_string()));
    assert_eq!(boxes[1].x1, 50);
    assert_eq!(boxes[2].mention, Some("bird".to_string()));
    assert_eq!(boxes[2].x1, 1);
}

#[test]
fn extract_tag_names_case_insensitive() {
    let text = "<POINT mention=\"up\"> (7,8) </Point>";
    let result = extract(text, &OutputFormat::Point);
    assert_eq!(
        result,
        Some(Pointing::Points(vec![Point {
            x: 7,
            y: 8,
            mention: Some("up".to_string()),
        }]))
    );
}

#[test]
fn extract_point_does_not_take_point_box_tags() {
    let text = "<point_box mention=\"cat\"> (10,20) (30,40) </point_box>";
    assert_eq!(extract(text, &OutputFormat::Point), None);
}

#[test]
fn extract_empty_text_is_nothing() {
    assert_eq!(extract("", &OutputFormat::Point), None);
    assert_eq!(extract("", &OutputFormat::Box), None);
    assert_eq!(extract("", &OutputFormat::Polygon), None);
    assert_eq!(extract("", &OutputFormat::Text), None);
}

#[test]
fn extract_box_ignores_extra_pairs() {
    let text = "<point_box> (1,2) (3,4) (5,6) </point_box>";
    let result = extract(text, &OutputFormat::Box);
    assert_eq!(
        result,
        Some(Pointing::Boxes(vec![BoundingBox {
            x1: 1,
            y1: 2,
            x2: 3,
            y2: 4,
            mention: None,
        }]))
    );
}

#[test]
fn parse_coords_orders_and_skips_malformed() {
    let coords = perceptron::coords::parse_coords(" (1, 2)  text (30 ,40) (bad,5) (6,7");
    assert_eq!(coords, vec![(1, 2), (30, 40)]);
}

#[test]
fn parse_coords_overflowing_pair_skipped() {
    let coords = perceptron::coords::parse_coords("(99999999999999999999,1) (8,9)");
    assert_eq!(coords, vec![(8, 9)]);
}

#[test]
fn parse_mention_finds_value() {
    let mention = perceptron::mention::parse_mention(" t=0.5 mention=\"a cat\" x=1 ");
    assert_eq!(mention, Some("a cat".to_string()));
}

#[test]
fn parse_mention_absent() {
    assert_eq!(perceptron::mention::parse_mention(" t=0.5 x=1 "), None);
    assert_eq!(perceptron::mention::parse_mention(""), None);
}

#[test]
fn parse_item_constructors_thresholds() {
    let one = vec![(5u32, 6u32)];
    let two = vec![(5u32, 6u32), (7u32, 8u32)];
    let three = vec![(5u32, 6u32), (7u32, 8u32), (9u32, 10u32)];
    assert!(perceptron::pointing::parse_point(&[], None).is_none());
    assert_eq!(
        perceptron::pointing::parse_point(&one, Some("p".to_string())),
        Some(Point {
            x: 5,
            y: 6,
            mention: Some("p".to_string())
        })
    );
    assert!(perceptron::pointing::parse_box(&one, None).is_none());
    assert_eq!(
        perceptron::pointing::parse_box(&two, None),
        Some(BoundingBox {
            x1: 5,
            y1: 6,
            x2: 7,
            y2: 8,
            mention: None
        })
    );
    assert!(perceptron::pointing::parse_polygon(&two, None).is_none());
    assert_eq!(
        perceptron::pointing::parse_polygon(&three, None),
        Some(Polygon {
            hull: vec![(5, 6), (7, 8), (9, 10)],
            mention: None
        })
    );
}
