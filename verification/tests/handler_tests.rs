use route_guide::server::{NoteBuffer, RouteGuideService, RouteRecorder};
use route_guide::types::{Feature, FeatureDatabase, Point, Rectangle, RouteNote};
use route_guide::util::feature_exists;

fn pt(latitude: i32, longitude: i32) -> Point {
    Point { latitude, longitude }
}

fn feat(name: &str, latitude: i32, longitude: i32) -> Feature {
    Feature { name: String::from(name), location: pt(latitude, longitude) }
}

fn rect(lo_lat: i32, lo_lon: i32, hi_lat: i32, hi_lon: i32) -> Rectangle {
    Rectangle { lo: pt(lo_lat, lo_lon), hi: pt(hi_lat, hi_lon) }
}

fn note(latitude: i32, longitude: i32, message: &str) -> RouteNote {
    RouteNote { location: pt(latitude, longitude), message: String::from(message) }
}

fn service(features: Vec<Feature>) -> RouteGuideService {
    RouteGuideService::new(FeatureDatabase { feature: features })
}

#[test]
fn get_feature_miss_returns_empty_name_at_query_point() {
    let svc = service(vec![feat("A", 10, 10)]);
    let f = svc.get_feature(&pt(30, 40));
    assert_eq!(f.name, "");
    assert_eq!(f.location, pt(30, 40));
    assert!(!feature_exists(&f));
}

#[test]
fn get_feature_hit_returns_stored_feature_unchanged() {
    let svc = service(vec![feat("A", 10, 10), feat("B", 20, 20)]);
    let f = svc.get_feature(&pt(20, 20));
    assert_eq!(f.name, "B");
    assert_eq!(f.location, pt(20, 20));
    assert!(feature_exists(&f));
}

#[test]
fn list_features_empty_rectangle() {
    let svc = service(vec![feat("A", 10, 10), feat("B", 20, 20)]);
    let r = svc.list_features(&rect(100, 100, 200, 200));
    assert!(r.is_empty());
}

#[test]
fn list_features_all_in_store_order() {
    let svc = service(vec![feat("A", 10, 10), feat("B", 20, 20), feat("C", 15, 15)]);
    let r = svc.list_features(&rect(0, 0, 50, 50));
    let names: Vec<&str> = r.iter().map(|f| f.name.as_str()).collect();
    assert_eq!(names, vec!["A", "B", "C"]);
}

#[test]
fn list_features_skips_unnamed() {
    let svc = service(vec![feat("A", 10, 10), feat("", 20, 20)]);
    let r = svc.list_features(&rect(0, 0, 50, 50));
    assert_eq!(r.len(), 1);
    assert_eq!(r[0].name, "A");
    assert_eq!(r[0].location, pt(10, 10));
}

#[test]
fn record_route_empty_stream_is_all_zero() {
    let svc = service(vec![feat("A", 10, 10)]);
    let sum = svc.record_route(&Vec::new(), &Vec::new(), 3);
    assert_eq!(sum.point_count, 0);
    assert_eq!(sum.feature_count, 0);
    assert_eq!(sum.distance, 0);
    assert_eq!(sum.elapsed_time, 3);
}

#[test]
fn record_route_two_identical_points() {
    let svc = service(vec![feat("A", 10, 10)]);
    let p = pt(30, 40);
    // the haversine leg between a point and itself measures zero meters
    let sum = svc.record_route(&vec![p, p], &vec![0], 1);
    assert_eq!(sum.point_count, 2);
    assert_eq!(sum.distance, 0);
    assert_eq!(sum.feature_count, 0);
}

#[test]
fn record_route_counts_and_sums() {
    let svc = service(vec![feat("A", 10, 10), feat("", 20, 20), feat("B", 30, 30)]);
    let points = vec![pt(10, 10), pt(20, 20), pt(30, 30), pt(10, 10), pt(99, 99)];
    let dists = vec![100, 200, 300, 400];
    let sum = svc.record_route(&points, &dists, 9);
    assert_eq!(sum.point_count, 5);
    // (10,10) twice and (30,30) hit named features; (20,20) hits the
    // unnamed sentinel and (99,99) hits nothing
    assert_eq!(sum.feature_count, 3);
    assert_eq!(sum.distance, 1000);
    assert_eq!(sum.elapsed_time, 9);
    assert!(sum.feature_count <= sum.point_count);
}

#[test]
fn route_recorder_streaming_matches_fold() {
    let db = FeatureDatabase { feature: vec![feat("A", 10, 10)] };
    let mut rec = RouteRecorder::new();
    assert!(rec.prev_point().is_none());
    rec.add_point(&db, pt(10, 10), 0);
    assert_eq!(rec.prev_point(), Some(pt(10, 10)));
    rec.add_point(&db, pt(20, 20), 250);
    rec.add_point(&db, pt(10, 10), 250);
    let sum = rec.finish(4);
    assert_eq!(sum.point_count, 3);
    assert_eq!(sum.feature_count, 2);
    assert_eq!(sum.distance, 500);
    assert_eq!(sum.elapsed_time, 4);
}

#[test]
fn route_chat_replays_location_history_in_order() {
    let mut buf = NoteBuffer::new();
    let first = buf.process_note(note(0, 0, "First message"));
    assert!(first.is_empty());
    let second = buf.process_note(note(0, 1, "Second message"));
    assert!(second.is_empty());
    let third = buf.process_note(note(0, 0, "Third message"));
    assert_eq!(third.len(), 1);
    assert_eq!(third[0].message, "First message");
    let fourth = buf.process_note(note(0, 0, "Fourth message"));
    let replayed: Vec<&str> = fourth.iter().map(|n| n.message.as_str()).collect();
    assert_eq!(replayed, vec!["First message", "Third message"]);
}

#[test]
fn route_chat_no_prior_note_no_replay() {
    let mut buf = NoteBuffer::new();
    buf.process_note(note(5, 5, "here"));
    buf.process_note(note(6, 6, "there"));
    let r = buf.process_note(note(7, 7, "fresh place"));
    assert!(r.is_empty());
}

#[test]
fn route_chat_whole_call_output() {
    let svc = service(Vec::new());
    let notes = vec![
        note(0, 0, "First message"),
        note(0, 1, "Second message"),
        note(1, 0, "Third message"),
        note(0, 0, "Fourth message"),
    ];
    let out = svc.route_chat(&notes);
    let messages: Vec<&str> = out.iter().map(|n| n.message.as_str()).collect();
    assert_eq!(messages, vec!["First message"]);
    assert_eq!(out[0].location, pt(0, 0));
}

#[test]
fn end_to_end_store_scenario() {
    let svc = service(vec![feat("A", 10, 10), feat("", 20, 20)]);

    let hit = svc.get_feature(&pt(10, 10));
    assert_eq!(hit.name, "A");
    assert_eq!(hit.location, pt(10, 10));

    let miss = svc.get_feature(&pt(20, 20));
    assert_eq!(miss.name, "");
    assert_eq!(miss.location, pt(20, 20));
    assert!(!feature_exists(&miss));

    let listed = svc.list_features(&rect(0, 0, 50, 50));
    assert_eq!(listed.len(), 1);
    assert_eq!(listed[0].name, "A");
    assert_eq!(listed[0].location, pt(10, 10));
}
