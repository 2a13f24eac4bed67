use routeguide::auth::{check_auth, Metadata, MetadataEntry};
use routeguide::chat::{route_chat_session, NoteIndex, RouteNote};
use routeguide::dispatch::{
    get_feature, handle_call, list_features, method_for_path, CallRequest, CallResponse,
    MethodKind,
};
use routeguide::geo::{distance, Point, Rectangle};
use routeguide::routes::record_route;
use routeguide::status::Status;
use routeguide::store::{Feature, FeatureStore};

fn pt(latitude: i32, longitude: i32) -> Point {
    Point { latitude, longitude }
}

fn feature(name: &str, p: Point) -> Feature {
    Feature { name: name.to_owned(), location: Some(p) }
}

fn lighthouse_store() -> FeatureStore {
    FeatureStore::new(vec![feature("Lighthouse", pt(40_000_000, -70_000_000))])
}

fn sample_store() -> FeatureStore {
    FeatureStore::new(vec![
        feature("Lighthouse", pt(40_000_000, -70_000_000)),
        feature("", pt(41_000_000, -70_000_000)),
        feature("Museum", pt(42_000_000, -71_000_000)),
        feature("Harbor", pt(40_000_000, -70_000_000)),
    ])
}

fn good_metadata() -> Metadata {
    Metadata {
        entries: vec![MetadataEntry {
            name: "authorization".to_owned(),
            value: "Bearer 1234".to_owned(),
        }],
    }
}

fn wrong_metadata() -> Metadata {
    Metadata {
        entries: vec![MetadataEntry {
            name: "authorization".to_owned(),
            value: "Bearer wrong".to_owned(),
        }],
    }
}

fn empty_metadata() -> Metadata {
    Metadata { entries: vec![] }
}

#[test]
fn get_feature_returns_lighthouse() {
    let store = lighthouse_store();
    assert_eq!(store.len(), 1);
    let f = get_feature(&store, pt(40_000_000, -70_000_000));
    assert_eq!(f.name, "Lighthouse");
    assert_eq!(f.location, Some(pt(40_000_000, -70_000_000)));
}

#[test]
fn get_feature_at_origin_is_unnamed() {
    let store = lighthouse_store();
    let f = get_feature(&store, pt(0, 0));
    assert_eq!(f.name, "");
    assert_eq!(f.location, None);
}

#[test]
fn get_feature_absent_point_is_unnamed() {
    let store = sample_store();
    let f = get_feature(&store, pt(1, 2));
    assert_eq!(f.name, "");
    assert_eq!(f.location, None);
}

#[test]
fn get_feature_takes_first_match_in_store_order() {
    let store = sample_store();
    let f = get_feature(&store, pt(40_000_000, -70_000_000));
    assert_eq!(f.name, "Lighthouse");
}

#[test]
fn list_features_filters_in_store_order() {
    let store = sample_store();
    let r = Rectangle { lo: pt(39_000_000, -72_000_000), hi: pt(41_500_000, -69_000_000) };
    let got = list_features(&store, r);
    let names: Vec<&str> = got.iter().map(|f| f.name.as_str()).collect();
    assert_eq!(names, vec!["Lighthouse", "", "Harbor"]);
}

#[test]
fn list_features_ignores_corner_order() {
    let store = sample_store();
    let r = Rectangle { lo: pt(39_000_000, -72_000_000), hi: pt(41_500_000, -69_000_000) };
    let swapped = Rectangle { lo: r.hi, hi: r.lo };
    let a = list_features(&store, r);
    let b = list_features(&store, swapped);
    assert_eq!(a.len(), b.len());
    for (x, y) in a.iter().zip(b.iter()) {
        assert_eq!(x.name, y.name);
        assert_eq!(x.location, y.location);
    }
}

#[test]
fn list_features_empty_rectangle_region() {
    let store = sample_store();
    let r = Rectangle { lo: pt(-10, -10), hi: pt(10, 10) };
    assert!(list_features(&store, r).is_empty());
}

#[test]
fn record_route_counts_and_sums() {
    let store = sample_store();
    let points = vec![
        pt(40_000_000, -70_000_000),
        pt(41_000_000, -70_000_000),
        pt(42_000_000, -71_500_000),
    ];
    let expected_distance = distance(points[0], points[1]) + distance(points[1], points[2]);
    let s = record_route(&store, &points, 7);
    assert_eq!(s.point_count, 3);
    assert_eq!(s.feature_count, 2);
    assert_eq!(s.distance, expected_distance);
    assert_eq!(s.elapsed_time, 7);
    assert!(s.feature_count <= s.point_count);
}

#[test]
fn record_route_empty_and_single() {
    let store = sample_store();
    let s = record_route(&store, &vec![], 0);
    assert_eq!(s.point_count, 0);
    assert_eq!(s.feature_count, 0);
    assert_eq!(s.distance, 0);
    let s1 = record_route(&store, &vec![pt(40_000_000, -70_000_000)], 1);
    assert_eq!(s1.point_count, 1);
    assert_eq!(s1.feature_count, 1);
    assert_eq!(s1.distance, 0);
}

fn note(p: Point, message: &str) -> RouteNote {
    RouteNote { location: p, message: message.to_owned() }
}

#[test]
fn route_chat_replays_full_history_per_location() {
    let here = pt(1, 1);
    let there = pt(2, 2);
    let mut index = NoteIndex::new();
    let b1 = index.add_note(note(here, "first"));
    let b2 = index.add_note(note(here, "second"));
    let b3 = index.add_note(note(there, "third"));
    let msgs = |b: &Vec<RouteNote>| b.iter().map(|n| n.message.clone()).collect::<Vec<_>>();
    assert_eq!(msgs(&b1), vec!["first"]);
    assert_eq!(msgs(&b2), vec!["first", "second"]);
    assert_eq!(msgs(&b3), vec!["third"]);
    assert_eq!(b2[0].location, here);
}

#[test]
fn route_chat_batch_length_counts_notes_at_location() {
    let here = pt(5, 5);
    let mut index = NoteIndex::new();
    for k in 1..=4u32 {
        let batch = index.add_note(note(here, &format!("n{}", k)));
        assert_eq!(batch.len() as u32, k);
    }
}

#[test]
fn route_chat_session_yields_one_batch_per_note() {
    let here = pt(1, 1);
    let there = pt(2, 2);
    let notes = vec![note(here, "first"), note(here, "second"), note(there, "third")];
    let batches = route_chat_session(&notes);
    assert_eq!(batches.len(), 3);
    let msgs = |b: &Vec<RouteNote>| b.iter().map(|n| n.message.clone()).collect::<Vec<_>>();
    assert_eq!(msgs(&batches[0]), vec!["first"]);
    assert_eq!(msgs(&batches[1]), vec!["first", "second"]);
    assert_eq!(msgs(&batches[2]), vec!["third"]);
}

#[test]
fn dispatch_rejects_missing_authorization_for_every_pattern() {
    let store = lighthouse_store();
    let requests = || -> Vec<CallRequest> {
        vec![
            CallRequest::GetFeature(pt(40_000_000, -70_000_000)),
            CallRequest::ListFeatures(Rectangle { lo: pt(0, 0), hi: pt(1, 1) }),
            CallRequest::RecordRoute { points: vec![pt(1, 1)], elapsed_time: 0 },
            CallRequest::RouteChat(vec![note(pt(1, 1), "hi")]),
        ]
    };
    for request in requests() {
        let r = handle_call(&store, &empty_metadata(), request);
        assert!(matches!(r, Err(Status::Unauthenticated)));
    }
    for request in requests() {
        let r = handle_call(&store, &wrong_metadata(), request);
        assert!(matches!(r, Err(Status::Unauthenticated)));
    }
}

#[test]
fn dispatch_serves_all_patterns_with_good_token() {
    let store = sample_store();
    let md = good_metadata();
    match handle_call(&store, &md, CallRequest::GetFeature(pt(40_000_000, -70_000_000))) {
        Ok(CallResponse::OneFeature(f)) => assert_eq!(f.name, "Lighthouse"),
        other => panic!("unexpected response: {:?}", other.is_ok()),
    }
    let rect = Rectangle { lo: pt(39_000_000, -72_000_000), hi: pt(41_500_000, -69_000_000) };
    match handle_call(&store, &md, CallRequest::ListFeatures(rect)) {
        Ok(CallResponse::FeatureList(fs)) => assert_eq!(fs.len(), 3),
        other => panic!("unexpected response: {:?}", other.is_ok()),
    }
    let points = vec![pt(40_000_000, -70_000_000), pt(42_000_000, -71_000_000)];
    match handle_call(&store, &md, CallRequest::RecordRoute { points, elapsed_time: 2 }) {
        Ok(CallResponse::Summary(s)) => {
            assert_eq!(s.point_count, 2);
            assert_eq!(s.feature_count, 2);
            assert_eq!(s.elapsed_time, 2);
        },
        other => panic!("unexpected response: {:?}", other.is_ok()),
    }
    let notes = vec![note(pt(1, 1), "a"), note(pt(1, 1), "b")];
    match handle_call(&store, &md, CallRequest::RouteChat(notes)) {
        Ok(CallResponse::NoteBatches(bs)) => {
            assert_eq!(bs.len(), 2);
            assert_eq!(bs[0].len(), 1);
            assert_eq!(bs[1].len(), 2);
        },
        other => panic!("unexpected response: {:?}", other.is_ok()),
    }
}

#[test]
fn check_auth_accepts_only_the_exact_token() {
    assert!(check_auth(&good_metadata()).is_ok());
    assert!(matches!(check_auth(&wrong_metadata()), Err(Status::Unauthenticated)));
    assert!(matches!(check_auth(&empty_metadata()), Err(Status::Unauthenticated)));
    let other_header = Metadata {
        entries: vec![MetadataEntry { name: "user-agent".to_owned(), value: "Bearer 1234".to_owned() }],
    };
    assert!(matches!(check_auth(&other_header), Err(Status::Unauthenticated)));
}

#[test]
fn check_auth_takes_first_authorization_header() {
    let md = Metadata {
        entries: vec![
            MetadataEntry { name: "authorization".to_owned(), value: "Bearer wrong".to_owned() },
            MetadataEntry { name: "authorization".to_owned(), value: "Bearer 1234".to_owned() },
        ],
    };
    assert!(matches!(check_auth(&md), Err(Status::Unauthenticated)));
}

#[test]
fn method_for_path_names_the_four_operations() {
    assert_eq!(method_for_path("/routeguide.RouteGuide/GetFeature"), Some(MethodKind::GetFeature));
    assert_eq!(
        method_for_path("/routeguide.RouteGuide/ListFeatures"),
        Some(MethodKind::ListFeatures)
    );
    assert_eq!(
        method_for_path("/routeguide.RouteGuide/RecordRoute"),
        Some(MethodKind::RecordRoute)
    );
    assert_eq!(method_for_path("/routeguide.RouteGuide/RouteChat"), Some(MethodKind::RouteChat));
    assert_eq!(method_for_path("/routeguide.RouteGuide/Unknown"), None);
    assert_eq!(method_for_path(""), None);
}
