//! The call dispatcher: one entry point hosting the four interaction
//! shapes over the shared store, with the authentication check applied
//! before any handler runs.

use vstd::prelude::*;

use crate::auth::{check_auth, spec_authorized, Metadata};
use crate::chat::{route_chat_session, spec_notes_at, RouteNote};
use crate::geo::{Point, Rectangle};
use crate::routes::{
    record_route, spec_feature_hits, spec_path_distance, spec_valid_route, RouteSummary,
};
use crate::status::Status;
use crate::store::{spec_features_in, spec_lookup, Feature, FeatureStore};

verus! {

/// The four operations of the call surface, each under its stable method
/// name.
#[derive(Clone, Copy, PartialEq, Eq, Structural, Debug)]
pub enum MethodKind {
    GetFeature,
    ListFeatures,
    RecordRoute,
    RouteChat,
}

pub open spec fn spec_method_for_path(path: Seq<char>) -> Option<MethodKind> {
    if path == "/routeguide.RouteGuide/GetFeature"@ {
        Some(MethodKind::GetFeature)
    } else if path == "/routeguide.RouteGuide/ListFeatures"@ {
        Some(MethodKind::ListFeatures)
    } else if path == "/routeguide.RouteGuide/RecordRoute"@ {
        Some(MethodKind::RecordRoute)
    } else if path == "/routeguide.RouteGuide/RouteChat"@ {
        Some(MethodKind::RouteChat)
    } else {
        None
    }
}

/// Routes a request path to the operation it names; an unknown path gets
/// no method, which the transport answers with `Unimplemented`.
pub fn method_for_path(path: &str) -> (m: Option<MethodKind>)
    ensures
        m == spec_method_for_path(path@),
{
    let owned: String = path.to_owned();
    if owned == "/routeguide.RouteGuide/GetFeature".to_owned() {
        Some(MethodKind::GetFeature)
    } else if owned == "/routeguide.RouteGuide/ListFeatures".to_owned() {
        Some(MethodKind::ListFeatures)
    } else if owned == "/routeguide.RouteGuide/RecordRoute".to_owned() {
        Some(MethodKind::RecordRoute)
    } else if owned == "/routeguide.RouteGuide/RouteChat".to_owned() {
        Some(MethodKind::RouteChat)
    } else {
        None
    }
}

/// One decoded call, whatever its pattern. A streaming input arrives
/// here fully collected by the transport; for `RecordRoute` the
/// transport also reports the call's wall-clock duration in whole
/// seconds, measured from call start to stream end.
pub enum CallRequest {
    GetFeature(Point),
    ListFeatures(Rectangle),
    RecordRoute { points: Vec<Point>, elapsed_time: u32 },
    RouteChat(Vec<RouteNote>),
}

/// What a call produces: one value for the unary and client-streaming
/// patterns, an ordered sequence of items for the server-streaming
/// pattern, and one replay batch per inbound note for the duplex
/// pattern.
pub enum CallResponse {
    OneFeature(Feature),
    FeatureList(Vec<Feature>),
    Summary(RouteSummary),
    NoteBatches(Vec<Vec<RouteNote>>),
}

/// The unary handler: the first feature stored exactly at `p`, or — as a
/// well-formed result, not an error — a feature with an empty name and
/// no location when the point is unknown.
pub fn get_feature(store: &FeatureStore, p: Point) -> (f: Feature)
    ensures
        match spec_lookup(store@, p) {
            Some(found) => f == found,
            None => f.name@ == Seq::<char>::empty() && f.location is None,
        },
{
    match store.find_exact(p) {
        Some(found) => found,
        None => Feature { name: String::new(), location: None },
    }
}

/// The server-streaming handler: every feature located in the rectangle,
/// in store order. The transport emits the items one at a time and then
/// closes the stream normally.
pub fn list_features(store: &FeatureStore, r: Rectangle) -> (v: Vec<Feature>)
    ensures
        v@ == spec_features_in(store@, r),
{
    store.find_in_rectangle(r)
}

/// Authenticates and dispatches one call. The interceptor runs first: whatever
/// the pattern, unauthorized metadata fails the call with
/// `Unauthenticated` and no handler — hence no store access — runs.
/// Authorized calls always succeed.
pub fn handle_call(store: &FeatureStore, metadata: &Metadata, request: CallRequest) -> (r: Result<
    CallResponse,
    Status,
>)
    requires
        request matches CallRequest::RecordRoute { points, .. } ==> spec_valid_route(points@),
    ensures
        !spec_authorized(metadata.entries@) ==> r == Err::<CallResponse, Status>(
            Status::Unauthenticated,
        ),
        spec_authorized(metadata.entries@) ==> match request {
            CallRequest::GetFeature(p) => r matches Ok(CallResponse::OneFeature(f))
                && (match spec_lookup(store@, p) {
                Some(found) => f == found,
                None => f.name@ == Seq::<char>::empty() && f.location is None,
            }),
            CallRequest::ListFeatures(rect) => r matches Ok(CallResponse::FeatureList(fs)) && fs@
                == spec_features_in(store@, rect),
            CallRequest::RecordRoute { points, elapsed_time } => r matches Ok(
                CallResponse::Summary(s),
            ) && s.point_count as int == points@.len() && s.feature_count as int
                == spec_feature_hits(store@, points@) && s.distance as int == spec_path_distance(
                points@,
            ) && s.elapsed_time == elapsed_time,
            CallRequest::RouteChat(notes) => r matches Ok(CallResponse::NoteBatches(bs)) && bs@.len()
                == notes@.len() && (forall|i: int|
                0 <= i < notes@.len() ==> #[trigger] bs@[i]@ == spec_notes_at(
                    notes@.take(i + 1),
                    notes@[i].location,
                )),
        },
{
    match check_auth(metadata) {
        Err(status) => Err(status),
        Ok(()) => match request {
            CallRequest::GetFeature(p) => Ok(CallResponse::OneFeature(get_feature(store, p))),
            CallRequest::ListFeatures(rect) => Ok(
                CallResponse::FeatureList(list_features(store, rect)),
            ),
            CallRequest::RecordRoute { points, elapsed_time } => Ok(
                CallResponse::Summary(record_route(store, &points, elapsed_time)),
            ),
            CallRequest::RouteChat(notes) => Ok(
                CallResponse::NoteBatches(route_chat_session(&notes)),
            ),
        },
    }
}

} // verus!
