//! The method router: which route handler a request goes to, and what is
//! handed to it. The handlers themselves are the caller's.

use crate::json::{body_value, decode_body};
use crate::request::HttpRequest;
use vstd::prelude::*;

verus! {

/// The call of one route handler.
#[derive(Debug, PartialEq)]
pub enum Route {
    Get { path: String },
    Post { path: String, body: Option<serde_json::Value> },
    Put { path: String, body: Option<serde_json::Value> },
    Delete { path: String },
    Patch { path: String, body: Option<serde_json::Value> },
    /// No handler is written for the method.
    MethodNotAllowed,
}

/// The call of one route handler, as mathematical text.
pub enum RouteModel {
    Get { path: Seq<char> },
    Post { path: Seq<char>, body: Option<serde_json::Value> },
    Put { path: Seq<char>, body: Option<serde_json::Value> },
    Delete { path: Seq<char> },
    Patch { path: Seq<char>, body: Option<serde_json::Value> },
    MethodNotAllowed,
}

impl View for Route {
    type V = RouteModel;

    open spec fn view(&self) -> RouteModel {
        match self {
            Route::Get { path } => RouteModel::Get { path: path@ },
            Route::Post { path, body } => RouteModel::Post { path: path@, body: *body },
            Route::Put { path, body } => RouteModel::Put { path: path@, body: *body },
            Route::Delete { path } => RouteModel::Delete { path: path@ },
            Route::Patch { path, body } => RouteModel::Patch { path: path@, body: *body },
            Route::MethodNotAllowed => RouteModel::MethodNotAllowed,
        }
    }
}

/// The route of a request with this method, path and decoded body.
///
/// `GET` and `DELETE` take the path; `POST`, `PUT` and `PATCH` take the
/// path and the body. Every other method, the empty one too, is not
/// allowed, whatever the path. Letter case counts.
pub open spec fn route_of(
    method: Seq<char>,
    path: Seq<char>,
    body: Option<serde_json::Value>,
) -> RouteModel {
    if method == "GET"@ {
        RouteModel::Get { path }
    } else if method == "POST"@ {
        RouteModel::Post { path, body }
    } else if method == "PUT"@ {
        RouteModel::Put { path, body }
    } else if method == "DELETE"@ {
        RouteModel::Delete { path }
    } else if method == "PATCH"@ {
        RouteModel::Patch { path, body }
    } else {
        RouteModel::MethodNotAllowed
    }
}

/// Selects the route for a method, a path and a decoded body.
pub fn select_route(method: &str, path: &str, body: Option<serde_json::Value>) -> (route: Route)
    ensures
        route@ == route_of(method@, path@, body),
{
    if method.eq("GET") {
        Route::Get { path: path.to_owned() }
    } else if method.eq("POST") {
        Route::Post { path: path.to_owned(), body }
    } else if method.eq("PUT") {
        Route::Put { path: path.to_owned(), body }
    } else if method.eq("DELETE") {
        Route::Delete { path: path.to_owned() }
    } else if method.eq("PATCH") {
        Route::Patch { path: path.to_owned(), body }
    } else {
        Route::MethodNotAllowed
    }
}

/// Selects the route for a request. The body is decoded first; a body that
/// is empty or no JSON gives the handler no value.
pub fn route_request(request: &HttpRequest) -> (route: Route)
    ensures
        route@ == route_of(request@.method, request@.path, body_value(request@.body)),
{
    let body = decode_body(request.body.as_str());
    select_route(request.method.as_str(), request.path.as_str(), body)
}

/// A method is not allowed exactly when it is none of the five that have
/// a handler, and the path has no say in it.
pub proof fn lemma_method_not_allowed(
    method: Seq<char>,
    path: Seq<char>,
    body: Option<serde_json::Value>,
)
    ensures
        route_of(method, path, body) is MethodNotAllowed <==> method != "GET"@ && method != "POST"@
            && method != "PUT"@ && method != "DELETE"@ && method != "PATCH"@,
{
}

} // verus!
