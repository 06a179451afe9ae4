use vstd::prelude::*;

verus! {

/// The structured failure that every handler returns to the caller: an HTTP
/// status code together with a short, non-internal description.
#[derive(Debug, PartialEq)]
pub struct Error {
    pub status: u16,
    pub message: String,
}

impl Error {
    /// Builds the error used when an upstream HTTP exchange fails: the
    /// upstream status when one was reported, 500 otherwise.
    pub fn from_transport(status: Option<u16>, message: String) -> (r: Error)
        ensures
            r.status == (match status {
                Some(s) => s,
                None => 500u16,
            }),
            r.message@ == message@,
    {
        match status {
            Some(s) => Error { status: s, message },
            None => Error { status: 500, message },
        }
    }

    /// The error returned when a provider response does not have the shape
    /// its protocol promises.
    pub fn protocol(message: String) -> (r: Error)
        ensures
            r.status == 500u16,
            r.message@ == message@,
    {
        Error { status: 500, message }
    }
}

/// The error answered on a known path reached with a method other than POST.
pub fn error_method() -> (r: Error)
    ensures
        r.status == 406u16,
        r.message@ == "Method not allowed"@,
{
    Error { status: 406, message: String::from_str("Method not allowed") }
}

/// The error answered on a path that no workspace is bound to.
pub fn error_path() -> (r: Error)
    ensures
        r.status == 404u16,
        r.message@ == "Path not found"@,
{
    Error { status: 404, message: String::from_str("Path not found") }
}

/// How an inbound request is routed before any workspace logic runs.
#[derive(Debug, PartialEq)]
pub enum RouteDecision {
    /// POST on a bound path: hand the request to the workspace.
    Dispatch,
    /// Any method other than POST, on any path.
    MethodNotAllowed,
    /// POST on a path that no workspace is bound to.
    PathNotFound,
}

/// Decides how to answer a request from its method and whether its path is
/// bound to a workspace: non-POST requests are refused with 406 before the
/// path is looked at, and a POST on an unbound path is refused with 404.
pub fn route_request(is_post: bool, path_is_bound: bool) -> (r: RouteDecision)
    ensures
        r is Dispatch <==> (is_post && path_is_bound),
        r is MethodNotAllowed <==> !is_post,
        r is PathNotFound <==> (is_post && !path_is_bound),
{
    if !is_post {
        RouteDecision::MethodNotAllowed
    } else if !path_is_bound {
        RouteDecision::PathNotFound
    } else {
        RouteDecision::Dispatch
    }
}

} // verus!
