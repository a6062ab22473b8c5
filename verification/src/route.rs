//! The routing table: which handler a method and a path select.

use crate::http::Method;
use crate::text::same_text;
use vstd::prelude::*;

verus! {

/// The handler that serves a request.
#[derive(Clone, Copy, Debug, PartialEq, Eq, Structural)]
pub enum Route {
    /// `GET /status/`: the liveness probe.
    Status,
    /// `POST /user/`: create a user.
    CreateUser,
    /// `GET /user/`: list the users.
    ListUsers,
    /// Every other method and path.
    NotFound,
}

/// The routing table. A path matches only as a whole, trailing slash
/// included, and a known path with another method is not found.
pub open spec fn route_of(method: Method, path: Seq<char>) -> Route {
    if method == Method::Get && path == "/status/"@ {
        Route::Status
    } else if method == Method::Post && path == "/user/"@ {
        Route::CreateUser
    } else if method == Method::Get && path == "/user/"@ {
        Route::ListUsers
    } else {
        Route::NotFound
    }
}

/// Selects the handler for a method and a path.
pub fn route(method: Method, path: &str) -> (selected: Route)
    ensures
        selected == route_of(method, path@),
{
    match method {
        Method::Get => {
            if same_text(path, "/status/") {
                Route::Status
            } else if same_text(path, "/user/") {
                Route::ListUsers
            } else {
                Route::NotFound
            }
        },
        Method::Post => {
            if same_text(path, "/user/") {
                Route::CreateUser
            } else {
                Route::NotFound
            }
        },
        _ => Route::NotFound,
    }
}

/// The two paths that the service knows are different texts.
pub proof fn lemma_paths_differ()
    ensures
        "/status/"@ != "/user/"@,
        "/status/"@.len() == 8,
        "/user/"@.len() == 6,
{
    reveal_strlit("/status/");
    reveal_strlit("/user/");
    assert("/status/"@.len() == 8);
    assert("/user/"@.len() == 6);
}

} // verus!
