//! Which command a request asks for, from its method and path.
use vstd::prelude::*;

use crate::text::{parse_u32, parse_u32_spec, same_text};

verus! {

/// A command that a request names.
#[derive(Clone, Copy, Debug, PartialEq, Eq, Structural)]
pub enum Route {
    ListUsers,
    ShowUser(u32),
    AddUser,
    ChangeUser(u32),
    DeleteUser(u32),
    /// A path under `/users/` whose last part is not an id.
    InvalidId,
    NotFound,
}

/// The command for `method` on `path`: `/users` takes `GET` and `POST`,
/// `/users/{id}` takes `GET`, `PATCH` and `DELETE`.
pub open spec fn route_of(method: Seq<char>, path: Seq<char>) -> Route {
    let prefix = "/users/"@;
    if path == "/users"@ {
        if method == "GET"@ {
            Route::ListUsers
        } else if method == "POST"@ {
            Route::AddUser
        } else {
            Route::NotFound
        }
    } else if path.len() >= prefix.len() && path.subrange(0, prefix.len() as int) == prefix {
        if method == "GET"@ || method == "PATCH"@ || method == "DELETE"@ {
            match parse_u32_spec(path.subrange(prefix.len() as int, path.len() as int)) {
                Some(id) => if method == "GET"@ {
                    Route::ShowUser(id)
                } else if method == "PATCH"@ {
                    Route::ChangeUser(id)
                } else {
                    Route::DeleteUser(id)
                },
                None => Route::InvalidId,
            }
        } else {
            Route::NotFound
        }
    } else {
        Route::NotFound
    }
}

/// The command for `method` on `path`.
pub fn route(method: &str, path: &str) -> (r: Route)
    ensures
        r == route_of(method@, path@),
{
    if same_text(path, "/users") {
        if same_text(method, "GET") {
            return Route::ListUsers;
        } else if same_text(method, "POST") {
            return Route::AddUser;
        } else {
            return Route::NotFound;
        }
    }
    let prefix = "/users/";
    let n = path.unicode_len();
    let m = prefix.unicode_len();
    if n < m || !same_text(path.substring_char(0, m), prefix) {
        return Route::NotFound;
    }
    let is_get = same_text(method, "GET");
    let is_patch = same_text(method, "PATCH");
    let is_delete = same_text(method, "DELETE");
    if !(is_get || is_patch || is_delete) {
        return Route::NotFound;
    }
    match parse_u32(path.substring_char(m, n)) {
        Some(id) => if is_get {
            Route::ShowUser(id)
        } else if is_patch {
            Route::ChangeUser(id)
        } else {
            Route::DeleteUser(id)
        },
        None => Route::InvalidId,
    }
}

} // verus!
