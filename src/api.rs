//! The paths of the service's HTTP endpoints, as a client calls them.
use vstd::prelude::*;

verus! {

/// The authentication endpoints.
#[derive(Debug, Clone, Copy, PartialEq, Eq, Structural)]
pub enum AuthApi {
    Login,
    Refresh,
    Logout,
}

/// The list endpoints.
#[derive(Debug, Clone, Copy, PartialEq, Eq, Structural)]
pub enum ListApi {
    GetAll,
}

impl AuthApi {
    /// The path of the endpoint.
    pub fn path(&self) -> (r: &'static str)
        ensures
            *self is Login ==> r@ == "/api/auth/login"@,
            *self is Refresh ==> r@ == "/api/auth/refresh"@,
            *self is Logout ==> r@ == "/api/auth/logout"@,
    {
        match self {
            AuthApi::Login => "/api/auth/login",
            AuthApi::Refresh => "/api/auth/refresh",
            AuthApi::Logout => "/api/auth/logout",
        }
    }
}

impl ListApi {
    /// The path of the endpoint.
    pub fn path(&self) -> (r: &'static str)
        ensures
            r@ == "/api/list"@,
    {
        match self {
            ListApi::GetAll => "/api/list",
        }
    }
}

/// The body of a login request.
pub struct LoginRequest {
    pub username: String,
    pub password: String,
}

/// The body of a successful login or refresh: the access token.
pub struct LoginResponse {
    pub token: String,
}

} // verus!
