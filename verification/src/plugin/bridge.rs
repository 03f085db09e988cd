//! Values exchanged with the host bridge: controlled HTTP sub-requests and the
//! OAuth loopback callback listener.
use vstd::prelude::*;
use crate::json::Json;

verus! {

/// A controlled HTTP sub-request made by a plugin.
#[derive(Debug)]
pub struct HttpRequest {
    /// HTTP method; `GET` when the plugin gives none.
    pub method: String,
    pub url: String,
    pub headers: Vec<(String, String)>,
    /// JSON body; `None` sends no body.
    pub body: Option<Json>,
    /// Form body (`application/x-www-form-urlencoded`); wins over `body`.
    pub form: Option<Vec<(String, String)>>,
    /// Timeout in milliseconds; `None` takes the host default.
    pub timeout_ms: Option<u64>,
}

/// The method of a request that names none.
pub fn default_method() -> (r: String)
    ensures
        r@ == "GET"@,
{
    "GET".to_string()
}

/// The response to a controlled sub-request.
#[derive(Debug)]
pub struct HttpResponse {
    pub status: u16,
    pub headers: Vec<(String, String)>,
    /// The body, parsed as JSON when it is JSON and else held as a JSON string.
    pub body: Json,
}

/// A request to listen for an OAuth loopback callback.
#[derive(Debug, Clone)]
pub struct CallbackSpec {
    /// Listening path (`/callback` when none is given).
    pub path: String,
    /// CORS origins allowed to fetch the callback (none: no CORS headers).
    pub origins: Vec<String>,
    /// Preferred port; the host falls back to a random one when it is taken.
    pub preferred_port: Option<u16>,
}

/// The path of a callback spec that names none.
pub fn default_callback_path() -> (r: String)
    ensures
        r@ == "/callback"@,
{
    "/callback".to_string()
}

/// The handle of a callback listener.
#[derive(Debug, Clone)]
pub struct CallbackHandle {
    /// Listener id, for awaiting and closing.
    pub id: String,
    /// The port actually bound.
    pub port: u16,
    /// Full callback URL (`http://127.0.0.1:{port}{path}`).
    pub url: String,
}

} // verus!
