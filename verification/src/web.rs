//! Response bodies of the HTTP API and the output formats of the
//! `print` subcommand.

use vstd::prelude::*;
use crate::text::owned;

verus! {

/// Body of the health endpoint.
#[derive(Debug, Clone, PartialEq, Eq)]
pub struct HealthResponse {
    pub status: String,
}

impl HealthResponse {
    /// The answer of a running service.
    pub fn healthy() -> (r: HealthResponse)
        ensures
            r.status@ == "healthy"@,
    {
        HealthResponse { status: owned("healthy") }
    }
}

/// Body of the "who am I" endpoint.
#[derive(Debug, Clone, PartialEq, Eq)]
pub struct MeResponse {
    pub name: String,
    pub auth_enabled: bool,
}

impl MeResponse {
    /// The answer for the current session: without authentication every
    /// visitor is `admin`; with it, the logged-in user's name, or
    /// `anonymous` when nobody is logged in.
    pub fn for_session(auth_enabled: bool, user: Option<String>) -> (r: MeResponse)
        ensures
            r.auth_enabled == auth_enabled,
            !auth_enabled ==> r.name@ == "admin"@,
            auth_enabled ==> r.name@ == match user {
                Some(u) => u@,
                None => "anonymous"@,
            },
    {
        if !auth_enabled {
            return MeResponse { name: owned("admin"), auth_enabled: false };
        }
        let name = match user {
            Some(u) => u,
            None => owned("anonymous"),
        };
        MeResponse { name, auth_enabled: true }
    }
}

/// Body of the mute endpoint.
#[derive(Debug, Clone, Copy, PartialEq, Eq, Structural)]
pub struct MuteResponse {
    pub muted: bool,
}

/// The mute flag after a request to the mute endpoint: `GET` leaves it,
/// `PUT` mutes, `DELETE` unmutes.
#[derive(Debug, Clone, Copy, PartialEq, Eq, Structural)]
pub enum MuteRequest {
    Get,
    Put,
    Delete,
}

/// The mute flag after a request, and the response body reporting it.
pub fn apply_mute_request(current: bool, req: MuteRequest) -> (r: (bool, MuteResponse))
    ensures
        r.0 == match req {
            MuteRequest::Get => current,
            MuteRequest::Put => true,
            MuteRequest::Delete => false,
        },
        r.1.muted == r.0,
{
    let muted = match req {
        MuteRequest::Get => current,
        MuteRequest::Put => true,
        MuteRequest::Delete => false,
    };
    (muted, MuteResponse { muted })
}

/// Output format of the `print` subcommand.
#[derive(Debug, Clone, Copy, PartialEq, Eq, Structural)]
pub enum PrintFormat {
    Toml,
    Nix,
    Cli,
}

/// Arguments of the server that feed configuration resolution rather
/// than fields of the configuration itself.
#[derive(Debug, Clone, PartialEq, Eq)]
pub struct ServerCliFields {
    /// Patch library files; later files win on overlapping names.
    pub patch_library: Vec<String>,
    /// Remote Source declarations, each `name=url`.
    pub source: Vec<String>,
    pub oidc_issuer: Option<String>,
    pub oidc_client_id: Option<String>,
    pub oidc_client_secret_file: Option<String>,
}

} // verus!
