//! The media server: where it is reached, and what its answers say about
//! the connection.
//!
//! The requests themselves are sent by the program around the library.

use vstd::prelude::*;
use crate::config::{opt_text, Config};
use crate::text::{chars_of, decimal, decimal_of, is_blank, trim, trimmed};

verus! {

/// Why the media server could not be used.
#[derive(Debug, Clone)]
pub enum JellyfinError {
    /// The address or the key is not set.
    NotConfigured,
    /// The request failed, with the error's words.
    Http(String),
    /// The server answered with a status that is no success.
    UnexpectedStatus(u16),
}

/// The answer to a request that was carried out.
#[derive(Debug, Clone)]
pub struct JellyfinOperationResponse {
    pub status: &'static str,
}

/// What is known of the connection to the media server.
#[derive(Debug, Clone)]
pub struct JellyfinStatus {
    pub configured: bool,
    pub server_reachable: bool,
    pub auth_ok: bool,
    pub health_status_code: Option<u16>,
    pub library_status_code: Option<u16>,
    pub message: Option<String>,
}

/// A status as plain values.
pub struct ConnectionView {
    pub configured: bool,
    pub server_reachable: bool,
    pub auth_ok: bool,
    pub health_status_code: Option<u16>,
    pub library_status_code: Option<u16>,
    pub message: Option<Seq<char>>,
}

impl View for JellyfinStatus {
    type V = ConnectionView;

    open spec fn view(&self) -> ConnectionView {
        ConnectionView {
            configured: self.configured,
            server_reachable: self.server_reachable,
            auth_ok: self.auth_ok,
            health_status_code: self.health_status_code,
            library_status_code: self.library_status_code,
            message: opt_text(self.message),
        }
    }
}

/// What came of a request to the media server.
#[derive(Debug, Clone)]
pub enum Reply {
    /// The server answered, with this status.
    Status(u16),
    /// The request failed, with the error's words.
    Failed(String),
}

/// Where the media server is reached, and the key to it.
#[derive(Debug, Clone)]
pub struct JellyfinClient {
    base_url: String,
    api_key: String,
}

/// How many characters are left of `s` up to `upto` without the slashes at
/// its end.
pub open spec fn end_without_slashes(s: Seq<char>, upto: int) -> int
    decreases upto,
{
    if upto <= 0 {
        0
    } else if s[upto - 1] != '/' {
        upto
    } else {
        end_without_slashes(s, upto - 1)
    }
}

/// An address without the slashes at its end.
pub open spec fn base_of(url: Seq<char>) -> Seq<char> {
    let t = trimmed(url);
    t.subrange(0, end_without_slashes(t, t.len() as int))
}

/// Whether a status is a success.
pub open spec fn is_success(code: u16) -> bool {
    200 <= code < 300
}

/// Whether both the address and the key of the media server are set.
pub open spec fn is_configured(config: Config) -> bool {
    !is_blank(config.jellyfin.url@) && !is_blank(config.jellyfin.api_key@)
}

/// The status before anything was asked of the server.
pub open spec fn unchecked() -> ConnectionView {
    ConnectionView {
        configured: true,
        server_reachable: false,
        auth_ok: false,
        health_status_code: None,
        library_status_code: None,
        message: None,
    }
}

/// The status after the server's health was asked for.
pub open spec fn health_checked(reply: Reply) -> ConnectionView {
    match reply {
        Reply::Status(code) => if is_success(code) {
            ConnectionView {
                server_reachable: true,
                health_status_code: Some(code),
                ..unchecked()
            }
        } else {
            ConnectionView {
                health_status_code: Some(code),
                message: Some("Jellyfin health endpoint returned "@ + decimal_of(code as nat)),
                ..unchecked()
            }
        },
        Reply::Failed(words) => ConnectionView {
            message: Some("Failed to reach Jellyfin health endpoint: "@ + words@),
            ..unchecked()
        },
    }
}

/// The status after the server's libraries were asked for with the key.
pub open spec fn library_checked(status: ConnectionView, reply: Reply) -> ConnectionView {
    match reply {
        Reply::Status(code) => if is_success(code) {
            ConnectionView { library_status_code: Some(code), auth_ok: true, ..status }
        } else if code == 401 || code == 403 {
            ConnectionView {
                library_status_code: Some(code),
                message: Some("Jellyfin API key invalid"@),
                ..status
            }
        } else {
            ConnectionView {
                library_status_code: Some(code),
                message: Some(
                    "Unexpected status from library endpoint: "@ + decimal_of(code as nat),
                ),
                ..status
            }
        },
        Reply::Failed(words) => ConnectionView {
            message: Some("Failed to call Jellyfin library endpoint: "@ + words@),
            ..status
        },
    }
}

impl View for JellyfinClient {
    type V = (Seq<char>, Seq<char>);

    closed spec fn view(&self) -> (Seq<char>, Seq<char>) {
        (self.base_url@, self.api_key@)
    }
}

impl JellyfinClient {
    /// The client for a configuration: its address without whitespace
    /// around it and slashes at its end, and its key without whitespace
    /// around it.
    pub fn from_config(config: &Config) -> (r: Result<JellyfinClient, JellyfinError>)
        ensures
            r is Ok <==> is_configured(*config),
            r matches Ok(client) ==> client@ == (
                base_of(config.jellyfin.url@),
                trimmed(config.jellyfin.api_key@),
            ),
            r matches Err(e) ==> e is NotConfigured,
    {
        let url = trim(config.jellyfin.url.as_str());
        let api_key = trim(config.jellyfin.api_key.as_str());
        if url.unicode_len() == 0 || api_key.unicode_len() == 0 {
            return Err(JellyfinError::NotConfigured);
        }
        let chars = chars_of(url);
        let mut end: usize = chars.len();
        while end > 0 && chars[end - 1] == '/'
            invariant
                end <= chars.len(),
                chars@ == url@,
                end_without_slashes(url@, chars.len() as int) == end_without_slashes(
                    url@,
                    end as int,
                ),
            decreases end,
        {
            end = end - 1;
        }
        Ok(
            JellyfinClient {
                base_url: url.substring_char(0, end).to_owned(),
                api_key: api_key.to_owned(),
            },
        )
    }

    /// The key that goes with every request.
    pub fn api_key(&self) -> (r: &str)
        ensures
            r@ == self@.1,
    {
        self.api_key.as_str()
    }

    /// Where a rescan of the libraries is asked for.
    pub fn refresh_url(&self) -> (r: String)
        ensures
            r@ == self@.0 + "/Library/Refresh"@,
    {
        let mut s = self.base_url.clone();
        s.append("/Library/Refresh");
        s
    }

    /// Where the server's health is asked for.
    pub fn health_url(&self) -> (r: String)
        ensures
            r@ == self@.0 + "/health"@,
    {
        let mut s = self.base_url.clone();
        s.append("/health");
        s
    }

    /// Where the libraries are asked for.
    pub fn library_url(&self) -> (r: String)
        ensures
            r@ == self@.0 + "/Library/PhysicalPaths"@,
    {
        let mut s = self.base_url.clone();
        s.append("/Library/PhysicalPaths");
        s
    }
}

/// Whether a status is a success.
pub fn status_is_success(code: u16) -> (r: bool)
    ensures
        r == is_success(code),
{
    200 <= code && code < 300
}

/// What the answer to a request for a rescan comes to.
pub fn trigger_rescan(reply: &Reply) -> (r: Result<JellyfinOperationResponse, JellyfinError>)
    ensures
        match *reply {
            Reply::Status(code) => if is_success(code) {
                r matches Ok(done) && done.status@ == "ok"@
            } else {
                r matches Err(JellyfinError::UnexpectedStatus(c)) && c == code
            },
            Reply::Failed(words) => r matches Err(JellyfinError::Http(w)) && w@ == words@,
        },
{
    match reply {
        Reply::Status(code) => {
            if status_is_success(*code) {
                Ok(JellyfinOperationResponse { status: "ok" })
            } else {
                Err(JellyfinError::UnexpectedStatus(*code))
            }
        },
        Reply::Failed(words) => Err(JellyfinError::Http(words.clone())),
    }
}

/// Begins a check of the connection: the status before anything was asked
/// of the server, or the failure where the server is not configured.
pub fn check_status(config: &Config) -> (r: Result<JellyfinStatus, JellyfinError>)
    ensures
        r is Ok <==> is_configured(*config),
        r matches Ok(status) ==> status@ == unchecked(),
        r matches Err(e) ==> e is NotConfigured,
{
    match JellyfinClient::from_config(config) {
        Ok(_) => Ok(
            JellyfinStatus {
                configured: true,
                server_reachable: false,
                auth_ok: false,
                health_status_code: None,
                library_status_code: None,
                message: None,
            },
        ),
        Err(e) => Err(e),
    }
}

impl JellyfinStatus {
    /// Takes the answer to the request for the server's health. Says
    /// whether the check goes on to the libraries.
    pub fn health(&mut self, reply: &Reply) -> (r: bool)
        requires
            old(self)@ == unchecked(),
        ensures
            final(self)@ == health_checked(*reply),
            r == final(self).server_reachable,
    {
        match reply {
            Reply::Status(code) => {
                self.health_status_code = Some(*code);
                if status_is_success(*code) {
                    self.server_reachable = true;
                    true
                } else {
                    let mut m = "Jellyfin health endpoint returned ".to_owned();
                    m.append(decimal(*code as u64).as_str());
                    self.message = Some(m);
                    false
                }
            },
            Reply::Failed(words) => {
                let mut m = "Failed to reach Jellyfin health endpoint: ".to_owned();
                m.append(words.as_str());
                self.message = Some(m);
                false
            },
        }
    }

    /// Takes the answer to the request for the libraries.
    pub fn verify_library_access(&mut self, reply: &Reply)
        ensures
            final(self)@ == library_checked(old(self)@, *reply),
    {
        match reply {
            Reply::Status(code) => {
                self.library_status_code = Some(*code);
                if status_is_success(*code) {
                    self.auth_ok = true;
                } else if *code == 401 || *code == 403 {
                    self.message = Some("Jellyfin API key invalid".to_owned());
                } else {
                    let mut m = "Unexpected status from library endpoint: ".to_owned();
                    m.append(decimal(*code as u64).as_str());
                    self.message = Some(m);
                }
            },
            Reply::Failed(words) => {
                let mut m = "Failed to call Jellyfin library endpoint: ".to_owned();
                m.append(words.as_str());
                self.message = Some(m);
            },
        }
    }
}

} // verus!
