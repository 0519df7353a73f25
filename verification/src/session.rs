//! The authenticated session and the login exchange.

use vstd::prelude::*;
use crate::errors::ClientError;
use crate::http::{HttpRequest, HttpRequestView, Method};
use crate::jsontext::{append_json_quoted, json_quoted};
use crate::jsonval::{json_str_field, json_str_field_of};
use crate::urlcheck::{check_absolute_url, is_absolute_url};

verus! {

/// An authenticated session: produced by a successful login, immutable
/// thereafter, consumed by every other operation. Credentials are never
/// persisted.
pub struct Session {
    pub homeserver: String,
    pub user_id: String,
    pub access_token: String,
    pub device_display_name: String,
}

/// The mathematical image of a [`Session`].
pub ghost struct SessionView {
    pub homeserver: Seq<char>,
    pub user_id: Seq<char>,
    pub access_token: Seq<char>,
    pub device_display_name: Seq<char>,
}

impl View for Session {
    type V = SessionView;

    open spec fn view(&self) -> SessionView {
        SessionView {
            homeserver: self.homeserver@,
            user_id: self.user_id@,
            access_token: self.access_token@,
            device_display_name: self.device_display_name@,
        }
    }
}

/// The display name the client announces for its login device.
pub open spec fn device_name_spec() -> Seq<char> {
    "Conduit Rust Client"@
}

/// The login endpoint path.
pub open spec fn login_path() -> Seq<char> {
    "/_matrix/client/v3/login"@
}

/// The password-grant login body for the given credentials.
pub open spec fn login_body_spec(user: Seq<char>, pass: Seq<char>) -> Seq<char> {
    "{\"type\":\"m.login.password\",\"user\":"@ + json_quoted(user) + ",\"password\":"@
        + json_quoted(pass) + "}"@
}

/// Builds the login exchange for the given credentials: a POST of the
/// password-grant body to the login endpoint, unauthenticated. Fails with
/// `Config` exactly when the homeserver is not an absolute URL.
pub fn login_request(homeserver: &str, username: &str, password: &str) -> (r: Result<
    HttpRequest,
    ClientError,
>)
    ensures
        r is Ok <==> is_absolute_url(homeserver@),
        r matches Ok(req) ==> req@ == (HttpRequestView {
            method: Method::Post,
            url: homeserver@ + login_path(),
            auth: None::<Seq<char>>,
            body: Some(login_body_spec(username@, password@)),
        }),
        r matches Err(e) ==> e is Config,
{
    if !check_absolute_url(homeserver) {
        return Err(ClientError::Config);
    }
    let mut url = homeserver.to_owned();
    url.append("/_matrix/client/v3/login");
    let mut body = String::from_str("{\"type\":\"m.login.password\",\"user\":");
    append_json_quoted(&mut body, username);
    body.append(",\"password\":");
    append_json_quoted(&mut body, password);
    body.append("}");
    proof {
        assert(body@ =~= login_body_spec(username@, password@));
    }
    Ok(HttpRequest { method: Method::Post, url, auth: None, body: Some(body) })
}

/// Decides the outcome of the login exchange from the status code and the
/// response body. A successful decision yields a session whose `user_id` and
/// `access_token` are exactly the values the server returned; a non-success
/// status is an authentication rejection; a success status whose body lacks
/// either field is a protocol fault.
pub fn finish_login(homeserver: &str, status: u16, body: &str) -> (r: Result<
    Session,
    ClientError,
>)
    ensures
        r is Ok <==> (200 <= status < 300 && json_str_field_of(body@, "access_token"@) is Some
            && json_str_field_of(body@, "user_id"@) is Some),
        r matches Ok(s) ==> s@ == (SessionView {
            homeserver: homeserver@,
            user_id: json_str_field_of(body@, "user_id"@)->Some_0,
            access_token: json_str_field_of(body@, "access_token"@)->Some_0,
            device_display_name: device_name_spec(),
        }),
        !(200 <= status < 300) ==> (r matches Err(e) && e matches ClientError::Auth {
            status: st,
            message: m,
        } && st == status && m@ == body@),
        (200 <= status < 300 && !(json_str_field_of(body@, "access_token"@) is Some
            && json_str_field_of(body@, "user_id"@) is Some)) ==> r matches Err(
            ClientError::Protocol,
        ),
{
    if !(status >= 200 && status < 300) {
        return Err(ClientError::Auth { status, message: body.to_owned() });
    }
    let tok = match json_str_field(body, "access_token") {
        Some(t) => t,
        None => {
            return Err(ClientError::Protocol);
        },
    };
    let uid = match json_str_field(body, "user_id") {
        Some(u) => u,
        None => {
            return Err(ClientError::Protocol);
        },
    };
    Ok(
        Session {
            homeserver: homeserver.to_owned(),
            user_id: uid,
            access_token: tok,
            device_display_name: String::from_str("Conduit Rust Client"),
        },
    )
}

} // verus!
