//! Account registration: building the register exchange and deciding its
//! outcome, including the duplicate-user case.
//!
//! Each registration in a batch is independent: a driver walks the caller's
//! list, performs one exchange per entry, and collects one [`RegOutcome`]
//! each, so one failure never aborts the rest.

use vstd::prelude::*;
use crate::errors::ClientError;
use crate::http::{HttpRequest, HttpRequestView, Method};
use crate::jsontext::{append_json_quoted, json_quoted};
use crate::jsonval::{json_str_field, json_str_field_of};
use crate::textutil::{contains_substring, has_substring};
use crate::urlcheck::{check_absolute_url, is_absolute_url};

verus! {

/// The outcome of one registration attempt.
#[derive(Debug)]
pub enum RegOutcome {
    /// The server created the account and returned its id and a token.
    Registered { user_id: String, access_token: String },
    /// The username was already taken: the wanted account exists, so the
    /// precondition is already satisfied. Recorded as skipped, never as a
    /// failure.
    Skipped,
    /// Anything else: the status and the raw body, kept for diagnostics.
    Failed { status: u16, message: String },
}

/// The register endpoint path.
pub open spec fn register_path() -> Seq<char> {
    "/_matrix/client/v3/register"@
}

/// The registration body: a dummy-auth stage, the credentials, the device
/// display name, and login not inhibited, so the response carries a token.
pub open spec fn register_body_spec(user: Seq<char>, pass: Seq<char>, device: Seq<char>) -> Seq<
    char,
> {
    "{\"auth\":{\"type\":\"m.login.dummy\"},\"username\":"@ + json_quoted(user) + ",\"password\":"@
        + json_quoted(pass) + ",\"initial_device_display_name\":"@ + json_quoted(device)
        + ",\"inhibit_login\":false}"@
}

/// The duplicate-user signal a failure body carries.
pub open spec fn user_in_use_signal() -> Seq<char> {
    "M_USER_IN_USE"@
}

/// Builds the registration exchange for one account. Fails with `Config`
/// exactly when the homeserver is not an absolute URL.
pub fn register_request(
    homeserver: &str,
    username: &str,
    password: &str,
    device_name: &str,
) -> (r: Result<HttpRequest, ClientError>)
    ensures
        r is Ok <==> is_absolute_url(homeserver@),
        r matches Ok(req) ==> req@ == (HttpRequestView {
            method: Method::Post,
            url: homeserver@ + register_path(),
            auth: None::<Seq<char>>,
            body: Some(register_body_spec(username@, password@, device_name@)),
        }),
        r matches Err(e) ==> e is Config,
{
    if !check_absolute_url(homeserver) {
        return Err(ClientError::Config);
    }
    let mut url = homeserver.to_owned();
    url.append("/_matrix/client/v3/register");
    let mut body = String::from_str("{\"auth\":{\"type\":\"m.login.dummy\"},\"username\":");
    append_json_quoted(&mut body, username);
    body.append(",\"password\":");
    append_json_quoted(&mut body, password);
    body.append(",\"initial_device_display_name\":");
    append_json_quoted(&mut body, device_name);
    body.append(",\"inhibit_login\":false}");
    proof {
        assert(body@ =~= register_body_spec(username@, password@, device_name@));
    }
    Ok(HttpRequest { method: Method::Post, url, auth: None, body: Some(body) })
}

/// Decides one registration outcome from the status code and the body.
///
/// A success status whose body carries both `user_id` and `access_token` is
/// a registration; a failure body carrying the duplicate-user signal is
/// skipped — the account already exists, which is not an error; everything
/// else failed, with the status and raw body retained.
pub fn finish_register(status: u16, body: &str) -> (r: RegOutcome)
    ensures
        r is Registered <==> (200 <= status < 300 && json_str_field_of(body@, "user_id"@) is Some
            && json_str_field_of(body@, "access_token"@) is Some),
        r matches RegOutcome::Registered { user_id, access_token } ==> Some(user_id@)
            == json_str_field_of(body@, "user_id"@) && Some(access_token@) == json_str_field_of(
            body@,
            "access_token"@,
        ),
        r is Skipped <==> (!(200 <= status < 300) && has_substring(body@, user_in_use_signal())),
        r matches RegOutcome::Failed { status: st, message: m } ==> st == status && m@ == body@,
{
    if status >= 200 && status < 300 {
        let uid = match json_str_field(body, "user_id") {
            Some(u) => u,
            None => {
                return RegOutcome::Failed { status, message: body.to_owned() };
            },
        };
        let tok = match json_str_field(body, "access_token") {
            Some(t) => t,
            None => {
                return RegOutcome::Failed { status, message: body.to_owned() };
            },
        };
        RegOutcome::Registered { user_id: uid, access_token: tok }
    } else if contains_substring(body, "M_USER_IN_USE") {
        RegOutcome::Skipped
    } else {
        RegOutcome::Failed { status, message: body.to_owned() }
    }
}

/// The profile display-name path for a user.
pub open spec fn displayname_path_spec(user_id: Seq<char>) -> Seq<char> {
    "/_matrix/client/v3/profile/"@ + user_id + "/displayname"@
}

/// The profile display-name body.
pub open spec fn displayname_body_spec(name: Seq<char>) -> Seq<char> {
    "{\"displayname\":"@ + json_quoted(name) + "}"@
}

/// Builds the bearer-authenticated update of a user's display name, done
/// right after a successful registration with the token it returned.
pub fn displayname_request(
    homeserver: &str,
    access_token: &str,
    user_id: &str,
    display_name: &str,
) -> (r: HttpRequest)
    ensures
        r@ == (HttpRequestView {
            method: Method::Put,
            url: homeserver@ + displayname_path_spec(user_id@),
            auth: Some(access_token@),
            body: Some(displayname_body_spec(display_name@)),
        }),
{
    let mut url = homeserver.to_owned();
    url.append("/_matrix/client/v3/profile/");
    url.append(user_id);
    url.append("/displayname");
    let mut body = String::from_str("{\"displayname\":");
    append_json_quoted(&mut body, display_name);
    body.append("}");
    proof {
        assert(url@ =~= homeserver@ + displayname_path_spec(user_id@));
        assert(body@ =~= displayname_body_spec(display_name@));
    }
    HttpRequest {
        method: Method::Put,
        url,
        auth: Some(access_token.to_owned()),
        body: Some(body),
    }
}

} // verus!
