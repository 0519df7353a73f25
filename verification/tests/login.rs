use conduit_client::errors::ClientError;
use conduit_client::http::Method;
use conduit_client::session::{finish_login, login_request};

#[test]
fn login_request_rejects_bad_homeserver() {
    let r = login_request("not a url", "admin", "admin123");
    assert!(matches!(r, Err(ClientError::Config)));
}

#[test]
fn login_request_builds_exchange() {
    let req = login_request("http://conduit.local", "admin", "admin123").unwrap();
    assert_eq!(req.method, Method::Post);
    assert_eq!(req.url, "http://conduit.local/_matrix/client/v3/login");
    assert!(req.auth.is_none());
    assert_eq!(
        req.body.as_deref().unwrap(),
        "{\"type\":\"m.login.password\",\"user\":\"admin\",\"password\":\"admin123\"}"
    );
}

#[test]
fn login_request_escapes_credentials() {
    let req = login_request("http://conduit.local", "a\"b", "p\\w").unwrap();
    assert_eq!(
        req.body.as_deref().unwrap(),
        "{\"type\":\"m.login.password\",\"user\":\"a\\\"b\",\"password\":\"p\\\\w\"}"
    );
}

#[test]
fn successful_login_takes_server_user_id() {
    let body = "{\"access_token\":\"syt_token\",\"user_id\":\"@admin:conduit.local\"}";
    let session = finish_login("http://conduit.local", 200, body).unwrap();
    assert_eq!(session.user_id, "@admin:conduit.local");
    assert_eq!(session.access_token, "syt_token");
    assert_eq!(session.homeserver, "http://conduit.local");
    assert_eq!(session.device_display_name, "Conduit Rust Client");
}

#[test]
fn rejected_login_is_auth_error() {
    let r = finish_login("http://conduit.local", 403, "{\"errcode\":\"M_FORBIDDEN\"}");
    match r {
        Err(ClientError::Auth { status, message }) => {
            assert_eq!(status, 403);
            assert_eq!(message, "{\"errcode\":\"M_FORBIDDEN\"}");
        }
        other => panic!("expected an auth error, got {:?}", other.map(|s| s.user_id)),
    }
}

#[test]
fn error_tags_name_each_variant() {
    assert_eq!(ClientError::Config.tag(), "config");
    assert_eq!(ClientError::Protocol.tag(), "protocol");
    assert_eq!(ClientError::NotFound.tag(), "not-found");
    assert_eq!(ClientError::Auth { status: 403, message: String::new() }.tag(), "auth");
    assert_eq!(ClientError::Transport { status: 500, message: String::new() }.tag(), "transport");
}

#[test]
fn malformed_login_body_is_protocol_error() {
    let missing = finish_login("http://conduit.local", 200, "{\"user_id\":\"@a:b\"}");
    assert!(matches!(missing, Err(ClientError::Protocol)));
    let not_json = finish_login("http://conduit.local", 200, "not json at all");
    assert!(matches!(not_json, Err(ClientError::Protocol)));
}
