use conduit_client::errors::ClientError;
use conduit_client::http::Method;
use conduit_client::register::{
    displayname_request, finish_register, register_request, RegOutcome,
};

#[test]
fn register_request_builds_exchange() {
    let req =
        register_request("http://conduit.local", "bob", "bob123", "Conduit Client - Bob Smith")
            .unwrap();
    assert_eq!(req.method, Method::Post);
    assert_eq!(req.url, "http://conduit.local/_matrix/client/v3/register");
    assert!(req.auth.is_none());
    assert_eq!(
        req.body.as_deref().unwrap(),
        "{\"auth\":{\"type\":\"m.login.dummy\"},\"username\":\"bob\",\
         \"password\":\"bob123\",\
         \"initial_device_display_name\":\"Conduit Client - Bob Smith\",\
         \"inhibit_login\":false}"
    );
}

#[test]
fn register_request_rejects_bad_homeserver() {
    let r = register_request("::nope::", "bob", "bob123", "Bob");
    assert!(matches!(r, Err(ClientError::Config)));
}

#[test]
fn successful_registration_is_registered() {
    let body = "{\"user_id\":\"@bob:conduit.local\",\"access_token\":\"syt_bob\"}";
    match finish_register(200, body) {
        RegOutcome::Registered { user_id, access_token } => {
            assert_eq!(user_id, "@bob:conduit.local");
            assert_eq!(access_token, "syt_bob");
        }
        other => panic!("expected a registration, got {:?}", other),
    }
}

#[test]
fn duplicate_user_is_skipped_not_failed() {
    // Registering a name a second time: the server answers with the
    // duplicate-user signal, and the outcome is skipped, not failed.
    let first = finish_register(
        200,
        "{\"user_id\":\"@bob:conduit.local\",\"access_token\":\"syt_bob\"}",
    );
    assert!(matches!(first, RegOutcome::Registered { .. }));
    let second = finish_register(
        400,
        "{\"errcode\":\"M_USER_IN_USE\",\"error\":\"User ID already taken.\"}",
    );
    assert!(matches!(second, RegOutcome::Skipped));
    assert!(!matches!(second, RegOutcome::Failed { .. }));
}

#[test]
fn other_rejections_are_failed() {
    match finish_register(403, "{\"errcode\":\"M_FORBIDDEN\"}") {
        RegOutcome::Failed { status, message } => {
            assert_eq!(status, 403);
            assert_eq!(message, "{\"errcode\":\"M_FORBIDDEN\"}");
        }
        other => panic!("expected a failure, got {:?}", other),
    }
}

#[test]
fn success_without_token_is_failed() {
    let r = finish_register(200, "{\"user_id\":\"@bob:conduit.local\"}");
    assert!(matches!(r, RegOutcome::Failed { status: 200, .. }));
}

#[test]
fn batch_with_one_collision_keeps_the_other_outcomes() {
    // Three accounts, the middle one colliding with an existing account:
    // the batch is independent per user, so the collision is recorded as
    // skipped and the other two register.
    let answers = [
        (200u16, "{\"user_id\":\"@admin:hs\",\"access_token\":\"t1\"}"),
        (400u16, "{\"errcode\":\"M_USER_IN_USE\"}"),
        (200u16, "{\"user_id\":\"@rachel:hs\",\"access_token\":\"t3\"}"),
    ];
    let outcomes: Vec<RegOutcome> =
        answers.iter().map(|(status, body)| finish_register(*status, body)).collect();
    assert!(matches!(outcomes[0], RegOutcome::Registered { .. }));
    assert!(matches!(outcomes[1], RegOutcome::Skipped));
    assert!(matches!(outcomes[2], RegOutcome::Registered { .. }));
    assert!(outcomes.iter().all(|o| !matches!(o, RegOutcome::Failed { .. })));
}

#[test]
fn displayname_request_builds_exchange() {
    let req = displayname_request(
        "http://conduit.local",
        "syt_bob",
        "@bob:conduit.local",
        "Bob Smith",
    );
    assert_eq!(req.method, Method::Put);
    assert_eq!(
        req.url,
        "http://conduit.local/_matrix/client/v3/profile/@bob:conduit.local/displayname"
    );
    assert_eq!(req.auth.as_deref(), Some("syt_bob"));
    assert_eq!(req.body.as_deref().unwrap(), "{\"displayname\":\"Bob Smith\"}");
}
