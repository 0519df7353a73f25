use conduit_client::errors::ClientError;
use conduit_client::http::Method;
use conduit_client::rooms::{Membership, RoomIndex};
use conduit_client::session::Session;
use conduit_client::sync::{
    backoff_delay_ms, finish_sync, parse_membership, parse_sync, should_abort, RetryPolicy,
    SyncState,
};

fn session() -> Session {
    Session {
        homeserver: "http://conduit.local".to_string(),
        user_id: "@admin:conduit.local".to_string(),
        access_token: "syt_token".to_string(),
        device_display_name: "Conduit Rust Client".to_string(),
    }
}

#[test]
fn first_request_has_no_cursor() {
    let state = SyncState::new();
    let req = state.sync_request(&session(), 30000);
    assert_eq!(req.method, Method::Get);
    assert_eq!(req.url, "http://conduit.local/_matrix/client/v3/sync?timeout=30000");
    assert_eq!(req.auth.as_deref(), Some("syt_token"));
    assert!(req.body.is_none());
}

#[test]
fn absorbing_a_response_updates_rooms_cursor_and_messages() {
    let body = "{\"next_cursor\":\"c1\",\
        \"rooms\":{\
            \"!a:hs\":{\"membership\":\"join\",\"name\":\"Alpha\"},\
            \"!b:hs\":{\"membership\":\"leave\"}},\
        \"events\":[\
            {\"room_id\":\"!a:hs\",\"sender\":\"@u:hs\",\"msgtype\":\"m.text\",\"body\":\"hi\"},\
            {\"room_id\":\"!b:hs\",\"sender\":\"@u:hs\",\"msgtype\":\"m.text\",\"body\":\"gone\"},\
            {\"room_id\":\"!a:hs\",\"sender\":\"@u:hs\",\"msgtype\":\"m.image\",\"body\":\"pic\"}]}";
    let update = parse_sync(body).unwrap();
    assert_eq!(update.next_cursor, "c1");

    let mut state = SyncState::new();
    let mut index = RoomIndex::new();
    let delivered = state.absorb(&mut index, &update);

    // Only the text message of the joined room is delivered, in order.
    assert_eq!(delivered.len(), 1);
    assert_eq!(delivered[0].body, "hi");
    assert_eq!(delivered[0].sender, "@u:hs");

    assert!(index.is_joined("!a:hs"));
    assert_eq!(index.get("!a:hs").unwrap().display_name.as_deref(), Some("Alpha"));
    assert_eq!(index.get("!b:hs").unwrap().membership, Membership::Left);

    // The follow-up request resumes exactly at the returned cursor, so the
    // server will not resend these events.
    let req = state.sync_request(&session(), 5000);
    assert_eq!(req.url, "http://conduit.local/_matrix/client/v3/sync?timeout=5000&since=c1");
}

#[test]
fn second_sync_does_not_redeliver() {
    let first = "{\"next_cursor\":\"c1\",\
        \"rooms\":{\"!a:hs\":{\"membership\":\"join\"}},\
        \"events\":[{\"room_id\":\"!a:hs\",\"sender\":\"@u:hs\",\"msgtype\":\"m.text\",\"body\":\"hi\"}]}";
    let mut state = SyncState::new();
    let mut index = RoomIndex::new();
    let update = parse_sync(first).unwrap();
    let delivered = state.absorb(&mut index, &update);
    assert_eq!(delivered.len(), 1);

    // The server answers the resumed cursor with no further events.
    let second = "{\"next_cursor\":\"c2\",\"rooms\":{},\"events\":[]}";
    let update2 = parse_sync(second).unwrap();
    let delivered2 = state.absorb(&mut index, &update2);
    assert!(delivered2.is_empty());
    let req = state.sync_request(&session(), 5000);
    assert!(req.url.ends_with("&since=c2"));
}

#[test]
fn unknown_membership_words_and_incomplete_events_are_ignored() {
    let body = "{\"next_cursor\":\"c\",\
        \"rooms\":{\"!a:hs\":{\"membership\":\"ban\"},\"!b:hs\":{}},\
        \"events\":[{\"room_id\":\"!a:hs\",\"sender\":\"@u:hs\"}]}";
    let update = parse_sync(body).unwrap();
    assert!(update.rooms.is_empty());
    assert!(update.events.is_empty());
}

#[test]
fn malformed_sync_bodies_are_protocol_errors() {
    assert!(matches!(parse_sync("not json"), Err(ClientError::Protocol)));
    assert!(matches!(parse_sync("{\"rooms\":{}}"), Err(ClientError::Protocol)));
    assert!(matches!(
        parse_sync("{\"next_cursor\":\"c\",\"rooms\":3,\"events\":[]}"),
        Err(ClientError::Protocol)
    ));
    assert!(matches!(
        parse_sync("{\"next_cursor\":\"c\",\"rooms\":{},\"events\":\"nope\"}"),
        Err(ClientError::Protocol)
    ));
    // All three members are required.
    assert!(matches!(
        parse_sync("{\"next_cursor\":\"c\",\"events\":[]}"),
        Err(ClientError::Protocol)
    ));
    assert!(matches!(
        parse_sync("{\"next_cursor\":\"c\",\"rooms\":{}}"),
        Err(ClientError::Protocol)
    ));
}

#[test]
fn sync_decider_separates_transport_from_protocol() {
    // A non-success status is a transport failure, retryable in the loop.
    let transport = match finish_sync(502, "bad gateway") {
        Err(e) => e,
        Ok(_) => panic!("expected a failure"),
    };
    match &transport {
        ClientError::Transport { status, message } => {
            assert_eq!(*status, 502);
            assert_eq!(message, "bad gateway");
        }
        other => panic!("expected a transport failure, got {:?}", other),
    }
    assert!(transport.is_retryable());

    // A success status with a malformed body is a protocol fault, fatal.
    let protocol = match finish_sync(200, "not json") {
        Err(e) => e,
        Ok(_) => panic!("expected a failure"),
    };
    assert!(matches!(protocol, ClientError::Protocol));
    assert!(!protocol.is_retryable());

    // A success status with a well-formed body decodes.
    let ok = finish_sync(200, "{\"next_cursor\":\"c9\",\"rooms\":{},\"events\":[]}").unwrap();
    assert_eq!(ok.next_cursor, "c9");
    assert!(ok.rooms.is_empty());
    assert!(ok.events.is_empty());
}

#[test]
fn only_transport_failures_are_retryable() {
    assert!(ClientError::Transport { status: 0, message: String::new() }.is_retryable());
    assert!(!ClientError::Protocol.is_retryable());
    assert!(!ClientError::Config.is_retryable());
    assert!(!ClientError::Auth { status: 403, message: String::new() }.is_retryable());
    assert!(!ClientError::NotFound.is_retryable());
}

#[test]
fn membership_words() {
    assert_eq!(parse_membership("join"), Some(Membership::Joined));
    assert_eq!(parse_membership("invite"), Some(Membership::Invited));
    assert_eq!(parse_membership("leave"), Some(Membership::Left));
    assert_eq!(parse_membership("ban"), None);
}

#[test]
fn backoff_doubles_to_the_ceiling() {
    let policy = RetryPolicy { base_delay_ms: 500, ceiling_ms: 8000, max_failures: 5 };
    assert_eq!(backoff_delay_ms(&policy, 0), 500);
    assert_eq!(backoff_delay_ms(&policy, 1), 1000);
    assert_eq!(backoff_delay_ms(&policy, 2), 2000);
    assert_eq!(backoff_delay_ms(&policy, 3), 4000);
    assert_eq!(backoff_delay_ms(&policy, 4), 8000);
    assert_eq!(backoff_delay_ms(&policy, 5), 8000);
    assert_eq!(backoff_delay_ms(&policy, 63), 8000);

    assert!(!should_abort(&policy, 4));
    assert!(should_abort(&policy, 5));
}
