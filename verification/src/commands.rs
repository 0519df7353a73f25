//! The thin command operations: sending a message and creating a room.

use vstd::prelude::*;
use crate::errors::ClientError;
use crate::http::{HttpRequest, HttpRequestView, Method};
use crate::jsontext::{append_json_quoted, json_quoted};
use crate::jsonval::{json_str_field, json_str_field_of};
use crate::rooms::{apply_delta_seq, find_room, Membership, RoomDelta, RoomDeltaView, RoomIndex};
use crate::session::Session;

verus! {

/// The message send path for a room and an idempotency key.
pub open spec fn send_path_spec(room_id: Seq<char>, txn_id: Seq<char>) -> Seq<char> {
    "/_matrix/client/v3/rooms/"@ + room_id + "/send/m.room.message/"@ + txn_id
}

/// The plain-text message body.
pub open spec fn message_body_spec(text: Seq<char>) -> Seq<char> {
    "{\"msgtype\":\"m.text\",\"body\":"@ + json_quoted(text) + "}"@
}

/// Builds the message send, fail-fast: a room the index has never seen is
/// refused locally with `NotFound` and no request is produced, so no network
/// call is made — the caller must sync before sending to a room it has not
/// seen. `txn_id` is the per-send idempotency key.
pub fn send_message_request(
    session: &Session,
    index: &RoomIndex,
    room_id: &str,
    text: &str,
    txn_id: &str,
) -> (r: Result<HttpRequest, ClientError>)
    ensures
        r is Ok <==> find_room(index@, room_id@) is Some,
        r matches Ok(req) ==> req@ == (HttpRequestView {
            method: Method::Put,
            url: session@.homeserver + send_path_spec(room_id@, txn_id@),
            auth: Some(session@.access_token),
            body: Some(message_body_spec(text@)),
        }),
        r matches Err(e) ==> e is NotFound,
{
    if !index.contains_room(room_id) {
        return Err(ClientError::NotFound);
    }
    let mut url = session.homeserver.clone();
    url.append("/_matrix/client/v3/rooms/");
    url.append(room_id);
    url.append("/send/m.room.message/");
    url.append(txn_id);
    let mut body = String::from_str("{\"msgtype\":\"m.text\",\"body\":");
    append_json_quoted(&mut body, text);
    body.append("}");
    proof {
        assert(url@ =~= session@.homeserver + send_path_spec(room_id@, txn_id@));
        assert(body@ =~= message_body_spec(text@));
    }
    Ok(
        HttpRequest {
            method: Method::Put,
            url,
            auth: Some(session.access_token.clone()),
            body: Some(body),
        },
    )
}

/// Decides the send outcome: the event id the server assigned the message.
pub fn finish_send(status: u16, body: &str) -> (r: Result<String, ClientError>)
    ensures
        r is Ok <==> (200 <= status < 300 && json_str_field_of(body@, "event_id"@) is Some),
        r matches Ok(id) ==> Some(id@) == json_str_field_of(body@, "event_id"@),
        !(200 <= status < 300) ==> (r matches Err(e) && e matches ClientError::Transport {
            status: st,
            message: m,
        } && st == status && m@ == body@),
        (200 <= status < 300 && json_str_field_of(body@, "event_id"@) is None) ==> r matches Err(
            ClientError::Protocol,
        ),
{
    if !(status >= 200 && status < 300) {
        return Err(ClientError::Transport { status, message: body.to_owned() });
    }
    match json_str_field(body, "event_id") {
        Some(id) => Ok(id),
        None => Err(ClientError::Protocol),
    }
}

/// The room creation path.
pub open spec fn create_room_path() -> Seq<char> {
    "/_matrix/client/v3/createRoom"@
}

/// The room creation body: the name, the topic when given, a public-chat
/// preset and a fixed room version.
pub open spec fn create_room_body_spec(name: Seq<char>, topic: Option<Seq<char>>) -> Seq<char> {
    match topic {
        Some(t) => "{\"name\":"@ + json_quoted(name) + ",\"topic\":"@ + json_quoted(t)
            + ",\"preset\":\"public_chat\",\"room_version\":\"10\"}"@,
        None => "{\"name\":"@ + json_quoted(name)
            + ",\"preset\":\"public_chat\",\"room_version\":\"10\"}"@,
    }
}

/// Builds the bearer-authenticated room creation.
pub fn create_room_request(session: &Session, name: &str, topic: Option<&str>) -> (r: HttpRequest)
    ensures
        r@ == (HttpRequestView {
            method: Method::Post,
            url: session@.homeserver + create_room_path(),
            auth: Some(session@.access_token),
            body: Some(
                create_room_body_spec(
                    name@,
                    match topic {
                        Some(t) => Some(t@),
                        None => None,
                    },
                ),
            ),
        }),
{
    let mut url = session.homeserver.clone();
    url.append("/_matrix/client/v3/createRoom");
    let mut body = String::from_str("{\"name\":");
    append_json_quoted(&mut body, name);
    match topic {
        Some(t) => {
            body.append(",\"topic\":");
            append_json_quoted(&mut body, t);
            body.append(",\"preset\":\"public_chat\",\"room_version\":\"10\"}");
        },
        None => {
            body.append(",\"preset\":\"public_chat\",\"room_version\":\"10\"}");
        },
    }
    proof {
        assert(body@ =~= create_room_body_spec(
            name@,
            match topic {
                Some(t) => Some(t@),
                None => None,
            },
        ));
    }
    HttpRequest {
        method: Method::Post,
        url,
        auth: Some(session.access_token.clone()),
        body: Some(body),
    }
}

/// Decides the room creation outcome: the server-assigned room id.
pub fn finish_create_room(status: u16, body: &str) -> (r: Result<String, ClientError>)
    ensures
        r is Ok <==> (200 <= status < 300 && json_str_field_of(body@, "room_id"@) is Some),
        r matches Ok(id) ==> Some(id@) == json_str_field_of(body@, "room_id"@),
        !(200 <= status < 300) ==> (r matches Err(e) && e matches ClientError::Transport {
            status: st,
            message: m,
        } && st == status && m@ == body@),
        (200 <= status < 300 && json_str_field_of(body@, "room_id"@) is None) ==> r matches Err(
            ClientError::Protocol,
        ),
{
    if !(status >= 200 && status < 300) {
        return Err(ClientError::Transport { status, message: body.to_owned() });
    }
    match json_str_field(body, "room_id") {
        Some(id) => Ok(id),
        None => Err(ClientError::Protocol),
    }
}

/// Records a freshly created room in the index, joined, under the name it
/// was created with. Key uniqueness is preserved.
pub fn record_created_room(index: &mut RoomIndex, room_id: &str, name: &str)
    ensures
        final(index)@ == apply_delta_seq(
            old(index)@,
            (RoomDeltaView {
                room_id: room_id@,
                display_name: Some(name@),
                membership: Membership::Joined,
            }),
        ),
        old(index).wf() ==> final(index).wf(),
{
    let delta = RoomDelta {
        room_id: room_id.to_owned(),
        display_name: Some(name.to_owned()),
        membership: Membership::Joined,
    };
    index.apply_delta(&delta);
}

} // verus!
