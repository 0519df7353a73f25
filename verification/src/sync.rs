//! Incremental synchronization: one-shot and continuous long-poll sync with
//! an opaque, monotonically advancing cursor.
//!
//! The engine itself never touches the network. A driver builds the next
//! request with [`SyncState::sync_request`], performs it, decodes the body
//! with [`parse_sync`], and hands the update to [`SyncState::absorb`], which
//! advances the cursor, feeds the room deltas into the index, and returns the
//! text messages of joined rooms in the order the server sent them. On a
//! transport failure the driver sleeps for [`backoff_delay_ms`] and retries
//! until [`should_abort`] says to give up; cancellation is checked between
//! iterations, never mid-flight.

use vstd::prelude::*;
use crate::errors::ClientError;
use crate::http::{HttpRequest, HttpRequestView, Method};
use crate::jsonval::{
    json_array_len_at, json_array_len_of, json_elem_str_field, json_elem_str_field_of,
    json_nested_str_field, json_nested_str_field_of, json_object_keys_at, json_object_keys_of,
    json_str_field, json_str_field_of,
};
use crate::rooms::{
    apply_delta_seq, find_room, Membership, RoomDelta, RoomDeltaView, RoomIndex,
};
use crate::session::Session;
use crate::textutil::{dec_str, str_eq, u64_to_dec};

verus! {

/// A text message event carried by a sync response. Ephemeral: handed to the
/// caller, never stored.
pub struct MessageEvent {
    pub room_id: String,
    pub sender: String,
    pub msgtype: String,
    pub body: String,
}

/// The mathematical image of a [`MessageEvent`].
pub ghost struct MessageEventView {
    pub room_id: Seq<char>,
    pub sender: Seq<char>,
    pub msgtype: Seq<char>,
    pub body: Seq<char>,
}

impl View for MessageEvent {
    type V = MessageEventView;

    open spec fn view(&self) -> MessageEventView {
        MessageEventView {
            room_id: self.room_id@,
            sender: self.sender@,
            msgtype: self.msgtype@,
            body: self.body@,
        }
    }
}

impl MessageEvent {
    /// A field-wise copy with the same image.
    pub fn duplicate(&self) -> (r: MessageEvent)
        ensures
            r@ == self@,
    {
        MessageEvent {
            room_id: self.room_id.clone(),
            sender: self.sender.clone(),
            msgtype: self.msgtype.clone(),
            body: self.body.clone(),
        }
    }
}

/// Everything one sync response carries: the cursor to resume from, the
/// per-room snapshot fragments, and the message events, in server order.
pub struct SyncUpdate {
    pub next_cursor: String,
    pub rooms: Vec<RoomDelta>,
    pub events: Vec<MessageEvent>,
}

/// The mathematical image of a [`SyncUpdate`].
pub ghost struct SyncUpdateView {
    pub next_cursor: Seq<char>,
    pub rooms: Seq<RoomDeltaView>,
    pub events: Seq<MessageEventView>,
}

impl View for SyncUpdate {
    type V = SyncUpdateView;

    open spec fn view(&self) -> SyncUpdateView {
        SyncUpdateView {
            next_cursor: self.next_cursor@,
            rooms: self.rooms@.map_values(|d: RoomDelta| d@),
            events: self.events@.map_values(|e: MessageEvent| e@),
        }
    }
}

/// Applying a whole response's deltas in order.
pub open spec fn apply_deltas_seq(
    s: Seq<crate::rooms::RoomView>,
    ds: Seq<RoomDeltaView>,
) -> Seq<crate::rooms::RoomView>
    decreases ds.len(),
{
    if ds.len() == 0 {
        s
    } else {
        apply_delta_seq(apply_deltas_seq(s, ds.drop_last()), ds.last())
    }
}

/// A message event is delivered exactly when it is a plain text message and
/// its room is joined in the index state reached after the response's deltas
/// were applied.
pub open spec fn is_delivered(e: MessageEventView, rooms: Seq<crate::rooms::RoomView>) -> bool {
    &&& e.msgtype == "m.text"@
    &&& find_room(rooms, e.room_id) matches Some(room) && room.membership is Joined
}

/// The cursor position of the sync engine: absent before the first response
/// (full initial snapshot), then always the last cursor the server returned.
pub struct SyncState {
    pub cursor: Option<String>,
}

/// The mathematical image of a [`SyncState`].
pub ghost struct SyncStateView {
    pub cursor: Option<Seq<char>>,
}

impl View for SyncState {
    type V = SyncStateView;

    open spec fn view(&self) -> SyncStateView {
        SyncStateView {
            cursor: match self.cursor {
                Some(c) => Some(c@),
                None => None,
            },
        }
    }
}

/// The sync endpoint path for a cursor position and a server-side long-poll
/// timeout in milliseconds.
pub open spec fn sync_path_spec(cursor: Option<Seq<char>>, timeout_ms: u64) -> Seq<char> {
    let base = "/_matrix/client/v3/sync?timeout="@ + dec_str(timeout_ms as nat);
    match cursor {
        Some(c) => base + "&since="@ + c,
        None => base,
    }
}

/// What absorbing one response does to the engine state: the cursor advances
/// to the cursor that response returned.
pub open spec fn stepped(st: SyncStateView, u: SyncUpdateView) -> SyncStateView {
    SyncStateView { cursor: Some(u.next_cursor) }
}

impl SyncState {
    /// A fresh engine, before any sync: no cursor, so the first request asks
    /// for the full initial snapshot.
    pub fn new() -> (r: Self)
        ensures
            r@.cursor is None,
    {
        SyncState { cursor: None }
    }

    /// Builds the next long-poll request: a GET of the sync endpoint with
    /// the current cursor (when one is held) and the given server-side wait,
    /// bearer-authenticated with the session's token.
    pub fn sync_request(&self, session: &Session, timeout_ms: u64) -> (r: HttpRequest)
        ensures
            r@ == (HttpRequestView {
                method: Method::Get,
                url: session@.homeserver + sync_path_spec(self@.cursor, timeout_ms),
                auth: Some(session@.access_token),
                body: None::<Seq<char>>,
            }),
    {
        let mut url = session.homeserver.clone();
        url.append("/_matrix/client/v3/sync?timeout=");
        let t = u64_to_dec(timeout_ms);
        url.append(t.as_str());
        match &self.cursor {
            Some(c) => {
                url.append("&since=");
                url.append(c.as_str());
            },
            None => {},
        }
        proof {
            assert(url@ =~= session@.homeserver + sync_path_spec(self@.cursor, timeout_ms));
        }
        HttpRequest {
            method: Method::Get,
            url,
            auth: Some(session.access_token.clone()),
            body: None,
        }
    }

    /// Absorbs one decoded response: advances the cursor to the returned
    /// one, merges every room delta into the index in order, and returns the
    /// text messages of joined rooms, in the order the server sent them.
    /// Key uniqueness of the index is preserved.
    pub fn absorb(&mut self, index: &mut RoomIndex, update: &SyncUpdate) -> (delivered: Vec<
        MessageEvent,
    >)
        requires
            old(index).wf(),
        ensures
            final(self)@ == stepped(old(self)@, update@),
            final(index)@ == apply_deltas_seq(old(index)@, update@.rooms),
            final(index).wf(),
            delivered@.map_values(|e: MessageEvent| e@) == update@.events.filter(
                |e: MessageEventView| is_delivered(e, apply_deltas_seq(old(index)@, update@.rooms)),
            ),
    {
        let n = update.rooms.len();
        let mut i: usize = 0;
        while i < n
            invariant
                i <= n,
                n == update.rooms@.len(),
                index@ == apply_deltas_seq(old(index)@, update@.rooms.take(i as int)),
                index.wf(),
            decreases n - i,
        {
            proof {
                assert(update@.rooms.take(i + 1).drop_last() =~= update@.rooms.take(i as int));
                assert(update@.rooms.take(i + 1).last() == update.rooms@[i as int]@);
            }
            index.apply_delta(&update.rooms[i]);
            i += 1;
        }
        proof {
            assert(update@.rooms.take(n as int) =~= update@.rooms);
        }
        let ghost settled = index@;
        let m = update.events.len();
        let mut delivered: Vec<MessageEvent> = Vec::new();
        let mut j: usize = 0;
        while j < m
            invariant
                j <= m,
                m == update.events@.len(),
                index@ == settled,
                index.wf(),
                delivered@.map_values(|e: MessageEvent| e@) =~= update@.events.take(
                    j as int,
                ).filter(|e: MessageEventView| is_delivered(e, settled)),
            decreases m - j,
        {
            proof {
                reveal(Seq::filter);
                assert(update@.events.take(j + 1).drop_last() =~= update@.events.take(j as int));
                assert(update@.events.take(j + 1).last() == update.events@[j as int]@);
            }
            let is_text = str_eq(update.events[j].msgtype.as_str(), "m.text");
            if is_text && index.is_joined(update.events[j].room_id.as_str()) {
                let copy = update.events[j].duplicate();
                let ghost prev = delivered@;
                delivered.push(copy);
                proof {
                    assert(delivered@ == prev.push(copy));
                    assert forall|k: int| 0 <= k < delivered@.len() implies (
                    #[trigger] delivered@[k])@ == update@.events.take(j + 1).filter(
                        |e: MessageEventView| is_delivered(e, settled),
                    )[k] by {
                        if k < delivered@.len() - 1 {
                            assert(delivered@[k] == prev[k]);
                            assert(prev.map_values(|e: MessageEvent| e@)[k] == update@.events.take(
                                j as int,
                            ).filter(|e: MessageEventView| is_delivered(e, settled))[k]);
                        } else {
                            assert(delivered@[k] == copy);
                        }
                    }
                    assert(delivered@.map_values(|e: MessageEvent| e@) =~= update@.events.take(
                        j + 1,
                    ).filter(|e: MessageEventView| is_delivered(e, settled)));
                }
            } else {
                proof {
                    assert(!is_delivered(update.events@[j as int]@, settled));
                    assert(delivered@.map_values(|e: MessageEvent| e@) =~= update@.events.take(
                        j + 1,
                    ).filter(|e: MessageEventView| is_delivered(e, settled)));
                }
            }
            j += 1;
        }
        proof {
            assert(update@.events.take(m as int) =~= update@.events);
        }
        self.cursor = Some(update.next_cursor.clone());
        delivered
    }
}

/// A sync issued right after another resumes exactly at the cursor the
/// earlier response returned: the follow-up request names that cursor in its
/// `since` parameter. Under the server's cursor contract (events up to the
/// cursor are never resent), no message event is delivered twice across the
/// two calls and none is skipped.
pub proof fn lemma_sync_resumes_at_returned_cursor(
    st: SyncStateView,
    u: SyncUpdateView,
    timeout_ms: u64,
)
    ensures
        sync_path_spec(stepped(st, u).cursor, timeout_ms) == "/_matrix/client/v3/sync?timeout="@
            + dec_str(timeout_ms as nat) + "&since="@ + u.next_cursor,
{
}

/// How a membership word of the wire decodes: the three known words, and
/// nothing else.
pub open spec fn membership_of_word(w: Seq<char>) -> Option<Membership> {
    if w == "join"@ {
        Some(Membership::Joined)
    } else if w == "invite"@ {
        Some(Membership::Invited)
    } else if w == "leave"@ {
        Some(Membership::Left)
    } else {
        None
    }
}

/// The delta a sync body carries for the room `id`: present exactly when the
/// room's entry holds a known membership word; the display name rides along
/// when the entry holds one.
pub open spec fn delta_of_key(body: Seq<char>, id: Seq<char>) -> Option<RoomDeltaView> {
    match json_nested_str_field_of(body, "rooms"@, id, "membership"@) {
        Some(word) => match membership_of_word(word) {
            Some(m) => Some(
                RoomDeltaView {
                    room_id: id,
                    display_name: json_nested_str_field_of(body, "rooms"@, id, "name"@),
                    membership: m,
                },
            ),
            None => None,
        },
        None => None,
    }
}

/// The deltas of a sync body for the given room ids, in order, skipping the
/// entries without a known membership word.
pub open spec fn deltas_of_keys(body: Seq<char>, keys: Seq<Seq<char>>) -> Seq<RoomDeltaView>
    decreases keys.len(),
{
    if keys.len() == 0 {
        Seq::empty()
    } else {
        let rest = deltas_of_keys(body, keys.drop_last());
        match delta_of_key(body, keys.last()) {
            Some(d) => rest.push(d),
            None => rest,
        }
    }
}

/// The message event a sync body carries at index `i` of its event array:
/// present exactly when all four string fields decode.
pub open spec fn event_of_index(body: Seq<char>, i: int) -> Option<MessageEventView> {
    let rid = json_elem_str_field_of(body, "events"@, i, "room_id"@);
    let snd = json_elem_str_field_of(body, "events"@, i, "sender"@);
    let mty = json_elem_str_field_of(body, "events"@, i, "msgtype"@);
    let bdy = json_elem_str_field_of(body, "events"@, i, "body"@);
    if rid is Some && snd is Some && mty is Some && bdy is Some {
        Some(
            MessageEventView {
                room_id: rid->Some_0,
                sender: snd->Some_0,
                msgtype: mty->Some_0,
                body: bdy->Some_0,
            },
        )
    } else {
        None
    }
}

/// The first `n` decodable message events of a sync body, in array order.
pub open spec fn events_of_len(body: Seq<char>, n: int) -> Seq<MessageEventView>
    decreases n,
{
    if n <= 0 {
        Seq::empty()
    } else {
        let rest = events_of_len(body, n - 1);
        match event_of_index(body, n - 1) {
            Some(e) => rest.push(e),
            None => rest,
        }
    }
}

/// A sync body is well formed: a JSON object with a string `next_cursor`, an
/// object `rooms` and an array `events`.
pub open spec fn sync_ok(body: Seq<char>) -> bool {
    &&& json_str_field_of(body, "next_cursor"@) is Some
    &&& json_object_keys_of(body, "rooms"@) is Some
    &&& json_array_len_of(body, "events"@) is Some
}

/// The room deltas a well-formed sync body carries, in key order.
pub open spec fn sync_rooms_spec(body: Seq<char>) -> Seq<RoomDeltaView> {
    deltas_of_keys(body, json_object_keys_of(body, "rooms"@)->Some_0)
}

/// The message events a well-formed sync body carries, in array order.
pub open spec fn sync_events_spec(body: Seq<char>) -> Seq<MessageEventView> {
    events_of_len(body, json_array_len_of(body, "events"@)->Some_0)
}

/// The decoded image of a well-formed sync body.
pub open spec fn sync_update_of(body: Seq<char>) -> SyncUpdateView {
    SyncUpdateView {
        next_cursor: json_str_field_of(body, "next_cursor"@)->Some_0,
        rooms: sync_rooms_spec(body),
        events: sync_events_spec(body),
    }
}

/// Decodes one sync response body.
///
/// The wire shape is an object `{"next_cursor": "...", "rooms": {...},
/// "events": [...]}`, all three members required. `rooms` maps each room id
/// to an object with a `membership` of `"join"`, `"invite"` or `"leave"`
/// and an optional string `name`; `events` is an array of objects with
/// string fields `room_id`, `sender`, `msgtype` and `body`. Unknown fields,
/// unknown membership words and incomplete event entries are ignorable;
/// text without that shape is a protocol fault.
pub fn parse_sync(body: &str) -> (r: Result<SyncUpdate, ClientError>)
    ensures
        r is Ok <==> sync_ok(body@),
        r matches Ok(u) ==> u@ == sync_update_of(body@),
        r matches Err(e) ==> e is Protocol,
{
    let next_cursor = match json_str_field(body, "next_cursor") {
        Some(c) => c,
        None => {
            return Err(ClientError::Protocol);
        },
    };
    let keys = match json_object_keys_at(body, "rooms") {
        Some(k) => k,
        None => {
            return Err(ClientError::Protocol);
        },
    };
    let nevents = match json_array_len_at(body, "events") {
        Some(n) => n,
        None => {
            return Err(ClientError::Protocol);
        },
    };
    let ghost kview = keys.deep_view();
    let mut rooms: Vec<RoomDelta> = Vec::new();
    let nkeys = keys.len();
    let mut i: usize = 0;
    while i < nkeys
        invariant
            i <= nkeys,
            nkeys == keys@.len(),
            kview == keys.deep_view(),
            kview.len() == nkeys,
            rooms@.map_values(|d: RoomDelta| d@) =~= deltas_of_keys(body@, kview.take(i as int)),
        decreases nkeys - i,
    {
        proof {
            assert(kview.take(i + 1).drop_last() =~= kview.take(i as int));
            assert(kview.take(i + 1).last() == kview[i as int]);
            assert(keys@[i as int]@ == kview[i as int]);
        }
        let word = json_nested_str_field(body, "rooms", keys[i].as_str(), "membership");
        match word {
            None => {
                proof {
                    assert(delta_of_key(body@, kview[i as int]) is None);
                    assert(rooms@.map_values(|d: RoomDelta| d@) =~= deltas_of_keys(
                        body@,
                        kview.take(i + 1),
                    ));
                }
            },
            Some(w) => {
                match parse_membership(w.as_str()) {
                    None => {
                        proof {
                            assert(delta_of_key(body@, kview[i as int]) is None);
                            assert(rooms@.map_values(|d: RoomDelta| d@) =~= deltas_of_keys(
                                body@,
                                kview.take(i + 1),
                            ));
                        }
                    },
                    Some(membership) => {
                        let display_name = json_nested_str_field(
                            body,
                            "rooms",
                            keys[i].as_str(),
                            "name",
                        );
                        let delta = RoomDelta { room_id: keys[i].clone(), display_name, membership };
                        proof {
                            assert(Some(delta@) == delta_of_key(body@, kview[i as int]));
                        }
                        let ghost prev = rooms@;
                        rooms.push(delta);
                        proof {
                            assert(rooms@ == prev.push(delta));
                            assert forall|k: int| 0 <= k < rooms@.len() implies (
                            #[trigger] rooms@[k])@ == deltas_of_keys(body@, kview.take(i + 1))[k] by {
                                if k < rooms@.len() - 1 {
                                    assert(rooms@[k] == prev[k]);
                                    assert(prev.map_values(|d: RoomDelta| d@)[k] == deltas_of_keys(
                                        body@,
                                        kview.take(i as int),
                                    )[k]);
                                } else {
                                    assert(rooms@[k] == delta);
                                }
                            }
                            assert(rooms@.map_values(|d: RoomDelta| d@) =~= deltas_of_keys(
                                body@,
                                kview.take(i + 1),
                            ));
                        }
                    },
                }
            },
        }
        i += 1;
    }
    proof {
        assert(kview.take(nkeys as int) =~= kview);
        assert(rooms@.map_values(|d: RoomDelta| d@) =~= sync_rooms_spec(body@));
    }
    let mut events: Vec<MessageEvent> = Vec::new();
    let mut j: usize = 0;
    while j < nevents
        invariant
            j <= nevents,
            events@.map_values(|e: MessageEvent| e@) =~= events_of_len(body@, j as int),
        decreases nevents - j,
    {
        let room_id = json_elem_str_field(body, "events", j, "room_id");
        let sender = json_elem_str_field(body, "events", j, "sender");
        let msgtype = json_elem_str_field(body, "events", j, "msgtype");
        let text = json_elem_str_field(body, "events", j, "body");
        match (room_id, sender, msgtype, text) {
            (Some(room_id), Some(sender), Some(msgtype), Some(text)) => {
                let event = MessageEvent { room_id, sender, msgtype, body: text };
                proof {
                    assert(Some(event@) == event_of_index(body@, j as int));
                }
                let ghost prev = events@;
                events.push(event);
                proof {
                    assert(events@ == prev.push(event));
                    assert forall|k: int| 0 <= k < events@.len() implies (
                    #[trigger] events@[k])@ == events_of_len(body@, j + 1)[k] by {
                        if k < events@.len() - 1 {
                            assert(events@[k] == prev[k]);
                            assert(prev.map_values(|e: MessageEvent| e@)[k] == events_of_len(
                                body@,
                                j as int,
                            )[k]);
                        } else {
                            assert(events@[k] == event);
                        }
                    }
                    assert(events@.map_values(|e: MessageEvent| e@) =~= events_of_len(
                        body@,
                        j + 1,
                    ));
                }
            },
            _ => {
                proof {
                    assert(event_of_index(body@, j as int) is None);
                    assert(events@.map_values(|e: MessageEvent| e@) =~= events_of_len(
                        body@,
                        j + 1,
                    ));
                }
            },
        }
        j += 1;
    }
    proof {
        assert(events@.map_values(|e: MessageEvent| e@) =~= sync_events_spec(body@));
    }
    Ok(SyncUpdate { next_cursor, rooms, events })
}

/// Decides one sync exchange from the status code and the body: a
/// non-success status is a transport failure, retryable in the loop; a
/// success status with a malformed body is a protocol fault, always fatal;
/// a success status with a well-formed body is the decoded update.
pub fn finish_sync(status: u16, body: &str) -> (r: Result<SyncUpdate, ClientError>)
    ensures
        !(200 <= status < 300) ==> (r matches Err(e) && e matches ClientError::Transport {
            status: st,
            message: m,
        } && st == status && m@ == body@),
        200 <= status < 300 ==> (r is Ok <==> sync_ok(body@)),
        200 <= status < 300 ==> (r matches Ok(u) ==> u@ == sync_update_of(body@)),
        200 <= status < 300 ==> (r matches Err(e) ==> e is Protocol),
{
    if !(status >= 200 && status < 300) {
        return Err(ClientError::Transport { status, message: body.to_owned() });
    }
    parse_sync(body)
}

/// The membership words the sync wire shape uses, decided exactly.
pub fn parse_membership(word: &str) -> (r: Option<Membership>)
    ensures
        r == membership_of_word(word@),
{
    if str_eq(word, "join") {
        Some(Membership::Joined)
    } else if str_eq(word, "invite") {
        Some(Membership::Invited)
    } else if str_eq(word, "leave") {
        Some(Membership::Left)
    } else {
        None
    }
}

/// Retry tuning for the continuous sync loop: how long to sleep after each
/// consecutive transport failure, and when to give up. The values are a
/// tuning parameter, not a correctness requirement.
pub struct RetryPolicy {
    pub base_delay_ms: u64,
    pub ceiling_ms: u64,
    pub max_failures: u32,
}

pub open spec fn cap_min(a: nat, b: nat) -> nat {
    if a <= b {
        a
    } else {
        b
    }
}

/// Exponential backoff with a ceiling: the delay after `failures`
/// consecutive failures doubles each time and never exceeds the ceiling.
pub open spec fn backoff_spec(base: nat, ceiling: nat, failures: nat) -> nat
    decreases failures,
{
    if failures == 0 {
        cap_min(base, ceiling)
    } else {
        cap_min(backoff_spec(base, ceiling, (failures - 1) as nat) * 2, ceiling)
    }
}

/// The sleep before the next attempt, after `failures` consecutive
/// transport failures.
pub fn backoff_delay_ms(policy: &RetryPolicy, failures: u32) -> (r: u64)
    ensures
        r == backoff_spec(policy.base_delay_ms as nat, policy.ceiling_ms as nat, failures as nat),
{
    let base = policy.base_delay_ms;
    let ceiling = policy.ceiling_ms;
    let mut d: u64 = if base <= ceiling {
        base
    } else {
        ceiling
    };
    let mut k: u32 = 0;
    while k < failures
        invariant
            k <= failures,
            d <= ceiling,
            d == backoff_spec(base as nat, ceiling as nat, k as nat),
        decreases failures - k,
    {
        if d > ceiling / 2 {
            d = ceiling;
        } else {
            d = d * 2;
        }
        k += 1;
    }
    d
}

/// Whether the continuous loop gives up instead of retrying once more.
pub fn should_abort(policy: &RetryPolicy, failures: u32) -> (r: bool)
    ensures
        r == (failures >= policy.max_failures),
{
    failures >= policy.max_failures
}

} // verus!
