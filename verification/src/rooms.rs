//! The room index: an in-memory map from room id to room metadata, built and
//! refreshed exclusively from sync deltas.

use vstd::prelude::*;

verus! {

/// Membership state the user holds with respect to a room.
#[derive(Clone, Copy, Debug, PartialEq, Eq, Structural)]
pub enum Membership {
    Joined,
    Invited,
    Left,
}

/// A room as the index knows it. `room_id` is server-assigned and is the
/// sole key of the index; a room marked left keeps its record (the
/// membership flips, the entry is retained).
pub struct Room {
    pub room_id: String,
    pub display_name: Option<String>,
    pub membership: Membership,
}

/// The mathematical image of a [`Room`].
pub ghost struct RoomView {
    pub room_id: Seq<char>,
    pub display_name: Option<Seq<char>>,
    pub membership: Membership,
}

impl View for Room {
    type V = RoomView;

    open spec fn view(&self) -> RoomView {
        RoomView {
            room_id: self.room_id@,
            display_name: match self.display_name {
                Some(n) => Some(n@),
                None => None,
            },
            membership: self.membership,
        }
    }
}

impl Room {
    /// A field-wise copy with the same image.
    pub fn duplicate(&self) -> (r: Room)
        ensures
            r@ == self@,
    {
        Room {
            room_id: self.room_id.clone(),
            display_name: match &self.display_name {
                Some(n) => Some(n.clone()),
                None => None,
            },
            membership: self.membership,
        }
    }
}

/// A superseding per-room snapshot fragment from one sync response: the new
/// membership, and a display name when the server sent one.
pub struct RoomDelta {
    pub room_id: String,
    pub display_name: Option<String>,
    pub membership: Membership,
}

/// The mathematical image of a [`RoomDelta`].
pub ghost struct RoomDeltaView {
    pub room_id: Seq<char>,
    pub display_name: Option<Seq<char>>,
    pub membership: Membership,
}

impl View for RoomDelta {
    type V = RoomDeltaView;

    open spec fn view(&self) -> RoomDeltaView {
        RoomDeltaView {
            room_id: self.room_id@,
            display_name: match self.display_name {
                Some(n) => Some(n@),
                None => None,
            },
            membership: self.membership,
        }
    }
}

/// The room record a delta creates when its room was never seen before: an
/// implicit join of whatever membership the delta carries.
pub open spec fn delta_room(d: RoomDeltaView) -> RoomView {
    RoomView { room_id: d.room_id, display_name: d.display_name, membership: d.membership }
}

/// Last-writer-wins merge of a delta into an existing record, field by
/// field: the membership is always superseded, the display name only when
/// the delta carries one.
pub open spec fn merge_room(r: RoomView, d: RoomDeltaView) -> RoomView {
    RoomView {
        room_id: r.room_id,
        display_name: if d.display_name is Some {
            d.display_name
        } else {
            r.display_name
        },
        membership: d.membership,
    }
}

/// What applying one delta does to the index contents: the first record
/// under the delta's room id is merged in place; a never-seen room is
/// appended.
pub open spec fn apply_delta_seq(s: Seq<RoomView>, d: RoomDeltaView) -> Seq<RoomView>
    decreases s.len(),
{
    if s.len() == 0 {
        seq![delta_room(d)]
    } else if s[0].room_id == d.room_id {
        seq![merge_room(s[0], d)] + s.drop_first()
    } else {
        seq![s[0]] + apply_delta_seq(s.drop_first(), d)
    }
}

/// The first record under `id`, if any.
pub open spec fn find_room(s: Seq<RoomView>, id: Seq<char>) -> Option<RoomView>
    decreases s.len(),
{
    if s.len() == 0 {
        None
    } else if s[0].room_id == id {
        Some(s[0])
    } else {
        find_room(s.drop_first(), id)
    }
}

/// Room ids are pairwise distinct: the key uniqueness invariant of the
/// index.
pub open spec fn rooms_wf(s: Seq<RoomView>) -> bool {
    forall|i: int, j: int| 0 <= i < j < s.len() ==> s[i].room_id != s[j].room_id
}

/// The rooms holding membership `m`, in index order.
pub open spec fn listed_rooms(s: Seq<RoomView>, m: Membership) -> Seq<RoomView> {
    s.filter(|r: RoomView| r.membership == m)
}

proof fn lemma_find_room_skip(s: Seq<RoomView>, id: Seq<char>, i: int)
    requires
        0 <= i <= s.len(),
        forall|j: int| 0 <= j < i ==> s[j].room_id != id,
    ensures
        find_room(s, id) == find_room(s.skip(i), id),
    decreases i,
{
    if i > 0 {
        assert(s.drop_first() =~= s.skip(1));
        assert(forall|j: int| 0 <= j < i - 1 ==> s.skip(1)[j].room_id != id);
        lemma_find_room_skip(s.skip(1), id, i - 1);
        assert(s.skip(1).skip(i - 1) =~= s.skip(i));
    } else {
        assert(s.skip(0) =~= s);
    }
}

proof fn lemma_apply_delta_at(s: Seq<RoomView>, d: RoomDeltaView, i: int)
    requires
        0 <= i < s.len(),
        s[i].room_id == d.room_id,
        forall|j: int| 0 <= j < i ==> s[j].room_id != d.room_id,
    ensures
        apply_delta_seq(s, d) =~= s.update(i, merge_room(s[i], d)),
    decreases i,
{
    if i == 0 {
        assert(apply_delta_seq(s, d) =~= s.update(0, merge_room(s[0], d)));
    } else {
        let rest = s.drop_first();
        assert(forall|j: int| 0 <= j < i - 1 ==> rest[j].room_id != d.room_id);
        lemma_apply_delta_at(rest, d, i - 1);
        assert(apply_delta_seq(s, d) =~= seq![s[0]] + rest.update(i - 1, merge_room(rest[i - 1], d)));
        assert(apply_delta_seq(s, d) =~= s.update(i, merge_room(s[i], d)));
    }
}

proof fn lemma_apply_delta_absent(s: Seq<RoomView>, d: RoomDeltaView)
    requires
        forall|j: int| 0 <= j < s.len() ==> s[j].room_id != d.room_id,
    ensures
        apply_delta_seq(s, d) =~= s.push(delta_room(d)),
    decreases s.len(),
{
    if s.len() > 0 {
        let rest = s.drop_first();
        assert(forall|j: int| 0 <= j < rest.len() ==> rest[j].room_id != d.room_id);
        lemma_apply_delta_absent(rest, d);
        assert(apply_delta_seq(s, d) =~= s.push(delta_room(d)));
    }
}

/// Applying the same delta twice yields the same state as applying it once:
/// each delta is a superseding snapshot fragment, not a patch.
pub proof fn lemma_apply_delta_idempotent(s: Seq<RoomView>, d: RoomDeltaView)
    ensures
        apply_delta_seq(apply_delta_seq(s, d), d) == apply_delta_seq(s, d),
    decreases s.len(),
{
    let once = apply_delta_seq(s, d);
    if s.len() == 0 {
        assert(merge_room(delta_room(d), d) == delta_room(d));
        assert(apply_delta_seq(once, d) =~= once);
    } else if s[0].room_id == d.room_id {
        assert(once[0] == merge_room(s[0], d));
        assert(merge_room(merge_room(s[0], d), d) == merge_room(s[0], d));
        assert(once.drop_first() =~= s.drop_first());
        assert(apply_delta_seq(once, d) =~= once);
    } else {
        lemma_apply_delta_idempotent(s.drop_first(), d);
        assert(once[0] == s[0]);
        assert(once.drop_first() =~= apply_delta_seq(s.drop_first(), d));
        assert(apply_delta_seq(once, d) =~= once);
    }
}

/// After a delta that marks a room left, every record under that room id
/// holds membership `Left`.
pub proof fn lemma_left_delta_marks_left(s: Seq<RoomView>, d: RoomDeltaView, k: int)
    requires
        rooms_wf(s),
        d.membership is Left,
        0 <= k < apply_delta_seq(s, d).len(),
        apply_delta_seq(s, d)[k].room_id == d.room_id,
    ensures
        apply_delta_seq(s, d)[k].membership is Left,
    decreases s.len(),
{
    let out = apply_delta_seq(s, d);
    if s.len() == 0 {
        assert(out[k] == delta_room(d));
    } else if s[0].room_id == d.room_id {
        if k > 0 {
            assert(out[k] == s[k]);
            assert(s[k].room_id != s[0].room_id);
            assert(false);
        }
    } else {
        if k == 0 {
            assert(out[0] == s[0]);
            assert(false);
        } else {
            let rest = s.drop_first();
            assert(rooms_wf(rest)) by {
                assert(forall|i: int, j: int|
                    0 <= i < j < rest.len() ==> rest[i].room_id == s[i + 1].room_id
                        && rest[j].room_id == s[j + 1].room_id);
            }
            assert(out[k] == apply_delta_seq(rest, d)[k - 1]);
            lemma_left_delta_marks_left(rest, d, k - 1);
        }
    }
}

/// The joined listing never contains a room whose latest delta marked it
/// left.
pub proof fn lemma_left_room_not_listed(s: Seq<RoomView>, d: RoomDeltaView, r: RoomView)
    requires
        rooms_wf(s),
        d.membership is Left,
        listed_rooms(apply_delta_seq(s, d), Membership::Joined).contains(r),
    ensures
        r.room_id != d.room_id,
{
    let s2 = apply_delta_seq(s, d);
    let joined = |room: RoomView| room.membership == Membership::Joined;
    s2.lemma_filter_contains_rev(joined, r);
    let k = choose|k: int| 0 <= k < s2.len() && s2[k] == r;
    let n = listed_rooms(s2, Membership::Joined).len();
    assert(exists|i: int| 0 <= i < n && listed_rooms(s2, Membership::Joined)[i] == r);
    let i = choose|i: int| 0 <= i < n && listed_rooms(s2, Membership::Joined)[i] == r;
    s2.lemma_filter_pred(joined, i);
    if r.room_id == d.room_id {
        lemma_left_delta_marks_left(s, d, k);
        assert(false);
    }
}

/// The in-memory mapping from room id to room metadata. Only
/// [`RoomIndex::apply_delta`] mutates it, and the record order is the order
/// rooms were first seen, so a given state lists rooms deterministically.
pub struct RoomIndex {
    rooms: Vec<Room>,
}

impl View for RoomIndex {
    type V = Seq<RoomView>;

    closed spec fn view(&self) -> Seq<RoomView> {
        self.rooms@.map_values(|r: Room| r@)
    }
}

impl RoomIndex {
    /// Key uniqueness: no two records share a room id.
    pub open spec fn wf(&self) -> bool {
        rooms_wf(self@)
    }

    /// An empty index.
    pub fn new() -> (r: Self)
        ensures
            r@ == Seq::<RoomView>::empty(),
            r.wf(),
    {
        let r = RoomIndex { rooms: Vec::new() };
        proof {
            assert(r@ =~= Seq::<RoomView>::empty());
        }
        r
    }

    /// How many rooms the index holds.
    pub fn len(&self) -> (n: usize)
        ensures
            n == self@.len(),
    {
        self.rooms.len()
    }

    fn find_idx(&self, room_id: &str) -> (r: Option<usize>)
        ensures
            r matches Some(i) ==> i < self@.len() && self@[i as int].room_id == room_id@
                && (forall|j: int| 0 <= j < i ==> self@[j].room_id != room_id@),
            r is None ==> forall|j: int| 0 <= j < self@.len() ==> self@[j].room_id != room_id@,
    {
        let n = self.rooms.len();
        let mut i: usize = 0;
        while i < n
            invariant
                i <= n,
                n == self@.len(),
                n == self.rooms@.len(),
                forall|j: int| 0 <= j < i ==> self@[j].room_id != room_id@,
            decreases n - i,
        {
            if crate::textutil::str_eq(self.rooms[i].room_id.as_str(), room_id) {
                return Some(i);
            }
            i += 1;
        }
        None
    }

    /// The record under `room_id`, if the index has seen that room.
    pub fn get(&self, room_id: &str) -> (r: Option<&Room>)
        ensures
            r matches Some(room) ==> find_room(self@, room_id@) == Some(room@),
            r is None ==> find_room(self@, room_id@) is None,
    {
        match self.find_idx(room_id) {
            Some(i) => {
                proof {
                    lemma_find_room_skip(self@, room_id@, i as int);
                    assert(self@.skip(i as int)[0] == self@[i as int]);
                }
                Some(&self.rooms[i])
            },
            None => {
                proof {
                    lemma_find_room_skip(self@, room_id@, self@.len() as int);
                    assert(self@.skip(self@.len() as int) =~= Seq::<RoomView>::empty());
                }
                None
            },
        }
    }

    /// Whether the index has seen `room_id`.
    pub fn contains_room(&self, room_id: &str) -> (r: bool)
        ensures
            r == (find_room(self@, room_id@) is Some),
    {
        match self.get(room_id) {
            Some(_) => true,
            None => false,
        }
    }

    /// Whether the index holds `room_id` with membership `Joined`.
    pub fn is_joined(&self, room_id: &str) -> (r: bool)
        ensures
            r == (find_room(self@, room_id@) matches Some(room) && room.membership is Joined),
    {
        match self.get(room_id) {
            Some(room) => match room.membership {
                Membership::Joined => true,
                _ => false,
            },
            None => false,
        }
    }

    /// The only mutator: merges one delta, last-writer-wins per field. A
    /// never-seen room is appended (an implicit join); a known room is
    /// merged in place. Key uniqueness is preserved.
    pub fn apply_delta(&mut self, delta: &RoomDelta)
        ensures
            final(self)@ == apply_delta_seq(old(self)@, delta@),
            old(self).wf() ==> final(self).wf(),
    {
        match self.find_idx(delta.room_id.as_str()) {
            Some(i) => {
                let merged = Room {
                    room_id: self.rooms[i].room_id.clone(),
                    display_name: match &delta.display_name {
                        Some(n) => Some(n.clone()),
                        None => match &self.rooms[i].display_name {
                            Some(n) => Some(n.clone()),
                            None => None,
                        },
                    },
                    membership: delta.membership,
                };
                proof {
                    assert(merged@ == merge_room(old(self)@[i as int], delta@));
                }
                self.rooms.set(i, merged);
                proof {
                    assert(final(self)@ =~= old(self)@.update(
                        i as int,
                        merge_room(old(self)@[i as int], delta@),
                    ));
                    lemma_apply_delta_at(old(self)@, delta@, i as int);
                    assert(final(self)@ =~= apply_delta_seq(old(self)@, delta@));
                    if old(self).wf() {
                        assert forall|a: int, b: int|
                            0 <= a < b < final(self)@.len() implies final(self)@[a].room_id
                            != final(self)@[b].room_id by {
                            assert(final(self)@[a].room_id == old(self)@[a].room_id);
                            assert(final(self)@[b].room_id == old(self)@[b].room_id);
                        }
                    }
                }
            },
            None => {
                let fresh = Room {
                    room_id: delta.room_id.clone(),
                    display_name: match &delta.display_name {
                        Some(n) => Some(n.clone()),
                        None => None,
                    },
                    membership: delta.membership,
                };
                proof {
                    assert(fresh@ == delta_room(delta@));
                }
                self.rooms.push(fresh);
                proof {
                    assert(final(self)@ =~= old(self)@.push(delta_room(delta@)));
                    lemma_apply_delta_absent(old(self)@, delta@);
                    assert(final(self)@ =~= apply_delta_seq(old(self)@, delta@));
                    if old(self).wf() {
                        assert forall|a: int, b: int|
                            0 <= a < b < final(self)@.len() implies final(self)@[a].room_id
                            != final(self)@[b].room_id by {
                            if b < final(self)@.len() - 1 {
                                assert(final(self)@[a].room_id == old(self)@[a].room_id);
                                assert(final(self)@[b].room_id == old(self)@[b].room_id);
                            } else {
                                assert(final(self)@[a].room_id == old(self)@[a].room_id);
                                assert(final(self)@[b] == delta_room(delta@));
                            }
                        }
                    }
                }
            },
        }
    }

    fn list_all(&self) -> (r: Vec<Room>)
        ensures
            r@.map_values(|room: Room| room@) == self@,
    {
        let n = self.rooms.len();
        let mut out: Vec<Room> = Vec::new();
        let mut i: usize = 0;
        while i < n
            invariant
                i <= n,
                n == self.rooms@.len(),
                out@.len() == i,
                out@.map_values(|room: Room| room@) =~= self@.take(i as int),
            decreases n - i,
        {
            let copy = self.rooms[i].duplicate();
            proof {
                assert(copy@ == self@[i as int]);
            }
            let ghost prev = out@;
            out.push(copy);
            proof {
                assert(out@ == prev.push(copy));
                assert forall|k: int| 0 <= k < out@.len() implies (#[trigger] out@[k])@
                    == self@.take(i + 1)[k] by {
                    if k < i {
                        assert(out@[k] == prev[k]);
                        assert(prev.map_values(|room: Room| room@)[k] == self@.take(i as int)[k]);
                    } else {
                        assert(out@[k] == copy);
                    }
                }
                assert(out@.map_values(|room: Room| room@) =~= self@.take(i + 1));
            }
            i += 1;
        }
        proof {
            assert(self@.take(n as int) =~= self@);
        }
        out
    }

    fn list_filtered(&self, wanted: Membership) -> (r: Vec<Room>)
        ensures
            r@.map_values(|room: Room| room@) == listed_rooms(self@, wanted),
    {
        let n = self.rooms.len();
        let mut out: Vec<Room> = Vec::new();
        let mut i: usize = 0;
        while i < n
            invariant
                i <= n,
                n == self.rooms@.len(),
                out@.map_values(|room: Room| room@) =~= listed_rooms(self@.take(i as int), wanted),
            decreases n - i,
        {
            proof {
                reveal(Seq::filter);
                assert(self@.take(i + 1).drop_last() =~= self@.take(i as int));
                assert(self@.take(i + 1).last() == self@[i as int]);
            }
            if self.rooms[i].membership == wanted {
                let copy = self.rooms[i].duplicate();
                out.push(copy);
                proof {
                    assert(out@.map_values(|room: Room| room@) =~= listed_rooms(
                        self@.take(i + 1),
                        wanted,
                    ));
                }
            } else {
                proof {
                    assert(out@.map_values(|room: Room| room@) =~= listed_rooms(
                        self@.take(i + 1),
                        wanted,
                    ));
                }
            }
            i += 1;
        }
        proof {
            assert(self@.take(n as int) =~= self@);
        }
        out
    }

    /// A deterministic listing of the rooms the index has seen: all of them,
    /// or only those holding the wanted membership, in the order the rooms
    /// were first seen.
    pub fn list(&self, wanted: Option<Membership>) -> (r: Vec<Room>)
        ensures
            wanted matches Some(m) ==> r@.map_values(|room: Room| room@) == listed_rooms(self@, m),
            wanted is None ==> r@.map_values(|room: Room| room@) == self@,
    {
        match wanted {
            Some(m) => self.list_filtered(m),
            None => self.list_all(),
        }
    }
}

} // verus!
