use conduit_client::rooms::{Membership, Room, RoomDelta, RoomIndex};

fn delta(room_id: &str, name: Option<&str>, membership: Membership) -> RoomDelta {
    RoomDelta {
        room_id: room_id.to_string(),
        display_name: name.map(|n| n.to_string()),
        membership,
    }
}

fn names_of(rooms: &[Room]) -> Vec<(String, Option<String>, Membership)> {
    rooms
        .iter()
        .map(|r| (r.room_id.clone(), r.display_name.clone(), r.membership))
        .collect()
}

#[test]
fn empty_index() {
    let index = RoomIndex::new();
    assert_eq!(index.len(), 0);
    assert!(index.get("!nowhere:hs").is_none());
    assert!(index.list(None).is_empty());
}

#[test]
fn apply_delta_inserts_then_merges() {
    let mut index = RoomIndex::new();
    index.apply_delta(&delta("!a:hs", Some("Alpha"), Membership::Joined));
    index.apply_delta(&delta("!b:hs", None, Membership::Invited));
    assert_eq!(index.len(), 2);

    // A later delta without a name keeps the earlier name (per-field merge).
    index.apply_delta(&delta("!a:hs", None, Membership::Left));
    assert_eq!(index.len(), 2);
    let a = index.get("!a:hs").unwrap();
    assert_eq!(a.display_name.as_deref(), Some("Alpha"));
    assert_eq!(a.membership, Membership::Left);

    // A later delta with a name supersedes it.
    index.apply_delta(&delta("!b:hs", Some("Beta"), Membership::Joined));
    let b = index.get("!b:hs").unwrap();
    assert_eq!(b.display_name.as_deref(), Some("Beta"));
    assert_eq!(b.membership, Membership::Joined);
}

#[test]
fn apply_delta_twice_is_apply_delta_once() {
    let mut once = RoomIndex::new();
    once.apply_delta(&delta("!a:hs", Some("Alpha"), Membership::Joined));
    let d = delta("!a:hs", None, Membership::Left);
    once.apply_delta(&d);

    let mut twice = RoomIndex::new();
    twice.apply_delta(&delta("!a:hs", Some("Alpha"), Membership::Joined));
    twice.apply_delta(&d);
    twice.apply_delta(&d);

    assert_eq!(names_of(&once.list(None)), names_of(&twice.list(None)));
}

#[test]
fn listing_filters_by_membership() {
    let mut index = RoomIndex::new();
    index.apply_delta(&delta("!a:hs", Some("Alpha"), Membership::Joined));
    index.apply_delta(&delta("!b:hs", None, Membership::Invited));
    index.apply_delta(&delta("!c:hs", Some("Gamma"), Membership::Joined));

    let joined = index.list(Some(Membership::Joined));
    assert_eq!(
        names_of(&joined),
        vec![
            ("!a:hs".to_string(), Some("Alpha".to_string()), Membership::Joined),
            ("!c:hs".to_string(), Some("Gamma".to_string()), Membership::Joined),
        ]
    );
    assert_eq!(index.list(None).len(), 3);
}

#[test]
fn left_room_leaves_the_joined_listing_but_keeps_its_record() {
    let mut index = RoomIndex::new();
    index.apply_delta(&delta("!a:hs", Some("Alpha"), Membership::Joined));
    index.apply_delta(&delta("!a:hs", None, Membership::Left));

    let joined = index.list(Some(Membership::Joined));
    assert!(joined.iter().all(|r| r.room_id != "!a:hs"));
    assert!(joined.is_empty());

    // The record is retained for audit, membership flipped to Left.
    let a = index.get("!a:hs").unwrap();
    assert_eq!(a.membership, Membership::Left);
    let left = index.list(Some(Membership::Left));
    assert_eq!(left.len(), 1);
}

#[test]
fn is_joined_follows_the_latest_delta() {
    let mut index = RoomIndex::new();
    assert!(!index.is_joined("!a:hs"));
    index.apply_delta(&delta("!a:hs", None, Membership::Joined));
    assert!(index.is_joined("!a:hs"));
    index.apply_delta(&delta("!a:hs", None, Membership::Left));
    assert!(!index.is_joined("!a:hs"));
}
