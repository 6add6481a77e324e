use chat_server::room::{Room, RoomError, RoomUser};
use chat_server::store::Store;
use chat_server::user::User;

fn user_row(id: u128, name: &str) -> User {
    User {
        id,
        username: String::from(name),
        password: String::from("not a hash"),
        created: 1,
        updated: 1,
    }
}

fn room_row(id: u128, name: &str) -> Room {
    Room {
        id,
        name: Some(String::from(name)),
        created: 1,
        updated: 1,
    }
}

/// Rooms 100 and 200, users 1, 2 and 3.
fn populated() -> Store {
    let mut conn = Store::new();
    Room::insert_row(&mut conn, room_row(100, "A")).unwrap();
    Room::insert_row(&mut conn, room_row(200, "B")).unwrap();
    User::insert_row(&mut conn, user_row(1, "u1")).unwrap();
    User::insert_row(&mut conn, user_row(2, "u2")).unwrap();
    User::insert_row(&mut conn, user_row(3, "u3")).unwrap();
    conn
}

fn pairs(rows: &[RoomUser]) -> Vec<(u128, u128)> {
    rows.iter().map(|m| (m.room_id, m.user_id)).collect()
}

#[test]
fn adding_members_again_adds_nobody() {
    let mut conn = populated();
    let first = Room::add_users_at(&mut conn, 100, vec![1, 2], 10).unwrap();
    assert_eq!(first, vec![1, 2]);
    assert_eq!(conn.rooms_users.len(), 2);

    let second = Room::add_users_at(&mut conn, 100, vec![1, 2], 20).unwrap();
    assert_eq!(second, Vec::<u128>::new());
    assert_eq!(conn.rooms_users.len(), 2);
    assert_eq!(pairs(&conn.rooms_users), vec![(100, 1), (100, 2)]);
    assert_eq!(conn.rooms_users[0].created, 10);
    assert_eq!(conn.rooms_users[1].created, 10);
}

#[test]
fn a_member_among_newcomers_is_passed_over() {
    let mut conn = populated();
    Room::add_users_at(&mut conn, 100, vec![2], 10).unwrap();
    let added = Room::add_users_at(&mut conn, 100, vec![1, 2, 3], 20).unwrap();
    assert_eq!(added, vec![1, 3]);
    assert_eq!(pairs(&conn.rooms_users), vec![(100, 2), (100, 1), (100, 3)]);
}

#[test]
fn unknown_ids_are_passed_over() {
    let mut conn = populated();
    let added = Room::add_users_at(&mut conn, 100, vec![1, 77, 3, 78], 10).unwrap();
    assert_eq!(added, vec![1, 3]);
    assert_eq!(pairs(&conn.rooms_users), vec![(100, 1), (100, 3)]);
    assert!(!conn.is_member(100, 77));
    assert!(!conn.is_member(100, 78));
}

#[test]
fn only_unknown_ids_add_nothing() {
    let mut conn = populated();
    let added = Room::add_users_at(&mut conn, 100, vec![77], 10).unwrap();
    assert_eq!(added, Vec::<u128>::new());
    assert_eq!(conn.rooms_users.len(), 0);
}

#[test]
fn adding_to_a_missing_room_creates_no_rows() {
    let mut conn = populated();
    Room::add_users_at(&mut conn, 100, vec![1], 10).unwrap();
    let result = Room::add_users_at(&mut conn, 300, vec![1, 2, 3], 20);
    assert_eq!(result, Err(RoomError::RoomNotFound));
    assert_eq!(pairs(&conn.rooms_users), vec![(100, 1)]);

    let result = Room::add_users(&mut conn, 300, vec![]);
    assert_eq!(result, Err(RoomError::RoomNotFound));
    assert_eq!(conn.rooms_users.len(), 1);
}

#[test]
fn a_repeated_candidate_is_added_once() {
    let mut conn = populated();
    let added = Room::add_users_at(&mut conn, 100, vec![1, 1, 2, 1], 10).unwrap();
    assert_eq!(added, vec![1, 2]);
    assert_eq!(pairs(&conn.rooms_users), vec![(100, 1), (100, 2)]);
    assert!(conn.is_consistent());
}

#[test]
fn no_candidates_add_nothing() {
    let mut conn = populated();
    let added = Room::add_users_at(&mut conn, 100, vec![], 10).unwrap();
    assert_eq!(added, Vec::<u128>::new());
    assert_eq!(conn.rooms_users.len(), 0);
}

#[test]
fn new_membership_rows_bear_the_time_of_joining() {
    let mut conn = populated();
    Room::add_users_at(&mut conn, 100, vec![3], 1_700_000_000_000_000).unwrap();
    let row = &conn.rooms_users[0];
    assert_eq!(row.user_id, 3);
    assert_eq!(row.room_id, 100);
    assert_eq!(row.status, None);
    assert_eq!(row.created, 1_700_000_000_000_000);
    assert_eq!(row.updated, 1_700_000_000_000_000);
}

#[test]
fn add_users_stamps_rows_with_the_clock() {
    let mut conn = populated();
    Room::add_users(&mut conn, 100, vec![1, 2]).unwrap();
    // later than 2020-01-01, in microseconds
    assert!(conn.rooms_users[0].created > 1_577_836_800_000_000);
    assert_eq!(conn.rooms_users[0].created, conn.rooms_users[0].updated);
    assert_eq!(conn.rooms_users[0].created, conn.rooms_users[1].created);
}

#[test]
fn members_are_listed_in_the_order_of_joining() {
    let mut conn = populated();
    Room::add_users_at(&mut conn, 100, vec![2], 10).unwrap();
    Room::add_users_at(&mut conn, 200, vec![3, 1], 11).unwrap();
    Room::add_users_at(&mut conn, 100, vec![3, 1], 12).unwrap();
    assert_eq!(Room::get_user_ids(&conn, 100), Ok(vec![2, 3, 1]));
    assert_eq!(Room::get_user_ids(&conn, 200), Ok(vec![3, 1]));
    let room = Room::find(&conn, 100).unwrap().unwrap();
    let rows = Room::get_room_users(&conn, &room).unwrap();
    assert_eq!(pairs(&rows), vec![(100, 2), (100, 3), (100, 1)]);
}

#[test]
fn user_ids_of_a_missing_room_fail() {
    let conn = populated();
    assert_eq!(Room::get_user_ids(&conn, 300), Err(RoomError::RoomNotFound));
    assert_eq!(Room::get_user_ids(&conn, 100), Ok(vec![]));
}

#[test]
fn remove_counts_the_rows_it_deleted() {
    let mut conn = populated();
    Room::add_users_at(&mut conn, 100, vec![1, 2, 3], 10).unwrap();
    Room::add_users_at(&mut conn, 200, vec![1], 10).unwrap();

    let count = Room::remove_users(&mut conn, 100, vec![1, 77, 3, 1]).unwrap();
    assert_eq!(count, 2);
    assert_eq!(pairs(&conn.rooms_users), vec![(100, 2), (200, 1)]);
}

#[test]
fn removing_a_non_member_deletes_nothing() {
    let mut conn = populated();
    Room::add_users_at(&mut conn, 100, vec![1], 10).unwrap();
    Room::add_users_at(&mut conn, 200, vec![2], 10).unwrap();

    assert_eq!(Room::remove_users(&mut conn, 100, vec![2]), Ok(0));
    assert_eq!(Room::remove_users(&mut conn, 100, vec![77]), Ok(0));
    assert_eq!(Room::remove_users(&mut conn, 100, vec![]), Ok(0));
    assert_eq!(pairs(&conn.rooms_users), vec![(100, 1), (200, 2)]);
}

#[test]
fn removing_from_a_missing_room_fails() {
    let mut conn = populated();
    Room::add_users_at(&mut conn, 100, vec![1], 10).unwrap();
    assert_eq!(
        Room::remove_users(&mut conn, 300, vec![1]),
        Err(RoomError::RoomNotFound)
    );
    assert_eq!(conn.rooms_users.len(), 1);
}

#[test]
fn a_removed_user_can_join_again() {
    let mut conn = populated();
    Room::add_users_at(&mut conn, 100, vec![1, 2], 10).unwrap();
    assert_eq!(Room::remove_users(&mut conn, 100, vec![1]), Ok(1));
    assert_eq!(Room::add_users_at(&mut conn, 100, vec![1], 30), Ok(vec![1]));
    assert_eq!(pairs(&conn.rooms_users), vec![(100, 2), (100, 1)]);
}

#[test]
fn room_a_keeps_exactly_the_user_that_stayed() {
    let mut conn = Store::new();
    let room = Room::create(
        chat_server::room::RoomData {
            name: Some(String::from("A")),
        },
        &mut conn,
    )
    .unwrap();
    User::insert_row(&mut conn, user_row(1, "u1")).unwrap();
    User::insert_row(&mut conn, user_row(2, "u2")).unwrap();

    assert_eq!(Room::add_users(&mut conn, room.id, vec![1, 2]), Ok(vec![1, 2]));
    assert_eq!(Room::remove_users(&mut conn, room.id, vec![1]), Ok(1));

    let rows = Room::get_room_users(&conn, &room).unwrap();
    assert_eq!(rows.len(), 1);
    assert_eq!(rows[0].user_id, 2);
    assert_eq!(rows[0].room_id, room.id);
}

#[test]
fn deleting_a_user_deletes_all_its_memberships() {
    let mut conn = populated();
    Room::add_users_at(&mut conn, 100, vec![1, 2], 10).unwrap();
    Room::add_users_at(&mut conn, 200, vec![2, 1, 3], 10).unwrap();
    assert_eq!(Room::get_user_ids(&conn, 100).unwrap().len(), 2);
    assert_eq!(Room::get_user_ids(&conn, 200).unwrap().len(), 3);

    assert_eq!(User::destroy(&mut conn, 1), Ok(1));

    assert_eq!(Room::get_user_ids(&conn, 100), Ok(vec![2]));
    assert_eq!(Room::get_user_ids(&conn, 200), Ok(vec![2, 3]));
    assert_eq!(pairs(&conn.rooms_users), vec![(100, 2), (200, 2), (200, 3)]);
    assert!(conn.is_consistent());
}

#[test]
fn deleting_a_room_deletes_its_memberships_only() {
    let mut conn = populated();
    Room::add_users_at(&mut conn, 100, vec![1, 2], 10).unwrap();
    Room::add_users_at(&mut conn, 200, vec![2], 10).unwrap();

    assert_eq!(Room::destroy(&mut conn, 100), Ok(1));

    assert_eq!(pairs(&conn.rooms_users), vec![(200, 2)]);
    assert_eq!(Room::is_present(&conn, 100), Ok(false));
    assert_eq!(Room::is_present(&conn, 200), Ok(true));
    assert_eq!(conn.users.len(), 3);
    assert!(conn.is_consistent());
}

#[test]
fn deleting_a_missing_room_deletes_nothing() {
    let mut conn = populated();
    Room::add_users_at(&mut conn, 100, vec![1], 10).unwrap();
    assert_eq!(Room::destroy(&mut conn, 300), Ok(0));
    assert_eq!(conn.rooms.len(), 2);
    assert_eq!(conn.rooms_users.len(), 1);
}

#[test]
fn a_room_id_in_use_is_refused() {
    let mut conn = populated();
    let result = Room::insert_row(&mut conn, room_row(100, "again"));
    assert!(matches!(result, Err(RoomError::DatabaseError)));
    assert_eq!(conn.rooms.len(), 2);
    assert_eq!(conn.rooms[0].name, Some(String::from("A")));
}

#[test]
fn updating_a_room_without_a_name_keeps_the_name() {
    let mut conn = populated();
    let room = Room::update(&mut conn, 100, chat_server::room::RoomData { name: None }).unwrap();
    assert_eq!(room.id, 100);
    assert_eq!(room.name, Some(String::from("A")));
    assert_eq!(conn.rooms[0].name, Some(String::from("A")));
}

#[test]
fn updating_a_room_changes_its_name_only() {
    let mut conn = populated();
    let room = Room::update(
        &mut conn,
        200,
        chat_server::room::RoomData {
            name: Some(String::from("C")),
        },
    )
    .unwrap();
    assert_eq!(room.id, 200);
    assert_eq!(room.name, Some(String::from("C")));
    assert_eq!(room.created, 1);
    assert_eq!(room.updated, 1);
    assert_eq!(conn.rooms[0].name, Some(String::from("A")));
    assert_eq!(conn.rooms[1].name, Some(String::from("C")));
}

#[test]
fn updating_a_missing_room_fails() {
    let mut conn = populated();
    let result = Room::update(
        &mut conn,
        300,
        chat_server::room::RoomData {
            name: Some(String::from("C")),
        },
    );
    assert!(matches!(result, Err(RoomError::RoomNotFound)));
    assert_eq!(conn.rooms.len(), 2);
}

#[test]
fn created_rooms_get_distinct_ids_and_the_time_of_creation() {
    let mut conn = Store::new();
    let a = Room::create(chat_server::room::RoomData { name: None }, &mut conn).unwrap();
    let b = Room::create(chat_server::room::RoomData { name: None }, &mut conn).unwrap();
    assert_ne!(a.id, b.id);
    assert_eq!(a.name, None);
    assert_eq!(a.created, a.updated);
    assert!(a.created > 1_577_836_800_000_000);
    assert_eq!(conn.rooms.len(), 2);
    assert_eq!(conn.rooms[0].id, a.id);
    assert_eq!(conn.rooms[1].id, b.id);
}
