use chat_server::errors::ServiceError;
use chat_server::message::{Message, MessageData};
use chat_server::room::routes::RoomUserData;
use chat_server::room::{Room, RoomData, RoomDetails, RoomUser};
use chat_server::store::Store;
use chat_server::user::{User, UserData};

fn populated() -> Store {
    let mut conn = Store::new();
    for (id, name) in [(100u128, Some("A")), (200u128, None)] {
        Room::insert_row(
            &mut conn,
            Room {
                id,
                name: name.map(String::from),
                created: 1,
                updated: 1,
            },
        )
        .unwrap();
    }
    for (id, name) in [(1u128, "u1"), (2u128, "u2"), (3u128, "u3")] {
        User::insert_row(
            &mut conn,
            User {
                id,
                username: String::from(name),
                password: String::from("h"),
                created: 1,
                updated: 1,
            },
        )
        .unwrap();
    }
    Room::add_users_at(&mut conn, 100, vec![2, 1], 5).unwrap();
    conn
}

fn user_data(username: &str, password: &str) -> UserData {
    UserData {
        username: String::from(username),
        password: String::from(password),
    }
}

#[test]
fn rooms_are_listed() {
    let conn = populated();
    let rooms = chat_server::room::routes::list(&conn).unwrap();
    assert_eq!(rooms.len(), 2);
    assert_eq!(rooms[0].id, 100);
    assert_eq!(rooms[0].name, Some(String::from("A")));
    assert_eq!(rooms[1].id, 200);
    assert_eq!(rooms[1].name, None);
    assert_eq!(
        chat_server::room::routes::list(&Store::new()).unwrap().len(),
        0
    );
}

#[test]
fn a_room_is_shown_with_its_members() {
    let conn = populated();
    let shown = chat_server::room::routes::find(&conn, 100).unwrap();
    assert_eq!(shown.id, 100);
    assert_eq!(shown.name, Some(String::from("A")));
    assert_eq!(shown.users, vec![2, 1]);
    let empty = chat_server::room::routes::find(&conn, 200).unwrap();
    assert_eq!(empty.users, Vec::<u128>::new());
    assert!(matches!(
        chat_server::room::routes::find(&conn, 300),
        Err(ServiceError::NotFound)
    ));
}

#[test]
fn a_created_room_is_shown_without_members() {
    let mut conn = populated();
    let shown = chat_server::room::routes::create(
        &mut conn,
        RoomData {
            name: Some(String::from("new")),
        },
    )
    .unwrap();
    assert_eq!(shown.name, Some(String::from("new")));
    assert_eq!(shown.users, Vec::<u128>::new());
    assert_eq!(conn.rooms.len(), 3);
    assert_eq!(conn.rooms[2].id, shown.id);
}

#[test]
fn an_updated_room_is_shown_with_its_members() {
    let mut conn = populated();
    let shown = chat_server::room::routes::update(
        &mut conn,
        100,
        RoomData {
            name: Some(String::from("renamed")),
        },
    )
    .unwrap();
    assert_eq!(shown.id, 100);
    assert_eq!(shown.name, Some(String::from("renamed")));
    assert_eq!(shown.users, vec![2, 1]);
    assert!(matches!(
        chat_server::room::routes::update(&mut conn, 300, RoomData { name: None }),
        Err(ServiceError::NotFound)
    ));
}

#[test]
fn deleting_a_room_twice_is_not_found_the_second_time() {
    let mut conn = populated();
    assert_eq!(chat_server::room::routes::delete(&mut conn, 100), Ok(()));
    assert_eq!(
        chat_server::room::routes::delete(&mut conn, 100),
        Err(ServiceError::NotFound)
    );
    assert_eq!(conn.rooms.len(), 1);
    assert_eq!(conn.rooms_users.len(), 0);
}

#[test]
fn adding_a_user_answers_for_the_room_alone() {
    let mut conn = populated();
    assert_eq!(
        chat_server::room::routes::add_user(&mut conn, 100, RoomUserData { id: 3 }),
        Ok(())
    );
    assert_eq!(Room::get_user_ids(&conn, 100), Ok(vec![2, 1, 3]));
    // a member, and an unknown user: no error, no row
    assert_eq!(
        chat_server::room::routes::add_user(&mut conn, 100, RoomUserData { id: 3 }),
        Ok(())
    );
    assert_eq!(
        chat_server::room::routes::add_user(&mut conn, 100, RoomUserData { id: 77 }),
        Ok(())
    );
    assert_eq!(Room::get_user_ids(&conn, 100), Ok(vec![2, 1, 3]));
    assert_eq!(
        chat_server::room::routes::add_user(&mut conn, 300, RoomUserData { id: 3 }),
        Err(ServiceError::NotFound)
    );
    assert_eq!(conn.rooms_users.len(), 3);
}

#[test]
fn the_members_of_a_room_are_listed() {
    let conn = populated();
    assert_eq!(
        chat_server::room::routes::get_users(&conn, 100),
        Ok(vec![2, 1])
    );
    assert_eq!(chat_server::room::routes::get_users(&conn, 200), Ok(vec![]));
    assert_eq!(
        chat_server::room::routes::get_users(&conn, 300),
        Err(ServiceError::NotFound)
    );
}

#[test]
fn removing_a_user_is_not_found_for_a_non_member() {
    let mut conn = populated();
    assert_eq!(
        chat_server::room::routes::remove_user(&mut conn, 100, 3),
        Err(ServiceError::NotFound)
    );
    assert_eq!(
        chat_server::room::routes::remove_user(&mut conn, 300, 1),
        Err(ServiceError::NotFound)
    );
    assert_eq!(conn.rooms_users.len(), 2);
    assert_eq!(
        chat_server::room::routes::remove_user(&mut conn, 100, 2),
        Ok(())
    );
    assert_eq!(Room::get_user_ids(&conn, 100), Ok(vec![1]));
    assert_eq!(
        chat_server::room::routes::remove_user(&mut conn, 100, 2),
        Err(ServiceError::NotFound)
    );
}

#[test]
fn room_details_take_the_users_of_the_rows_in_order() {
    let rows = vec![
        RoomUser {
            user_id: 9,
            room_id: 100,
            status: None,
            created: 1,
            updated: 1,
        },
        RoomUser {
            user_id: 4,
            room_id: 100,
            status: Some(String::from("away")),
            created: 2,
            updated: 2,
        },
    ];
    assert_eq!(RoomDetails::user_ids(&rows), vec![9, 4]);
    let details = RoomDetails::new(
        Room {
            id: 100,
            name: Some(String::from("A")),
            created: 1,
            updated: 1,
        },
        &rows,
    );
    assert_eq!(details.id, 100);
    assert_eq!(details.name, Some(String::from("A")));
    assert_eq!(details.users, vec![9, 4]);
    assert_eq!(RoomDetails::user_ids(&[].to_vec()), Vec::<u128>::new());
}

#[test]
fn users_are_listed_and_found_without_passwords() {
    let conn = populated();
    let users = chat_server::user::routes::list(&conn).unwrap();
    let names: Vec<&str> = users.iter().map(|u| u.username.as_str()).collect();
    assert_eq!(names, vec!["u1", "u2", "u3"]);
    assert_eq!(users[0].id, 1);
    let found = chat_server::user::routes::find(&conn, 2).unwrap();
    assert_eq!(found.id, 2);
    assert_eq!(found.username, "u2");
    assert!(matches!(
        chat_server::user::routes::find(&conn, 77),
        Err(ServiceError::NotFound)
    ));
}

#[test]
fn a_taken_name_is_forbidden() {
    let mut conn = populated();
    assert!(matches!(
        chat_server::user::routes::create(&mut conn, user_data("u1", "pw")),
        Err(ServiceError::Forbidden)
    ));
    assert!(matches!(
        chat_server::user::routes::update(&mut conn, 1, user_data("u2", "")),
        Err(ServiceError::Forbidden)
    ));
    assert!(matches!(
        chat_server::user::routes::update(&mut conn, 77, user_data("fresh", "")),
        Err(ServiceError::NotFound)
    ));
    assert_eq!(conn.users.len(), 3);
    let created = chat_server::user::routes::create(&mut conn, user_data("u4", "pw")).unwrap();
    assert_eq!(created.username, "u4");
    let updated = chat_server::user::routes::update(&mut conn, 1, user_data("u5", "")).unwrap();
    assert_eq!(updated.id, 1);
    assert_eq!(updated.username, "u5");
    assert_eq!(conn.users[0].password, "h");
}

#[test]
fn deleting_a_user_twice_is_not_found_the_second_time() {
    let mut conn = populated();
    assert_eq!(chat_server::user::routes::delete(&mut conn, 2), Ok(()));
    assert_eq!(
        chat_server::user::routes::delete(&mut conn, 2),
        Err(ServiceError::NotFound)
    );
    assert_eq!(Room::get_user_ids(&conn, 100), Ok(vec![1]));
}

#[test]
fn the_auth_endpoint_tells_forbidden_from_not_found() {
    let mut conn = Store::new();
    User::create(user_data("bob", "right"), &mut conn).unwrap();
    assert_eq!(
        chat_server::user::routes::authenticate(&conn, user_data("bob", "right")),
        Ok(String::from("AUTH_TOKEN_NOT_IMPLEMENTED"))
    );
    assert_eq!(
        chat_server::user::routes::authenticate(&conn, user_data("bob", "wrong")),
        Err(ServiceError::Forbidden)
    );
    assert_eq!(
        chat_server::user::routes::authenticate(&conn, user_data("ghost", "x")),
        Err(ServiceError::NotFound)
    );
}

#[test]
fn messages_are_found_and_posted() {
    let mut conn = populated();
    let posted = chat_server::message::routes::create(
        &mut conn,
        MessageData {
            content: String::from("hello"),
            room_id: 100,
            author: 1,
        },
    )
    .unwrap();
    assert_eq!(posted.content, "hello");
    let found: Message = chat_server::message::routes::find(&conn, posted.id).unwrap();
    assert_eq!(found.id, posted.id);
    assert_eq!(found.content, "hello");
    assert_eq!(found.room_id, 100);
    assert_eq!(found.author, 1);
    assert!(matches!(
        chat_server::message::routes::find(&conn, posted.id.wrapping_add(1)),
        Err(ServiceError::NotFound)
    ));
    assert!(matches!(
        chat_server::message::routes::create(
            &mut conn,
            MessageData {
                content: String::from("hello"),
                room_id: 300,
                author: 1,
            },
        ),
        Err(ServiceError::InternalServerError)
    ));
    assert_eq!(conn.messages.len(), 1);
}
