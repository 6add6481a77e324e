use chat_server::store::Store;
use chat_server::user::auth::{is_printable_ascii, AuthenticationError};
use chat_server::user::{User, UserData, UserError, UserResponse};
use pwhash::bcrypt;

fn data(username: &str, password: &str) -> UserData {
    UserData {
        username: String::from(username),
        password: String::from(password),
    }
}

fn user_row(id: u128, name: &str, password: &str) -> User {
    User {
        id,
        username: String::from(name),
        password: String::from(password),
        created: 5,
        updated: 6,
    }
}

#[test]
fn update_with_empty_password_keeps_the_stored_hash() {
    let mut conn = Store::new();
    let created = User::create(data("alice", "s3cret"), &mut conn).unwrap();
    let before = User::_find(&conn, created.id).unwrap().unwrap();

    let shown = User::update(created.id, data("alicia", ""), &mut conn).unwrap();
    assert_eq!(shown.id, created.id);
    assert_eq!(shown.username, "alicia");

    let after = User::_find(&conn, created.id).unwrap().unwrap();
    assert_eq!(after.username, "alicia");
    assert_eq!(after.password, before.password);
    assert_eq!(after.id, before.id);
    assert_eq!(after.created, before.created);
    assert_eq!(after.updated, before.updated);
    assert!(User::authenticate(&conn, data("alicia", "s3cret")).is_ok());
}

#[test]
fn update_with_a_password_replaces_the_hash() {
    let mut conn = Store::new();
    User::insert_row(&mut conn, user_row(9, "carol", "old hash")).unwrap();

    let shown = User::update(9, data("caroline", "fresh"), &mut conn).unwrap();
    assert_eq!(shown.username, "caroline");

    let after = User::_find(&conn, 9).unwrap().unwrap();
    assert_eq!(after.username, "caroline");
    assert_ne!(after.password, "old hash");
    assert_ne!(after.password, "fresh");
    assert!(bcrypt::verify("fresh", &after.password));
    assert!(!bcrypt::verify("old hash", &after.password));
    assert_eq!(after.created, 5);
    assert_eq!(after.updated, 6);
}

#[test]
fn update_to_a_name_in_use_is_refused() {
    let mut conn = Store::new();
    User::insert_row(&mut conn, user_row(1, "dave", "h1")).unwrap();
    User::insert_row(&mut conn, user_row(2, "erin", "h2")).unwrap();

    let other = User::update(1, data("erin", ""), &mut conn);
    assert!(matches!(other, Err(UserError::UsernameTaken)));
    let own = User::update(1, data("dave", ""), &mut conn);
    assert!(matches!(own, Err(UserError::UsernameTaken)));
    let missing = User::update(77, data("erin", "pw"), &mut conn);
    assert!(matches!(missing, Err(UserError::UsernameTaken)));

    assert_eq!(conn.users[0].username, "dave");
    assert_eq!(conn.users[0].password, "h1");
    assert_eq!(conn.users[1].username, "erin");
}

#[test]
fn update_of_a_missing_user_without_password_is_not_found() {
    let mut conn = Store::new();
    User::insert_row(&mut conn, user_row(1, "dave", "h1")).unwrap();
    let result = User::update(77, data("frank", ""), &mut conn);
    assert!(matches!(result, Err(UserError::UserNotFound)));
    assert_eq!(conn.users.len(), 1);
    assert_eq!(conn.users[0].username, "dave");
}

#[test]
fn update_row_sets_the_given_hash_or_keeps_the_old() {
    let mut conn = Store::new();
    User::insert_row(&mut conn, user_row(1, "dave", "h1")).unwrap();

    let kept = User::update_row(&mut conn, 1, String::from("d2"), None).unwrap();
    assert_eq!(kept.id, 1);
    assert_eq!(kept.username, "d2");
    assert_eq!(conn.users[0].password, "h1");

    let set = User::update_row(&mut conn, 1, String::from("d3"), Some(String::from("h9"))).unwrap();
    assert_eq!(set.username, "d3");
    assert_eq!(conn.users[0].username, "d3");
    assert_eq!(conn.users[0].password, "h9");

    let taken = User::update_row(&mut conn, 1, String::from("d3"), None);
    assert!(matches!(taken, Err(UserError::UsernameTaken)));
    let missing = User::update_row(&mut conn, 2, String::from("d4"), None);
    assert!(matches!(missing, Err(UserError::UserNotFound)));
}

#[test]
fn destroy_of_a_missing_user_changes_nothing() {
    let mut conn = Store::new();
    User::insert_row(&mut conn, user_row(1, "dave", "h1")).unwrap();
    assert_eq!(User::destroy(&mut conn, 2), Ok(0));
    assert_eq!(User::destroy(&mut conn, 2), Ok(0));
    assert_eq!(conn.users.len(), 1);
    assert_eq!(User::destroy(&mut conn, 1), Ok(1));
    assert_eq!(User::destroy(&mut conn, 1), Ok(0));
    assert_eq!(conn.users.len(), 0);
}

#[test]
fn destroy_keeps_the_order_of_the_others() {
    let mut conn = Store::new();
    User::insert_row(&mut conn, user_row(1, "a", "h")).unwrap();
    User::insert_row(&mut conn, user_row(2, "b", "h")).unwrap();
    User::insert_row(&mut conn, user_row(3, "c", "h")).unwrap();
    assert_eq!(User::destroy(&mut conn, 2), Ok(1));
    let names: Vec<String> = User::find_all(&conn)
        .unwrap()
        .into_iter()
        .map(|u| u.username)
        .collect();
    assert_eq!(names, vec!["a", "c"]);
}

#[test]
fn a_user_id_in_use_is_refused() {
    let mut conn = Store::new();
    User::insert_row(&mut conn, user_row(1, "dave", "h1")).unwrap();
    let same_id = User::insert_row(&mut conn, user_row(1, "other", "h2"));
    assert!(matches!(same_id, Err(UserError::DatabaseError)));
    let same_name = User::insert_row(&mut conn, user_row(2, "dave", "h2"));
    assert!(matches!(same_name, Err(UserError::UsernameTaken)));
    let both = User::insert_row(&mut conn, user_row(1, "dave", "h2"));
    assert!(matches!(both, Err(UserError::UsernameTaken)));
    assert_eq!(conn.users.len(), 1);
}

#[test]
fn create_stores_a_hash_and_shows_no_password() {
    let mut conn = Store::new();
    let shown: UserResponse = User::create(data("gina", "pass word"), &mut conn).unwrap();
    assert_eq!(shown.username, "gina");
    assert_eq!(conn.users.len(), 1);
    let row = &conn.users[0];
    assert_eq!(row.id, shown.id);
    assert_eq!(row.username, "gina");
    assert_ne!(row.password, "pass word");
    assert!(bcrypt::verify("pass word", &row.password));
    assert_eq!(row.created, row.updated);
    assert!(row.created > 1_577_836_800_000_000);
}

#[test]
fn created_users_get_distinct_ids() {
    let mut conn = Store::new();
    let a = User::create(data("a", "x"), &mut conn).unwrap();
    let b = User::create(data("b", "x"), &mut conn).unwrap();
    assert_ne!(a.id, b.id);
    assert_ne!(conn.users[0].password, conn.users[1].password);
}

#[test]
fn users_are_found_by_name_and_id() {
    let mut conn = Store::new();
    User::insert_row(&mut conn, user_row(1, "dave", "h1")).unwrap();
    User::insert_row(&mut conn, user_row(2, "erin", "h2")).unwrap();

    let by_name = User::find_by_username(&conn, "erin").unwrap().unwrap();
    assert_eq!(by_name.id, 2);
    assert_eq!(by_name.username, "erin");
    assert!(User::find_by_username(&conn, "Erin").unwrap().is_none());

    let row = User::_find_by_username(&conn, "dave").unwrap().unwrap();
    assert_eq!(row.id, 1);
    assert_eq!(row.password, "h1");
    assert!(User::_find_by_username(&conn, "").unwrap().is_none());

    let by_id = User::find(&conn, 1).unwrap().unwrap();
    assert_eq!(by_id.username, "dave");
    assert_eq!(User::_find(&conn, 2).unwrap().unwrap().password, "h2");

    assert_eq!(User::username_taken(&conn, "dave"), Ok(true));
    assert_eq!(User::username_taken(&conn, "nobody"), Ok(false));
    assert_eq!(User::is_present(&conn, 2), Ok(true));
    assert_eq!(User::is_present(&conn, 3), Ok(false));
}

#[test]
fn a_response_is_the_row_without_its_password() {
    let shown = UserResponse::from(user_row(4, "hank", "h4"));
    assert_eq!(shown.id, 4);
    assert_eq!(shown.username, "hank");
}

#[test]
fn wrong_password_and_unknown_name_are_told_apart() {
    let mut conn = Store::new();
    User::create(data("bob", "right"), &mut conn).unwrap();

    assert!(matches!(
        User::authenticate(&conn, data("bob", "wrong")),
        Err(AuthenticationError::IncorrectPassword)
    ));
    assert!(matches!(
        User::authenticate(&conn, data("ghost", "x")),
        Err(AuthenticationError::UserNotFound)
    ));
}

#[test]
fn authentication_hands_out_the_token() {
    let mut conn = Store::new();
    User::create(data("bob", "right"), &mut conn).unwrap();
    let token = User::authenticate(&conn, data("bob", "right")).unwrap();
    assert_eq!(token, "AUTH_TOKEN_NOT_IMPLEMENTED");
}

#[test]
fn a_known_hash_is_checked_against_its_password() {
    let user = user_row(
        1,
        "ivy",
        "$2y$05$bvIG6Nmid91Mu9RcmmWZfO5HJIMCT8riNW0hEp8f6/FuA2/mHZFpe",
    );
    assert!(user.check_password("password"));
    assert!(!user.check_password("Password"));
    assert!(!user.check_password(""));
}

#[test]
fn a_stored_string_that_is_no_hash_matches_nothing() {
    assert!(!user_row(1, "ivy", "password").check_password("password"));
    assert!(!user_row(1, "ivy", "").check_password(""));
    let with_control_chars = "$2b$10$\u{1}\u{2}IG6Nmid91Mu9RcmmWZfO5HJIMCT8riNW0hEp8f6/FuA2/mHZFpe";
    assert!(!user_row(1, "ivy", with_control_chars).check_password("password"));
    assert!(!user_row(1, "ivy", "\n").check_password("\n"));
    let past_the_table = "$2b$10$\u{80}IG6Nmid91Mu9RcmmWZfO5HJIMCT8riNW0hEp8f6/FuA2/mHZFp";
    assert!(!user_row(1, "ivy", past_the_table).check_password("password"));
    let not_ascii = "$2b$10$\u{e9}IG6Nmid91Mu9RcmmWZfO5HJIMCT8riNW0hEp8f6/FuA2/mHZFp";
    assert!(!user_row(1, "ivy", not_ascii).check_password("password"));
}

#[test]
fn printable_ascii_is_told_from_the_rest() {
    assert!(is_printable_ascii(""));
    assert!(is_printable_ascii("$2b$10$abc DEF~"));
    assert!(is_printable_ascii(" "));
    assert!(is_printable_ascii("~"));
    assert!(!is_printable_ascii("h\u{e9}llo"));
    assert!(!is_printable_ascii("smile \u{1F600}"));
    assert!(!is_printable_ascii("a\tb"));
    assert!(!is_printable_ascii("\u{0}"));
    assert!(!is_printable_ascii("abc\u{1f}"));
    assert!(!is_printable_ascii("\u{7f}"));
    assert!(!is_printable_ascii("\u{80}"));
}

#[test]
fn the_token_needs_both_the_name_and_the_password() {
    let user = user_row(1, "ivy", "h");
    let same = data("ivy", "pw");
    let other = data("joe", "pw");
    assert_eq!(
        user.token_for(&same, true).unwrap(),
        "AUTH_TOKEN_NOT_IMPLEMENTED"
    );
    assert!(matches!(
        user.token_for(&same, false),
        Err(AuthenticationError::IncorrectPassword)
    ));
    assert!(matches!(
        user.token_for(&other, true),
        Err(AuthenticationError::IncorrectPassword)
    ));
    assert!(matches!(
        user.token_for(&other, false),
        Err(AuthenticationError::IncorrectPassword)
    ));
}

#[test]
fn two_hashes_of_one_password_differ_and_both_match() {
    let a = User::generate_password("same").unwrap();
    let b = User::generate_password("same").unwrap();
    assert_ne!(a, b);
    assert_eq!(a.len(), 60);
    assert!(a.starts_with("$2b$10$"));
    assert!(bcrypt::verify("same", &a));
    assert!(bcrypt::verify("same", &b));
    assert!(!bcrypt::verify("other", &a));
}
