use chat_server::store::Store;
use chat_server::user::auth::AuthenticationError;
use chat_server::user::{User, UserData};
use pwhash::bcrypt;

fn connection() -> Store {
    Store::new()
}

fn create_user_data(username: &str) -> UserData {
    UserData {
        username: String::from(username),
        password: String::from("12345678"),
    }
}

fn setup_user(conn: &mut Store) -> User {
    let response = User::create(create_user_data("testUser"), conn).unwrap();
    User::_find(conn, response.id).unwrap().unwrap()
}

#[test]
fn generate_password_hashes_password() {
    let clear_password = "p455w0rd!";
    let actual = User::generate_password(clear_password).unwrap();
    assert_ne!(clear_password, actual);
    assert!(bcrypt::verify(clear_password, &actual));
}

#[test]
fn correct_password_authenticates_user() {
    let mut conn = connection();
    setup_user(&mut conn);
    let user_data = create_user_data("testUser");

    assert!(User::authenticate(&conn, user_data).is_ok());
}

#[test]
fn incorrect_password_gives_incorrect_password() {
    let mut conn = connection();
    setup_user(&mut conn);
    let mut user_data = create_user_data("testUser");
    user_data.password = "Wrong password".to_string();

    assert!(matches!(
        User::authenticate(&conn, user_data),
        Err(AuthenticationError::IncorrectPassword)
    ));
}

#[test]
fn authentication_with_unknown_username_gives_user_not_found() {
    let mut conn = connection();
    setup_user(&mut conn);
    let user_data = create_user_data("USER_NAME_DOES_NOT_EXIST");

    assert!(matches!(
        User::authenticate(&conn, user_data),
        Err(AuthenticationError::UserNotFound)
    ));
}
