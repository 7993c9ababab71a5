//! The sample data module: records, paths and constants.

use regex_le::sample::{
    api_user_path, api_version, process_user_data, Color, Status, User, DEFAULT_PORT, MAX_USERS,
};

#[test]
fn process_user_data_returns_the_sample_record() {
    let user = process_user_data(7).unwrap();
    assert_eq!(user.id, 7);
    assert_eq!(user.name, "John");
    assert_eq!(user.email, "john@example.com");
}

#[test]
fn get_name_returns_the_name_field() {
    let user = process_user_data(1).unwrap();
    assert_eq!(user.get_name(), "John");
}

#[test]
fn set_email_replaces_only_the_email() {
    let mut user = process_user_data(3).unwrap();
    user.set_email(String::from("jack@example.com"));
    assert_eq!(user.id, 3);
    assert_eq!(user.name, "John");
    assert_eq!(user.email, "jack@example.com");
}

#[test]
fn api_user_path_is_prefix_then_decimal() {
    assert_eq!(api_user_path(42), b"/api/users/42".to_vec());
    assert_eq!(api_user_path(0), b"/api/users/0".to_vec());
    assert_eq!(api_user_path(u32::MAX), b"/api/users/4294967295".to_vec());
}

#[test]
fn sample_constants() {
    assert_eq!(MAX_USERS, 1000);
    assert_eq!(DEFAULT_PORT, 8080);
    assert_eq!(api_version(), "2.0.1");
}

#[test]
fn status_and_color_are_plain_states() {
    let s = Status::Pending;
    assert!(matches!(s, Status::Pending));
    assert!(Status::Active == Status::Active);
    assert!(Status::Active != Status::Inactive);
    let c = Color::Green;
    assert!(matches!(c, Color::Green));
    assert!(Color::Red != Color::Blue);
}

#[test]
fn user_struct_holds_its_fields() {
    let user = User {
        id: 12,
        name: String::from("Ada"),
        email: String::from("ada@example.com"),
    };
    assert_eq!(user.get_name(), "Ada");
    assert_eq!(user.id, 12);
}
