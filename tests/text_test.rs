use rust_api::routes::{route, Route};
use rust_api::text::{parse_group, parse_u16, parse_u32, same_text};
use rust_api::UserGroup;

#[test]
fn parse_u16_reads_decimal_numbers() {
    assert_eq!(parse_u16("2000"), Some(2000));
    assert_eq!(parse_u16("0"), Some(0));
    assert_eq!(parse_u16("+7"), Some(7));
    assert_eq!(parse_u16("00065535"), Some(65535));
    assert_eq!(parse_u16("65536"), None);
    assert_eq!(parse_u16("999999999999"), None);
    assert_eq!(parse_u16(""), None);
    assert_eq!(parse_u16("+"), None);
    assert_eq!(parse_u16("-0"), None);
    assert_eq!(parse_u16(" 1"), None);
    assert_eq!(parse_u16("1a"), None);
}

#[test]
fn parse_u32_reads_decimal_numbers() {
    assert_eq!(parse_u32("4294967295"), Some(4294967295));
    assert_eq!(parse_u32("4294967296"), None);
    assert_eq!(parse_u32("12"), Some(12));
    assert_eq!(parse_u32("test"), None);
}

#[test]
fn parse_group_knows_three_labels() {
    assert_eq!(parse_group("user"), Some(UserGroup::User));
    assert_eq!(parse_group("premium"), Some(UserGroup::Premium));
    assert_eq!(parse_group("admin"), Some(UserGroup::Admin));
    assert_eq!(parse_group("Admin"), None);
    assert_eq!(parse_group(""), None);
}

#[test]
fn same_text_compares_characters() {
    assert!(same_text("name", "name"));
    assert!(!same_text("name", "names"));
    assert!(!same_text("name", "Name"));
    assert!(same_text("", ""));
}

#[test]
fn route_maps_methods_and_paths() {
    assert_eq!(route("GET", "/users"), Route::ListUsers);
    assert_eq!(route("POST", "/users"), Route::AddUser);
    assert_eq!(route("GET", "/users/1"), Route::ShowUser(1));
    assert_eq!(route("PATCH", "/users/5"), Route::ChangeUser(5));
    assert_eq!(route("DELETE", "/users/2"), Route::DeleteUser(2));
    assert_eq!(route("GET", "/users/test/"), Route::InvalidId);
    assert_eq!(route("PUT", "/users/1"), Route::NotFound);
    assert_eq!(route("DELETE", "/users"), Route::NotFound);
    assert_eq!(route("GET", "/other"), Route::NotFound);
}
