//! The scanner against a full sample source text and against small
//! hand-made texts.

use regex_le::scan::{enum_names, extract, function_names, struct_names};

/// A sample Rust-like source text holding five `fn`, two `struct` and
/// two `enum` declarations, together with comments, constants and
/// string literals that must not be mistaken for declarations.
const SAMPLE_TEXT: &str = r#"// Sample Rust file for Regex-LE testing
// Test patterns: /fn\s+(\w+)/g, /struct\s+(\w+)/g, /enum\s+(\w+)/g

// Struct definitions
struct User {
    id: u32,
    name: String,
    email: String,
}

struct Config {
    port: u16,
    host: String,
    database: String,
}

// Enum definitions
enum Status {
    Active,
    Inactive,
    Pending,
}

enum Color {
    Red,
    Green,
    Blue,
}

// Function definitions
fn calculate_total(items: &[Item]) -> f64 {
    items.iter().map(|item| item.price).sum()
}

fn process_user_data(user_id: u32) -> Result<User, io::Error> {
    let url = format!("/api/users/{}", user_id);
    // Process request
    Ok(User {
        id: user_id,
        name: "John".to_string(),
        email: "john@example.com".to_string(),
    })
}

async fn fetch_data(url: &str) -> Result<String, io::Error> {
    // Async implementation
    Ok("data".to_string())
}

// Implementation blocks
impl User {
    fn get_name(&self) -> &str {
        &self.name
    }

    fn set_email(&mut self, email: String) {
        self.email = email;
    }
}

// Constants
const MAX_USERS: u32 = 1000;
const API_VERSION: &str = "2.0.1";
const DEFAULT_PORT: u16 = 8080;

// String literals
let message = format!("User {} connected", user_id);
let path = format!("/api/v1/users/{}", user_id);
"#;

fn as_strings(names: Vec<Vec<u8>>) -> Vec<String> {
    names.into_iter().map(|n| String::from_utf8(n).unwrap()).collect()
}

#[test]
fn sample_function_names() {
    let names = as_strings(function_names(SAMPLE_TEXT.as_bytes()));
    assert_eq!(
        names,
        vec!["calculate_total", "process_user_data", "fetch_data", "get_name", "set_email"]
    );
}

#[test]
fn sample_struct_names() {
    let names = as_strings(struct_names(SAMPLE_TEXT.as_bytes()));
    assert_eq!(names, vec!["User", "Config"]);
}

#[test]
fn sample_enum_names() {
    let names = as_strings(enum_names(SAMPLE_TEXT.as_bytes()));
    assert_eq!(names, vec!["Status", "Color"]);
}

#[test]
fn empty_text_has_no_matches() {
    assert!(function_names(b"").is_empty());
    assert!(struct_names(b"").is_empty());
    assert!(enum_names(b"").is_empty());
}

#[test]
fn keyword_alone_is_no_match() {
    assert!(function_names(b"fn").is_empty());
    assert!(function_names(b"fn   ").is_empty());
    assert!(function_names(b"fn ()").is_empty());
}

#[test]
fn keyword_needs_whitespace() {
    assert!(function_names(b"fnmain()").is_empty());
    assert_eq!(as_strings(function_names(b"fn\t\n  main()")), vec!["main"]);
}

#[test]
fn no_word_boundary_before_keyword() {
    // The pattern has no boundary assertion: `struct` inside a longer
    // word still starts a match.
    assert_eq!(as_strings(struct_names(b"mystruct Foo;")), vec!["Foo"]);
}

#[test]
fn matches_do_not_overlap() {
    // The first match spans `fn fn`; the search resumes after it, so
    // the inner `fn x` is never seen.
    assert_eq!(as_strings(function_names(b"fn fn x")), vec!["fn"]);
}

#[test]
fn capture_stops_at_non_word_byte() {
    assert_eq!(as_strings(function_names(b"fn add_2(a: u32)")), vec!["add_2"]);
}

#[test]
fn matches_come_in_text_order() {
    let text = b"fn b() {} fn a() {} fn c() {}";
    assert_eq!(as_strings(function_names(text)), vec!["b", "a", "c"]);
}

#[test]
fn extract_takes_any_keyword() {
    let text = b"trait Read; trait Write;";
    assert_eq!(as_strings(extract(text, b"trait")), vec!["Read", "Write"]);
}
