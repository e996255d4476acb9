use cxx_dlang::ffi::{handle_describe, make_handle, rust_greet, Greeting};

#[test]
fn greet_wraps_name() {
    assert_eq!(rust_greet("D"), "Hello, D! (count=1)");
}

#[test]
fn greet_empty_name() {
    assert_eq!(rust_greet(""), "Hello, ! (count=1)");
}

#[test]
fn greet_keeps_unicode_name_whole() {
    let name = "黑风雷 👋";
    let g = rust_greet(name);
    assert_eq!(g, format!("Hello, {name}! (count=1)"));
    assert_eq!(g.chars().count(), name.chars().count() + 18);
    let inner: String = g.chars().skip(7).take(name.chars().count()).collect();
    assert_eq!(inner, name);
}

#[test]
fn distinct_names_greet_differently() {
    assert_ne!(rust_greet("alice"), rust_greet("bob"));
    assert_ne!(rust_greet("a"), rust_greet("a "));
}

#[test]
fn fresh_handle_describes_itself() {
    let handle = make_handle();
    assert_eq!(handle_describe(&handle), "rust-handle");
}

#[test]
fn describe_does_not_consume_handle() {
    let handle = make_handle();
    let first = handle_describe(&handle);
    let second = handle_describe(&handle);
    assert_eq!(first, second);
    assert_eq!(second, "rust-handle");
}

#[test]
fn greeting_struct_holds_fields() {
    let g = Greeting { name: "alice".to_string(), count: 6 };
    assert_eq!(g.name, "alice");
    assert_eq!(g.count, 6);
}
