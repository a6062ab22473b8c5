use user_service::json::{
    append_entry, decode_create_user, encode_users, find_text, parse_create_user, render_entries,
    render_users, DecodeError, Entry, Member,
};
use user_service::text::{append_decimal, decimal, same_text};
use user_service::user::{CreateUserRequest, User};

fn member(key: &str, text: Option<&str>) -> Member {
    Member { key: key.to_string(), text: text.map(|t| t.to_string()) }
}

fn user(id: i64, name: &str) -> User {
    User { id, name: name.to_string() }
}

#[test]
fn decode_error_statuses() {
    assert_eq!(DecodeError::Syntax.status(), 400);
    assert_eq!(DecodeError::Shape.status(), 422);
}

#[test]
fn parse_reads_the_name() {
    assert_eq!(
        parse_create_user(b"{\"name\":\"alice\"}"),
        Ok(CreateUserRequest { name: "alice".to_string() })
    );
}

#[test]
fn parse_tells_syntax_from_shape() {
    assert_eq!(parse_create_user(b"{"), Err(DecodeError::Syntax));
    assert_eq!(parse_create_user(b""), Err(DecodeError::Syntax));
    assert_eq!(parse_create_user(b"{\"name\":\"a\",}"), Err(DecodeError::Syntax));
    assert_eq!(parse_create_user(b"[]"), Err(DecodeError::Shape));
    assert_eq!(parse_create_user(b"{}"), Err(DecodeError::Shape));
    assert_eq!(parse_create_user(b"{\"name\":[\"a\"]}"), Err(DecodeError::Shape));
    assert_eq!(parse_create_user(b"{\"name\":{\"name\":\"a\"}}"), Err(DecodeError::Shape));
}

#[test]
fn parse_keeps_text_outside_ascii() {
    assert_eq!(
        parse_create_user("{\"name\":\"Zo\u{eb} \u{4e2d}\u{6587}\"}".as_bytes()),
        Ok(CreateUserRequest { name: "Zo\u{eb} \u{4e2d}\u{6587}".to_string() })
    );
}

#[test]
fn decode_takes_the_member_called_name() {
    let members = vec![member("age", None), member("name", Some("alice")), member("nick", Some("al"))];
    assert_eq!(decode_create_user(Ok(members)), Ok(CreateUserRequest { name: "alice".to_string() }));
}

#[test]
fn decode_takes_the_first_member_called_name() {
    let members = vec![member("name", Some("first")), member("name", Some("second"))];
    assert_eq!(decode_create_user(Ok(members)), Ok(CreateUserRequest { name: "first".to_string() }));
    let hidden = vec![member("name", None), member("name", Some("second"))];
    assert_eq!(decode_create_user(Ok(hidden)), Err(DecodeError::Shape));
}

#[test]
fn decode_without_a_text_name_is_a_fault_of_shape() {
    assert_eq!(decode_create_user(Ok(vec![])), Err(DecodeError::Shape));
    assert_eq!(decode_create_user(Ok(vec![member("name", None)])), Err(DecodeError::Shape));
    assert_eq!(decode_create_user(Ok(vec![member("names", Some("a"))])), Err(DecodeError::Shape));
    assert_eq!(decode_create_user(Ok(vec![member("nam", Some("a"))])), Err(DecodeError::Shape));
}

#[test]
fn decode_keeps_the_fault_of_the_parser() {
    assert_eq!(decode_create_user(Err(DecodeError::Syntax)), Err(DecodeError::Syntax));
    assert_eq!(decode_create_user(Err(DecodeError::Shape)), Err(DecodeError::Shape));
}

#[test]
fn find_text_looks_for_the_whole_key() {
    let members = vec![member("a", Some("1")), member("ab", None), member("b", Some("2"))];
    assert_eq!(find_text(&members, "a"), Some("1".to_string()));
    assert_eq!(find_text(&members, "ab"), None);
    assert_eq!(find_text(&members, "b"), Some("2".to_string()));
    assert_eq!(find_text(&members, "c"), None);
    assert_eq!(find_text(&members, ""), None);
    assert_eq!(find_text(&[].to_vec(), "a"), None);
}

#[test]
fn names_are_written_as_json_string_literals() {
    let cases = [
        ("alice", "\"alice\""),
        ("", "\"\""),
        ("say \"hi\"", "\"say \\\"hi\\\"\""),
        ("back\\slash", "\"back\\\\slash\""),
        ("line\nfeed\ttab\rreturn", "\"line\\nfeed\\ttab\\rreturn\""),
        ("\u{8}\u{c}", "\"\\b\\f\""),
        ("\u{0}\u{1f}", "\"\\u0000\\u001f\""),
        ("a/b", "\"a/b\""),
        ("\u{7f}", "\"\u{7f}\""),
        ("Zo\u{eb} \u{1f600}", "\"Zo\u{eb} \u{1f600}\""),
    ];
    for (name, literal) in cases {
        let entries = encode_users(&vec![user(4, name)]);
        assert_eq!(entries, vec![Entry { id: 4, name_literal: literal.to_string() }]);
        assert_eq!(render_users(&vec![user(4, name)]), format!("[{{\"id\":4,\"name\":{}}}]", literal));
    }
}

#[test]
fn render_users_round_trips_through_the_parser() {
    for name in ["plain", "quote\" and \\ and \n", "\u{0}\u{7}", "\u{10ffff}"] {
        let array = render_users(&vec![user(1, name)]);
        let object = &array[1..array.len() - 1];
        assert_eq!(
            parse_create_user(object.as_bytes()),
            Ok(CreateUserRequest { name: name.to_string() })
        );
    }
}

#[test]
fn render_entries_frames_what_it_is_given() {
    assert_eq!(render_entries(&vec![]), "[]");
    let one = vec![Entry { id: 1, name_literal: "\"alice\"".to_string() }];
    assert_eq!(render_entries(&one), "[{\"id\":1,\"name\":\"alice\"}]");
    let two = vec![
        Entry { id: -5, name_literal: "\"a\"".to_string() },
        Entry { id: 12, name_literal: "\"b\"".to_string() },
    ];
    assert_eq!(render_entries(&two), "[{\"id\":-5,\"name\":\"a\"},{\"id\":12,\"name\":\"b\"}]");
}

#[test]
fn append_entry_adds_to_what_is_there() {
    let mut out = String::from("x");
    append_entry(&mut out, &Entry { id: 30, name_literal: "\"n\"".to_string() });
    assert_eq!(out, "x{\"id\":30,\"name\":\"n\"}");
}

#[test]
fn encode_users_keeps_ids_and_order() {
    let entries = encode_users(&vec![user(2, "b"), user(1, "a")]);
    assert_eq!(
        entries,
        vec![
            Entry { id: 2, name_literal: "\"b\"".to_string() },
            Entry { id: 1, name_literal: "\"a\"".to_string() },
        ]
    );
    assert_eq!(encode_users(&vec![]), vec![]);
}

#[test]
fn decimal_of_small_and_large_numbers() {
    assert_eq!(decimal(0), "0");
    assert_eq!(decimal(7), "7");
    assert_eq!(decimal(10), "10");
    assert_eq!(decimal(-1), "-1");
    assert_eq!(decimal(1000200), "1000200");
    assert_eq!(decimal(-90), "-90");
    assert_eq!(decimal(i64::MAX), "9223372036854775807");
    assert_eq!(decimal(i64::MIN), "-9223372036854775808");
    assert_eq!(decimal(i64::MIN + 1), "-9223372036854775807");
}

#[test]
fn decimal_agrees_with_the_standard_formatting() {
    let mut n: i64 = 1;
    for step in 0..62 {
        for value in [n, -n, n - 1, n + 1, n * 3 / 2] {
            assert_eq!(decimal(value), value.to_string(), "step {}", step);
        }
        n *= 2;
    }
}

#[test]
fn append_decimal_adds_to_what_is_there() {
    let mut out = String::from("id=");
    append_decimal(&mut out, -42);
    append_decimal(&mut out, 0);
    assert_eq!(out, "id=-420");
}

#[test]
fn same_text_compares_whole_texts() {
    assert!(same_text("", ""));
    assert!(same_text("/user/", "/user/"));
    assert!(!same_text("/user/", "/user"));
    assert!(!same_text("/user", "/user/"));
    assert!(!same_text("a", "b"));
    assert!(same_text("caf\u{e9}", "caf\u{e9}"));
    assert!(!same_text("cafe\u{301}", "caf\u{e9}"));
}
