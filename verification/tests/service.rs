use user_service::http::{ContentType, Method, Request, Response};
use user_service::route::{route, Route};
use user_service::service::{
    complete, create_user, fallback, handle, list_users, serve, status, user_created, Step,
};
use user_service::store::{StoreCall, StoreError, StoreReply, UserTable};
use user_service::user::User;

fn request(method: Method, target: &str, body: &str) -> Request {
    let path = match target.find('?') {
        Some(at) => &target[..at],
        None => target,
    };
    Request {
        method,
        path: path.to_string(),
        uri: target.to_string(),
        body: body.as_bytes().to_vec(),
    }
}

fn text(status: u16, body: &str) -> Response {
    Response { status, content_type: Some(ContentType::Text), body: body.to_string() }
}

fn json(body: &str) -> Response {
    Response { status: 200, content_type: Some(ContentType::Json), body: body.to_string() }
}

fn bare(status: u16) -> Response {
    Response { status, content_type: None, body: String::new() }
}

#[test]
fn create_then_list_on_an_empty_store() {
    let mut table = UserTable::new();
    let created = serve(&mut table, &request(Method::Post, "/user/", "{\"name\":\"alice\"}"));
    assert_eq!(created, text(200, "User created!"));
    let listed = serve(&mut table, &request(Method::Get, "/user/", ""));
    assert_eq!(listed, json("[{\"id\":1,\"name\":\"alice\"}]"));
}

#[test]
fn listing_an_empty_store_gives_an_empty_array() {
    let mut table = UserTable::new();
    let listed = serve(&mut table, &request(Method::Get, "/user/", ""));
    assert_eq!(listed, json("[]"));
    assert_eq!(table.len(), 0);
}

#[test]
fn listing_separates_objects_by_commas_only() {
    let mut table = UserTable::new();
    for name in ["alice", "bob", "carol"] {
        let body = format!("{{\"name\":\"{}\"}}", name);
        assert_eq!(serve(&mut table, &request(Method::Post, "/user/", &body)).status, 200);
    }
    let listed = serve(&mut table, &request(Method::Get, "/user/", ""));
    assert_eq!(
        listed.body,
        "[{\"id\":1,\"name\":\"alice\"},{\"id\":2,\"name\":\"bob\"},{\"id\":3,\"name\":\"carol\"}]"
    );
}

#[test]
fn post_adds_exactly_one_entry_with_a_fresh_id() {
    let rows = vec![
        User { id: 3, name: "ann".to_string() },
        User { id: 7, name: "ben".to_string() },
    ];
    let mut table = UserTable::from_rows(rows.clone()).unwrap();
    let created = serve(&mut table, &request(Method::Post, "/user/", "{\"name\":\"ben\"}"));
    assert_eq!(created, text(200, "User created!"));
    let after = table.select_all().unwrap();
    assert_eq!(after.len(), rows.len() + 1);
    assert_eq!(&after[..2], &rows[..]);
    assert_eq!(after[2], User { id: 8, name: "ben".to_string() });
    assert!(rows.iter().all(|row| row.id != after[2].id));
    let listed = serve(&mut table, &request(Method::Get, "/user/", ""));
    assert_eq!(
        listed,
        json("[{\"id\":3,\"name\":\"ann\"},{\"id\":7,\"name\":\"ben\"},{\"id\":8,\"name\":\"ben\"}]")
    );
}

#[test]
fn status_is_ok_whatever_the_store_holds() {
    assert_eq!(status(), text(200, "Ok!"));
    let probe = request(Method::Get, "/status/", "");
    assert_eq!(handle(&probe), Step::Respond(text(200, "Ok!")));
    let mut empty = UserTable::new();
    assert_eq!(serve(&mut empty, &probe), text(200, "Ok!"));
    assert_eq!(empty.len(), 0);
    let mut full =
        UserTable::from_rows(vec![User { id: i64::MAX, name: "last".to_string() }]).unwrap();
    assert_eq!(serve(&mut full, &probe), text(200, "Ok!"));
    assert_eq!(full.len(), 1);
}

#[test]
fn status_ignores_query_and_body() {
    let mut table = UserTable::new();
    let probe = request(Method::Get, "/status/?verbose=1", "ignored");
    assert_eq!(serve(&mut table, &probe), text(200, "Ok!"));
}

#[test]
fn body_without_name_is_a_client_error_and_stores_nothing() {
    let mut table = UserTable::new();
    table.insert("kept").unwrap();
    for body in ["{}", "{\"nick\":\"al\"}", "{\"Name\":\"al\"}", "{\"name\":null}", "{\"name\":7}"] {
        let answer = serve(&mut table, &request(Method::Post, "/user/", body));
        assert_eq!(answer, bare(422), "body {}", body);
        assert_eq!(table.len(), 1);
    }
}

#[test]
fn body_that_is_no_json_is_a_client_error_and_stores_nothing() {
    let mut table = UserTable::new();
    for body in ["", "name=alice", "{\"name\":", "{name:\"alice\"}", "\u{feff}{}"] {
        let answer = serve(&mut table, &request(Method::Post, "/user/", body));
        assert_eq!(answer, bare(400), "body {}", body);
        assert_eq!(table.len(), 0);
    }
}

#[test]
fn body_that_is_json_but_no_object_is_a_client_error() {
    let mut table = UserTable::new();
    for body in ["[\"alice\"]", "\"alice\"", "7", "true", "null"] {
        let answer = serve(&mut table, &request(Method::Post, "/user/", body));
        assert_eq!(answer, bare(422), "body {}", body);
        assert_eq!(table.len(), 0);
    }
}

#[test]
fn body_bytes_that_are_no_text_are_a_client_error() {
    let step = create_user(&[0xff, 0xfe, 0x00]);
    assert_eq!(step, Step::Respond(bare(400)));
}

#[test]
fn create_user_asks_the_store_to_insert_the_name() {
    let step = create_user(b"{\"name\":\"alice\"}");
    assert_eq!(step, Step::Call(StoreCall::Insert { name: "alice".to_string() }));
}

#[test]
fn create_user_ignores_other_members() {
    let step = create_user(b" { \"id\" : 99, \"name\" : \"bob\", \"tags\" : [1, {\"name\":\"no\"}] } ");
    assert_eq!(step, Step::Call(StoreCall::Insert { name: "bob".to_string() }));
}

#[test]
fn create_user_accepts_an_empty_name() {
    let step = create_user(b"{\"name\":\"\"}");
    assert_eq!(step, Step::Call(StoreCall::Insert { name: String::new() }));
}

#[test]
fn create_user_decodes_escapes_in_the_name() {
    let step = create_user(b"{\"name\":\"a\\\"b\\\\c\\n\\u00e9\\ud83d\\ude00\"}");
    assert_eq!(step, Step::Call(StoreCall::Insert { name: "a\"b\\c\n\u{e9}\u{1f600}".to_string() }));
}

#[test]
fn unknown_path_is_not_found_and_names_the_path() {
    let mut table = UserTable::new();
    let answer = serve(&mut table, &request(Method::Get, "/nope", ""));
    assert_eq!(answer, text(404, "No route /nope"));
    assert!(answer.body.contains("/nope"));
}

#[test]
fn fallback_names_the_whole_request_target() {
    assert_eq!(fallback("/nope?x=1&y=2"), text(404, "No route /nope?x=1&y=2"));
    assert_eq!(fallback("/"), text(404, "No route /"));
    assert_eq!(fallback(""), text(404, "No route "));
    assert_eq!(fallback("/caf\u{e9}"), text(404, "No route /caf\u{e9}"));
}

#[test]
fn known_path_with_another_method_is_not_found() {
    let mut table = UserTable::new();
    for method in [Method::Put, Method::Delete, Method::Patch, Method::Head, Method::Options, Method::Other] {
        let answer = serve(&mut table, &request(method, "/user/", "{\"name\":\"x\"}"));
        assert_eq!(answer, text(404, "No route /user/"));
    }
    assert_eq!(serve(&mut table, &request(Method::Post, "/status/", "")), text(404, "No route /status/"));
    assert_eq!(table.len(), 0);
}

#[test]
fn path_must_match_as_a_whole() {
    for path in ["/user", "/user//", "/User/", "user/", "/user/1", "/status", "/status/x", "", "/"] {
        assert_eq!(route(Method::Get, path), Route::NotFound, "path {}", path);
        assert_eq!(route(Method::Post, path), Route::NotFound, "path {}", path);
    }
}

#[test]
fn routing_table() {
    assert_eq!(route(Method::Get, "/status/"), Route::Status);
    assert_eq!(route(Method::Post, "/user/"), Route::CreateUser);
    assert_eq!(route(Method::Get, "/user/"), Route::ListUsers);
    assert_eq!(route(Method::Post, "/status/"), Route::NotFound);
    assert_eq!(route(Method::Head, "/status/"), Route::NotFound);
    assert_eq!(route(Method::Connect, "/user/"), Route::NotFound);
    assert_eq!(route(Method::Trace, "/user/"), Route::NotFound);
}

#[test]
fn routing_goes_by_the_path_not_the_target() {
    let mut table = UserTable::new();
    let answer = serve(&mut table, &request(Method::Get, "/user/?page=2", ""));
    assert_eq!(answer, json("[]"));
    let missing = serve(&mut table, &request(Method::Get, "/users/?page=2", ""));
    assert_eq!(missing, text(404, "No route /users/?page=2"));
}

#[test]
fn handle_plans_the_store_call() {
    assert_eq!(handle(&request(Method::Get, "/user/", "")), Step::Call(StoreCall::SelectAll));
    assert_eq!(
        handle(&request(Method::Post, "/user/", "{\"name\":\"dora\"}")),
        Step::Call(StoreCall::Insert { name: "dora".to_string() })
    );
    assert_eq!(handle(&request(Method::Post, "/user/", "dora")), Step::Respond(bare(400)));
    assert_eq!(handle(&request(Method::Get, "/x", "")), Step::Respond(text(404, "No route /x")));
}

#[test]
fn store_failure_is_a_server_error_without_a_body() {
    assert_eq!(user_created(Err(StoreError::Connection)), bare(500));
    assert_eq!(user_created(Err(StoreError::Statement)), bare(500));
    assert_eq!(list_users(Err(StoreError::Connection)), bare(500));
    assert_eq!(list_users(Err(StoreError::Statement)), bare(500));
    assert_eq!(complete(StoreReply::Inserted(Err(StoreError::Connection))), bare(500));
    assert_eq!(complete(StoreReply::Selected(Err(StoreError::Statement))), bare(500));
}

#[test]
fn store_success_is_answered() {
    assert_eq!(user_created(Ok(())), text(200, "User created!"));
    assert_eq!(complete(StoreReply::Inserted(Ok(()))), text(200, "User created!"));
    let rows = vec![User { id: 5, name: "eve".to_string() }];
    assert_eq!(list_users(Ok(rows.clone())), json("[{\"id\":5,\"name\":\"eve\"}]"));
    assert_eq!(complete(StoreReply::Selected(Ok(rows))), json("[{\"id\":5,\"name\":\"eve\"}]"));
}

#[test]
fn rows_are_listed_in_the_order_the_store_returns() {
    let rows = vec![
        User { id: 9, name: "z".to_string() },
        User { id: -2, name: "a".to_string() },
        User { id: 9, name: "z".to_string() },
    ];
    assert_eq!(
        list_users(Ok(rows)).body,
        "[{\"id\":9,\"name\":\"z\"},{\"id\":-2,\"name\":\"a\"},{\"id\":9,\"name\":\"z\"}]"
    );
}

#[test]
fn insert_into_a_full_table_is_a_server_error() {
    let mut table =
        UserTable::from_rows(vec![User { id: i64::MAX, name: "last".to_string() }]).unwrap();
    let answer = serve(&mut table, &request(Method::Post, "/user/", "{\"name\":\"more\"}"));
    assert_eq!(answer, bare(500));
    assert_eq!(table.len(), 1);
}

#[test]
fn posts_in_any_order_add_one_row_each_with_distinct_ids() {
    let names = ["ann", "ben", "cy", "dee"];
    let orders: [[usize; 4]; 3] = [[0, 1, 2, 3], [3, 2, 1, 0], [2, 0, 3, 1]];
    for order in orders {
        let mut table = UserTable::from_rows(vec![User { id: 10, name: "old".to_string() }]).unwrap();
        for at in order {
            let body = format!("{{\"name\":\"{}\"}}", names[at]);
            assert_eq!(
                serve(&mut table, &request(Method::Post, "/user/", &body)),
                text(200, "User created!")
            );
        }
        let rows = table.select_all().unwrap();
        assert_eq!(rows.len(), 1 + names.len());
        assert_eq!(rows[0], User { id: 10, name: "old".to_string() });
        let ids: Vec<i64> = rows[1..].iter().map(|row| row.id).collect();
        assert_eq!(ids, vec![11, 12, 13, 14]);
        let mut stored: Vec<&str> = rows[1..].iter().map(|row| row.name.as_str()).collect();
        let served: Vec<&str> = order.iter().map(|at| names[*at]).collect();
        assert_eq!(stored, served);
        stored.sort();
        assert_eq!(stored, names);
    }
}

#[test]
fn a_repeated_member_counts_once_and_the_later_value_stands() {
    let step = create_user(b"{\"name\":\"a\",\"name\":\"b\"}");
    assert_eq!(step, Step::Call(StoreCall::Insert { name: "b".to_string() }));
    let hidden = create_user(b"{\"name\":\"a\",\"name\":7}");
    assert_eq!(hidden, Step::Respond(bare(422)));
}
