//! The handlers and the dispatch of a request.
//!
//! A request is served in two moves. [`handle`] reads the request and decides
//! the next [`Step`]: an answer, or a call on the user store. Whoever owns the
//! store performs the call and passes its reply to [`complete`], which gives
//! the answer. [`serve`] does both against a [`UserTable`] in memory.

use crate::http::{occurs_in, Method, Request, RequestView, Response, ResponseView};
use crate::http::{INTERNAL_SERVER_ERROR, NOT_FOUND, OK};
use crate::json::{decoded, parse_create_user, parsed_object, render_users, users_json};
use crate::json::DecodeError;
use crate::route::{lemma_paths_differ, route, route_of, Route};
use crate::store::{executed, has_id, ids_ascend, inserted, inserted_all, is_full, next_id};
use crate::store::{lemma_insert_adds_one_row, lemma_inserts_add_one_row_each};
use crate::store::{StoreCall, StoreCallView, StoreError, StoreReply, StoreReplyView, UserTable};
use crate::user::{CreateUserRequest, CreateUserRequestView, User, UserView};
use vstd::prelude::*;
use vstd::string::*;

verus! {

/// What serving a request does next.
#[derive(Debug, PartialEq, Eq)]
pub enum Step {
    /// The answer is decided; the store is not called.
    Respond(Response),
    /// The store is to perform this call; its reply decides the answer.
    Call(StoreCall),
}

/// The mathematical value of a [`Step`].
pub enum StepView {
    Respond(ResponseView),
    Call(StoreCallView),
}

impl View for Step {
    type V = StepView;

    open spec fn view(&self) -> StepView {
        match self {
            Step::Respond(response) => StepView::Respond(response@),
            Step::Call(call) => StepView::Call(call@),
        }
    }
}

/// The answer of the liveness probe: 200 with the text `Ok!`.
pub open spec fn status_response() -> ResponseView {
    ResponseView::text(OK, "Ok!"@)
}

/// The answer to a request that no handler serves: 404 with the text
/// `No route ` followed by the request target.
pub open spec fn not_found(uri: Seq<char>) -> ResponseView {
    ResponseView::text(NOT_FOUND, "No route "@ + uri)
}

/// The answer to a user that was created: 200 with the text `User created!`.
pub open spec fn created_response() -> ResponseView {
    ResponseView::text(OK, "User created!"@)
}

/// The step that follows from the decoded body of a request to create a
/// user: an insert of the name, or the bare status of the fault.
pub open spec fn create_user_step(request: Result<CreateUserRequestView, DecodeError>) -> StepView {
    match request {
        Ok(payload) => StepView::Call(StoreCallView::Insert { name: payload.name }),
        Err(error) => StepView::Respond(ResponseView::bare(error.spec_status())),
    }
}

/// The step that a request leads to.
pub open spec fn planned(request: RequestView) -> StepView {
    match route_of(request.method, request.path) {
        Route::Status => StepView::Respond(status_response()),
        Route::CreateUser => create_user_step(decoded(parsed_object(request.body))),
        Route::ListUsers => StepView::Call(StoreCallView::SelectAll),
        Route::NotFound => StepView::Respond(not_found(request.uri)),
    }
}

/// The answer that a store reply leads to. A failed call is answered with
/// the bare status 500, whatever failed.
pub open spec fn answered(reply: StoreReplyView) -> ResponseView {
    match reply {
        StoreReplyView::Inserted(Ok(_)) => created_response(),
        StoreReplyView::Selected(Ok(rows)) => ResponseView::json(users_json(rows)),
        StoreReplyView::Inserted(Err(_)) => ResponseView::bare(INTERNAL_SERVER_ERROR),
        StoreReplyView::Selected(Err(_)) => ResponseView::bare(INTERNAL_SERVER_ERROR),
    }
}

/// Serving a request against a table: the rows afterwards and the answer.
pub open spec fn served(rows: Seq<UserView>, request: RequestView) -> (Seq<UserView>, ResponseView) {
    match planned(request) {
        StepView::Respond(response) => (rows, response),
        StepView::Call(call) => (executed(rows, call).0, answered(executed(rows, call).1)),
    }
}

/// The liveness probe. It takes nothing and looks at nothing: the answer is
/// 200 `Ok!` whatever state the store is in.
pub fn status() -> (response: Response)
    ensures
        response@ == status_response(),
{
    Response::text(OK, String::from_str("Ok!"))
}

/// Answers a request that matches no route: 404, and a body that names the
/// request target as the client wrote it.
pub fn fallback(uri: &str) -> (response: Response)
    ensures
        response@ == not_found(uri@),
{
    Response::text(NOT_FOUND, String::from_str("No route ").concat(uri))
}

/// Decides what a decoded request to create a user leads to: the insert of
/// its name, or the answer to a body that could not be decoded.
pub fn plan_create_user(request: Result<CreateUserRequest, DecodeError>) -> (step: Step)
    ensures
        match request {
            Ok(payload) => step@ == StepView::Call(StoreCallView::Insert { name: payload.name@ }),
            Err(error) => step@ == StepView::Respond(ResponseView::bare(error.spec_status())),
        },
{
    match request {
        Ok(payload) => Step::Call(StoreCall::Insert { name: payload.name }),
        Err(error) => Step::Respond(Response::bare(error.status())),
    }
}

/// First move of `POST /user/`: decodes the body and asks the store to insert
/// the name. A body that cannot be decoded is answered at once with a client
/// error, and the store is not called.
pub fn create_user(body: &[u8]) -> (step: Step)
    ensures
        step@ == create_user_step(decoded(parsed_object(body@))),
        step matches Step::Respond(response) ==> response@.is_client_error(),
{
    plan_create_user(parse_create_user(body))
}

/// Second move of `POST /user/`: the answer to the outcome of the insert.
pub fn user_created(outcome: Result<(), StoreError>) -> (response: Response)
    ensures
        response@ == answered(StoreReplyView::Inserted(outcome)),
{
    match outcome {
        Ok(_) => Response::text(OK, String::from_str("User created!")),
        Err(_) => Response::bare(INTERNAL_SERVER_ERROR),
    }
}

/// Second move of `GET /user/`: the rows as a JSON array, or 500 where the
/// store failed. The rows are written in the order in which the store
/// returned them; no order is imposed here.
pub fn list_users(outcome: Result<Vec<User>, StoreError>) -> (response: Response)
    ensures
        response@ == answered((StoreReply::Selected(outcome))@),
{
    match outcome {
        Ok(rows) => Response::json(render_users(&rows)),
        Err(_) => Response::bare(INTERNAL_SERVER_ERROR),
    }
}

/// First move for any request: selects the handler by method and path and
/// lets it decide the step.
pub fn handle(request: &Request) -> (step: Step)
    ensures
        step@ == planned(request@),
        step matches Step::Respond(response) ==> {
            ||| response@ == status_response()
            ||| response@ == not_found(request.uri@)
            ||| response@.is_client_error() && response.body@.len() == 0
        },
{
    match route(request.method, request.path.as_str()) {
        Route::Status => Step::Respond(status()),
        Route::CreateUser => create_user(request.body.as_slice()),
        Route::ListUsers => Step::Call(StoreCall::SelectAll),
        Route::NotFound => Step::Respond(fallback(request.uri.as_str())),
    }
}

/// Second move for any request: the answer to the reply of the store.
pub fn complete(reply: StoreReply) -> (response: Response)
    ensures
        response@ == answered(reply@),
{
    match reply {
        StoreReply::Inserted(outcome) => user_created(outcome),
        StoreReply::Selected(outcome) => list_users(outcome),
    }
}

/// Serves one request against a table in memory: decides the step, performs
/// the store call if there is one, and answers.
pub fn serve(table: &mut UserTable, request: &Request) -> (response: Response)
    ensures
        ids_ascend(old(table)@),
        ids_ascend(final(table)@),
        final(table)@ == served(old(table)@, request@).0,
        response@ == served(old(table)@, request@).1,
        response@.is_client_error() ==> final(table)@ == old(table)@,
{
    match handle(request) {
        Step::Respond(response) => {
            proof {
                use_type_invariant(&*table);
                table.lemma_rows_ascend();
            }
            response
        },
        Step::Call(call) => {
            let reply = table.execute(&call);
            complete(reply)
        },
    }
}

/// A store call that failed is answered with the bare status 500, whichever
/// call it was and whatever failed: the answer says nothing of the fault.
pub proof fn lemma_store_failure_is_server_error(reply: StoreReplyView)
    requires
        reply matches StoreReplyView::Inserted(Err(_)) || reply matches StoreReplyView::Selected(
            Err(_),
        ),
    ensures
        answered(reply) == ResponseView::bare(INTERNAL_SERVER_ERROR),
        answered(reply).is_server_error(),
        answered(reply).body.len() == 0,
{
}

/// Serving one request after another against a table: the rows afterwards.
pub open spec fn served_all(rows: Seq<UserView>, requests: Seq<RequestView>) -> Seq<UserView>
    decreases requests.len(),
{
    if requests.len() == 0 {
        rows
    } else {
        served(served_all(rows, requests.drop_last()), requests.last()).0
    }
}

/// Whether the request is a `POST /user/` whose body decodes to this name.
pub open spec fn creates(request: RequestView, name: Seq<char>) -> bool {
    &&& request.method == Method::Post
    &&& request.path == "/user/"@
    &&& decoded(parsed_object(request.body)) == Ok::<CreateUserRequestView, DecodeError>(
        CreateUserRequestView { name },
    )
}

/// Whether the request is a `GET /user/`.
pub open spec fn lists(request: RequestView) -> bool {
    request.method == Method::Get && request.path == "/user/"@
}

/// The liveness probe answers 200 `Ok!` whatever the store holds. It asks
/// nothing of the store, so the answer is the same where the store cannot be
/// reached, and the rows stay as they are.
pub proof fn lemma_status_ignores_store(rows: Seq<UserView>, request: RequestView)
    requires
        request.method == Method::Get,
        request.path == "/status/"@,
    ensures
        planned(request) == StepView::Respond(status_response()),
        served(rows, request) == (rows, status_response()),
        status_response().status == OK,
{
}

/// A valid payload is stored and then listed: after `POST /user/` with a name
/// the answer is 200 `User created!` and the table holds exactly one more
/// row, with that name and an id that no row had before; a `GET /user/` that
/// follows changes nothing and answers 200 with the JSON array of all rows,
/// the new one last.
pub proof fn lemma_created_user_is_listed(
    rows: Seq<UserView>,
    post: RequestView,
    get: RequestView,
    name: Seq<char>,
)
    requires
        ids_ascend(rows),
        !is_full(rows),
        creates(post, name),
        lists(get),
    ensures
        served(rows, post) == (inserted(rows, name), created_response()),
        inserted(rows, name).len() == rows.len() + 1,
        inserted(rows, name).drop_last() == rows,
        inserted(rows, name).last().name == name,
        !has_id(rows, inserted(rows, name).last().id as int),
        ids_ascend(inserted(rows, name)),
        served(inserted(rows, name), get) == (
            inserted(rows, name),
            ResponseView::json(users_json(inserted(rows, name))),
        ),
{
    lemma_paths_differ();
    lemma_insert_adds_one_row(rows, name);
}

/// A `POST /user/` whose body cannot be decoded, because it is no JSON or has
/// no string `name`, is answered with the bare status of the fault, 400 or
/// 422. The store is not called and the rows stay as they are.
pub proof fn lemma_rejected_body_changes_nothing(rows: Seq<UserView>, request: RequestView)
    requires
        request.method == Method::Post,
        request.path == "/user/"@,
        decoded(parsed_object(request.body)) is Err,
    ensures
        planned(request) is Respond,
        served(rows, request).0 == rows,
        served(rows, request).1.is_client_error(),
        served(rows, request).1 == ResponseView::bare(
            decoded(parsed_object(request.body))->Err_0.spec_status(),
        ),
{
}

/// A request for anything but the three routes is answered 404 with the text
/// `No route ` followed by the request target, and so with the requested
/// path in it. The store is not called.
pub proof fn lemma_unrouted_is_not_found(rows: Seq<UserView>, request: RequestView)
    requires
        route_of(request.method, request.path) == Route::NotFound,
        request.well_formed(),
    ensures
        planned(request) == StepView::Respond(not_found(request.uri)),
        served(rows, request) == (rows, not_found(request.uri)),
        not_found(request.uri).status == NOT_FOUND,
        not_found(request.uri).body == "No route "@ + request.uri,
        occurs_in(request.path, not_found(request.uri).body),
{
    let prefix = "No route "@;
    let body = prefix + request.uri;
    let at = choose|at: int|
        0 <= at && at + request.path.len() <= request.uri.len() && #[trigger] request.uri.subrange(
            at,
            at + request.path.len(),
        ) == request.path;
    let shifted = prefix.len() + at;
    assert(body.subrange(shifted, shifted + request.path.len()) =~= request.uri.subrange(
        at,
        at + request.path.len(),
    ));
}

/// A `GET` for a path that is neither `/status/` nor `/user/` matches no
/// route.
pub proof fn lemma_unknown_path_is_unrouted(request: RequestView)
    requires
        request.method == Method::Get,
        request.path != "/status/"@,
        request.path != "/user/"@,
    ensures
        route_of(request.method, request.path) == Route::NotFound,
{
}

/// Requests that each create a user, served one after another in any order,
/// add exactly one row each. The rows before are untouched; the new rows
/// carry the names in the order in which the requests were served, with
/// consecutive ids that no row had before, so no request is lost and no id is
/// handed out twice.
pub proof fn lemma_each_request_adds_one_row(
    rows: Seq<UserView>,
    requests: Seq<RequestView>,
    names: Seq<Seq<char>>,
)
    requires
        ids_ascend(rows),
        requests.len() == names.len(),
        next_id(rows) + names.len() <= i64::MAX + 1,
        forall|k: int| 0 <= k < requests.len() ==> creates(#[trigger] requests[k], names[k]),
    ensures
        served_all(rows, requests) == inserted_all(rows, names),
        served_all(rows, requests).len() == rows.len() + names.len(),
        served_all(rows, requests).take(rows.len() as int) == rows,
        ids_ascend(served_all(rows, requests)),
        forall|id: int| next_id(rows) <= id ==> !#[trigger] has_id(rows, id),
        forall|i: int|
            rows.len() <= i < rows.len() + names.len() ==> #[trigger] served_all(rows, requests)[i]
                == (UserView {
                id: (next_id(rows) + (i - rows.len())) as i64,
                name: names[i - rows.len()],
            }),
        forall|k: int|
            0 <= k < requests.len() ==> served(
                served_all(rows, requests.take(k)),
                #[trigger] requests[k],
            ).1 == created_response(),
    decreases requests.len(),
{
    lemma_inserts_add_one_row_each(rows, names);
    if requests.len() > 0 {
        let earlier = requests.drop_last();
        let earlier_names = names.drop_last();
        assert forall|k: int| 0 <= k < earlier.len() implies creates(
            #[trigger] earlier[k],
            earlier_names[k],
        ) by {
            assert(creates(requests[k], names[k]));
        }
        lemma_each_request_adds_one_row(rows, earlier, earlier_names);
        lemma_inserts_add_one_row_each(rows, earlier_names);
        let before = inserted_all(rows, earlier_names);
        assert(creates(requests.last(), names.last()));
        assert(!is_full(before));
        assert forall|k: int| 0 <= k < requests.len() implies served(
            served_all(rows, requests.take(k)),
            #[trigger] requests[k],
        ).1 == created_response() by {
            if k < earlier.len() {
                assert(requests.take(k) =~= earlier.take(k));
                assert(earlier[k] == requests[k]);
            } else {
                assert(requests.take(k) =~= earlier);
            }
        }
    }
}

} // verus!
