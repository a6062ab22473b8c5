//! JSON at the edge of the service: reading the body of a request and
//! writing the list of users.
//!
//! Parsing and string escaping are done by `axum` and `serde_json`. The two
//! functions that call them are trusted; everything built on their results
//! is verified.

use crate::http::{BAD_REQUEST, UNPROCESSABLE_ENTITY};
use crate::text::{append_decimal, decimal_text, same_text};
use crate::user::{user_views, CreateUserRequest, CreateUserRequestView, User, UserView};
use vstd::prelude::*;
use vstd::string::*;

verus! {

/// Why a request body could not be decoded.
#[derive(Clone, Copy, Debug, PartialEq, Eq, Structural)]
pub enum DecodeError {
    /// The body is no JSON text.
    Syntax,
    /// The body is JSON, but not an object that holds what the handler needs.
    Shape,
}

impl DecodeError {
    /// The status that answers a body with this fault: 400 or 422.
    pub open spec fn spec_status(self) -> u16 {
        match self {
            DecodeError::Syntax => BAD_REQUEST,
            DecodeError::Shape => UNPROCESSABLE_ENTITY,
        }
    }

    /// The status that answers a body with this fault: 400 or 422.
    #[verifier::when_used_as_spec(spec_status)]
    pub fn status(self) -> (status: u16)
        ensures
            status == self.spec_status(),
            400 <= status < 500,
    {
        match self {
            DecodeError::Syntax => BAD_REQUEST,
            DecodeError::Shape => UNPROCESSABLE_ENTITY,
        }
    }
}

/// One member of a JSON object, as far as the service reads it: the key, and
/// the text of the value where the value is a JSON string.
#[derive(Clone, Debug, PartialEq, Eq)]
pub struct Member {
    pub key: String,
    pub text: Option<String>,
}

/// The mathematical value of a [`Member`].
pub struct MemberView {
    pub key: Seq<char>,
    pub text: Option<Seq<char>>,
}

impl View for Member {
    type V = MemberView;

    open spec fn view(&self) -> MemberView {
        MemberView {
            key: self.key@,
            text: match self.text {
                Some(text) => Some(text@),
                None => None,
            },
        }
    }
}

/// The values of a sequence of members, in the same order.
pub open spec fn member_views(members: Seq<Member>) -> Seq<MemberView> {
    members.map_values(|member: Member| member@)
}

/// The value of what parsing a body gave: the members or the fault.
pub open spec fn parsed_view(parsed: Result<Vec<Member>, DecodeError>) -> Result<
    Seq<MemberView>,
    DecodeError,
> {
    match parsed {
        Ok(members) => Ok(member_views(members@)),
        Err(error) => Err(error),
    }
}

/// What `axum` makes of a request body that is to be read as a JSON object:
/// the members of the object, or the kind of its rejection.
pub uninterp spec fn parsed_object(body: Seq<u8>) -> Result<Seq<MemberView>, DecodeError>;

/// The text that `serde_json` writes for a string: the JSON string literal,
/// quotes and escapes included.
pub uninterp spec fn json_string(text: Seq<char>) -> Seq<char>;

/// Reads `body` as a JSON object with `axum::Json::from_bytes`, the function
/// behind axum's `Json` extractor, at the type `serde_json::Map<String,
/// serde_json::Value>`.
///
/// Trusted: the result is a function of the bytes alone, named
/// [`parsed_object`]. On success it lists the object's members as the map hands
/// them out, each value reduced to its text if it is a JSON string. On failure
/// it tells axum's rejections apart: `JsonDataError` (the bytes are JSON, but no
/// object) is `Shape`, every other one is `Syntax`. Nothing more is claimed of
/// it; in particular the map keeps one member for a key that the body repeats.
#[verifier::external_body]
fn parse_object(body: &[u8]) -> (parsed: Result<Vec<Member>, DecodeError>)
    ensures
        parsed_view(parsed) == parsed_object(body@),
{
    match axum::Json::<serde_json::Map<String, serde_json::Value>>::from_bytes(body) {
        Ok(axum::Json(object)) => Ok(
            object.into_iter().map(|(key, value)| match value {
                serde_json::Value::String(text) => Member { key, text: Some(text) },
                serde_json::Value::Null
                | serde_json::Value::Bool(_)
                | serde_json::Value::Number(_)
                | serde_json::Value::Array(_)
                | serde_json::Value::Object(_) => Member { key, text: None },
            }).collect(),
        ),
        Err(axum::extract::rejection::JsonRejection::JsonDataError(_)) => Err(DecodeError::Shape),
        Err(_) => Err(DecodeError::Syntax),
    }
}

/// Writes `text` as a JSON string literal with `serde_json::to_string`.
///
/// Trusted: the result is a function of the text alone, named
/// [`json_string`]. `serde_json` documents two ways for serialisation to fail, a
/// type that refuses to be serialised and a map with keys that are no strings;
/// neither can happen for a string slice, so the call always yields the
/// literal.
#[verifier::external_body]
fn encode_string(text: &str) -> (json: String)
    ensures
        json@ == json_string(text@),
{
    serde_json::to_string(text).unwrap_or_default()
}

/// The text of the first member with the given key, if that member is a JSON
/// string; `None` where no member has the key or its value is no string.
pub open spec fn text_member(members: Seq<MemberView>, key: Seq<char>) -> Option<Seq<char>>
    decreases members.len(),
{
    if members.len() == 0 {
        None
    } else if members[0].key == key {
        members[0].text
    } else {
        text_member(members.drop_first(), key)
    }
}

/// What a parsed body means for creating a user: the payload where the object
/// has a member `name` that is a string, a fault of shape where it has not, and
/// the parser's own fault where the body was rejected.
pub open spec fn decoded(parsed: Result<Seq<MemberView>, DecodeError>) -> Result<
    CreateUserRequestView,
    DecodeError,
> {
    match parsed {
        Err(error) => Err(error),
        Ok(members) => match text_member(members, "name"@) {
            Some(name) => Ok(CreateUserRequestView { name }),
            None => Err(DecodeError::Shape),
        },
    }
}

/// Whether `request` is the decoded payload, or the fault, that `expected`
/// describes.
pub open spec fn decodes_to(
    request: Result<CreateUserRequest, DecodeError>,
    expected: Result<CreateUserRequestView, DecodeError>,
) -> bool {
    match expected {
        Ok(payload) => request matches Ok(decoded) && decoded@ == payload,
        Err(error) => request == Err::<CreateUserRequest, DecodeError>(error),
    }
}

/// Looks up the text of the first member with the given key.
pub fn find_text(members: &Vec<Member>, key: &str) -> (found: Option<String>)
    ensures
        match text_member(member_views(members@), key@) {
            Some(text) => found matches Some(t) && t@ == text,
            None => found is None,
        },
{
    let ghost views = member_views(members@);
    let mut i: usize = 0;
    assert(views.skip(0) =~= views);
    while i < members.len()
        invariant
            i <= members.len(),
            views == member_views(members@),
            text_member(views, key@) == text_member(views.skip(i as int), key@),
        decreases members.len() - i,
    {
        proof {
            assert(views.skip(i as int).drop_first() =~= views.skip(i as int + 1));
            assert(views.skip(i as int)[0] == members@[i as int]@);
        }
        if same_text(members[i].key.as_str(), key) {
            return match &members[i].text {
                Some(text) => Some(text.clone()),
                None => None,
            };
        }
        i += 1;
    }
    assert(views.skip(i as int).len() == 0);
    None
}

/// Turns a parsed body into the payload that creates a user.
///
/// The payload is the text of the member `name`. A body that was rejected
/// keeps its fault; an object without a string `name` is a fault of shape.
pub fn decode_create_user(parsed: Result<Vec<Member>, DecodeError>) -> (request: Result<
    CreateUserRequest,
    DecodeError,
>)
    ensures
        decodes_to(request, decoded(parsed_view(parsed))),
{
    match parsed {
        Err(error) => Err(error),
        Ok(members) => match find_text(&members, "name") {
            Some(name) => Ok(CreateUserRequest { name }),
            None => Err(DecodeError::Shape),
        },
    }
}

/// Reads the payload that creates a user from a request body: [`decoded`]
/// applied to what the parser makes of the bytes.
pub fn parse_create_user(body: &[u8]) -> (request: Result<CreateUserRequest, DecodeError>)
    ensures
        decodes_to(request, decoded(parsed_object(body@))),
{
    decode_create_user(parse_object(body))
}

/// A user ready to be written: the id and the name as a JSON string literal.
#[derive(Clone, Debug, PartialEq, Eq)]
pub struct Entry {
    pub id: i64,
    pub name_literal: String,
}

/// The mathematical value of an [`Entry`].
pub struct EntryView {
    pub id: i64,
    pub name_literal: Seq<char>,
}

impl View for Entry {
    type V = EntryView;

    open spec fn view(&self) -> EntryView {
        EntryView { id: self.id, name_literal: self.name_literal@ }
    }
}

/// The values of a sequence of entries, in the same order.
pub open spec fn entry_views(entries: Seq<Entry>) -> Seq<EntryView> {
    entries.map_values(|entry: Entry| entry@)
}

/// The JSON object of one entry: `{"id":<id>,"name":<literal>}`, the id in
/// decimal.
pub open spec fn entry_json(entry: EntryView) -> Seq<char> {
    "{\"id\":"@ + decimal_text(entry.id as int) + ",\"name\":"@ + entry.name_literal + "}"@
}

/// The objects of the entries in order, with a comma between neighbours.
pub open spec fn entries_json(entries: Seq<EntryView>) -> Seq<char>
    decreases entries.len(),
{
    if entries.len() == 0 {
        Seq::empty()
    } else if entries.len() == 1 {
        entry_json(entries[0])
    } else {
        entries_json(entries.drop_last()) + ","@ + entry_json(entries.last())
    }
}

/// The JSON array of the entries, without any white space.
pub open spec fn array_json(entries: Seq<EntryView>) -> Seq<char> {
    "["@ + entries_json(entries) + "]"@
}

/// The entry of a user: its id, and its name as `serde_json` writes it.
pub open spec fn encoded(user: UserView) -> EntryView {
    EntryView { id: user.id, name_literal: json_string(user.name) }
}

/// The JSON array of the users: one object for each, in the order given.
pub open spec fn users_json(users: Seq<UserView>) -> Seq<char> {
    array_json(users.map_values(|user: UserView| encoded(user)))
}

/// Appends the JSON object of `entry` to `out`.
pub fn append_entry(out: &mut String, entry: &Entry)
    ensures
        final(out)@ == old(out)@ + entry_json(entry@),
{
    out.append("{\"id\":");
    append_decimal(out, entry.id);
    out.append(",\"name\":");
    out.append(entry.name_literal.as_str());
    out.append("}");
    assert(out@ =~= old(out)@ + entry_json(entry@));
}

/// Writes the entries as a JSON array of objects, in the order given.
pub fn render_entries(entries: &Vec<Entry>) -> (json: String)
    ensures
        json@ == array_json(entry_views(entries@)),
{
    let ghost views = entry_views(entries@);
    let mut out = String::from_str("[");
    let mut i: usize = 0;
    assert(views.take(0) =~= Seq::<EntryView>::empty());
    assert(out@ =~= "["@ + entries_json(views.take(0)));
    while i < entries.len()
        invariant
            i <= entries.len(),
            views == entry_views(entries@),
            out@ == "["@ + entries_json(views.take(i as int)),
        decreases entries.len() - i,
    {
        if i > 0 {
            out.append(",");
        }
        append_entry(&mut out, &entries[i]);
        proof {
            let next = views.take(i as int + 1);
            assert(next.drop_last() =~= views.take(i as int));
            assert(next.last() == entries@[i as int]@);
            assert(out@ =~= "["@ + entries_json(next));
        }
        i += 1;
    }
    out.append("]");
    proof {
        assert(views.take(i as int) =~= views);
        assert(out@ =~= array_json(views));
    }
    out
}

/// Encodes the name of every user as a JSON string literal.
pub fn encode_users(users: &Vec<User>) -> (entries: Vec<Entry>)
    ensures
        entry_views(entries@) == user_views(users@).map_values(|user: UserView| encoded(user)),
{
    let ghost expected = user_views(users@).map_values(|user: UserView| encoded(user));
    let mut entries: Vec<Entry> = Vec::new();
    let mut i: usize = 0;
    while i < users.len()
        invariant
            i <= users.len(),
            entries.len() == i,
            expected == user_views(users@).map_values(|user: UserView| encoded(user)),
            entry_views(entries@) == expected.take(i as int),
        decreases users.len() - i,
    {
        let ghost done = entries@;
        let user = &users[i];
        entries.push(Entry { id: user.id, name_literal: encode_string(user.name.as_str()) });
        proof {
            assert forall|k: int| 0 <= k < i + 1 implies entry_views(entries@)[k]
                == expected[k] by {
                if k < i {
                    assert(entry_views(done)[k] == expected.take(i as int)[k]);
                }
            }
            assert(entry_views(entries@) =~= expected.take(i as int + 1));
        }
        i += 1;
    }
    assert(expected.take(i as int) =~= expected);
    entries
}

/// Writes the users as a JSON array of objects, in the order given:
/// `[{"id":1,"name":"alice"}]` for a single user named alice with id 1.
pub fn render_users(users: &Vec<User>) -> (json: String)
    ensures
        json@ == users_json(user_views(users@)),
{
    let entries = encode_users(users);
    render_entries(&entries)
}

} // verus!
