//! The user record and the payload that creates one.

use vstd::prelude::*;

verus! {

/// A stored user. The store assigns `id`; callers never choose it.
#[derive(Clone, Debug, PartialEq, Eq)]
pub struct User {
    pub id: i64,
    pub name: String,
}

/// The mathematical value of a [`User`].
pub struct UserView {
    pub id: i64,
    pub name: Seq<char>,
}

impl View for User {
    type V = UserView;

    open spec fn view(&self) -> UserView {
        UserView { id: self.id, name: self.name@ }
    }
}

/// The values of a sequence of users, in the same order.
pub open spec fn user_views(users: Seq<User>) -> Seq<UserView> {
    users.map_values(|user: User| user@)
}

/// The decoded body of a request that creates a user.
#[derive(Clone, Debug, PartialEq, Eq)]
pub struct CreateUserRequest {
    pub name: String,
}

/// The mathematical value of a [`CreateUserRequest`].
pub struct CreateUserRequestView {
    pub name: Seq<char>,
}

impl View for CreateUserRequest {
    type V = CreateUserRequestView;

    open spec fn view(&self) -> CreateUserRequestView {
        CreateUserRequestView { name: self.name@ }
    }
}

} // verus!
