//! A small HTTP user service, split into verified decisions and the I/O that
//! carries them out.
//!
//! The library decides what every request gets: which handler a method and
//! path select, what a request body must hold, which call goes to the user
//! store and what answer follows from the store's reply. The caller owns the
//! sockets and the database; it performs the store calls the library asks for
//! and hands their outcomes back.

pub mod config;
pub mod http;
pub mod json;
pub mod route;
pub mod service;
pub mod startup;
pub mod store;
pub mod text;
pub mod user;

pub use config::{listen_port, Config, ConfigError};
pub use http::{ContentType, Method, Request, Response};
pub use route::{route, Route};
pub use service::{complete, create_user, fallback, handle, list_users, serve, status, user_created, Step};
pub use startup::{advance, Startup, StartupAction, StartupEvent};
pub use store::{StoreCall, StoreError, StoreReply, UserTable};
pub use user::{CreateUserRequest, User};
