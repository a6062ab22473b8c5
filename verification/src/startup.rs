//! Bringing the store up before the first request is served.
//!
//! The start is a small state machine. The caller performs each
//! [`StartupAction`] on the real store and reports what happened as a
//! [`StartupEvent`]; [`advance`] decides what comes next. A database that is
//! found is never created again, and the table is only ever created where it
//! is absent, so a restart keeps every row.

use crate::user::UserView;
use vstd::prelude::*;

verus! {

/// Where the start stands.
#[derive(Clone, Copy, Debug, PartialEq, Eq, Structural)]
pub enum Startup {
    /// Nothing was done yet.
    Start,
    /// Waiting to learn whether the database exists.
    Checking,
    /// Waiting for the database to be created.
    Creating,
    /// Waiting for the users table to be there.
    EnsuringTable,
    /// The store is usable; requests may be served.
    Ready,
    /// The start failed; the process must not serve.
    Failed,
}

/// What the caller reports.
#[derive(Clone, Copy, Debug, PartialEq, Eq, Structural)]
pub enum StartupEvent {
    /// The process has started.
    Begin,
    /// The existence check ended: `Some(found)`, or `None` where the check
    /// itself failed.
    Checked(Option<bool>),
    /// Creating the database ended; `true` on success.
    Created(bool),
    /// Creating the users table if it is absent ended; `true` on success.
    TableEnsured(bool),
}

/// What the caller is to do next.
#[derive(Clone, Copy, Debug, PartialEq, Eq, Structural)]
pub enum StartupAction {
    /// Find out whether the database exists.
    CheckDatabase,
    /// Create the database.
    CreateDatabase,
    /// Create the users table, with an integer primary key `id` and a text
    /// `name`, unless it exists.
    EnsureTable,
    /// Start serving requests.
    Serve,
    /// Give up: the process does not start.
    Abort,
}

/// The transition function of the start.
///
/// A check that finds the database goes straight to the table; a check that
/// finds none, or fails, creates the database first. A failed creation or a
/// failed table ends the start, and so does an event that the state does not
/// wait for.
pub open spec fn advanced(state: Startup, event: StartupEvent) -> (Startup, StartupAction) {
    match (state, event) {
        (Startup::Start, StartupEvent::Begin) => (Startup::Checking, StartupAction::CheckDatabase),
        (Startup::Checking, StartupEvent::Checked(Some(true))) => (
            Startup::EnsuringTable,
            StartupAction::EnsureTable,
        ),
        (Startup::Checking, StartupEvent::Checked(_)) => (
            Startup::Creating,
            StartupAction::CreateDatabase,
        ),
        (Startup::Creating, StartupEvent::Created(true)) => (
            Startup::EnsuringTable,
            StartupAction::EnsureTable,
        ),
        (Startup::EnsuringTable, StartupEvent::TableEnsured(true)) => (
            Startup::Ready,
            StartupAction::Serve,
        ),
        _ => (Startup::Failed, StartupAction::Abort),
    }
}

/// Decides the next state and action of the start.
pub fn advance(state: Startup, event: StartupEvent) -> (next: (Startup, StartupAction))
    ensures
        next == advanced(state, event),
{
    match (state, event) {
        (Startup::Start, StartupEvent::Begin) => (Startup::Checking, StartupAction::CheckDatabase),
        (Startup::Checking, StartupEvent::Checked(Some(true))) => (
            Startup::EnsuringTable,
            StartupAction::EnsureTable,
        ),
        (Startup::Checking, StartupEvent::Checked(_)) => (
            Startup::Creating,
            StartupAction::CreateDatabase,
        ),
        (Startup::Creating, StartupEvent::Created(true)) => (
            Startup::EnsuringTable,
            StartupAction::EnsureTable,
        ),
        (Startup::EnsuringTable, StartupEvent::TableEnsured(true)) => (
            Startup::Ready,
            StartupAction::Serve,
        ),
        _ => (Startup::Failed, StartupAction::Abort),
    }
}

/// A model of what is persisted: whether the database is there, and the rows
/// of the users table where the table is there.
pub struct Disk {
    pub database: bool,
    pub users: Option<Seq<UserView>>,
}

impl Disk {
    /// A table needs a database to be in.
    pub open spec fn well_formed(self) -> bool {
        self.users is Some ==> self.database
    }
}

/// What an action that succeeds does to the disk, and the event it reports.
/// Creating a database gives one without tables; ensuring the table creates
/// an empty one only where there is none.
pub open spec fn performed(action: StartupAction, disk: Disk) -> (Disk, StartupEvent) {
    match action {
        StartupAction::CheckDatabase => (disk, StartupEvent::Checked(Some(disk.database))),
        StartupAction::CreateDatabase => (
            Disk { database: true, users: None },
            StartupEvent::Created(true),
        ),
        StartupAction::EnsureTable => (
            Disk {
                database: disk.database,
                users: Some(
                    match disk.users {
                        Some(rows) => rows,
                        None => Seq::empty(),
                    },
                ),
            },
            StartupEvent::TableEnsured(true),
        ),
        StartupAction::Serve => (disk, StartupEvent::Begin),
        StartupAction::Abort => (disk, StartupEvent::Begin),
    }
}

/// The disk after a start in which every action succeeds, from the given
/// state and event on. `steps` bounds the number of transitions.
pub open spec fn run(state: Startup, event: StartupEvent, disk: Disk, steps: nat) -> (Startup, Disk)
    decreases steps,
{
    if steps == 0 {
        (state, disk)
    } else {
        let (next, action) = advanced(state, event);
        if action == StartupAction::Serve || action == StartupAction::Abort {
            (next, disk)
        } else {
            let (after, reported) = performed(action, disk);
            run(next, reported, after, (steps - 1) as nat)
        }
    }
}

/// The outcome of a whole start without failures: the final state and the
/// disk. Four transitions reach the end from the beginning.
pub open spec fn started(disk: Disk) -> (Startup, Disk) {
    run(Startup::Start, StartupEvent::Begin, disk, 4)
}

/// The database is created only in answer to a check that did not find it.
pub proof fn lemma_creation_follows_failed_check(state: Startup, event: StartupEvent)
    ensures
        advanced(state, event).1 == StartupAction::CreateDatabase <==> state == Startup::Checking
            && (event matches StartupEvent::Checked(found) && found != Some(true)),
        state == Startup::Checking && event == StartupEvent::Checked(Some(true)) ==> advanced(
            state,
            event,
        ) == (Startup::EnsuringTable, StartupAction::EnsureTable),
{
}

/// Requests are served only after the table was ensured.
pub proof fn lemma_serving_follows_table(state: Startup, event: StartupEvent)
    ensures
        advanced(state, event).1 == StartupAction::Serve <==> state == Startup::EnsuringTable
            && event == StartupEvent::TableEnsured(true),
        advanced(state, event).0 == Startup::Ready <==> advanced(state, event).1
            == StartupAction::Serve,
{
}

/// A start against a store that already holds the users table ends ready and
/// leaves the disk exactly as it was: nothing is created again and no row is
/// lost.
pub proof fn lemma_restart_keeps_users(disk: Disk)
    requires
        disk.database,
        disk.users is Some,
    ensures
        started(disk) == (Startup::Ready, disk),
{
    reveal_with_fuel(run, 5);
    assert(disk.users == Some(disk.users->0));
}

/// A first start, against an empty disk, ends ready with a database and an
/// empty users table.
pub proof fn lemma_first_start_creates(disk: Disk)
    requires
        !disk.database,
        disk.well_formed(),
    ensures
        started(disk) == (
            Startup::Ready,
            Disk { database: true, users: Some(Seq::<UserView>::empty()) },
        ),
{
    reveal_with_fuel(run, 5);
}

/// Starting twice is the same as starting once.
pub proof fn lemma_start_is_idempotent(disk: Disk)
    requires
        disk.well_formed(),
    ensures
        started(disk).0 == Startup::Ready,
        started(started(disk).1) == started(disk),
{
    reveal_with_fuel(run, 5);
    if disk.database {
        let after = started(disk).1;
        assert(after.users is Some);
        lemma_restart_keeps_users(after);
    } else {
        lemma_first_start_creates(disk);
        lemma_restart_keeps_users(started(disk).1);
    }
}

} // verus!
