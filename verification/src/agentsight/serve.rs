//! Where the API server listens and which databases it reads.

use vstd::prelude::*;

use crate::paths;
use crate::paths::{join_path, parent_of};

verus! {

/// Options of the `serve` command.
#[derive(Clone, Debug)]
pub struct ServeCommand {
    /// Host to bind to.
    pub host: String,
    /// Port to bind to.
    pub port: u16,
    /// Custom database path.
    pub db: Option<String>,
    /// Custom path of the raw event database.
    pub raw_events_db: Option<String>,
}

/// What the server is started with.
#[derive(Clone, Debug)]
pub struct ServePlan {
    pub host: String,
    pub port: u16,
    pub db_path: String,
    pub raw_events_db_path: Option<String>,
}

impl Default for ServeCommand {
    fn default() -> (r: Self)
        ensures
            r.host@ == "127.0.0.1"@,
            r.port == 7396,
            r.db is None,
            r.raw_events_db is None,
    {
        ServeCommand {
            host: "127.0.0.1".to_owned(),
            port: 7396,
            db: None,
            raw_events_db: None,
        }
    }
}

/// The path of the database: the given one, or the default.
pub open spec fn db_path_of(cmd: ServeCommand, default_db: Seq<char>) -> Seq<char> {
    match cmd.db {
        Some(p) => p@,
        None => default_db,
    }
}

/// The path of the raw event database: the given one, else next to the
/// database; none where the database has no directory.
pub open spec fn raw_events_path_of(cmd: ServeCommand, default_db: Seq<char>) -> Option<Seq<char>> {
    match cmd.raw_events_db {
        Some(p) => Some(p@),
        None => match paths::parent(db_path_of(cmd, default_db)) {
            Some(dir) => Some(paths::joined_path(dir, "raw_events.db"@)),
            None => None,
        },
    }
}

impl ServeCommand {
    /// What the server is started with. `default_db` is the database that the
    /// tracer writes to.
    pub fn execute(&self, default_db: &str) -> (r: ServePlan)
        ensures
            r.host@ == self.host@,
            r.port == self.port,
            r.db_path@ == db_path_of(*self, default_db@),
            match r.raw_events_db_path {
                Some(p) => raw_events_path_of(*self, default_db@) == Some(p@),
                None => raw_events_path_of(*self, default_db@) is None,
            },
            self.db is Some ==> r.db_path@ == self.db->Some_0@,
            self.db is None ==> r.db_path@ == default_db@,
            self.raw_events_db is Some ==> r.raw_events_db_path is Some
                && r.raw_events_db_path->Some_0@ == self.raw_events_db->Some_0@,
            self.raw_events_db is None ==> match paths::parent(r.db_path@) {
                Some(dir) => r.raw_events_db_path is Some && r.raw_events_db_path->Some_0@
                    == paths::joined_path(dir, "raw_events.db"@),
                None => r.raw_events_db_path is None,
            },
    {
        let db_path = match &self.db {
            Some(p) => p.clone(),
            None => default_db.to_owned(),
        };
        let raw_events_db_path = match &self.raw_events_db {
            Some(p) => Some(p.clone()),
            None => match parent_of(db_path.as_str()) {
                Some(dir) => Some(join_path(dir.as_str(), "raw_events.db")),
                None => None,
            },
        };
        ServePlan { host: self.host.clone(), port: self.port, db_path, raw_events_db_path }
    }
}

/// Without a path of its own the raw event database lies in the directory of
/// the database.
pub proof fn raw_events_lie_beside(
    cmd: ServeCommand,
    default_db: Seq<char>,
    dir: Seq<char>,
    name: Seq<char>,
)
    requires
        cmd.raw_events_db is None,
        db_path_of(cmd, default_db) == dir + seq!['/'] + name,
        dir.len() > 0,
        dir.last() != '/',
        paths::cut_blanks(dir, paths::body_start(dir)) == dir,
        !name.contains('/'),
        !paths::is_blank(name),
    ensures
        raw_events_path_of(cmd, default_db) == Some(dir + seq!['/'] + "raw_events.db"@),
{
    let s = dir + seq!['/'] + name;
    let start = paths::body_start(s);
    assert(start == paths::body_start(dir));
    let body = s.skip(start);
    let from = dir.len() + 1 - start;
    assert forall|i: int| from <= i < body.len() implies body[i] != '/' by {
        assert(name.contains(name[i - from]));
    }
    paths::lemma_last_part_is(body, from);
    assert(body.skip(from) =~= name);
    assert(paths::cut_last(s, start) =~= dir);
}

} // verus!
