//! Resolution of references: from a path that names a server or a database
//! to the identifier of the one row in storage that it designates.

use vstd::prelude::*;
use crate::document::{ServerDatabasePath, ServerDatabasePathView, ServerPath, ServerPathView};
use crate::rows::{ProjectView, ServerDatabaseView, ServerView};
use crate::storage::{Storage, StorageView};
use crate::types::EnvironmentType;

verus! {

/// Why a path designates no row.
#[derive(Clone, Copy, Debug, PartialEq, Eq, Structural)]
pub enum ResolveError {
    /// No server, or more than one, answers to the description.
    ServerNotFound,
    /// No database of the server, or more than one, answers to the description.
    DatabaseNotFound,
}

/// Whether some project has the identifier `project_id` and the name `name`.
pub open spec fn project_named(
    projects: Seq<ProjectView>,
    project_id: i32,
    name: Seq<char>,
) -> bool {
    exists|i: int|
        0 <= i < projects.len() && (#[trigger] projects[i]).id == project_id && projects[i].name
            == name
}

/// The test that a server passes when it stands in environment `env` under
/// the description `desc`, in a project named `project_name`. Names and
/// descriptions are compared character by character.
pub open spec fn server_answers(
    projects: Seq<ProjectView>,
    project_name: Seq<char>,
    env: EnvironmentType,
    desc: Seq<char>,
) -> spec_fn(ServerView) -> bool {
    |s: ServerView|
        s.environment == env && s.desc == desc && project_named(projects, s.project_id, project_name)
}

/// The servers that answer to a description, in table order.
pub open spec fn matching_servers(
    st: StorageView,
    project_name: Seq<char>,
    env: EnvironmentType,
    desc: Seq<char>,
) -> Seq<ServerView> {
    st.servers.filter(server_answers(st.projects, project_name, env, desc))
}

/// The test that a database passes when it belongs to the server
/// `server_id` and carries the description `desc`.
pub open spec fn database_answers(server_id: i32, desc: Seq<char>) -> spec_fn(
    ServerDatabaseView,
) -> bool {
    |d: ServerDatabaseView| d.server_id == server_id && d.desc == desc
}

/// The databases of a server that answer to a description, in table order.
pub open spec fn matching_databases(st: StorageView, server_id: i32, desc: Seq<char>) -> Seq<
    ServerDatabaseView,
> {
    st.server_databases.filter(database_answers(server_id, desc))
}

/// The server that a path designates in storage as it stands. A direct id
/// is taken as it is, without a look at storage. Otherwise the path must
/// carry a description to which exactly one server answers.
pub open spec fn resolve_server(
    st: StorageView,
    path: ServerPathView,
) -> Result<i32, ResolveError> {
    match path.server_id {
        Some(id) => Ok(id),
        None => match path.server_desc {
            None => Err(ResolveError::ServerNotFound),
            Some(desc) => {
                let found = matching_servers(st, path.project_name, path.environment, desc);
                if found.len() == 1 {
                    Ok(found[0].id)
                } else {
                    Err(ResolveError::ServerNotFound)
                }
            },
        },
    }
}

/// The part of a database path that designates the owning server.
pub open spec fn owning_server(path: ServerDatabasePathView) -> ServerPathView {
    ServerPathView {
        server_id: path.server_id,
        project_name: path.project_name,
        environment: path.environment,
        server_desc: path.server_desc,
    }
}

/// The database that a path designates in storage as it stands. A direct
/// id is taken as it is. Otherwise the owning server is resolved first, and
/// exactly one database of that server must answer to the description.
pub open spec fn resolve_database(st: StorageView, path: ServerDatabasePathView) -> Result<
    i32,
    ResolveError,
> {
    match path.database_id {
        Some(id) => Ok(id),
        None => match resolve_server(st, owning_server(path)) {
            Err(e) => Err(e),
            Ok(server_id) => match path.database_desc {
                None => Err(ResolveError::DatabaseNotFound),
                Some(desc) => {
                    let found = matching_databases(st, server_id, desc);
                    if found.len() == 1 {
                        Ok(found[0].id)
                    } else {
                        Err(ResolveError::DatabaseNotFound)
                    }
                },
            },
        },
    }
}

/// Whether a project with this identifier and this name is in storage.
fn project_is_named(storage: &Storage, project_id: i32, name: &String) -> (r: bool)
    ensures
        r == project_named(storage@.projects, project_id, name@),
{
    let projects = storage.projects();
    let mut i: usize = 0;
    while i < projects.len()
        invariant
            i <= projects.len(),
            crate::types::views(projects@) == storage@.projects,
            forall|k: int|
                0 <= k < i ==> !((#[trigger] storage@.projects[k]).id == project_id
                    && storage@.projects[k].name == name@),
        decreases projects.len() - i,
    {
        assert(storage@.projects[i as int] == projects@[i as int]@);
        if projects[i].id == project_id && projects[i].name == *name {
            return true;
        }
        i += 1;
    }
    false
}

/// The number of servers that answer to the description, and the
/// identifier of the first of them.
fn find_servers(storage: &Storage, project_name: &String, env: EnvironmentType, desc: &String) -> (r:
    (usize, i32))
    ensures
        r.0 == matching_servers(storage@, project_name@, env, desc@).len(),
        r.0 > 0 ==> r.1 == matching_servers(storage@, project_name@, env, desc@)[0].id,
{
    let servers = storage.servers();
    let ghost pred = server_answers(storage@.projects, project_name@, env, desc@);
    let mut count: usize = 0;
    let mut first: i32 = 0;
    let mut i: usize = 0;
    assert(storage@.servers.take(0) =~= Seq::empty());
    proof {
        storage@.servers.take(0).lemma_filter_len(pred);
    }
    while i < servers.len()
        invariant
            i <= servers.len(),
            crate::types::views(servers@) == storage@.servers,
            pred == server_answers(storage@.projects, project_name@, env, desc@),
            count == storage@.servers.take(i as int).filter(pred).len(),
            count <= i,
            count > 0 ==> first == storage@.servers.take(i as int).filter(pred)[0].id,
        decreases servers.len() - i,
    {
        let s = &servers[i];
        proof {
            assert(storage@.servers[i as int] == s@);
            assert(storage@.servers.take(i + 1) =~= storage@.servers.take(i as int).push(s@));
            storage@.servers.take(i as int).lemma_filter_push(s@, pred);
        }
        if s.environment == env && s.desc == *desc && project_is_named(
            storage,
            s.project_id,
            project_name,
        ) {
            if count == 0 {
                first = s.id;
            }
            count += 1;
        }
        i += 1;
    }
    assert(storage@.servers.take(servers.len() as int) =~= storage@.servers);
    (count, first)
}

/// The number of databases of the server that answer to the description,
/// and the identifier of the first of them.
fn find_databases(storage: &Storage, server_id: i32, desc: &String) -> (r: (usize, i32))
    ensures
        r.0 == matching_databases(storage@, server_id, desc@).len(),
        r.0 > 0 ==> r.1 == matching_databases(storage@, server_id, desc@)[0].id,
{
    let databases = storage.server_databases();
    let ghost pred = database_answers(server_id, desc@);
    let mut count: usize = 0;
    let mut first: i32 = 0;
    let mut i: usize = 0;
    assert(storage@.server_databases.take(0) =~= Seq::empty());
    proof {
        storage@.server_databases.take(0).lemma_filter_len(pred);
    }
    while i < databases.len()
        invariant
            i <= databases.len(),
            crate::types::views(databases@) == storage@.server_databases,
            pred == database_answers(server_id, desc@),
            count == storage@.server_databases.take(i as int).filter(pred).len(),
            count <= i,
            count > 0 ==> first == storage@.server_databases.take(i as int).filter(pred)[0].id,
        decreases databases.len() - i,
    {
        let d = &databases[i];
        proof {
            assert(storage@.server_databases[i as int] == d@);
            assert(storage@.server_databases.take(i + 1) =~= storage@.server_databases.take(
                i as int,
            ).push(d@));
            storage@.server_databases.take(i as int).lemma_filter_push(d@, pred);
        }
        if d.server_id == server_id && d.desc == *desc {
            if count == 0 {
                first = d.id;
            }
            count += 1;
        }
        i += 1;
    }
    assert(storage@.server_databases.take(databases.len() as int) =~= storage@.server_databases);
    (count, first)
}

/// Resolves a server path against storage as it stands at this call.
///
/// A path with a direct id resolves to that id, whatever its description
/// says and whatever storage holds. A path without one resolves to the one
/// server that answers to its project name, environment and description;
/// with no such server, with several, or without a description it fails.
pub fn get_linked_server_id(storage: &Storage, server_path: &ServerPath) -> (r: Result<
    i32,
    ResolveError,
>)
    ensures
        r == resolve_server(storage@, server_path@),
        server_path.server_id is Some ==> r == Ok::<i32, ResolveError>(server_path.server_id->0),
{
    if let Some(id) = server_path.server_id {
        return Ok(id);
    }
    match &server_path.server_desc {
        None => Err(ResolveError::ServerNotFound),
        Some(desc) => {
            let (count, first) = find_servers(
                storage,
                &server_path.project_name,
                server_path.environment,
                desc,
            );
            if count == 1 {
                Ok(first)
            } else {
                Err(ResolveError::ServerNotFound)
            }
        },
    }
}

/// Resolves a database path against storage as it stands at this call.
///
/// A path with a direct database id resolves to that id. A path without
/// one resolves its owning server first, as [`get_linked_server_id`] does,
/// and then to the one database of that server that carries the
/// description; it fails where either step finds no row or several.
pub fn get_new_databaseid(storage: &Storage, db_path: &ServerDatabasePath) -> (r: Result<
    i32,
    ResolveError,
>)
    ensures
        r == resolve_database(storage@, db_path@),
        db_path.database_id is Some ==> r == Ok::<i32, ResolveError>(db_path.database_id->0),
{
    if let Some(id) = db_path.database_id {
        return Ok(id);
    }
    let server_id = match db_path.server_id {
        Some(id) => id,
        None => match &db_path.server_desc {
            None => {
                return Err(ResolveError::ServerNotFound);
            },
            Some(desc) => {
                let (count, first) = find_servers(
                    storage,
                    &db_path.project_name,
                    db_path.environment,
                    desc,
                );
                if count != 1 {
                    return Err(ResolveError::ServerNotFound);
                }
                first
            },
        },
    };
    match &db_path.database_desc {
        None => Err(ResolveError::DatabaseNotFound),
        Some(desc) => {
            let (count, first) = find_databases(storage, server_id, desc);
            if count == 1 {
                Ok(first)
            } else {
                Err(ResolveError::DatabaseNotFound)
            }
        },
    }
}

} // verus!
