//! Export of a project from storage into a document: the project's rows,
//! nested by environment, then by group, then by kind of item, with every
//! reference to another row turned into a path.

use vstd::prelude::*;
use crate::document::{
    ProjectEnvGroupImportExport, ProjectEnvGroupImportExportView, ProjectEnvImportExport,
    ProjectEnvImportExportView, ProjectImportExport, ProjectImportExportView,
    ProjectNoteImportExport, ProjectNoteImportExportView, ProjectPoiImportExport,
    ProjectPoiImportExportView, ServerDatabaseImportExport, ServerDatabasePath,
    ServerDatabasePathView, ServerExtraUserImportExport, ServerExtraUserImportExportView,
    ServerGroupImportExport, ServerGroupImportExportView, ServerImportExport,
    ServerLinkImportExport, ServerLinkImportExportView, ServerNoteImportExport,
    ServerNoteImportExportView, ServerPath, ServerPathView, ServerPoiImportExport,
    ServerPoiImportExportView, ServerWebsiteImportExport, ServerWebsiteImportExportView,
    ServerWithItemsImportExport, ServerWithItemsImportExportView,
};
use crate::groups::{
    get_project_item_group_names, get_server_group_names, project_item_group_names,
    server_group_names,
};
use crate::rows::{
    Project, ProjectNote, ProjectNoteView, ProjectPointOfInterestView, ProjectView, Server,
    ServerDatabaseView, ServerExtraUserAccountView, ServerLinkView, ServerNoteView,
    ServerPointOfInterestView, ServerView, ServerWebsiteView,
};
use crate::select::{lemma_select_ends, lemma_select_next, select};
use crate::storage::{Storage, StorageView};
use crate::types::{
    clone_opt_bytes, clone_opt_string, named_views, opt_string_eq, opt_text, views,
    EnvironmentType,
};

verus! {

/// Why a project could not be exported.
#[derive(Clone, Copy, Debug, PartialEq, Eq, Structural)]
pub enum ExportError {
    /// Storage has no project with this identifier.
    ProjectNotFound,
}

// ---------------------------------------------------------------------------
// Looking rows up by identifier
// ---------------------------------------------------------------------------
/// The test that a project passes when it has this identifier.
pub open spec fn is_project(id: i32) -> spec_fn(ProjectView) -> bool {
    |p: ProjectView| p.id == id
}

/// The test that a server passes when it has this identifier.
pub open spec fn is_server(id: i32) -> spec_fn(ServerView) -> bool {
    |s: ServerView| s.id == id
}

/// The test that a database passes when it has this identifier.
pub open spec fn is_database(id: i32) -> spec_fn(ServerDatabaseView) -> bool {
    |d: ServerDatabaseView| d.id == id
}

/// The project with this identifier, if storage has one.
pub open spec fn project_by_id(st: StorageView, id: i32) -> Option<ProjectView> {
    let found = st.projects.filter(is_project(id));
    if found.len() > 0 {
        Some(found[0])
    } else {
        None
    }
}

/// The server with this identifier, if storage has one.
pub open spec fn server_by_id(st: StorageView, id: i32) -> Option<ServerView> {
    let found = st.servers.filter(is_server(id));
    if found.len() > 0 {
        Some(found[0])
    } else {
        None
    }
}

/// The database with this identifier, if storage has one.
pub open spec fn database_by_id(st: StorageView, id: i32) -> Option<ServerDatabaseView> {
    let found = st.server_databases.filter(is_database(id));
    if found.len() > 0 {
        Some(found[0])
    } else {
        None
    }
}

/// The place of the first project with this identifier.
fn find_project(storage: &Storage, id: i32) -> (r: Option<usize>)
    ensures
        match r {
            Some(k) => k < storage@.projects.len() && project_by_id(storage@, id) == Some(
                storage@.projects[k as int],
            ),
            None => project_by_id(storage@, id) is None,
        },
{
    let rows = storage.projects();
    let ghost wanted = is_project(id);
    let mut found: Option<usize> = None;
    let mut i: usize = 0;
    assert(storage@.projects.take(0) =~= Seq::empty());
    proof {
        storage@.projects.take(0).lemma_filter_len(wanted);
    }
    while i < rows.len()
        invariant
            i <= rows.len(),
            views(rows@) == storage@.projects,
            wanted == is_project(id),
            match found {
                Some(k) => k < i && storage@.projects.take(i as int).filter(wanted).len() > 0
                    && storage@.projects.take(i as int).filter(wanted)[0]
                    == storage@.projects[k as int],
                None => storage@.projects.take(i as int).filter(wanted).len() == 0,
            },
        decreases rows.len() - i,
    {
        proof {
            assert(storage@.projects[i as int] == rows@[i as int]@);
            assert(storage@.projects.take(i + 1) =~= storage@.projects.take(i as int).push(
                rows@[i as int]@,
            ));
            storage@.projects.take(i as int).lemma_filter_push(rows@[i as int]@, wanted);
        }
        if found.is_none() && rows[i].id == id {
            found = Some(i);
        }
        i += 1;
    }
    assert(storage@.projects.take(rows.len() as int) =~= storage@.projects);
    found
}

/// The place of the first server with this identifier.
fn find_server(storage: &Storage, id: i32) -> (r: Option<usize>)
    ensures
        match r {
            Some(k) => k < storage@.servers.len() && server_by_id(storage@, id) == Some(
                storage@.servers[k as int],
            ),
            None => server_by_id(storage@, id) is None,
        },
{
    let rows = storage.servers();
    let ghost wanted = is_server(id);
    let mut found: Option<usize> = None;
    let mut i: usize = 0;
    assert(storage@.servers.take(0) =~= Seq::empty());
    proof {
        storage@.servers.take(0).lemma_filter_len(wanted);
    }
    while i < rows.len()
        invariant
            i <= rows.len(),
            views(rows@) == storage@.servers,
            wanted == is_server(id),
            match found {
                Some(k) => k < i && storage@.servers.take(i as int).filter(wanted).len() > 0
                    && storage@.servers.take(i as int).filter(wanted)[0]
                    == storage@.servers[k as int],
                None => storage@.servers.take(i as int).filter(wanted).len() == 0,
            },
        decreases rows.len() - i,
    {
        proof {
            assert(storage@.servers[i as int] == rows@[i as int]@);
            assert(storage@.servers.take(i + 1) =~= storage@.servers.take(i as int).push(
                rows@[i as int]@,
            ));
            storage@.servers.take(i as int).lemma_filter_push(rows@[i as int]@, wanted);
        }
        if found.is_none() && rows[i].id == id {
            found = Some(i);
        }
        i += 1;
    }
    assert(storage@.servers.take(rows.len() as int) =~= storage@.servers);
    found
}

/// The place of the first database with this identifier.
fn find_database(storage: &Storage, id: i32) -> (r: Option<usize>)
    ensures
        match r {
            Some(k) => k < storage@.server_databases.len() && database_by_id(storage@, id) == Some(
                storage@.server_databases[k as int],
            ),
            None => database_by_id(storage@, id) is None,
        },
{
    let rows = storage.server_databases();
    let ghost wanted = is_database(id);
    let mut found: Option<usize> = None;
    let mut i: usize = 0;
    assert(storage@.server_databases.take(0) =~= Seq::empty());
    proof {
        storage@.server_databases.take(0).lemma_filter_len(wanted);
    }
    while i < rows.len()
        invariant
            i <= rows.len(),
            views(rows@) == storage@.server_databases,
            wanted == is_database(id),
            match found {
                Some(k) => k < i && storage@.server_databases.take(i as int).filter(wanted).len()
                    > 0 && storage@.server_databases.take(i as int).filter(wanted)[0]
                    == storage@.server_databases[k as int],
                None => storage@.server_databases.take(i as int).filter(wanted).len() == 0,
            },
        decreases rows.len() - i,
    {
        proof {
            assert(storage@.server_databases[i as int] == rows@[i as int]@);
            assert(storage@.server_databases.take(i + 1) =~= storage@.server_databases.take(
                i as int,
            ).push(rows@[i as int]@));
            storage@.server_databases.take(i as int).lemma_filter_push(rows@[i as int]@, wanted);
        }
        if found.is_none() && rows[i].id == id {
            found = Some(i);
        }
        i += 1;
    }
    assert(storage@.server_databases.take(rows.len() as int) =~= storage@.server_databases);
    found
}

// ---------------------------------------------------------------------------
// References
// ---------------------------------------------------------------------------
/// The path under which a document of project `project` refers to the
/// server `server_id`. A server of the project itself is described by
/// project name, environment and description, since its identifier will not
/// survive an import. Any other server is outside the document and is given
/// by its identifier.
pub open spec fn server_path_of(
    st: StorageView,
    project: ProjectView,
    env: EnvironmentType,
    server_id: i32,
) -> ServerPathView {
    match server_by_id(st, server_id) {
        Some(server) => if server.project_id == project.id {
            ServerPathView {
                server_id: None,
                project_name: project.name,
                environment: server.environment,
                server_desc: Some(server.desc),
            }
        } else {
            ServerPathView {
                server_id: Some(server_id),
                project_name: project.name,
                environment: server.environment,
                server_desc: None,
            }
        },
        None => ServerPathView {
            server_id: Some(server_id),
            project_name: project.name,
            environment: env,
            server_desc: None,
        },
    }
}

/// The path under which a document of project `project` refers to the
/// database `database_id`. A database on a server of the project itself is
/// described by that server and the database's description. Any other
/// database is outside the document and is given by its identifier.
pub open spec fn database_path_of(
    st: StorageView,
    project: ProjectView,
    env: EnvironmentType,
    database_id: i32,
) -> ServerDatabasePathView {
    let direct = ServerDatabasePathView {
        project_name: project.name,
        environment: env,
        server_id: None,
        server_desc: None,
        database_id: Some(database_id),
        database_desc: None,
    };
    match database_by_id(st, database_id) {
        Some(database) => match server_by_id(st, database.server_id) {
            Some(server) => if server.project_id == project.id {
                ServerDatabasePathView {
                    project_name: project.name,
                    environment: server.environment,
                    server_id: None,
                    server_desc: Some(server.desc),
                    database_id: None,
                    database_desc: Some(database.desc),
                }
            } else {
                direct
            },
            None => direct,
        },
        None => direct,
    }
}

/// Builds the path under which a document of `project` refers to a server.
fn to_server_path(storage: &Storage, project: &Project, env: EnvironmentType, server_id: i32) -> (r:
    ServerPath)
    ensures
        r@ == server_path_of(storage@, project@, env, server_id),
{
    match find_server(storage, server_id) {
        Some(k) => {
            let server = &storage.servers()[k];
            assert(server@ == storage@.servers[k as int]);
            if server.project_id == project.id {
                ServerPath {
                    server_id: None,
                    project_name: project.name.clone(),
                    environment: server.environment,
                    server_desc: Some(server.desc.clone()),
                }
            } else {
                ServerPath {
                    server_id: Some(server_id),
                    project_name: project.name.clone(),
                    environment: server.environment,
                    server_desc: None,
                }
            }
        },
        None => ServerPath {
            server_id: Some(server_id),
            project_name: project.name.clone(),
            environment: env,
            server_desc: None,
        },
    }
}

/// Builds the path under which a document of `project` refers to a database.
fn to_database_path(storage: &Storage, project: &Project, env: EnvironmentType, database_id: i32) -> (r:
    ServerDatabasePath)
    ensures
        r@ == database_path_of(storage@, project@, env, database_id),
{
    if let Some(d) = find_database(storage, database_id) {
        let database = &storage.server_databases()[d];
        assert(database@ == storage@.server_databases[d as int]);
        if let Some(k) = find_server(storage, database.server_id) {
            let server = &storage.servers()[k];
            assert(server@ == storage@.servers[k as int]);
            if server.project_id == project.id {
                return ServerDatabasePath {
                    project_name: project.name.clone(),
                    environment: server.environment,
                    server_id: None,
                    server_desc: Some(server.desc.clone()),
                    database_id: None,
                    database_desc: Some(database.desc.clone()),
                };
            }
        }
    }
    ServerDatabasePath {
        project_name: project.name.clone(),
        environment: env,
        server_id: None,
        server_desc: None,
        database_id: Some(database_id),
        database_desc: None,
    }
}

// ---------------------------------------------------------------------------
// The items of a server
// ---------------------------------------------------------------------------
/// The test that a server point of interest passes when it belongs to
/// this server and group.
pub open spec fn server_poi_wanted(server_id: i32, group_name: Option<Seq<char>>) -> spec_fn(
    ServerPointOfInterestView,
) -> bool {
    |r: ServerPointOfInterestView| r.server_id == server_id && r.group_name == group_name
}

/// A server point of interest as the document holds it.
pub open spec fn server_poi_item(
    ) -> spec_fn(ServerPointOfInterestView,
) -> ServerPoiImportExportView {
    |r: ServerPointOfInterestView|
        ServerPoiImportExportView {
            desc: r.desc,
            path: r.path,
            text: r.text,
            interest_type: r.interest_type,
            run_on: r.run_on,
        }
}

/// The test that a website passes when it belongs to this server and group.
pub open spec fn server_website_wanted(server_id: i32, group_name: Option<Seq<char>>) -> spec_fn(
    ServerWebsiteView,
) -> bool {
    |r: ServerWebsiteView| r.server_id == server_id && r.group_name == group_name
}

/// A website as the document holds it, its database turned into a path.
pub open spec fn server_website_item(st: StorageView, project: ProjectView, env: EnvironmentType) -> spec_fn(
    ServerWebsiteView,
) -> ServerWebsiteImportExportView {
    |r: ServerWebsiteView|
        ServerWebsiteImportExportView {
            desc: r.desc,
            url: r.url,
            text: r.text,
            username: r.username,
            password: r.password,
            server_database: match r.server_database_id {
                Some(id) => Some(database_path_of(st, project, env, id)),
                None => None,
            },
        }
}

/// The test that a database passes when it belongs to this server and group.
pub open spec fn server_database_wanted(server_id: i32, group_name: Option<Seq<char>>) -> spec_fn(
    ServerDatabaseView,
) -> bool {
    |r: ServerDatabaseView| r.server_id == server_id && r.group_name == group_name
}

/// A database as the document holds it: the row as it is.
pub open spec fn server_database_item() -> spec_fn(ServerDatabaseView) -> ServerDatabaseView {
    |r: ServerDatabaseView| r
}

/// The test that a server note passes when it belongs to this server and group.
pub open spec fn server_note_wanted(server_id: i32, group_name: Option<Seq<char>>) -> spec_fn(
    ServerNoteView,
) -> bool {
    |r: ServerNoteView| r.server_id == server_id && r.group_name == group_name
}

/// A server note as the document holds it.
pub open spec fn server_note_item() -> spec_fn(ServerNoteView) -> ServerNoteImportExportView {
    |r: ServerNoteView| ServerNoteImportExportView { title: r.title, contents: r.contents }
}

/// The test that an extra user account passes when it belongs to this
/// server and group.
pub open spec fn server_user_wanted(server_id: i32, group_name: Option<Seq<char>>) -> spec_fn(
    ServerExtraUserAccountView,
) -> bool {
    |r: ServerExtraUserAccountView| r.server_id == server_id && r.group_name == group_name
}

/// An extra user account as the document holds it.
pub open spec fn server_user_item() -> spec_fn(
    ServerExtraUserAccountView,
) -> ServerExtraUserImportExportView {
    |r: ServerExtraUserAccountView|
        ServerExtraUserImportExportView {
            username: r.username,
            password: r.password,
            desc: r.desc,
            auth_key: r.auth_key,
            auth_key_filename: r.auth_key_filename,
        }
}

/// The items of a server under one group, or its ungrouped items: each
/// kind in table order.
pub open spec fn server_items_of(
    st: StorageView,
    project: ProjectView,
    server: ServerView,
    group_name: Option<Seq<char>>,
) -> ServerGroupImportExportView {
    ServerGroupImportExportView {
        server_pois: select(
            st.server_pois,
            server_poi_wanted(server.id, group_name),
            server_poi_item(),
        ),
        server_websites: select(
            st.server_websites,
            server_website_wanted(server.id, group_name),
            server_website_item(st, project, server.environment),
        ),
        server_databases: select(
            st.server_databases,
            server_database_wanted(server.id, group_name),
            server_database_item(),
        ),
        server_notes: select(
            st.server_notes,
            server_note_wanted(server.id, group_name),
            server_note_item(),
        ),
        server_extra_users: select(
            st.server_extra_users,
            server_user_wanted(server.id, group_name),
            server_user_item(),
        ),
    }
}

/// A group of a server under its name.
pub open spec fn server_group_item(st: StorageView, project: ProjectView, server: ServerView) -> spec_fn(
    Seq<char>,
) -> (Seq<char>, ServerGroupImportExportView) {
    |name: Seq<char>| (name, server_items_of(st, project, server, Some(name)))
}

/// A server as the document holds it: its row, its ungrouped items, and
/// its groups in ascending order of their names.
pub open spec fn server_with_items(st: StorageView, project: ProjectView) -> spec_fn(
    ServerView,
) -> ServerWithItemsImportExportView {
    |server: ServerView|
        ServerWithItemsImportExportView {
            server,
            items: server_items_of(st, project, server, None),
            items_in_groups: server_group_names(st, server.id).map_values(
                server_group_item(st, project, server),
            ),
        }
}

// ---------------------------------------------------------------------------
// The items of a project
// ---------------------------------------------------------------------------
/// Whether the project has this environment.
pub open spec fn has_environment(project: ProjectView, env: EnvironmentType) -> bool {
    match env {
        EnvironmentType::EnvDevelopment => project.has_dev,
        EnvironmentType::EnvStage => project.has_stage,
        EnvironmentType::EnvUat => project.has_uat,
        EnvironmentType::EnvProd => project.has_prod,
    }
}

/// Whether the project has an environment that a document holds before
/// `env`: the order is Development, Stage, Uat, Prod.
pub open spec fn earlier_environment(project: ProjectView, env: EnvironmentType) -> bool {
    match env {
        EnvironmentType::EnvDevelopment => false,
        EnvironmentType::EnvStage => project.has_dev,
        EnvironmentType::EnvUat => project.has_dev || project.has_stage,
        EnvironmentType::EnvProd => project.has_dev || project.has_stage || project.has_uat,
    }
}

/// Whether the note is present in this environment.
pub open spec fn note_in(note: ProjectNoteView, env: EnvironmentType) -> bool {
    match env {
        EnvironmentType::EnvDevelopment => note.has_dev,
        EnvironmentType::EnvStage => note.has_stage,
        EnvironmentType::EnvUat => note.has_uat,
        EnvironmentType::EnvProd => note.has_prod,
    }
}

/// Whether the note is present in an environment of the project that a
/// document holds before `env`, so that in `env` it is only referred to.
pub open spec fn note_in_earlier_environment(
    project: ProjectView,
    note: ProjectNoteView,
    env: EnvironmentType,
) -> bool {
    match env {
        EnvironmentType::EnvDevelopment => false,
        EnvironmentType::EnvStage => project.has_dev && note.has_dev,
        EnvironmentType::EnvUat => (project.has_dev && note.has_dev) || (project.has_stage
            && note.has_stage),
        EnvironmentType::EnvProd => (project.has_dev && note.has_dev) || (project.has_stage
            && note.has_stage) || (project.has_uat && note.has_uat),
    }
}

/// The test that a project point of interest passes when it belongs to
/// this project and group.
pub open spec fn project_poi_wanted(project_id: i32, group_name: Option<Seq<char>>) -> spec_fn(
    ProjectPointOfInterestView,
) -> bool {
    |r: ProjectPointOfInterestView| r.project_id == project_id && r.group_name == group_name
}

/// A project point of interest as the document holds it. A point of
/// interest belongs to no environment, so the document holds it in each:
/// plainly in the first, and marked as shared in the others.
pub open spec fn project_poi_item(shared: bool) -> spec_fn(
    ProjectPointOfInterestView,
) -> ProjectPoiImportExportView {
    |r: ProjectPointOfInterestView|
        ProjectPoiImportExportView {
            desc: r.desc,
            path: r.path,
            text: r.text,
            interest_type: r.interest_type,
            shared_with_other_environments: if shared {
                Some(r.desc)
            } else {
                None
            },
        }
}

/// The test that a project note passes when it belongs to this project
/// and group and is present in this environment.
pub open spec fn project_note_wanted(
    project_id: i32,
    env: EnvironmentType,
    group_name: Option<Seq<char>>,
) -> spec_fn(ProjectNoteView) -> bool {
    |r: ProjectNoteView| r.project_id == project_id && r.group_name == group_name && note_in(r, env)
}

/// A project note as the document holds it in `env`: with its contents in
/// the first environment in which it is present, and as a marker that
/// carries its title in the later ones.
pub open spec fn project_note_item(project: ProjectView, env: EnvironmentType) -> spec_fn(
    ProjectNoteView,
) -> ProjectNoteImportExportView {
    |r: ProjectNoteView|
        if note_in_earlier_environment(project, r, env) {
            ProjectNoteImportExportView {
                title: r.title,
                contents: Seq::empty(),
                shared_with_other_environments: Some(r.title),
            }
        } else {
            ProjectNoteImportExportView {
                title: r.title,
                contents: r.contents,
                shared_with_other_environments: None,
            }
        }
}

/// The test that a server link passes when it belongs to this project,
/// environment and group.
pub open spec fn server_link_wanted(
    project_id: i32,
    env: EnvironmentType,
    group_name: Option<Seq<char>>,
) -> spec_fn(ServerLinkView) -> bool {
    |r: ServerLinkView| r.project_id == project_id && r.environment == env && r.group_name == group_name
}

/// A server link as the document holds it, its target turned into a path.
pub open spec fn server_link_item(st: StorageView, project: ProjectView) -> spec_fn(
    ServerLinkView,
) -> ServerLinkImportExportView {
    |r: ServerLinkView|
        ServerLinkImportExportView {
            desc: r.desc,
            server: server_path_of(st, project, r.environment, r.linked_server_id),
        }
}

/// The test that a server passes when it belongs to this project,
/// environment and group.
pub open spec fn server_wanted(project_id: i32, env: EnvironmentType, group_name: Option<Seq<char>>) -> spec_fn(
    ServerView,
) -> bool {
    |r: ServerView| r.project_id == project_id && r.environment == env && r.group_name == group_name
}

/// The items of one environment of a project under one group, or its
/// ungrouped items: each kind in table order.
pub open spec fn env_group_of(
    st: StorageView,
    project: ProjectView,
    env: EnvironmentType,
    group_name: Option<Seq<char>>,
) -> ProjectEnvGroupImportExportView {
    ProjectEnvGroupImportExportView {
        project_pois: select(
            st.project_pois,
            project_poi_wanted(project.id, group_name),
            project_poi_item(earlier_environment(project, env)),
        ),
        project_notes: select(
            st.project_notes,
            project_note_wanted(project.id, env, group_name),
            project_note_item(project, env),
        ),
        server_links: select(
            st.server_links,
            server_link_wanted(project.id, env, group_name),
            server_link_item(st, project),
        ),
        servers: select(
            st.servers,
            server_wanted(project.id, env, group_name),
            server_with_items(st, project),
        ),
    }
}

/// A group of an environment under its name.
pub open spec fn env_group_item(st: StorageView, project: ProjectView, env: EnvironmentType) -> spec_fn(
    Seq<char>,
) -> (Seq<char>, ProjectEnvGroupImportExportView) {
    |name: Seq<char>| (name, env_group_of(st, project, env, Some(name)))
}

/// One environment of a project as the document holds it: the ungrouped
/// items, then the project's groups in ascending order of their names.
pub open spec fn env_of(
    st: StorageView,
    project: ProjectView,
    env: EnvironmentType,
) -> ProjectEnvImportExportView {
    ProjectEnvImportExportView {
        items: env_group_of(st, project, env, None),
        items_in_groups: project_item_group_names(st, project.id).map_values(
            env_group_item(st, project, env),
        ),
    }
}

/// An environment of the project as the document holds it, or nothing
/// where the project does not have it.
pub open spec fn env_if_present(st: StorageView, project: ProjectView, env: EnvironmentType) -> Option<
    ProjectEnvImportExportView,
> {
    if has_environment(project, env) {
        Some(env_of(st, project, env))
    } else {
        None
    }
}

/// The document of the project with this identifier: its name, and each
/// environment that the project has.
pub open spec fn spec_export_project(st: StorageView, project_id: i32) -> Result<
    ProjectImportExportView,
    ExportError,
> {
    match project_by_id(st, project_id) {
        None => Err(ExportError::ProjectNotFound),
        Some(project) => Ok(
            ProjectImportExportView {
                project_name: project.name,
                development_environment: env_if_present(
                    st,
                    project,
                    EnvironmentType::EnvDevelopment,
                ),
                staging_environment: env_if_present(st, project, EnvironmentType::EnvStage),
                uat_environment: env_if_present(st, project, EnvironmentType::EnvUat),
                prod_environment: env_if_present(st, project, EnvironmentType::EnvProd),
            },
        ),
    }
}

/// Whether the project has an environment before `env`.
fn has_earlier_environment(project: &Project, env: EnvironmentType) -> (r: bool)
    ensures
        r == earlier_environment(project@, env),
{
    match env {
        EnvironmentType::EnvDevelopment => false,
        EnvironmentType::EnvStage => project.has_dev,
        EnvironmentType::EnvUat => project.has_dev || project.has_stage,
        EnvironmentType::EnvProd => project.has_dev || project.has_stage || project.has_uat,
    }
}

/// Whether the note is present in this environment.
fn note_is_in(note: &ProjectNote, env: EnvironmentType) -> (r: bool)
    ensures
        r == note_in(note@, env),
{
    match env {
        EnvironmentType::EnvDevelopment => note.has_dev,
        EnvironmentType::EnvStage => note.has_stage,
        EnvironmentType::EnvUat => note.has_uat,
        EnvironmentType::EnvProd => note.has_prod,
    }
}

/// Whether the note is present in an environment of the project before `env`.
fn note_is_in_earlier_environment(project: &Project, note: &ProjectNote, env: EnvironmentType) -> (r:
    bool)
    ensures
        r == note_in_earlier_environment(project@, note@, env),
{
    match env {
        EnvironmentType::EnvDevelopment => false,
        EnvironmentType::EnvStage => project.has_dev && note.has_dev,
        EnvironmentType::EnvUat => (project.has_dev && note.has_dev) || (project.has_stage
            && note.has_stage),
        EnvironmentType::EnvProd => (project.has_dev && note.has_dev) || (project.has_stage
            && note.has_stage) || (project.has_uat && note.has_uat),
    }
}

/// Exports the items of a server that are filed under `group_name`, or the
/// ungrouped ones where it is `None`: each kind in table order.
pub fn export_server_items(
    storage: &Storage,
    project: &Project,
    server: &Server,
    group_name: &Option<String>,
) -> (r: ServerGroupImportExport)
    ensures
        r@ == server_items_of(storage@, project@, server@, opt_text(*group_name)),
{
    let rows = storage.server_pois();
    let ghost wanted = server_poi_wanted(server.id, opt_text(*group_name));
    let ghost item = server_poi_item();
    let mut server_pois: Vec<ServerPoiImportExport> = Vec::new();
    let mut i: usize = 0;
    proof {
        lemma_select_ends(storage@.server_pois, wanted, item);
        assert(views(server_pois@) =~= Seq::empty());
    }
    while i < rows.len()
        invariant
            i <= rows.len(),
            views(rows@) == storage@.server_pois,
            wanted == server_poi_wanted(server.id, opt_text(*group_name)),
            item == server_poi_item(),
            views(server_pois@) == select(storage@.server_pois.take(i as int), wanted, item),
        decreases rows.len() - i,
    {
        let row = &rows[i];
        proof {
            lemma_select_next(storage@.server_pois, wanted, item, i as int);
            assert(storage@.server_pois[i as int] == row@);
        }
        if row.server_id == server.id && opt_string_eq(&row.group_name, group_name) {
            let ghost before = views(server_pois@);
            let exported = ServerPoiImportExport {
                desc: row.desc.clone(),
                path: row.path.clone(),
                text: row.text.clone(),
                interest_type: row.interest_type,
                run_on: row.run_on,
            };
            assert(exported@ == item(row@));
            server_pois.push(exported);
            assert(views(server_pois@) =~= before.push(item(row@)));
        }
        i += 1;
    }
    proof {
        lemma_select_ends(storage@.server_pois, wanted, item);
    }
    let rows = storage.server_websites();
    let ghost wanted = server_website_wanted(server.id, opt_text(*group_name));
    let ghost item = server_website_item(storage@, project@, server.environment);
    let mut server_websites: Vec<ServerWebsiteImportExport> = Vec::new();
    let mut i: usize = 0;
    proof {
        lemma_select_ends(storage@.server_websites, wanted, item);
        assert(views(server_websites@) =~= Seq::empty());
    }
    while i < rows.len()
        invariant
            i <= rows.len(),
            views(rows@) == storage@.server_websites,
            wanted == server_website_wanted(server.id, opt_text(*group_name)),
            item == server_website_item(storage@, project@, server.environment),
            views(server_websites@) == select(storage@.server_websites.take(i as int), wanted, item),
        decreases rows.len() - i,
    {
        let row = &rows[i];
        proof {
            lemma_select_next(storage@.server_websites, wanted, item, i as int);
            assert(storage@.server_websites[i as int] == row@);
        }
        if row.server_id == server.id && opt_string_eq(&row.group_name, group_name) {
            let ghost before = views(server_websites@);
            let exported = ServerWebsiteImportExport {
                desc: row.desc.clone(),
                url: row.url.clone(),
                text: row.text.clone(),
                username: row.username.clone(),
                password: row.password.clone(),
                server_database: match row.server_database_id {
                    Some(id) => Some(to_database_path(storage, project, server.environment, id)),
                    None => None,
                },
            };
            assert(exported@ == item(row@));
            server_websites.push(exported);
            assert(views(server_websites@) =~= before.push(item(row@)));
        }
        i += 1;
    }
    proof {
        lemma_select_ends(storage@.server_websites, wanted, item);
    }
    let rows = storage.server_databases();
    let ghost wanted = server_database_wanted(server.id, opt_text(*group_name));
    let ghost item = server_database_item();
    let mut server_databases: Vec<ServerDatabaseImportExport> = Vec::new();
    let mut i: usize = 0;
    proof {
        lemma_select_ends(storage@.server_databases, wanted, item);
        assert(views(server_databases@) =~= Seq::empty());
    }
    while i < rows.len()
        invariant
            i <= rows.len(),
            views(rows@) == storage@.server_databases,
            wanted == server_database_wanted(server.id, opt_text(*group_name)),
            item == server_database_item(),
            views(server_databases@) == select(storage@.server_databases.take(i as int), wanted, item),
        decreases rows.len() - i,
    {
        let row = &rows[i];
        proof {
            lemma_select_next(storage@.server_databases, wanted, item, i as int);
            assert(storage@.server_databases[i as int] == row@);
        }
        if row.server_id == server.id && opt_string_eq(&row.group_name, group_name) {
            let ghost before = views(server_databases@);
            let exported = ServerDatabaseImportExport(row.clone());
            assert(exported@ == item(row@));
            server_databases.push(exported);
            assert(views(server_databases@) =~= before.push(item(row@)));
        }
        i += 1;
    }
    proof {
        lemma_select_ends(storage@.server_databases, wanted, item);
    }
    let rows = storage.server_notes();
    let ghost wanted = server_note_wanted(server.id, opt_text(*group_name));
    let ghost item = server_note_item();
    let mut server_notes: Vec<ServerNoteImportExport> = Vec::new();
    let mut i: usize = 0;
    proof {
        lemma_select_ends(storage@.server_notes, wanted, item);
        assert(views(server_notes@) =~= Seq::empty());
    }
    while i < rows.len()
        invariant
            i <= rows.len(),
            views(rows@) == storage@.server_notes,
            wanted == server_note_wanted(server.id, opt_text(*group_name)),
            item == server_note_item(),
            views(server_notes@) == select(storage@.server_notes.take(i as int), wanted, item),
        decreases rows.len() - i,
    {
        let row = &rows[i];
        proof {
            lemma_select_next(storage@.server_notes, wanted, item, i as int);
            assert(storage@.server_notes[i as int] == row@);
        }
        if row.server_id == server.id && opt_string_eq(&row.group_name, group_name) {
            let ghost before = views(server_notes@);
            let exported = ServerNoteImportExport { title: row.title.clone(), contents: row.contents.clone() };
            assert(exported@ == item(row@));
            server_notes.push(exported);
            assert(views(server_notes@) =~= before.push(item(row@)));
        }
        i += 1;
    }
    proof {
        lemma_select_ends(storage@.server_notes, wanted, item);
    }
    let rows = storage.server_extra_users();
    let ghost wanted = server_user_wanted(server.id, opt_text(*group_name));
    let ghost item = server_user_item();
    let mut server_extra_users: Vec<ServerExtraUserImportExport> = Vec::new();
    let mut i: usize = 0;
    proof {
        lemma_select_ends(storage@.server_extra_users, wanted, item);
        assert(views(server_extra_users@) =~= Seq::empty());
    }
    while i < rows.len()
        invariant
            i <= rows.len(),
            views(rows@) == storage@.server_extra_users,
            wanted == server_user_wanted(server.id, opt_text(*group_name)),
            item == server_user_item(),
            views(server_extra_users@) == select(storage@.server_extra_users.take(i as int), wanted, item),
        decreases rows.len() - i,
    {
        let row = &rows[i];
        proof {
            lemma_select_next(storage@.server_extra_users, wanted, item, i as int);
            assert(storage@.server_extra_users[i as int] == row@);
        }
        if row.server_id == server.id && opt_string_eq(&row.group_name, group_name) {
            let ghost before = views(server_extra_users@);
            let exported = ServerExtraUserImportExport {
                username: row.username.clone(),
                password: row.password.clone(),
                desc: row.desc.clone(),
                auth_key: clone_opt_bytes(&row.auth_key),
                auth_key_filename: clone_opt_string(&row.auth_key_filename),
            };
            assert(exported@ == item(row@));
            server_extra_users.push(exported);
            assert(views(server_extra_users@) =~= before.push(item(row@)));
        }
        i += 1;
    }
    proof {
        lemma_select_ends(storage@.server_extra_users, wanted, item);
    }
    ServerGroupImportExport {
        server_pois,
        server_websites,
        server_databases,
        server_notes,
        server_extra_users,
    }
}

/// Exports a server with all its items: the ungrouped ones, then each of
/// its groups in ascending order of their names.
pub fn export_server(storage: &Storage, project: &Project, server: &Server) -> (r:
    ServerWithItemsImportExport)
    ensures
        r@ == server_with_items(storage@, project@)(server@),
{
    let no_group: Option<String> = None;
    let items = export_server_items(storage, project, server, &no_group);
    let group_names = get_server_group_names(storage, server.id);
    let ghost names = server_group_names(storage@, server.id);
    let ghost filed = server_group_item(storage@, project@, server@);
    let mut items_in_groups: Vec<(String, ServerGroupImportExport)> = Vec::new();
    let mut i: usize = 0;
    assert(named_views(items_in_groups@) =~= names.take(0).map_values(filed));
    while i < group_names.len()
        invariant
            i <= group_names.len(),
            views(group_names@) == names,
            names == server_group_names(storage@, server.id),
            filed == server_group_item(storage@, project@, server@),
            named_views(items_in_groups@) == names.take(i as int).map_values(filed),
        decreases group_names.len() - i,
    {
        let name = group_names[i].clone();
        let group = Some(group_names[i].clone());
        let group_items = export_server_items(storage, project, server, &group);
        let ghost before = named_views(items_in_groups@);
        assert(names[i as int] == name@);
        assert((name@, group_items@) == filed(names[i as int]));
        items_in_groups.push((name, group_items));
        proof {
            assert(named_views(items_in_groups@) =~= before.push(filed(names[i as int])));
            assert(names.take(i + 1) =~= names.take(i as int).push(names[i as int]));
            assert(names.take(i + 1).map_values(filed) =~= names.take(i as int).map_values(
                filed,
            ).push(filed(names[i as int])));
        }
        i += 1;
    }
    assert(names.take(group_names.len() as int) =~= names);
    ServerWithItemsImportExport { server: ServerImportExport(server.clone()), items, items_in_groups }
}

/// Exports the items of one environment of a project that are filed under
/// `group_name`, or the ungrouped ones where it is `None`.
pub fn export_env_group(
    storage: &Storage,
    project: &Project,
    env: EnvironmentType,
    group_name: &Option<String>,
) -> (r: ProjectEnvGroupImportExport)
    ensures
        r@ == env_group_of(storage@, project@, env, opt_text(*group_name)),
{
    let shared = has_earlier_environment(project, env);
    let rows = storage.project_pois();
    let ghost wanted = project_poi_wanted(project.id, opt_text(*group_name));
    let ghost item = project_poi_item(earlier_environment(project@, env));
    let mut project_pois: Vec<ProjectPoiImportExport> = Vec::new();
    let mut i: usize = 0;
    proof {
        lemma_select_ends(storage@.project_pois, wanted, item);
        assert(views(project_pois@) =~= Seq::empty());
    }
    while i < rows.len()
        invariant
            i <= rows.len(),
            views(rows@) == storage@.project_pois,
            shared == earlier_environment(project@, env),
            wanted == project_poi_wanted(project.id, opt_text(*group_name)),
            item == project_poi_item(earlier_environment(project@, env)),
            views(project_pois@) == select(storage@.project_pois.take(i as int), wanted, item),
        decreases rows.len() - i,
    {
        let row = &rows[i];
        proof {
            lemma_select_next(storage@.project_pois, wanted, item, i as int);
            assert(storage@.project_pois[i as int] == row@);
        }
        if row.project_id == project.id && opt_string_eq(&row.group_name, group_name) {
            let ghost before = views(project_pois@);
            let exported = ProjectPoiImportExport {
                desc: row.desc.clone(),
                path: row.path.clone(),
                text: row.text.clone(),
                interest_type: row.interest_type,
                shared_with_other_environments: if shared {
                    Some(row.desc.clone())
                } else {
                    None
                },
            };
            assert(exported@ == item(row@));
            project_pois.push(exported);
            assert(views(project_pois@) =~= before.push(item(row@)));
        }
        i += 1;
    }
    proof {
        lemma_select_ends(storage@.project_pois, wanted, item);
    }
    let rows = storage.project_notes();
    let ghost wanted = project_note_wanted(project.id, env, opt_text(*group_name));
    let ghost item = project_note_item(project@, env);
    let mut project_notes: Vec<ProjectNoteImportExport> = Vec::new();
    let mut i: usize = 0;
    proof {
        lemma_select_ends(storage@.project_notes, wanted, item);
        assert(views(project_notes@) =~= Seq::empty());
    }
    while i < rows.len()
        invariant
            i <= rows.len(),
            views(rows@) == storage@.project_notes,
            wanted == project_note_wanted(project.id, env, opt_text(*group_name)),
            item == project_note_item(project@, env),
            views(project_notes@) == select(storage@.project_notes.take(i as int), wanted, item),
        decreases rows.len() - i,
    {
        let row = &rows[i];
        proof {
            lemma_select_next(storage@.project_notes, wanted, item, i as int);
            assert(storage@.project_notes[i as int] == row@);
        }
        if row.project_id == project.id && opt_string_eq(&row.group_name, group_name) && note_is_in(row, env) {
            let ghost before = views(project_notes@);
            let exported = if note_is_in_earlier_environment(project, row, env) {
                ProjectNoteImportExport {
                    title: row.title.clone(),
                    contents: String::new(),
                    shared_with_other_environments: Some(row.title.clone()),
                }
            } else {
                ProjectNoteImportExport {
                    title: row.title.clone(),
                    contents: row.contents.clone(),
                    shared_with_other_environments: None,
                }
            };
            assert(exported@ == item(row@));
            project_notes.push(exported);
            assert(views(project_notes@) =~= before.push(item(row@)));
        }
        i += 1;
    }
    proof {
        lemma_select_ends(storage@.project_notes, wanted, item);
    }
    let rows = storage.server_links();
    let ghost wanted = server_link_wanted(project.id, env, opt_text(*group_name));
    let ghost item = server_link_item(storage@, project@);
    let mut server_links: Vec<ServerLinkImportExport> = Vec::new();
    let mut i: usize = 0;
    proof {
        lemma_select_ends(storage@.server_links, wanted, item);
        assert(views(server_links@) =~= Seq::empty());
    }
    while i < rows.len()
        invariant
            i <= rows.len(),
            views(rows@) == storage@.server_links,
            wanted == server_link_wanted(project.id, env, opt_text(*group_name)),
            item == server_link_item(storage@, project@),
            views(server_links@) == select(storage@.server_links.take(i as int), wanted, item),
        decreases rows.len() - i,
    {
        let row = &rows[i];
        proof {
            lemma_select_next(storage@.server_links, wanted, item, i as int);
            assert(storage@.server_links[i as int] == row@);
        }
        if row.project_id == project.id && row.environment == env && opt_string_eq(&row.group_name, group_name) {
            let ghost before = views(server_links@);
            let exported = ServerLinkImportExport {
                desc: row.desc.clone(),
                server: to_server_path(storage, project, row.environment, row.linked_server_id),
            };
            assert(exported@ == item(row@));
            server_links.push(exported);
            assert(views(server_links@) =~= before.push(item(row@)));
        }
        i += 1;
    }
    proof {
        lemma_select_ends(storage@.server_links, wanted, item);
    }
    let rows = storage.servers();
    let ghost wanted = server_wanted(project.id, env, opt_text(*group_name));
    let ghost item = server_with_items(storage@, project@);
    let mut servers: Vec<ServerWithItemsImportExport> = Vec::new();
    let mut i: usize = 0;
    proof {
        lemma_select_ends(storage@.servers, wanted, item);
        assert(views(servers@) =~= Seq::empty());
    }
    while i < rows.len()
        invariant
            i <= rows.len(),
            views(rows@) == storage@.servers,
            wanted == server_wanted(project.id, env, opt_text(*group_name)),
            item == server_with_items(storage@, project@),
            views(servers@) == select(storage@.servers.take(i as int), wanted, item),
        decreases rows.len() - i,
    {
        let row = &rows[i];
        proof {
            lemma_select_next(storage@.servers, wanted, item, i as int);
            assert(storage@.servers[i as int] == row@);
        }
        if row.project_id == project.id && row.environment == env && opt_string_eq(&row.group_name, group_name) {
            let ghost before = views(servers@);
            let exported = export_server(storage, project, row);
            assert(exported@ == item(row@));
            servers.push(exported);
            assert(views(servers@) =~= before.push(item(row@)));
        }
        i += 1;
    }
    proof {
        lemma_select_ends(storage@.servers, wanted, item);
    }
    ProjectEnvGroupImportExport { project_pois, project_notes, server_links, servers }
}

/// Exports one environment of a project: the ungrouped items, then each
/// group of the project in ascending order of the group names.
pub fn export_env(storage: &Storage, project: &Project, env: EnvironmentType) -> (r:
    ProjectEnvImportExport)
    ensures
        r@ == env_of(storage@, project@, env),
{
    let no_group: Option<String> = None;
    let items = export_env_group(storage, project, env, &no_group);
    let group_names = get_project_item_group_names(storage, project.id);
    let ghost names = project_item_group_names(storage@, project.id);
    let ghost filed = env_group_item(storage@, project@, env);
    let mut items_in_groups: Vec<(String, ProjectEnvGroupImportExport)> = Vec::new();
    let mut i: usize = 0;
    assert(named_views(items_in_groups@) =~= names.take(0).map_values(filed));
    while i < group_names.len()
        invariant
            i <= group_names.len(),
            views(group_names@) == names,
            names == project_item_group_names(storage@, project.id),
            filed == env_group_item(storage@, project@, env),
            named_views(items_in_groups@) == names.take(i as int).map_values(filed),
        decreases group_names.len() - i,
    {
        let name = group_names[i].clone();
        let group = Some(group_names[i].clone());
        let group_items = export_env_group(storage, project, env, &group);
        let ghost before = named_views(items_in_groups@);
        assert(names[i as int] == name@);
        assert((name@, group_items@) == filed(names[i as int]));
        items_in_groups.push((name, group_items));
        proof {
            assert(named_views(items_in_groups@) =~= before.push(filed(names[i as int])));
            assert(names.take(i + 1) =~= names.take(i as int).push(names[i as int]));
            assert(names.take(i + 1).map_values(filed) =~= names.take(i as int).map_values(
                filed,
            ).push(filed(names[i as int])));
        }
        i += 1;
    }
    assert(names.take(group_names.len() as int) =~= names);
    ProjectEnvImportExport { items, items_in_groups }
}

/// Exports the project with this identifier as a document.
///
/// The document carries the project's name and one subtree for each
/// environment that the project has. Each subtree holds the ungrouped items
/// and then the groups; each of them the points of interest, notes, server
/// links and servers, every server with its own items. A note that is
/// present in several environments has its contents in the first of them and
/// a marker in the others. References to rows of the project are written as
/// descriptions, references to other rows as identifiers. Storage is not
/// changed. Fails where storage has no project with this identifier.
pub fn export_project(storage: &Storage, project_id: i32) -> (r: Result<
    ProjectImportExport,
    ExportError,
>)
    ensures
        match r {
            Ok(doc) => spec_export_project(storage@, project_id) == Ok::<
                ProjectImportExportView,
                ExportError,
            >(doc@),
            Err(e) => spec_export_project(storage@, project_id) == Err::<
                ProjectImportExportView,
                ExportError,
            >(e),
        },
{
    let k = match find_project(storage, project_id) {
        Some(k) => k,
        None => {
            return Err(ExportError::ProjectNotFound);
        },
    };
    let project = &storage.projects()[k];
    assert(project@ == storage@.projects[k as int]);
    let development_environment = if project.has_dev {
        Some(export_env(storage, project, EnvironmentType::EnvDevelopment))
    } else {
        None
    };
    let staging_environment = if project.has_stage {
        Some(export_env(storage, project, EnvironmentType::EnvStage))
    } else {
        None
    };
    let uat_environment = if project.has_uat {
        Some(export_env(storage, project, EnvironmentType::EnvUat))
    } else {
        None
    };
    let prod_environment = if project.has_prod {
        Some(export_env(storage, project, EnvironmentType::EnvProd))
    } else {
        None
    };
    Ok(
        ProjectImportExport {
            project_name: project.name.clone(),
            development_environment,
            staging_environment,
            uat_environment,
            prod_environment,
        },
    )
}

} // verus!
