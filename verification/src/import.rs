//! Import of a project document into storage, in two passes: the first
//! writes every row but the websites, the second writes the websites, whose
//! database references can then point anywhere in storage.

use vstd::prelude::*;
use crate::document::{
    ProjectEnvGroupImportExport, ProjectEnvGroupImportExportView, ProjectEnvImportExport,
    ProjectEnvImportExportView, ProjectImportExport, ProjectImportExportView,
    ProjectNoteImportExport, ProjectNoteImportExportView, ProjectPoiImportExport,
    ProjectPoiImportExportView, ServerExtraUserImportExportView, ServerGroupImportExport,
    ServerGroupImportExportView, ServerLinkImportExport, ServerLinkImportExportView,
    ServerNoteImportExportView, ServerPoiImportExportView, ServerWebsiteImportExport,
    ServerWebsiteImportExportView, ServerWithItemsImportExport, ServerWithItemsImportExportView,
};
use crate::replay::{
    after_deferring, lemma_after_deferring_twice, lemma_replay_deferring_end,
    lemma_replay_deferring_next, lemma_replay_end, lemma_replay_next, replay, replay_deferring,
    stored, Deferred, ImportError, UnprocessedWebsiteView, Written,
};
use crate::resolve::{get_linked_server_id, get_new_databaseid, resolve_database, resolve_server};
use crate::rows::{
    Project, ProjectNote, ProjectNoteView, ProjectPointOfInterest, ProjectPointOfInterestView,
    ProjectView, Server, ServerDatabase, ServerDatabaseView, ServerExtraUserAccount,
    ServerExtraUserAccountView, ServerLink, ServerLinkView, ServerNote, ServerNoteView,
    ServerPointOfInterest, ServerPointOfInterestView, ServerView, ServerWebsite,
    ServerWebsiteView,
};
use crate::storage::{inserted, Storage, StorageError, StorageView};
use crate::types::{
    clone_opt_bytes, clone_opt_string, named_views, opt_string_eq, opt_text, views,
    EnvironmentType,
};

verus! {

/// A website whose row is written only in the second pass.
pub struct UnprocessedWebsite {
    pub server_id: i32,
    pub group_name: Option<String>,
    pub website: ServerWebsiteImportExport,
}

impl View for UnprocessedWebsite {
    type V = UnprocessedWebsiteView;

    open spec fn view(&self) -> UnprocessedWebsiteView {
        UnprocessedWebsiteView {
            server_id: self.server_id,
            group_name: opt_text(self.group_name),
            website: self.website@,
        }
    }
}

/// What a first-pass function returned, with the deferred websites as values.
pub open spec fn deferred_of(r: Result<Vec<UnprocessedWebsite>, ImportError>) -> Result<
    Seq<UnprocessedWebsiteView>,
    ImportError,
> {
    match r {
        Ok(pending) => Ok(views(pending@)),
        Err(e) => Err(e),
    }
}

// ---------------------------------------------------------------------------
// Project-level items
// ---------------------------------------------------------------------------
/// Import of one project point of interest. One that is marked as shared
/// with other environments was written with the environment that holds it
/// in full, so it is passed over; any other becomes a new row.
pub open spec fn spec_import_project_poi(
    st: StorageView,
    project_id: i32,
    group_name: Option<Seq<char>>,
    poi: ProjectPoiImportExportView,
) -> Written {
    if poi.shared_with_other_environments is Some {
        (st, Ok(()))
    } else {
        (
            st.add_project_poi(
                ProjectPointOfInterestView {
                    id: 0,
                    desc: poi.desc,
                    path: poi.path,
                    text: poi.text,
                    interest_type: poi.interest_type,
                    group_name,
                    project_id,
                },
            ),
            stored(inserted(st.next_project_poi_id())),
        )
    }
}

/// The test that a project note passes when it has this title and group
/// in this project.
pub open spec fn note_answers(title: Seq<char>, group_name: Option<Seq<char>>, project_id: i32) -> spec_fn(
    ProjectNoteView,
) -> bool {
    |n: ProjectNoteView| n.title == title && n.group_name == group_name && n.project_id == project_id
}

/// The project notes with this title and group in this project, in table order.
pub open spec fn matching_notes(
    st: StorageView,
    title: Seq<char>,
    group_name: Option<Seq<char>>,
    project_id: i32,
) -> Seq<ProjectNoteView> {
    st.project_notes.filter(note_answers(title, group_name, project_id))
}

/// Import of one project note. A note that carries the title of a shared
/// note marks the earliest row with that title and group in the project as
/// present in `env` too, and writes no row; without such a row it fails. A
/// note without that marker is always a new row, present in `env` alone.
pub open spec fn spec_import_project_note(
    st: StorageView,
    project_id: i32,
    group_name: Option<Seq<char>>,
    env: EnvironmentType,
    note: ProjectNoteImportExportView,
) -> Written {
    match note.shared_with_other_environments {
        Some(shared_title) => {
            let found = matching_notes(st, shared_title, group_name, project_id);
            if found.len() > 0 {
                (st.mark_project_note(found[0].id, env), Ok(()))
            } else {
                (st, Err(ImportError::SharedNoteNotFound))
            }
        },
        None => (
            st.add_project_note(
                ProjectNoteView {
                    id: 0,
                    title: note.title,
                    contents: note.contents,
                    has_dev: env == EnvironmentType::EnvDevelopment,
                    has_uat: env == EnvironmentType::EnvUat,
                    has_stage: env == EnvironmentType::EnvStage,
                    has_prod: env == EnvironmentType::EnvProd,
                    group_name,
                    project_id,
                },
            ),
            stored(inserted(st.next_project_note_id())),
        ),
    }
}

/// Import of one server link. Its target is resolved against storage as
/// it stands; a target that does not resolve fails the import.
pub open spec fn spec_import_server_link(
    st: StorageView,
    project_id: i32,
    group_name: Option<Seq<char>>,
    env: EnvironmentType,
    link: ServerLinkImportExportView,
) -> Written {
    match resolve_server(st, link.server) {
        Err(_) => (st, Err(ImportError::LinkedServerNotFound)),
        Ok(linked_server_id) => (
            st.add_server_link(
                ServerLinkView {
                    id: 0,
                    desc: link.desc,
                    linked_server_id,
                    environment: env,
                    group_name,
                    project_id,
                },
            ),
            stored(inserted(st.next_server_link_id())),
        ),
    }
}

// ---------------------------------------------------------------------------
// Server-level items
// ---------------------------------------------------------------------------
/// Import of one database of a server.
pub open spec fn database_step(server_id: i32, group_name: Option<Seq<char>>) -> spec_fn(
    StorageView,
    ServerDatabaseView,
) -> Written {
    |st: StorageView, db: ServerDatabaseView|
        (
            st.add_server_database(ServerDatabaseView { id: 0, group_name, server_id, ..db }),
            stored(inserted(st.next_server_database_id())),
        )
}

/// Import of one note of a server.
pub open spec fn server_note_step(server_id: i32, group_name: Option<Seq<char>>) -> spec_fn(
    StorageView,
    ServerNoteImportExportView,
) -> Written {
    |st: StorageView, note: ServerNoteImportExportView|
        (
            st.add_server_note(
                ServerNoteView {
                    id: 0,
                    title: note.title,
                    group_name,
                    contents: note.contents,
                    server_id,
                },
            ),
            stored(inserted(st.next_server_note_id())),
        )
}

/// Import of one point of interest of a server.
pub open spec fn server_poi_step(server_id: i32, group_name: Option<Seq<char>>) -> spec_fn(
    StorageView,
    ServerPoiImportExportView,
) -> Written {
    |st: StorageView, poi: ServerPoiImportExportView|
        (
            st.add_server_poi(
                ServerPointOfInterestView {
                    id: 0,
                    desc: poi.desc,
                    path: poi.path,
                    text: poi.text,
                    interest_type: poi.interest_type,
                    run_on: poi.run_on,
                    group_name,
                    server_id,
                },
            ),
            stored(inserted(st.next_server_poi_id())),
        )
}

/// Import of one extra user account of a server.
pub open spec fn server_user_step(server_id: i32, group_name: Option<Seq<char>>) -> spec_fn(
    StorageView,
    ServerExtraUserImportExportView,
) -> Written {
    |st: StorageView, user: ServerExtraUserImportExportView|
        (
            st.add_server_extra_user(
                ServerExtraUserAccountView {
                    id: 0,
                    desc: user.desc,
                    group_name,
                    username: user.username,
                    password: user.password,
                    auth_key: user.auth_key,
                    auth_key_filename: user.auth_key_filename,
                    server_id,
                },
            ),
            stored(inserted(st.next_server_extra_user_id())),
        )
}

/// Import of the items of one group of a server, websites apart: the
/// databases, then the notes, the points of interest and the extra user
/// accounts, each kind in document order.
pub open spec fn spec_import_server_items(
    st: StorageView,
    server_id: i32,
    group_name: Option<Seq<char>>,
    items: ServerGroupImportExportView,
) -> Written {
    let (s1, r1) = replay(st, items.server_databases, database_step(server_id, group_name));
    if r1 is Err {
        (s1, r1)
    } else {
        let (s2, r2) = replay(s1, items.server_notes, server_note_step(server_id, group_name));
        if r2 is Err {
            (s2, r2)
        } else {
            let (s3, r3) = replay(s2, items.server_pois, server_poi_step(server_id, group_name));
            if r3 is Err {
                (s3, r3)
            } else {
                replay(s3, items.server_extra_users, server_user_step(server_id, group_name))
            }
        }
    }
}

/// Import of one named group of a server's items.
pub open spec fn server_group_step(server_id: i32) -> spec_fn(
    StorageView,
    (Seq<char>, ServerGroupImportExportView),
) -> Written {
    |st: StorageView, group: (Seq<char>, ServerGroupImportExportView)|
        spec_import_server_items(st, server_id, Some(group.0), group.1)
}

/// The websites of one group, as work for the second pass.
pub open spec fn deferred_websites(
    server_id: i32,
    group_name: Option<Seq<char>>,
    websites: Seq<ServerWebsiteImportExportView>,
) -> Seq<UnprocessedWebsiteView> {
    websites.map_values(
        |w: ServerWebsiteImportExportView| UnprocessedWebsiteView { server_id, group_name, website: w },
    )
}

/// The websites of the named groups of a server, group after group in
/// document order, as work for the second pass.
pub open spec fn deferred_group_websites(
    server_id: i32,
    groups: Seq<(Seq<char>, ServerGroupImportExportView)>,
) -> Seq<UnprocessedWebsiteView>
    decreases groups.len(),
{
    if groups.len() == 0 {
        Seq::empty()
    } else {
        deferred_group_websites(server_id, groups.drop_last()) + deferred_websites(
            server_id,
            Some(groups.last().0),
            groups.last().1.server_websites,
        )
    }
}

/// The row of a server that the document places in this project,
/// environment and group.
pub open spec fn server_row(
    project_id: i32,
    env: EnvironmentType,
    group_name: Option<Seq<char>>,
    server: ServerView,
) -> ServerView {
    ServerView { id: 0, group_name, environment: env, project_id, ..server }
}

/// Import of one server: its row, then its ungrouped items, then its named
/// groups in document order. Its websites are not written; they are
/// returned as work for the second pass, the ungrouped ones first.
pub open spec fn spec_import_server(
    st: StorageView,
    project_id: i32,
    env: EnvironmentType,
    group_name: Option<Seq<char>>,
    server: ServerWithItemsImportExportView,
) -> Deferred {
    match st.next_server_id() {
        None => (st, Err(ImportError::Storage(StorageError::IdentifiersExhausted))),
        Some(server_id) => {
            let s1 = st.add_server(server_row(project_id, env, group_name, server.server));
            let (s2, r2) = spec_import_server_items(s1, server_id, None, server.items);
            match r2 {
                Err(e) => (s2, Err(e)),
                Ok(_) => {
                    let (s3, r3) = replay(s2, server.items_in_groups, server_group_step(server_id));
                    match r3 {
                        Err(e) => (s3, Err(e)),
                        Ok(_) => (
                            s3,
                            Ok(
                                deferred_websites(server_id, None, server.items.server_websites)
                                    + deferred_group_websites(server_id, server.items_in_groups),
                            ),
                        ),
                    }
                },
            }
        },
    }
}

// ---------------------------------------------------------------------------
// The first pass
// ---------------------------------------------------------------------------
/// Import of one project point of interest, as a step of a replay.
pub open spec fn project_poi_step(project_id: i32, group_name: Option<Seq<char>>) -> spec_fn(
    StorageView,
    ProjectPoiImportExportView,
) -> Written {
    |st: StorageView, poi: ProjectPoiImportExportView|
        spec_import_project_poi(st, project_id, group_name, poi)
}

/// Import of one project note, as a step of a replay.
pub open spec fn project_note_step(
    project_id: i32,
    group_name: Option<Seq<char>>,
    env: EnvironmentType,
) -> spec_fn(StorageView, ProjectNoteImportExportView) -> Written {
    |st: StorageView, note: ProjectNoteImportExportView|
        spec_import_project_note(st, project_id, group_name, env, note)
}

/// Import of one server link, as a step of a replay.
pub open spec fn server_link_step(
    project_id: i32,
    group_name: Option<Seq<char>>,
    env: EnvironmentType,
) -> spec_fn(StorageView, ServerLinkImportExportView) -> Written {
    |st: StorageView, link: ServerLinkImportExportView|
        spec_import_server_link(st, project_id, group_name, env, link)
}

/// Import of one server, as a step of a replay.
pub open spec fn server_step(
    project_id: i32,
    env: EnvironmentType,
    group_name: Option<Seq<char>>,
) -> spec_fn(StorageView, ServerWithItemsImportExportView) -> Deferred {
    |st: StorageView, server: ServerWithItemsImportExportView|
        spec_import_server(st, project_id, env, group_name, server)
}

/// The first pass over one group of an environment: the points of
/// interest, then the notes, the server links and the servers, each kind in
/// document order.
pub open spec fn spec_import_project_env_group_first_pass(
    st: StorageView,
    project_id: i32,
    items: ProjectEnvGroupImportExportView,
    env: EnvironmentType,
    group_name: Option<Seq<char>>,
) -> Deferred {
    let (s1, r1) = replay(st, items.project_pois, project_poi_step(project_id, group_name));
    match r1 {
        Err(e) => (s1, Err(e)),
        Ok(_) => {
            let (s2, r2) = replay(
                s1,
                items.project_notes,
                project_note_step(project_id, group_name, env),
            );
            match r2 {
                Err(e) => (s2, Err(e)),
                Ok(_) => {
                    let (s3, r3) = replay(
                        s2,
                        items.server_links,
                        server_link_step(project_id, group_name, env),
                    );
                    match r3 {
                        Err(e) => (s3, Err(e)),
                        Ok(_) => replay_deferring(
                            s3,
                            items.servers,
                            server_step(project_id, env, group_name),
                        ),
                    }
                },
            }
        },
    }
}

/// The first pass over one named group of an environment, as a step of a replay.
pub open spec fn env_group_step(project_id: i32, env: EnvironmentType) -> spec_fn(
    StorageView,
    (Seq<char>, ProjectEnvGroupImportExportView),
) -> Deferred {
    |st: StorageView, group: (Seq<char>, ProjectEnvGroupImportExportView)|
        spec_import_project_env_group_first_pass(st, project_id, group.1, env, Some(group.0))
}

/// The first pass over one environment: the ungrouped items, then the
/// named groups in document order.
pub open spec fn spec_import_project_env_first_pass(
    st: StorageView,
    project_id: i32,
    env: EnvironmentType,
    project_env: ProjectEnvImportExportView,
) -> Deferred {
    let (s1, r1) = spec_import_project_env_group_first_pass(
        st,
        project_id,
        project_env.items,
        env,
        None,
    );
    match r1 {
        Err(e) => (s1, Err(e)),
        Ok(deferred) => after_deferring(
            deferred,
            replay_deferring(s1, project_env.items_in_groups, env_group_step(project_id, env)),
        ),
    }
}

/// The first pass over an environment that the document may lack.
pub open spec fn spec_first_pass_if_present(
    st: StorageView,
    project_id: i32,
    env: EnvironmentType,
    project_env: Option<ProjectEnvImportExportView>,
) -> Deferred {
    match project_env {
        Some(e) => spec_import_project_env_first_pass(st, project_id, env, e),
        None => (st, Ok(Seq::empty())),
    }
}

/// An outcome followed by the first pass over one more environment, which
/// is skipped where the outcome is a failure.
pub open spec fn then_first_pass(
    outcome: Deferred,
    project_id: i32,
    env: EnvironmentType,
    project_env: Option<ProjectEnvImportExportView>,
) -> Deferred {
    match outcome.1 {
        Err(e) => outcome,
        Ok(deferred) => after_deferring(
            deferred,
            spec_first_pass_if_present(outcome.0, project_id, env, project_env),
        ),
    }
}

/// The first pass over the whole document: Development, then Stage, Uat
/// and Prod.
pub open spec fn spec_first_pass(
    st: StorageView,
    project_id: i32,
    doc: ProjectImportExportView,
) -> Deferred {
    then_first_pass(
        then_first_pass(
            then_first_pass(
                spec_first_pass_if_present(
                    st,
                    project_id,
                    EnvironmentType::EnvDevelopment,
                    doc.development_environment,
                ),
                project_id,
                EnvironmentType::EnvStage,
                doc.staging_environment,
            ),
            project_id,
            EnvironmentType::EnvUat,
            doc.uat_environment,
        ),
        project_id,
        EnvironmentType::EnvProd,
        doc.prod_environment,
    )
}

// ---------------------------------------------------------------------------
// The second pass
// ---------------------------------------------------------------------------
/// The database that a website's row points to: what its reference
/// resolves to in storage as it stands, and nothing where the website has no
/// reference or the reference does not resolve.
pub open spec fn website_database(st: StorageView, website: ServerWebsiteImportExportView) -> Option<
    i32,
> {
    match website.server_database {
        None => None,
        Some(path) => match resolve_database(st, path) {
            Ok(id) => Some(id),
            Err(_) => None,
        },
    }
}

/// The row of a deferred website, given the database it points to.
pub open spec fn website_row(
    info: UnprocessedWebsiteView,
    server_database_id: Option<i32>,
) -> ServerWebsiteView {
    ServerWebsiteView {
        id: 0,
        desc: info.website.desc,
        url: info.website.url,
        text: info.website.text,
        group_name: info.group_name,
        username: info.website.username,
        password: info.website.password,
        server_database_id,
        server_id: info.server_id,
    }
}

/// Import of one deferred website. A reference that does not resolve is no
/// failure: the row is written without it.
pub open spec fn spec_import_server_website(
    st: StorageView,
    info: UnprocessedWebsiteView,
) -> Written {
    (
        st.add_server_website(website_row(info, website_database(st, info.website))),
        stored(inserted(st.next_server_website_id())),
    )
}

/// Import of one deferred website, as a step of a replay.
pub open spec fn website_step() -> spec_fn(StorageView, UnprocessedWebsiteView) -> Written {
    |st: StorageView, info: UnprocessedWebsiteView| spec_import_server_website(st, info)
}

// ---------------------------------------------------------------------------
// The whole import
// ---------------------------------------------------------------------------
/// Whether storage has a project with this name.
pub open spec fn project_exists(st: StorageView, name: Seq<char>) -> bool {
    exists|i: int| 0 <= i < st.projects.len() && (#[trigger] st.projects[i]).name == name
}

/// The row of the project that a document describes: its name, one flag
/// for each environment that the document has, and an empty icon.
pub open spec fn project_row(doc: ProjectImportExportView) -> ProjectView {
    ProjectView {
        id: 0,
        name: doc.project_name,
        icon: Some(Seq::empty()),
        has_dev: doc.development_environment is Some,
        has_uat: doc.uat_environment is Some,
        has_stage: doc.staging_environment is Some,
        has_prod: doc.prod_environment is Some,
    }
}

/// The import of a document into storage `st`: the storage it leaves and
/// what it returns.
///
/// A document whose project name storage already has is refused before
/// anything is written. Otherwise the project row is written, then the first
/// pass runs over the environments, then the second pass writes the deferred
/// websites in the order in which the first pass met them. A failure ends
/// the import where it occurs; the rows written before it stay.
pub open spec fn spec_do_import(st: StorageView, doc: ProjectImportExportView) -> Written {
    if project_exists(st, doc.project_name) {
        (st, Err(ImportError::ProjectAlreadyExists))
    } else {
        match st.next_project_id() {
            None => (
                st,
                Err(ImportError::Storage(StorageError::IdentifiersExhausted)),
            ),
            Some(project_id) => {
                let (s1, r1) = spec_first_pass(st.add_project(project_row(doc)), project_id, doc);
                match r1 {
                    Err(e) => (s1, Err(e)),
                    Ok(deferred) => replay(s1, deferred, website_step()),
                }
            },
        }
    }
}

/// Imports one project point of interest.
pub fn import_project_poi(
    storage: &mut Storage,
    project_id: i32,
    group_name: &Option<String>,
    project_poi: &ProjectPoiImportExport,
) -> (r: Result<(), ImportError>)
    ensures
        (final(storage)@, r) == spec_import_project_poi(
            old(storage)@,
            project_id,
            opt_text(*group_name),
            project_poi@,
        ),
        old(storage)@.wf() ==> final(storage)@.wf(),
{
    if project_poi.shared_with_other_environments.is_some() {
        return Ok(());
    }
    let row = ProjectPointOfInterest {
        id: 0,
        desc: project_poi.desc.clone(),
        path: project_poi.path.clone(),
        text: project_poi.text.clone(),
        interest_type: project_poi.interest_type,
        group_name: clone_opt_string(group_name),
        project_id,
    };
    match storage.insert_project_poi(row) {
        Ok(_) => Ok(()),
        Err(e) => Err(ImportError::Storage(e)),
    }
}

/// The number of project notes with this title and group in this project,
/// and the identifier of the first of them.
fn find_notes(storage: &Storage, title: &String, group_name: &Option<String>, project_id: i32) -> (r:
    (usize, i32))
    ensures
        r.0 == matching_notes(storage@, title@, opt_text(*group_name), project_id).len(),
        r.0 > 0 ==> r.1 == matching_notes(storage@, title@, opt_text(*group_name), project_id)[0].id,
{
    let notes = storage.project_notes();
    let ghost pred = note_answers(title@, opt_text(*group_name), project_id);
    let mut count: usize = 0;
    let mut first: i32 = 0;
    let mut i: usize = 0;
    assert(storage@.project_notes.take(0) =~= Seq::empty());
    proof {
        storage@.project_notes.take(0).lemma_filter_len(pred);
    }
    while i < notes.len()
        invariant
            i <= notes.len(),
            views(notes@) == storage@.project_notes,
            pred == note_answers(title@, opt_text(*group_name), project_id),
            count == storage@.project_notes.take(i as int).filter(pred).len(),
            count <= i,
            count > 0 ==> first == storage@.project_notes.take(i as int).filter(pred)[0].id,
        decreases notes.len() - i,
    {
        let n = &notes[i];
        proof {
            assert(storage@.project_notes[i as int] == n@);
            assert(storage@.project_notes.take(i + 1) =~= storage@.project_notes.take(i as int).push(
                n@,
            ));
            storage@.project_notes.take(i as int).lemma_filter_push(n@, pred);
        }
        if n.title == *title && opt_string_eq(&n.group_name, group_name) && n.project_id
            == project_id {
            if count == 0 {
                first = n.id;
            }
            count += 1;
        }
        i += 1;
    }
    assert(storage@.project_notes.take(notes.len() as int) =~= storage@.project_notes);
    (count, first)
}

/// Imports one project note: a new row, or one more environment for the
/// shared note that it names.
pub fn import_project_note(
    storage: &mut Storage,
    project_id: i32,
    group_name: &Option<String>,
    env: EnvironmentType,
    project_note: &ProjectNoteImportExport,
) -> (r: Result<(), ImportError>)
    ensures
        (final(storage)@, r) == spec_import_project_note(
            old(storage)@,
            project_id,
            opt_text(*group_name),
            env,
            project_note@,
        ),
        old(storage)@.wf() ==> final(storage)@.wf(),
{
    match &project_note.shared_with_other_environments {
        Some(shared_title) => {
            let (count, note_id_to_update) = find_notes(storage, shared_title, group_name, project_id);
            if count == 0 {
                return Err(ImportError::SharedNoteNotFound);
            }
            storage.mark_project_note(note_id_to_update, env);
            Ok(())
        },
        None => {
            let row = ProjectNote {
                id: 0,
                title: project_note.title.clone(),
                contents: project_note.contents.clone(),
                has_dev: env == EnvironmentType::EnvDevelopment,
                has_uat: env == EnvironmentType::EnvUat,
                has_stage: env == EnvironmentType::EnvStage,
                has_prod: env == EnvironmentType::EnvProd,
                group_name: clone_opt_string(group_name),
                project_id,
            };
            match storage.insert_project_note(row) {
                Ok(_) => Ok(()),
                Err(e) => Err(ImportError::Storage(e)),
            }
        },
    }
}

/// Imports one server link, whose target must already be in storage.
pub fn import_server_link(
    storage: &mut Storage,
    project_id: i32,
    group_name: &Option<String>,
    env: EnvironmentType,
    server_link: &ServerLinkImportExport,
) -> (r: Result<(), ImportError>)
    ensures
        (final(storage)@, r) == spec_import_server_link(
            old(storage)@,
            project_id,
            opt_text(*group_name),
            env,
            server_link@,
        ),
        old(storage)@.wf() ==> final(storage)@.wf(),
{
    let linked_server_id = match get_linked_server_id(storage, &server_link.server) {
        Ok(id) => id,
        Err(_) => {
            return Err(ImportError::LinkedServerNotFound);
        },
    };
    let row = ServerLink {
        id: 0,
        desc: server_link.desc.clone(),
        linked_server_id,
        environment: env,
        group_name: clone_opt_string(group_name),
        project_id,
    };
    match storage.insert_server_link(row) {
        Ok(_) => Ok(()),
        Err(e) => Err(ImportError::Storage(e)),
    }
}

/// Imports the items of one group of a server, websites apart.
pub fn import_server_items(
    storage: &mut Storage,
    server_id: i32,
    group_name: &Option<String>,
    items: &ServerGroupImportExport,
) -> (r: Result<(), ImportError>)
    ensures
        (final(storage)@, r) == spec_import_server_items(
            old(storage)@,
            server_id,
            opt_text(*group_name),
            items@,
        ),
        old(storage)@.wf() ==> final(storage)@.wf(),
{
    let ghost group = opt_text(*group_name);
    let ghost st0 = storage@;

    let ghost databases = views(items.server_databases@);
    let ghost db_step = database_step(server_id, group);
    let mut i: usize = 0;
    proof {
        lemma_replay_end(st0, databases, db_step);
    }
    while i < items.server_databases.len()
        invariant
            i <= items.server_databases.len(),
            old(storage)@.wf() ==> storage@.wf(),
            group == opt_text(*group_name),
            databases == views(items.server_databases@),
            db_step == database_step(server_id, group),
            st0 == old(storage)@,
            replay(st0, databases, db_step) == replay(storage@, databases.skip(i as int), db_step),
        decreases items.server_databases.len() - i,
    {
        let db = &items.server_databases[i];
        proof {
            lemma_replay_next(storage@, databases, db_step, i as int);
            assert(databases[i as int] == db@);
        }
        let row = ServerDatabase {
            id: 0,
            desc: db.0.desc.clone(),
            name: db.0.name.clone(),
            group_name: clone_opt_string(group_name),
            text: db.0.text.clone(),
            username: db.0.username.clone(),
            password: db.0.password.clone(),
            server_id,
        };
        if let Err(e) = storage.insert_server_database(row) {
            return Err(ImportError::Storage(e));
        }
        i += 1;
    }
    proof {
        lemma_replay_end(storage@, databases, db_step);
    }
    let ghost st1 = storage@;

    let ghost notes = views(items.server_notes@);
    let ghost note_step = server_note_step(server_id, group);
    let mut i: usize = 0;
    proof {
        lemma_replay_end(st1, notes, note_step);
    }
    while i < items.server_notes.len()
        invariant
            i <= items.server_notes.len(),
            old(storage)@.wf() ==> storage@.wf(),
            group == opt_text(*group_name),
            notes == views(items.server_notes@),
            note_step == server_note_step(server_id, group),
            st0 == old(storage)@,
            replay(st0, views(items.server_databases@), database_step(server_id, group)) == (
                st1,
                Ok::<(), ImportError>(()),
            ),
            replay(st1, notes, note_step) == replay(storage@, notes.skip(i as int), note_step),
        decreases items.server_notes.len() - i,
    {
        let note = &items.server_notes[i];
        proof {
            lemma_replay_next(storage@, notes, note_step, i as int);
            assert(notes[i as int] == note@);
        }
        let row = ServerNote {
            id: 0,
            title: note.title.clone(),
            group_name: clone_opt_string(group_name),
            contents: note.contents.clone(),
            server_id,
        };
        if let Err(e) = storage.insert_server_note(row) {
            return Err(ImportError::Storage(e));
        }
        i += 1;
    }
    proof {
        lemma_replay_end(storage@, notes, note_step);
    }
    let ghost st2 = storage@;

    let ghost pois = views(items.server_pois@);
    let ghost poi_step = server_poi_step(server_id, group);
    let mut i: usize = 0;
    proof {
        lemma_replay_end(st2, pois, poi_step);
    }
    while i < items.server_pois.len()
        invariant
            i <= items.server_pois.len(),
            old(storage)@.wf() ==> storage@.wf(),
            group == opt_text(*group_name),
            pois == views(items.server_pois@),
            poi_step == server_poi_step(server_id, group),
            st0 == old(storage)@,
            replay(st0, views(items.server_databases@), database_step(server_id, group)) == (
                st1,
                Ok::<(), ImportError>(()),
            ),
            replay(st1, views(items.server_notes@), server_note_step(server_id, group)) == (
                st2,
                Ok::<(), ImportError>(()),
            ),
            replay(st2, pois, poi_step) == replay(storage@, pois.skip(i as int), poi_step),
        decreases items.server_pois.len() - i,
    {
        let poi = &items.server_pois[i];
        proof {
            lemma_replay_next(storage@, pois, poi_step, i as int);
            assert(pois[i as int] == poi@);
        }
        let row = ServerPointOfInterest {
            id: 0,
            desc: poi.desc.clone(),
            path: poi.path.clone(),
            text: poi.text.clone(),
            interest_type: poi.interest_type,
            run_on: poi.run_on,
            group_name: clone_opt_string(group_name),
            server_id,
        };
        if let Err(e) = storage.insert_server_poi(row) {
            return Err(ImportError::Storage(e));
        }
        i += 1;
    }
    proof {
        lemma_replay_end(storage@, pois, poi_step);
    }
    let ghost st3 = storage@;

    let ghost users = views(items.server_extra_users@);
    let ghost user_step = server_user_step(server_id, group);
    let mut i: usize = 0;
    proof {
        lemma_replay_end(st3, users, user_step);
    }
    while i < items.server_extra_users.len()
        invariant
            i <= items.server_extra_users.len(),
            old(storage)@.wf() ==> storage@.wf(),
            group == opt_text(*group_name),
            users == views(items.server_extra_users@),
            user_step == server_user_step(server_id, group),
            st0 == old(storage)@,
            replay(st0, views(items.server_databases@), database_step(server_id, group)) == (
                st1,
                Ok::<(), ImportError>(()),
            ),
            replay(st1, views(items.server_notes@), server_note_step(server_id, group)) == (
                st2,
                Ok::<(), ImportError>(()),
            ),
            replay(st2, views(items.server_pois@), server_poi_step(server_id, group)) == (
                st3,
                Ok::<(), ImportError>(()),
            ),
            replay(st3, users, user_step) == replay(storage@, users.skip(i as int), user_step),
        decreases items.server_extra_users.len() - i,
    {
        let user = &items.server_extra_users[i];
        proof {
            lemma_replay_next(storage@, users, user_step, i as int);
            assert(users[i as int] == user@);
        }
        let row = ServerExtraUserAccount {
            id: 0,
            desc: user.desc.clone(),
            group_name: clone_opt_string(group_name),
            username: user.username.clone(),
            password: user.password.clone(),
            auth_key: clone_opt_bytes(&user.auth_key),
            auth_key_filename: clone_opt_string(&user.auth_key_filename),
            server_id,
        };
        if let Err(e) = storage.insert_server_extra_user(row) {
            return Err(ImportError::Storage(e));
        }
        i += 1;
    }
    proof {
        lemma_replay_end(storage@, users, user_step);
    }
    // server websites are handled in the second pass
    Ok(())
}

/// Appends the websites of one group of a server to the work of the
/// second pass.
fn defer_websites(
    pending: &mut Vec<UnprocessedWebsite>,
    server_id: i32,
    group_name: &Option<String>,
    websites: &Vec<ServerWebsiteImportExport>,
)
    ensures
        views(final(pending)@) == views(old(pending)@) + deferred_websites(
            server_id,
            opt_text(*group_name),
            views(websites@),
        ),
{
    let ghost target = deferred_websites(server_id, opt_text(*group_name), views(websites@));
    let mut i: usize = 0;
    assert(views(pending@) =~= views(old(pending)@) + target.take(0));
    while i < websites.len()
        invariant
            i <= websites.len(),
            target == deferred_websites(server_id, opt_text(*group_name), views(websites@)),
            views(pending@) == views(old(pending)@) + target.take(i as int),
        decreases websites.len() - i,
    {
        let info = UnprocessedWebsite {
            server_id,
            group_name: clone_opt_string(group_name),
            website: websites[i].clone(),
        };
        let ghost before = pending@;
        pending.push(info);
        proof {
            assert(info@ == target[i as int]);
            assert(views(pending@) =~= views(before).push(info@));
            assert(target.take(i + 1) =~= target.take(i as int).push(target[i as int]));
            assert(views(old(pending)@) + target.take(i + 1) =~= (views(old(pending)@)
                + target.take(i as int)).push(target[i as int]));
        }
        i += 1;
    }
    assert(target.take(websites.len() as int) =~= target);
}

/// Imports one server with its items, and returns its websites as work
/// for the second pass.
pub fn import_server(
    storage: &mut Storage,
    project_id: i32,
    env: EnvironmentType,
    group_name: &Option<String>,
    server: &ServerWithItemsImportExport,
) -> (r: Result<Vec<UnprocessedWebsite>, ImportError>)
    ensures
        (final(storage)@, deferred_of(r)) == spec_import_server(
            old(storage)@,
            project_id,
            env,
            opt_text(*group_name),
            server@,
        ),
        old(storage)@.wf() ==> final(storage)@.wf(),
{
    let row = Server {
        id: 0,
        desc: server.server.0.desc.clone(),
        is_retired: server.server.0.is_retired,
        ip: server.server.0.ip.clone(),
        text: server.server.0.text.clone(),
        group_name: clone_opt_string(group_name),
        username: server.server.0.username.clone(),
        password: server.server.0.password.clone(),
        auth_key: clone_opt_bytes(&server.server.0.auth_key),
        auth_key_filename: clone_opt_string(&server.server.0.auth_key_filename),
        server_type: server.server.0.server_type,
        access_type: server.server.0.access_type,
        environment: env,
        project_id,
    };
    assert(old(storage)@.add_server(row@) == old(storage)@.add_server(
        server_row(project_id, env, opt_text(*group_name), server@.server),
    ));
    let server_id = match storage.insert_server(row) {
        Ok(id) => id,
        Err(e) => {
            return Err(ImportError::Storage(e));
        },
    };
    let ghost st1 = storage@;

    let no_group: Option<String> = None;
    match import_server_items(storage, server_id, &no_group, &server.items) {
        Ok(()) => {},
        Err(e) => {
            return Err(e);
        },
    }
    let ghost st2 = storage@;

    let ghost groups = named_views(server.items_in_groups@);
    let ghost step = server_group_step(server_id);
    let mut i: usize = 0;
    proof {
        lemma_replay_end(st2, groups, step);
    }
    while i < server.items_in_groups.len()
        invariant
            i <= server.items_in_groups.len(),
            old(storage)@.wf() ==> storage@.wf(),
            groups == named_views(server.items_in_groups@),
            step == server_group_step(server_id),
            old(storage)@.next_server_id() == Some(server_id),
            st1 == old(storage)@.add_server(
                server_row(project_id, env, opt_text(*group_name), server@.server),
            ),
            spec_import_server_items(st1, server_id, None, server@.items).0 == st2,
            spec_import_server_items(st1, server_id, None, server@.items).1 is Ok,
            replay(st2, groups, step) == replay(storage@, groups.skip(i as int), step),
        decreases server.items_in_groups.len() - i,
    {
        let group = &server.items_in_groups[i];
        proof {
            lemma_replay_next(storage@, groups, step, i as int);
            assert(groups[i as int] == (group.0@, group.1@));
        }
        let name = Some(group.0.clone());
        if let Err(e) = import_server_items(storage, server_id, &name, &group.1) {
            return Err(e);
        }
        i += 1;
    }
    proof {
        lemma_replay_end(storage@, groups, step);
    }

    let mut unprocessed_websites: Vec<UnprocessedWebsite> = Vec::new();
    assert(views(unprocessed_websites@) =~= Seq::empty());
    defer_websites(&mut unprocessed_websites, server_id, &no_group, &server.items.server_websites);
    let ghost ungrouped = views(unprocessed_websites@);
    assert(ungrouped =~= deferred_websites(server_id, None, server@.items.server_websites));
    let mut i: usize = 0;
    assert(groups.take(0) =~= Seq::empty());
    assert(views(unprocessed_websites@) =~= ungrouped + deferred_group_websites(
        server_id,
        groups.take(0),
    ));
    while i < server.items_in_groups.len()
        invariant
            i <= server.items_in_groups.len(),
            groups == named_views(server.items_in_groups@),
            views(unprocessed_websites@) == ungrouped + deferred_group_websites(
                server_id,
                groups.take(i as int),
            ),
        decreases server.items_in_groups.len() - i,
    {
        let group = &server.items_in_groups[i];
        let name = Some(group.0.clone());
        let ghost before = views(unprocessed_websites@);
        defer_websites(&mut unprocessed_websites, server_id, &name, &group.1.server_websites);
        proof {
            assert(groups[i as int] == (group.0@, group.1@));
            assert(groups.take(i + 1).drop_last() =~= groups.take(i as int));
            assert(groups.take(i + 1).last() == groups[i as int]);
            let added = deferred_websites(server_id, Some(group.0@), group.1@.server_websites);
            assert(ungrouped + (deferred_group_websites(server_id, groups.take(i as int)) + added)
                =~= before + added);
        }
        i += 1;
    }
    assert(groups.take(server.items_in_groups.len() as int) =~= groups);
    Ok(unprocessed_websites)
}

/// The first pass over one group of an environment. In the first pass the
/// websites of the servers are not written: they may point to databases
/// that later servers bring, so they are returned as work for the second
/// pass.
pub fn import_project_env_group_first_pass(
    storage: &mut Storage,
    project_id: i32,
    items: &ProjectEnvGroupImportExport,
    env: EnvironmentType,
    group_name: &Option<String>,
) -> (r: Result<Vec<UnprocessedWebsite>, ImportError>)
    ensures
        (final(storage)@, deferred_of(r)) == spec_import_project_env_group_first_pass(
            old(storage)@,
            project_id,
            items@,
            env,
            opt_text(*group_name),
        ),
        old(storage)@.wf() ==> final(storage)@.wf(),
{
    let ghost group = opt_text(*group_name);
    let ghost st0 = storage@;

    let ghost pois = views(items.project_pois@);
    let ghost poi_step = project_poi_step(project_id, group);
    let mut i: usize = 0;
    proof {
        lemma_replay_end(st0, pois, poi_step);
    }
    while i < items.project_pois.len()
        invariant
            i <= items.project_pois.len(),
            old(storage)@.wf() ==> storage@.wf(),
            group == opt_text(*group_name),
            pois == views(items.project_pois@),
            poi_step == project_poi_step(project_id, group),
            st0 == old(storage)@,
            replay(st0, pois, poi_step) == replay(storage@, pois.skip(i as int), poi_step),
        decreases items.project_pois.len() - i,
    {
        let project_poi = &items.project_pois[i];
        proof {
            lemma_replay_next(storage@, pois, poi_step, i as int);
            assert(pois[i as int] == project_poi@);
        }
        if let Err(e) = import_project_poi(storage, project_id, group_name, project_poi) {
            return Err(e);
        }
        i += 1;
    }
    proof {
        lemma_replay_end(storage@, pois, poi_step);
    }
    let ghost st1 = storage@;

    let ghost notes = views(items.project_notes@);
    let ghost note_step = project_note_step(project_id, group, env);
    let mut i: usize = 0;
    proof {
        lemma_replay_end(st1, notes, note_step);
    }
    while i < items.project_notes.len()
        invariant
            i <= items.project_notes.len(),
            old(storage)@.wf() ==> storage@.wf(),
            group == opt_text(*group_name),
            notes == views(items.project_notes@),
            note_step == project_note_step(project_id, group, env),
            st0 == old(storage)@,
            replay(st0, views(items.project_pois@), project_poi_step(project_id, group)) == (
                st1,
                Ok::<(), ImportError>(()),
            ),
            replay(st1, notes, note_step) == replay(storage@, notes.skip(i as int), note_step),
        decreases items.project_notes.len() - i,
    {
        let project_note = &items.project_notes[i];
        proof {
            lemma_replay_next(storage@, notes, note_step, i as int);
            assert(notes[i as int] == project_note@);
        }
        if let Err(e) = import_project_note(storage, project_id, group_name, env, project_note) {
            return Err(e);
        }
        i += 1;
    }
    proof {
        lemma_replay_end(storage@, notes, note_step);
    }
    let ghost st2 = storage@;

    let ghost links = views(items.server_links@);
    let ghost link_step = server_link_step(project_id, group, env);
    let mut i: usize = 0;
    proof {
        lemma_replay_end(st2, links, link_step);
    }
    while i < items.server_links.len()
        invariant
            i <= items.server_links.len(),
            old(storage)@.wf() ==> storage@.wf(),
            group == opt_text(*group_name),
            links == views(items.server_links@),
            link_step == server_link_step(project_id, group, env),
            st0 == old(storage)@,
            replay(st0, views(items.project_pois@), project_poi_step(project_id, group)) == (
                st1,
                Ok::<(), ImportError>(()),
            ),
            replay(st1, views(items.project_notes@), project_note_step(project_id, group, env)) == (
                st2,
                Ok::<(), ImportError>(()),
            ),
            replay(st2, links, link_step) == replay(storage@, links.skip(i as int), link_step),
        decreases items.server_links.len() - i,
    {
        let server_link = &items.server_links[i];
        proof {
            lemma_replay_next(storage@, links, link_step, i as int);
            assert(links[i as int] == server_link@);
        }
        if let Err(e) = import_server_link(storage, project_id, group_name, env, server_link) {
            return Err(e);
        }
        i += 1;
    }
    proof {
        lemma_replay_end(storage@, links, link_step);
    }
    let ghost st3 = storage@;

    let ghost servers = views(items.servers@);
    let ghost srv_step = server_step(project_id, env, group);
    let mut unprocessed_websites: Vec<UnprocessedWebsite> = Vec::new();
    let mut i: usize = 0;
    proof {
        lemma_replay_deferring_end(st3, servers, srv_step);
        lemma_after_deferring_twice(
            Seq::empty(),
            Seq::empty(),
            replay_deferring(st3, servers, srv_step),
        );
        assert(views(unprocessed_websites@) =~= Seq::empty());
    }
    while i < items.servers.len()
        invariant
            i <= items.servers.len(),
            old(storage)@.wf() ==> storage@.wf(),
            group == opt_text(*group_name),
            servers == views(items.servers@),
            srv_step == server_step(project_id, env, group),
            st0 == old(storage)@,
            replay(st0, views(items.project_pois@), project_poi_step(project_id, group)) == (
                st1,
                Ok::<(), ImportError>(()),
            ),
            replay(st1, views(items.project_notes@), project_note_step(project_id, group, env)) == (
                st2,
                Ok::<(), ImportError>(()),
            ),
            replay(st2, views(items.server_links@), server_link_step(project_id, group, env)) == (
                st3,
                Ok::<(), ImportError>(()),
            ),
            replay_deferring(st3, servers, srv_step) == after_deferring(
                views(unprocessed_websites@),
                replay_deferring(storage@, servers.skip(i as int), srv_step),
            ),
        decreases items.servers.len() - i,
    {
        let server = &items.servers[i];
        let ghost before = storage@;
        let ghost collected = views(unprocessed_websites@);
        proof {
            lemma_replay_deferring_next(before, servers, srv_step, i as int);
            assert(servers[i as int] == server@);
        }
        let mut more = match import_server(storage, project_id, env, group_name, server) {
            Ok(more) => more,
            Err(e) => {
                return Err(e);
            },
        };
        let ghost added = views(more@);
        unprocessed_websites.append(&mut more);
        proof {
            assert(views(unprocessed_websites@) =~= collected + added);
            lemma_after_deferring_twice(
                collected,
                added,
                replay_deferring(storage@, servers.skip(i + 1), srv_step),
            );
        }
        i += 1;
    }
    proof {
        lemma_replay_deferring_end(storage@, servers, srv_step);
        assert(views(unprocessed_websites@) + Seq::<UnprocessedWebsiteView>::empty() =~= views(
            unprocessed_websites@,
        ));
    }
    Ok(unprocessed_websites)
}

/// The first pass over one environment: the ungrouped items, then each
/// named group in document order. Returns the websites of the environment's
/// servers as work for the second pass.
pub fn import_project_env_first_pass(
    storage: &mut Storage,
    project_id: i32,
    env: EnvironmentType,
    project_env: &ProjectEnvImportExport,
) -> (r: Result<Vec<UnprocessedWebsite>, ImportError>)
    ensures
        (final(storage)@, deferred_of(r)) == spec_import_project_env_first_pass(
            old(storage)@,
            project_id,
            env,
            project_env@,
        ),
        old(storage)@.wf() ==> final(storage)@.wf(),
{
    let no_group: Option<String> = None;
    let mut unprocessed_websites = match import_project_env_group_first_pass(
        storage,
        project_id,
        &project_env.items,
        env,
        &no_group,
    ) {
        Ok(pending) => pending,
        Err(e) => {
            return Err(e);
        },
    };
    let ghost st1 = storage@;
    let ghost ungrouped = views(unprocessed_websites@);

    let ghost groups = named_views(project_env.items_in_groups@);
    let ghost step = env_group_step(project_id, env);
    let mut i: usize = 0;
    proof {
        lemma_replay_deferring_end(st1, groups, step);
        lemma_after_deferring_twice(ungrouped, Seq::empty(), replay_deferring(st1, groups, step));
        assert(ungrouped + Seq::<UnprocessedWebsiteView>::empty() =~= ungrouped);
    }
    while i < project_env.items_in_groups.len()
        invariant
            i <= project_env.items_in_groups.len(),
            old(storage)@.wf() ==> storage@.wf(),
            groups == named_views(project_env.items_in_groups@),
            step == env_group_step(project_id, env),
            spec_import_project_env_group_first_pass(
                old(storage)@,
                project_id,
                project_env@.items,
                env,
                None,
            ) == (st1, Ok::<Seq<UnprocessedWebsiteView>, ImportError>(ungrouped)),
            after_deferring(ungrouped, replay_deferring(st1, groups, step)) == after_deferring(
                views(unprocessed_websites@),
                replay_deferring(storage@, groups.skip(i as int), step),
            ),
        decreases project_env.items_in_groups.len() - i,
    {
        let group = &project_env.items_in_groups[i];
        let ghost before = storage@;
        let ghost collected = views(unprocessed_websites@);
        proof {
            lemma_replay_deferring_next(before, groups, step, i as int);
            assert(groups[i as int] == (group.0@, group.1@));
        }
        let name = Some(group.0.clone());
        let mut more = match import_project_env_group_first_pass(
            storage,
            project_id,
            &group.1,
            env,
            &name,
        ) {
            Ok(more) => more,
            Err(e) => {
                return Err(e);
            },
        };
        let ghost added = views(more@);
        unprocessed_websites.append(&mut more);
        proof {
            assert(views(unprocessed_websites@) =~= collected + added);
            lemma_after_deferring_twice(
                collected,
                added,
                replay_deferring(storage@, groups.skip(i + 1), step),
            );
        }
        i += 1;
    }
    proof {
        lemma_replay_deferring_end(storage@, groups, step);
        assert(views(unprocessed_websites@) + Seq::<UnprocessedWebsiteView>::empty() =~= views(
            unprocessed_websites@,
        ));
    }
    Ok(unprocessed_websites)
}

/// Imports one deferred website. Its database reference is resolved
/// against storage as it stands now, after the first pass; where it does not
/// resolve, the website is written without it.
pub fn import_server_website(storage: &mut Storage, website_info: &UnprocessedWebsite) -> (r: Result<
    (),
    ImportError,
>)
    ensures
        (final(storage)@, r) == spec_import_server_website(old(storage)@, website_info@),
        r is Err ==> r == Err::<(), ImportError>(
            ImportError::Storage(StorageError::IdentifiersExhausted),
        ) && old(storage)@.next_server_website_id() is None,
        old(storage)@.wf() ==> final(storage)@.wf(),
{
    let new_databaseid = match &website_info.website.server_database {
        Some(db_path) => match get_new_databaseid(storage, db_path) {
            Ok(id) => Some(id),
            Err(_) => None,
        },
        None => None,
    };
    let row = ServerWebsite {
        id: 0,
        desc: website_info.website.desc.clone(),
        url: website_info.website.url.clone(),
        text: website_info.website.text.clone(),
        group_name: clone_opt_string(&website_info.group_name),
        username: website_info.website.username.clone(),
        password: website_info.website.password.clone(),
        server_database_id: new_databaseid,
        server_id: website_info.server_id,
    };
    match storage.insert_server_website(row) {
        Ok(_) => Ok(()),
        Err(e) => Err(ImportError::Storage(e)),
    }
}

/// Whether storage has a project with this name.
fn has_project_named(storage: &Storage, name: &String) -> (r: bool)
    ensures
        r == project_exists(storage@, name@),
{
    let projects = storage.projects();
    let mut i: usize = 0;
    while i < projects.len()
        invariant
            i <= projects.len(),
            views(projects@) == storage@.projects,
            forall|k: int| 0 <= k < i ==> (#[trigger] storage@.projects[k]).name != name@,
        decreases projects.len() - i,
    {
        assert(storage@.projects[i as int] == projects@[i as int]@);
        if projects[i].name == *name {
            return true;
        }
        i += 1;
    }
    false
}

/// The first pass over an environment that the document may lack; the
/// websites it defers are appended to `unprocessed_websites`.
fn first_pass_if_present(
    storage: &mut Storage,
    project_id: i32,
    env: EnvironmentType,
    project_env: &Option<ProjectEnvImportExport>,
    unprocessed_websites: &mut Vec<UnprocessedWebsite>,
) -> (r: Result<(), ImportError>)
    ensures
        then_first_pass(
            (
                old(storage)@,
                Ok::<Seq<UnprocessedWebsiteView>, ImportError>(views(old(unprocessed_websites)@)),
            ),
            project_id,
            env,
            crate::types::opt_view(*project_env),
        ) == (final(storage)@, match r {
            Ok(_) => Ok::<Seq<UnprocessedWebsiteView>, ImportError>(
                views(final(unprocessed_websites)@),
            ),
            Err(e) => Err(e),
        }),
        old(storage)@.wf() ==> final(storage)@.wf(),
{
    match project_env {
        Some(e) => {
            let ghost collected = views(unprocessed_websites@);
            let mut more = match import_project_env_first_pass(storage, project_id, env, e) {
                Ok(more) => more,
                Err(e) => {
                    return Err(e);
                },
            };
            let ghost added = views(more@);
            unprocessed_websites.append(&mut more);
            assert(views(unprocessed_websites@) =~= collected + added);
            Ok(())
        },
        None => {
            assert(views(unprocessed_websites@) + Seq::<UnprocessedWebsiteView>::empty() =~= views(
                unprocessed_websites@,
            ));
            Ok(())
        },
    }
}

/// Imports a project document into storage.
///
/// The import is refused, with nothing written, where storage already has
/// a project with the document's project name. Otherwise the project row is
/// written with one flag for each environment that the document has, the
/// first pass writes everything but the websites, environment after
/// environment, and the second pass writes the websites, which can then
/// refer to any database in storage. A failure ends the import where it
/// occurs: the rows written before it stay in storage.
pub fn do_import(storage: &mut Storage, decoded: &ProjectImportExport) -> (r: Result<(), ImportError>)
    ensures
        (final(storage)@, r) == spec_do_import(old(storage)@, decoded@),
        project_exists(old(storage)@, decoded@.project_name) ==> r == Err::<(), ImportError>(
            ImportError::ProjectAlreadyExists,
        ) && final(storage)@ == old(storage)@,
        old(storage)@.wf() ==> final(storage)@.wf(),
{
    if has_project_named(storage, &decoded.project_name) {
        return Err(ImportError::ProjectAlreadyExists);
    }
    let row = Project {
        id: 0,
        name: decoded.project_name.clone(),
        icon: Some(Vec::new()),
        has_dev: decoded.development_environment.is_some(),
        has_uat: decoded.uat_environment.is_some(),
        has_stage: decoded.staging_environment.is_some(),
        has_prod: decoded.prod_environment.is_some(),
    };
    assert(row@.icon == Some(Seq::<u8>::empty()));
    assert(old(storage)@.add_project(row@) == old(storage)@.add_project(project_row(decoded@)));
    let project_id = match storage.insert_project(row) {
        Ok(id) => id,
        Err(e) => {
            return Err(ImportError::Storage(e));
        },
    };
    let mut unprocessed_websites: Vec<UnprocessedWebsite> = Vec::new();
    proof {
        assert(views(unprocessed_websites@) =~= Seq::empty());
        lemma_after_deferring_twice(
            Seq::empty(),
            Seq::empty(),
            spec_first_pass_if_present(
                storage@,
                project_id,
                EnvironmentType::EnvDevelopment,
                decoded@.development_environment,
            ),
        );
    }
    if let Err(e) = first_pass_if_present(
        storage,
        project_id,
        EnvironmentType::EnvDevelopment,
        &decoded.development_environment,
        &mut unprocessed_websites,
    ) {
        return Err(e);
    }
    if let Err(e) = first_pass_if_present(
        storage,
        project_id,
        EnvironmentType::EnvStage,
        &decoded.staging_environment,
        &mut unprocessed_websites,
    ) {
        return Err(e);
    }
    if let Err(e) = first_pass_if_present(
        storage,
        project_id,
        EnvironmentType::EnvUat,
        &decoded.uat_environment,
        &mut unprocessed_websites,
    ) {
        return Err(e);
    }
    if let Err(e) = first_pass_if_present(
        storage,
        project_id,
        EnvironmentType::EnvProd,
        &decoded.prod_environment,
        &mut unprocessed_websites,
    ) {
        return Err(e);
    }
    let ghost st1 = storage@;
    let ghost deferred = views(unprocessed_websites@);
    let ghost step = website_step();
    let mut i: usize = 0;
    proof {
        lemma_replay_end(st1, deferred, step);
    }
    while i < unprocessed_websites.len()
        invariant
            i <= unprocessed_websites.len(),
            old(storage)@.wf() ==> storage@.wf(),
            deferred == views(unprocessed_websites@),
            step == website_step(),
            spec_do_import(old(storage)@, decoded@) == replay(st1, deferred, step),
            replay(st1, deferred, step) == replay(storage@, deferred.skip(i as int), step),
        decreases unprocessed_websites.len() - i,
    {
        let unprocessed_website = &unprocessed_websites[i];
        proof {
            lemma_replay_next(storage@, deferred, step, i as int);
            assert(deferred[i as int] == unprocessed_website@);
        }
        if let Err(e) = import_server_website(storage, unprocessed_website) {
            return Err(e);
        }
        i += 1;
    }
    proof {
        lemma_replay_end(storage@, deferred, step);
    }
    Ok(())
}

} // verus!
