//! What holds of resolution and import for every storage and every
//! document, proved from the definitions in the other modules.

use vstd::prelude::*;
use crate::document::{
    ProjectEnvGroupImportExportView, ProjectEnvImportExportView, ProjectImportExportView,
    ProjectNoteImportExportView, ServerDatabasePathView, ServerGroupImportExportView,
    ServerPathView, ServerWithItemsImportExportView,
};
use crate::import::{
    database_step, env_group_step, matching_notes, note_answers, project_exists, project_note_step,
    project_poi_step, project_row, server_group_step, server_link_step, server_note_step,
    server_poi_step, server_step, server_user_step, spec_do_import, spec_first_pass,
    spec_first_pass_if_present, spec_import_project_env_group_first_pass, spec_import_project_note,
    spec_import_server, spec_import_server_items, spec_import_server_website, then_first_pass,
    website_database, website_row, website_step,
};
use crate::export::{project_by_id, spec_export_project};
use crate::replay::{
    lemma_replay_deferring_keeps, lemma_replay_keeps, replay, ImportError, UnprocessedWebsiteView,
};
use crate::resolve::{
    matching_databases, owning_server, resolve_database, resolve_server, server_answers,
    ResolveError,
};
use crate::rows::{
    ProjectNoteView, ProjectPointOfInterestView, ProjectView, ServerDatabaseView,
    ServerExtraUserAccountView, ServerLinkView, ServerNoteView, ServerPointOfInterestView,
    ServerView, ServerWebsiteView,
};
use crate::select::{lemma_filter_kept, lemma_filter_none, lemma_filter_one, lemma_filter_two};
use crate::storage::{lemma_push_next_increasing, StorageError, StorageView};
use crate::types::EnvironmentType;

verus! {

// ---------------------------------------------------------------------------
// Resolution
// ---------------------------------------------------------------------------
/// A direct id takes precedence: a server path that carries one resolves
/// to it in every storage, whatever its project name, environment and
/// description say, and even where they designate another server.
pub proof fn direct_server_id_takes_precedence(st: StorageView, path: ServerPathView)
    requires
        path.server_id is Some,
    ensures
        resolve_server(st, path) == Ok::<i32, ResolveError>(path.server_id->0),
{
}

/// A direct id takes precedence: a database path that carries a database
/// id resolves to it in every storage, whatever the rest of the path says.
pub proof fn direct_database_id_takes_precedence(st: StorageView, path: ServerDatabasePathView)
    requires
        path.database_id is Some,
    ensures
        resolve_database(st, path) == Ok::<i32, ResolveError>(path.database_id->0),
{
}

/// A database path without a database id, whose owning server is given by
/// a direct id, looks for the database under that server without looking
/// for the server.
pub proof fn direct_owner_id_takes_precedence(st: StorageView, path: ServerDatabasePathView)
    requires
        path.database_id is None,
        path.server_id is Some,
        path.database_desc is Some,
    ensures
        resolve_database(st, path) == (if matching_databases(
            st,
            path.server_id->0,
            path.database_desc->0,
        ).len() == 1 {
            Ok::<i32, ResolveError>(
                matching_databases(st, path.server_id->0, path.database_desc->0)[0].id,
            )
        } else {
            Err::<i32, ResolveError>(ResolveError::DatabaseNotFound)
        }),
{
}

/// A described server is found when it is the only one: where the server
/// at place `i` is the one server that answers to the path, the path
/// resolves to its identifier.
pub proof fn unique_server_description_resolves(st: StorageView, path: ServerPathView, i: int)
    requires
        path.server_id is None,
        path.server_desc is Some,
        0 <= i < st.servers.len(),
        server_answers(st.projects, path.project_name, path.environment, path.server_desc->0)(
            st.servers[i],
        ),
        forall|j: int|
            0 <= j < st.servers.len() && server_answers(
                st.projects,
                path.project_name,
                path.environment,
                path.server_desc->0,
            )(#[trigger] st.servers[j]) ==> j == i,
    ensures
        resolve_server(st, path) == Ok::<i32, ResolveError>(st.servers[i].id),
{
    let pred = server_answers(
        st.projects,
        path.project_name,
        path.environment,
        path.server_desc->0,
    );
    lemma_filter_one(st.servers, pred, i);
}

/// An ambiguous description never resolves: where two servers at
/// different places answer to the same project name, environment and
/// description, the path fails, and neither server is picked.
pub proof fn ambiguous_server_description_fails(
    st: StorageView,
    path: ServerPathView,
    i: int,
    j: int,
)
    requires
        path.server_id is None,
        path.server_desc is Some,
        0 <= i < j < st.servers.len(),
        server_answers(st.projects, path.project_name, path.environment, path.server_desc->0)(
            st.servers[i],
        ),
        server_answers(st.projects, path.project_name, path.environment, path.server_desc->0)(
            st.servers[j],
        ),
    ensures
        resolve_server(st, path) == Err::<i32, ResolveError>(ResolveError::ServerNotFound),
{
    let pred = server_answers(
        st.projects,
        path.project_name,
        path.environment,
        path.server_desc->0,
    );
    lemma_filter_two(st.servers, pred, i, j);
}

/// A description that no server answers to does not resolve.
pub proof fn unknown_server_description_fails(st: StorageView, path: ServerPathView)
    requires
        path.server_id is None,
        path.server_desc is Some,
        forall|j: int|
            0 <= j < st.servers.len() ==> !server_answers(
                st.projects,
                path.project_name,
                path.environment,
                path.server_desc->0,
            )(#[trigger] st.servers[j]),
    ensures
        resolve_server(st, path) == Err::<i32, ResolveError>(ResolveError::ServerNotFound),
{
    let pred = server_answers(
        st.projects,
        path.project_name,
        path.environment,
        path.server_desc->0,
    );
    lemma_filter_none(st.servers, pred);
}

/// A server path that resolves by description resolves to a server that is
/// in storage and answers to it.
pub proof fn resolved_server_is_in_storage(st: StorageView, path: ServerPathView) -> (i: int)
    requires
        path.server_id is None,
        resolve_server(st, path) is Ok,
    ensures
        0 <= i < st.servers.len(),
        st.servers[i].id == resolve_server(st, path)->Ok_0,
        path.server_desc is Some,
        server_answers(st.projects, path.project_name, path.environment, path.server_desc->0)(
            st.servers[i],
        ),
{
    let pred = server_answers(
        st.projects,
        path.project_name,
        path.environment,
        path.server_desc->0,
    );
    lemma_filter_kept(st.servers, pred, 0)
}

/// Resolution reads the projects, the servers and the databases, and no
/// other table: two storages that agree on these resolve every database
/// path alike.
pub proof fn resolution_reads_three_tables(a: StorageView, b: StorageView, path: ServerDatabasePathView)
    requires
        a.projects == b.projects,
        a.servers == b.servers,
        a.server_databases == b.server_databases,
    ensures
        resolve_database(a, path) == resolve_database(b, path),
        resolve_server(a, owning_server(path)) == resolve_server(b, owning_server(path)),
{
}

// ---------------------------------------------------------------------------
// Shared notes
// ---------------------------------------------------------------------------
/// The row of a note that was written for `first` and then met again, as a
/// shared note, in `second`.
pub open spec fn shared_note_row(
    id: i32,
    project_id: i32,
    group_name: Option<Seq<char>>,
    first: EnvironmentType,
    second: EnvironmentType,
    note: ProjectNoteImportExportView,
) -> ProjectNoteView {
    ProjectNoteView {
        id,
        title: note.title,
        contents: note.contents,
        has_dev: first == EnvironmentType::EnvDevelopment || second == EnvironmentType::EnvDevelopment,
        has_uat: first == EnvironmentType::EnvUat || second == EnvironmentType::EnvUat,
        has_stage: first == EnvironmentType::EnvStage || second == EnvironmentType::EnvStage,
        has_prod: first == EnvironmentType::EnvProd || second == EnvironmentType::EnvProd,
        group_name,
        project_id,
    }
}

/// A note shared by two environments is one row, never two. Where the
/// project has no note yet with this title and group, importing the note
/// with its contents for one environment and then its marker for another
/// adds exactly one row to the project notes, present in both environments
/// and in no other, and changes nothing else in storage. For Development
/// followed by Stage the row has `has_dev` and `has_stage`.
pub proof fn shared_note_is_one_row(
    st: StorageView,
    project_id: i32,
    group_name: Option<Seq<char>>,
    first: EnvironmentType,
    second: EnvironmentType,
    note: ProjectNoteImportExportView,
    marker: ProjectNoteImportExportView,
)
    requires
        st.wf(),
        st.next_project_note_id() is Some,
        note.shared_with_other_environments is None,
        marker.shared_with_other_environments == Some(note.title),
        matching_notes(st, note.title, group_name, project_id).len() == 0,
    ensures
        ({
            let (s1, r1) = spec_import_project_note(st, project_id, group_name, first, note);
            let (s2, r2) = spec_import_project_note(s1, project_id, group_name, second, marker);
            let id = st.next_project_note_id()->0;
            &&& r1 is Ok
            &&& r2 is Ok
            &&& s2 == StorageView {
                project_notes: st.project_notes.push(
                    shared_note_row(id, project_id, group_name, first, second, note),
                ),
                ..st
            }
            &&& (first == EnvironmentType::EnvDevelopment && second == EnvironmentType::EnvStage
                ==> s2.project_notes.last().has_dev && s2.project_notes.last().has_stage)
        }),
{
    let (s1, r1) = spec_import_project_note(st, project_id, group_name, first, note);
    let (s2, r2) = spec_import_project_note(s1, project_id, group_name, second, marker);
    let id = st.next_project_note_id()->0;
    let pred = note_answers(note.title, group_name, project_id);
    let written = s1.project_notes.last();
    assert(s1.project_notes == st.project_notes.push(written));
    assert(written.id == id);
    st.project_notes.lemma_filter_push(written, pred);
    assert(matching_notes(s1, note.title, group_name, project_id) =~= seq![written]);
    let expected = st.project_notes.push(
        shared_note_row(id, project_id, group_name, first, second, note),
    );
    assert(s2.project_notes.len() == expected.len());
    assert forall|k: int| 0 <= k < expected.len() implies s2.project_notes[k] == expected[k] by {
        if k < st.project_notes.len() {
            let ids = st.project_note_ids();
            assert(ids[k] == st.project_notes[k].id);
            assert(ids[k] <= ids.last());
            assert(s1.project_notes[k] == st.project_notes[k]);
        } else {
            assert(s1.project_notes[k] == written);
        }
    }
    assert(s2.project_notes =~= expected);
}

/// A marker never adds a row: importing a note that names a shared note
/// leaves the number of project notes as it was, whether the shared note is
/// found or not.
pub proof fn shared_marker_adds_no_row(
    st: StorageView,
    project_id: i32,
    group_name: Option<Seq<char>>,
    env: EnvironmentType,
    marker: ProjectNoteImportExportView,
)
    requires
        marker.shared_with_other_environments is Some,
    ensures
        spec_import_project_note(st, project_id, group_name, env, marker).0.project_notes.len()
            == st.project_notes.len(),
        spec_import_project_note(st, project_id, group_name, env, marker).1 is Err
            <==> matching_notes(
            st,
            marker.shared_with_other_environments->0,
            group_name,
            project_id,
        ).len() == 0,
{
}

// ---------------------------------------------------------------------------
// The second pass
// ---------------------------------------------------------------------------
/// How many more rows a table takes before its identifiers run out.
pub open spec fn identifiers_left(ids: Seq<i32>) -> int {
    if ids.len() == 0 {
        i32::MAX as int
    } else {
        i32::MAX - ids.last()
    }
}

/// A dangling database reference is dropped, not fatal: a website whose
/// reference does not resolve is written like any other, with no database,
/// and its import succeeds.
pub proof fn dangling_database_reference_is_dropped(st: StorageView, info: UnprocessedWebsiteView)
    requires
        info.website.server_database is Some,
        resolve_database(st, info.website.server_database->0) is Err,
        st.next_server_website_id() is Some,
    ensures
        spec_import_server_website(st, info) == (
            st.add_server_website(website_row(info, None)),
            Ok::<(), ImportError>(()),
        ),
        spec_import_server_website(st, info).0.server_websites.last().server_database_id is None,
{
}

/// The second pass succeeds exactly when the table of websites has an
/// identifier for each deferred website. What the websites refer to, and
/// whether it resolves, has no part in it.
pub proof fn second_pass_succeeds_while_identifiers_last(
    st: StorageView,
    pending: Seq<UnprocessedWebsiteView>,
)
    ensures
        replay(st, pending, website_step()).1 is Ok <==> pending.len() <= identifiers_left(
            st.server_website_ids(),
        ),
        replay(st, pending, website_step()).1 is Err ==> replay(st, pending, website_step()).1
            == Err::<(), ImportError>(ImportError::Storage(StorageError::IdentifiersExhausted)),
    decreases pending.len(),
{
    if pending.len() > 0 {
        let (after, r) = spec_import_server_website(st, pending[0]);
        if r is Ok {
            let id = st.next_server_website_id()->0;
            assert(after.server_website_ids() =~= st.server_website_ids().push(id));
            second_pass_succeeds_while_identifiers_last(after, pending.skip(1));
        }
    }
}

/// Deferred references resolve against storage as the import leaves it.
/// After a second pass that succeeds, storage differs from before only in
/// the table of websites, which has one more row for each deferred website,
/// in order; and each such row points to the database that its reference
/// resolves to in the final storage, wherever in the document that database
/// stood, or to none where the reference does not resolve there.
pub proof fn second_pass_writes_resolved_websites(
    st: StorageView,
    pending: Seq<UnprocessedWebsiteView>,
)
    requires
        replay(st, pending, website_step()).1 is Ok,
    ensures
        ({
            let fin = replay(st, pending, website_step()).0;
            &&& fin == StorageView { server_websites: fin.server_websites, ..st }
            &&& fin.server_websites.len() == st.server_websites.len() + pending.len()
            &&& fin.server_websites.take(st.server_websites.len() as int) == st.server_websites
            &&& forall|k: int|
                0 <= k < pending.len() ==> #[trigger] fin.server_websites[st.server_websites.len()
                    + k] == (ServerWebsiteView {
                    id: fin.server_websites[st.server_websites.len() + k].id,
                    ..website_row(pending[k], website_database(fin, pending[k].website))
                })
        }),
    decreases pending.len(),
{
    let fin = replay(st, pending, website_step()).0;
    let n = st.server_websites.len() as int;
    if pending.len() == 0 {
        assert(fin.server_websites.take(n) =~= st.server_websites);
    } else {
        let (after, r) = spec_import_server_website(st, pending[0]);
        let rest = pending.skip(1);
        second_pass_writes_resolved_websites(after, rest);
        assert(after.server_websites.len() == n + 1);
        assert(fin.server_websites.take(n) =~= fin.server_websites.take(n + 1).take(n));
        assert(fin.server_websites.take(n) =~= st.server_websites);
        assert forall|k: int| 0 <= k < pending.len() implies #[trigger] fin.server_websites[n + k]
            == (ServerWebsiteView {
            id: fin.server_websites[n + k].id,
            ..website_row(pending[k], website_database(fin, pending[k].website))
        }) by {
            if k == 0 {
                assert(fin.server_websites[n] == fin.server_websites.take(n + 1)[n]);
                assert(website_database(st, pending[0].website) == website_database(
                    fin,
                    pending[0].website,
                ));
            } else {
                assert(rest[k - 1] == pending[k]);
                assert(fin.server_websites[(n + 1) + (k - 1)] == fin.server_websites[n + k]);
            }
        }
    }
}

// ---------------------------------------------------------------------------
// The two passes together
// ---------------------------------------------------------------------------
/// Whether a relation between two storages survives every write of the
/// import of a server: it relates every storage to itself, carries over
/// from one pair to the next, and holds between a storage and the same
/// storage after a server, or an item of a server other than a website, was
/// added.
pub open spec fn kept_by_server_writes(kept: spec_fn(StorageView, StorageView) -> bool) -> bool {
    &&& forall|a: StorageView| #[trigger] kept(a, a)
    &&& forall|a: StorageView, b: StorageView, c: StorageView|
        #[trigger] kept(a, b) && #[trigger] kept(b, c) ==> kept(a, c)
    &&& forall|a: StorageView, row: ServerView| kept(a, #[trigger] a.add_server(row))
    &&& forall|a: StorageView, row: ServerDatabaseView|
        kept(a, #[trigger] a.add_server_database(row))
    &&& forall|a: StorageView, row: ServerNoteView| kept(a, #[trigger] a.add_server_note(row))
    &&& forall|a: StorageView, row: ServerPointOfInterestView|
        kept(a, #[trigger] a.add_server_poi(row))
    &&& forall|a: StorageView, row: ServerExtraUserAccountView|
        kept(a, #[trigger] a.add_server_extra_user(row))
}

/// Whether a relation between two storages survives every write of the
/// first pass: those of the import of a server, the addition of a point of
/// interest, a note or a server link of the project, and the marking of a
/// project note.
pub open spec fn kept_by_first_pass_writes(
    kept: spec_fn(StorageView, StorageView) -> bool,
) -> bool {
    &&& kept_by_server_writes(kept)
    &&& forall|a: StorageView, row: ProjectPointOfInterestView|
        kept(a, #[trigger] a.add_project_poi(row))
    &&& forall|a: StorageView, row: ProjectNoteView| kept(a, #[trigger] a.add_project_note(row))
    &&& forall|a: StorageView, id: i32, env: EnvironmentType|
        kept(a, #[trigger] a.mark_project_note(id, env))
    &&& forall|a: StorageView, row: ServerLinkView| kept(a, #[trigger] a.add_server_link(row))
}

/// Importing the items of one group of a server keeps what its writes keep.
pub proof fn server_items_keep(
    st: StorageView,
    server_id: i32,
    group_name: Option<Seq<char>>,
    items: ServerGroupImportExportView,
    kept: spec_fn(StorageView, StorageView) -> bool,
)
    requires
        kept_by_server_writes(kept),
    ensures
        kept(st, spec_import_server_items(st, server_id, group_name, items).0),
{
    let (s1, r1) = replay(st, items.server_databases, database_step(server_id, group_name));
    lemma_replay_keeps(st, items.server_databases, database_step(server_id, group_name), kept);
    let (s2, r2) = replay(s1, items.server_notes, server_note_step(server_id, group_name));
    lemma_replay_keeps(s1, items.server_notes, server_note_step(server_id, group_name), kept);
    let (s3, r3) = replay(s2, items.server_pois, server_poi_step(server_id, group_name));
    lemma_replay_keeps(s2, items.server_pois, server_poi_step(server_id, group_name), kept);
    lemma_replay_keeps(s3, items.server_extra_users, server_user_step(server_id, group_name), kept);
}

/// Importing a server in the first pass keeps what its writes keep.
pub proof fn server_keeps(
    st: StorageView,
    project_id: i32,
    env: EnvironmentType,
    group_name: Option<Seq<char>>,
    server: ServerWithItemsImportExportView,
    kept: spec_fn(StorageView, StorageView) -> bool,
)
    requires
        kept_by_server_writes(kept),
    ensures
        kept(st, spec_import_server(st, project_id, env, group_name, server).0),
{
    if let Some(server_id) = st.next_server_id() {
        let s1 = st.add_server(
            crate::import::server_row(project_id, env, group_name, server.server),
        );
        server_items_keep(s1, server_id, None, server.items, kept);
        let (s2, r2) = spec_import_server_items(s1, server_id, None, server.items);
        let step = server_group_step(server_id);
        assert forall|a: StorageView, x: (Seq<char>, ServerGroupImportExportView)|
            kept(a, (#[trigger] step(a, x)).0) by {
            server_items_keep(a, server_id, Some(x.0), x.1, kept);
        }
        lemma_replay_keeps(s2, server.items_in_groups, step, kept);
    }
}

/// The first pass over one group of an environment keeps what its writes keep.
pub proof fn env_group_keeps(
    st: StorageView,
    project_id: i32,
    items: ProjectEnvGroupImportExportView,
    env: EnvironmentType,
    group_name: Option<Seq<char>>,
    kept: spec_fn(StorageView, StorageView) -> bool,
)
    requires
        kept_by_first_pass_writes(kept),
    ensures
        kept(
            st,
            spec_import_project_env_group_first_pass(st, project_id, items, env, group_name).0,
        ),
{
    let (s1, r1) = replay(st, items.project_pois, project_poi_step(project_id, group_name));
    lemma_replay_keeps(st, items.project_pois, project_poi_step(project_id, group_name), kept);
    let (s2, r2) = replay(s1, items.project_notes, project_note_step(project_id, group_name, env));
    lemma_replay_keeps(
        s1,
        items.project_notes,
        project_note_step(project_id, group_name, env),
        kept,
    );
    let (s3, r3) = replay(s2, items.server_links, server_link_step(project_id, group_name, env));
    lemma_replay_keeps(s2, items.server_links, server_link_step(project_id, group_name, env), kept);
    let step = server_step(project_id, env, group_name);
    assert forall|a: StorageView, x: ServerWithItemsImportExportView|
        kept(a, (#[trigger] step(a, x)).0) by {
        server_keeps(a, project_id, env, group_name, x, kept);
    }
    lemma_replay_deferring_keeps(s3, items.servers, step, kept);
}

/// The first pass over one environment, present or not, keeps what its
/// writes keep.
pub proof fn env_keeps(
    st: StorageView,
    project_id: i32,
    env: EnvironmentType,
    project_env: Option<ProjectEnvImportExportView>,
    kept: spec_fn(StorageView, StorageView) -> bool,
)
    requires
        kept_by_first_pass_writes(kept),
    ensures
        kept(st, spec_first_pass_if_present(st, project_id, env, project_env).0),
{
    if let Some(e) = project_env {
        env_group_keeps(st, project_id, e.items, env, None, kept);
        let (s1, r1) = spec_import_project_env_group_first_pass(st, project_id, e.items, env, None);
        let step = env_group_step(project_id, env);
        assert forall|a: StorageView, x: (Seq<char>, ProjectEnvGroupImportExportView)|
            kept(a, (#[trigger] step(a, x)).0) by {
            env_group_keeps(a, project_id, x.1, env, Some(x.0), kept);
        }
        lemma_replay_deferring_keeps(s1, e.items_in_groups, step, kept);
    }
}

/// The first pass over the whole document keeps what its writes keep: a
/// relation that survives each single write holds between the storage before
/// the first pass and the storage after it, whether the pass succeeds or
/// stops at a failure.
pub proof fn first_pass_keeps(
    st: StorageView,
    project_id: i32,
    doc: ProjectImportExportView,
    kept: spec_fn(StorageView, StorageView) -> bool,
)
    requires
        kept_by_first_pass_writes(kept),
    ensures
        kept(st, spec_first_pass(st, project_id, doc).0),
{
    let o1 = spec_first_pass_if_present(
        st,
        project_id,
        EnvironmentType::EnvDevelopment,
        doc.development_environment,
    );
    env_keeps(
        st,
        project_id,
        EnvironmentType::EnvDevelopment,
        doc.development_environment,
        kept,
    );
    let o2 = then_first_pass(o1, project_id, EnvironmentType::EnvStage, doc.staging_environment);
    env_keeps(o1.0, project_id, EnvironmentType::EnvStage, doc.staging_environment, kept);
    let o3 = then_first_pass(o2, project_id, EnvironmentType::EnvUat, doc.uat_environment);
    env_keeps(o2.0, project_id, EnvironmentType::EnvUat, doc.uat_environment, kept);
    env_keeps(o3.0, project_id, EnvironmentType::EnvProd, doc.prod_environment, kept);
}

/// The table of websites is the same in both storages.
pub open spec fn websites_kept() -> spec_fn(StorageView, StorageView) -> bool {
    |a: StorageView, b: StorageView| a.server_websites == b.server_websites
}

/// The table of projects is the same in both storages.
pub open spec fn projects_kept() -> spec_fn(StorageView, StorageView) -> bool {
    |a: StorageView, b: StorageView| a.projects == b.projects
}

/// The second pass writes websites only: whether it succeeds or stops at a
/// failure, every other table is as it was.
pub proof fn second_pass_writes_websites_only(st: StorageView, pending: Seq<UnprocessedWebsiteView>)
    ensures
        replay(st, pending, website_step()).0 == (StorageView {
            server_websites: replay(st, pending, website_step()).0.server_websites,
            ..st
        }),
    decreases pending.len(),
{
    if pending.len() > 0 {
        let (after, r) = spec_import_server_website(st, pending[0]);
        if r is Ok {
            second_pass_writes_websites_only(after, pending.skip(1));
        }
    }
}

/// The websites that the first pass of an import defers, in the order in
/// which the second pass writes them.
pub open spec fn deferred_by(st: StorageView, doc: ProjectImportExportView) -> Seq<
    UnprocessedWebsiteView,
> {
    spec_first_pass(st.add_project(project_row(doc)), st.next_project_id()->0, doc).1->Ok_0
}

/// Forward references resolve. After an import that succeeds, the table of
/// websites has its old rows and, after them, one row for each website of
/// the document. Each of these rows points to the database that the
/// website's reference resolves to in storage as the import leaves it: a
/// database under a server that stands later in the document than the
/// website is found like any other. Where the reference resolves to nothing
/// there, the row points to no database.
pub proof fn import_resolves_websites_in_final_storage(st: StorageView, doc: ProjectImportExportView)
    requires
        spec_do_import(st, doc).1 is Ok,
    ensures
        ({
            let fin = spec_do_import(st, doc).0;
            let pending = deferred_by(st, doc);
            let n = st.server_websites.len();
            &&& fin.server_websites.len() == n + pending.len()
            &&& fin.server_websites.take(n as int) == st.server_websites
            &&& forall|k: int|
                0 <= k < pending.len() ==> #[trigger] fin.server_websites[n + k] == (ServerWebsiteView {
                    id: fin.server_websites[n + k].id,
                    ..website_row(pending[k], website_database(fin, pending[k].website))
                })
        }),
{
    let project_id = st.next_project_id()->0;
    let s0 = st.add_project(project_row(doc));
    let (s1, r1) = spec_first_pass(s0, project_id, doc);
    first_pass_keeps(s0, project_id, doc, websites_kept());
    second_pass_writes_resolved_websites(s1, deferred_by(st, doc));
}

// ---------------------------------------------------------------------------
// Export followed by import
// ---------------------------------------------------------------------------
/// An import writes one project row and changes no other: whatever the
/// document holds, and whether the import succeeds or stops at a failure
/// after the project row was written, the table of projects is the old table
/// with the document's project row at its end.
pub proof fn import_writes_one_project_row(st: StorageView, doc: ProjectImportExportView)
    requires
        !project_exists(st, doc.project_name),
        st.next_project_id() is Some,
    ensures
        spec_do_import(st, doc).0.projects == st.projects.push(
            ProjectView { id: st.next_project_id()->0, ..project_row(doc) },
        ),
{
    let project_id = st.next_project_id()->0;
    let s0 = st.add_project(project_row(doc));
    let (s1, r1) = spec_first_pass(s0, project_id, doc);
    first_pass_keeps(s0, project_id, doc, projects_kept());
    if let Ok(deferred) = r1 {
        second_pass_writes_websites_only(s1, deferred);
    }
}

/// The project row survives export and import. Where the project
/// `project_id` of `source` is exported and the document is imported into a
/// storage `dest` that has no project of that name, the project row that the
/// import writes carries the name of the source row and the same four
/// environment flags. Its identifier is the one that `dest` assigns, and its
/// icon is empty: icons are not carried over.
pub proof fn exported_project_row_survives_import(
    source: StorageView,
    project_id: i32,
    dest: StorageView,
)
    requires
        spec_export_project(source, project_id) is Ok,
        !project_exists(dest, project_by_id(source, project_id)->0.name),
        dest.next_project_id() is Some,
    ensures
        spec_do_import(dest, spec_export_project(source, project_id)->Ok_0).0.projects
            == dest.projects.push(
            ProjectView {
                id: dest.next_project_id()->0,
                icon: Some(Seq::empty()),
                ..project_by_id(source, project_id)->0
            },
        ),
{
    import_writes_one_project_row(dest, spec_export_project(source, project_id)->Ok_0);
}

// ---------------------------------------------------------------------------
// Identifiers
// ---------------------------------------------------------------------------
/// Where the first storage has growing identifiers in every table, so has
/// the second.
pub open spec fn well_formed_kept() -> spec_fn(StorageView, StorageView) -> bool {
    |a: StorageView, b: StorageView| a.wf() ==> b.wf()
}

/// No write breaks the order of the identifiers: storage whose
/// identifiers grow in every table is still so after a row was added to any
/// table, or after a project note was marked.
pub proof fn writes_keep_identifiers_growing()
    ensures
        kept_by_first_pass_writes(well_formed_kept()),
        forall|a: StorageView, row: ProjectView|
            a.wf() ==> (#[trigger] a.add_project(row)).wf(),
        forall|a: StorageView, row: ServerWebsiteView|
            a.wf() ==> (#[trigger] a.add_server_website(row)).wf(),
{
    let kept = well_formed_kept();
    assert forall|a: StorageView, row: ProjectPointOfInterestView| kept(a, #[trigger] a.add_project_poi(row)) by {
        if a.wf() {
            if let Some(id) = a.next_project_poi_id() {
                lemma_push_next_increasing(a.project_poi_ids(), id);
                assert(a.add_project_poi(row).project_poi_ids() =~= a.project_poi_ids().push(id));
            }
        }
    }
    assert forall|a: StorageView, row: ProjectNoteView| kept(a, #[trigger] a.add_project_note(row)) by {
        if a.wf() {
            if let Some(id) = a.next_project_note_id() {
                lemma_push_next_increasing(a.project_note_ids(), id);
                assert(
                    a.add_project_note(row).project_note_ids() =~= a.project_note_ids().push(id)
                );
            }
        }
    }
    assert forall|a: StorageView, row: ServerLinkView| kept(a, #[trigger] a.add_server_link(row)) by {
        if a.wf() {
            if let Some(id) = a.next_server_link_id() {
                lemma_push_next_increasing(a.server_link_ids(), id);
                assert(a.add_server_link(row).server_link_ids() =~= a.server_link_ids().push(id));
            }
        }
    }
    assert forall|a: StorageView, row: ServerView| kept(a, #[trigger] a.add_server(row)) by {
        if a.wf() {
            if let Some(id) = a.next_server_id() {
                lemma_push_next_increasing(a.server_ids(), id);
                assert(a.add_server(row).server_ids() =~= a.server_ids().push(id));
            }
        }
    }
    assert forall|a: StorageView, row: ServerDatabaseView| kept(a, #[trigger] a.add_server_database(row)) by {
        if a.wf() {
            if let Some(id) = a.next_server_database_id() {
                lemma_push_next_increasing(a.server_database_ids(), id);
                assert(
                    a.add_server_database(row).server_database_ids() =~= a.server_database_ids().push(id)
                );
            }
        }
    }
    assert forall|a: StorageView, row: ServerNoteView| kept(a, #[trigger] a.add_server_note(row)) by {
        if a.wf() {
            if let Some(id) = a.next_server_note_id() {
                lemma_push_next_increasing(a.server_note_ids(), id);
                assert(a.add_server_note(row).server_note_ids() =~= a.server_note_ids().push(id));
            }
        }
    }
    assert forall|a: StorageView, row: ServerPointOfInterestView| kept(a, #[trigger] a.add_server_poi(row)) by {
        if a.wf() {
            if let Some(id) = a.next_server_poi_id() {
                lemma_push_next_increasing(a.server_poi_ids(), id);
                assert(a.add_server_poi(row).server_poi_ids() =~= a.server_poi_ids().push(id));
            }
        }
    }
    assert forall|a: StorageView, row: ServerExtraUserAccountView| kept(a, #[trigger] a.add_server_extra_user(row)) by {
        if a.wf() {
            if let Some(id) = a.next_server_extra_user_id() {
                lemma_push_next_increasing(a.server_extra_user_ids(), id);
                assert(
                    a.add_server_extra_user(row).server_extra_user_ids() =~= a.server_extra_user_ids().push(id)
                );
            }
        }
    }
    assert forall|a: StorageView, row: ProjectView| kept(a, #[trigger] a.add_project(row)) by {
        if a.wf() {
            if let Some(id) = a.next_project_id() {
                lemma_push_next_increasing(a.project_ids(), id);
                assert(a.add_project(row).project_ids() =~= a.project_ids().push(id));
            }
        }
    }
    assert forall|a: StorageView, row: ServerWebsiteView| kept(a, #[trigger] a.add_server_website(row)) by {
        if a.wf() {
            if let Some(id) = a.next_server_website_id() {
                lemma_push_next_increasing(a.server_website_ids(), id);
                assert(
                    a.add_server_website(row).server_website_ids() =~= a.server_website_ids().push(id)
                );
            }
        }
    }
    assert forall|a: StorageView, id: i32, env: EnvironmentType|
        kept(a, #[trigger] a.mark_project_note(id, env)) by {
        assert(a.mark_project_note(id, env).project_note_ids() =~= a.project_note_ids());
    }
}

/// An import keeps the identifiers growing. Storage whose identifiers
/// grow in every table, so that none occurs twice, is still so after an
/// import, whether the import succeeds or stops at a failure.
pub proof fn import_keeps_identifiers_growing(st: StorageView, doc: ProjectImportExportView)
    requires
        st.wf(),
    ensures
        spec_do_import(st, doc).0.wf(),
{
    writes_keep_identifiers_growing();
    if !project_exists(st, doc.project_name) {
        if let Some(project_id) = st.next_project_id() {
            let s0 = st.add_project(project_row(doc));
            let (s1, r1) = spec_first_pass(s0, project_id, doc);
            first_pass_keeps(s0, project_id, doc, well_formed_kept());
            if let Ok(deferred) = r1 {
                let step = website_step();
                let kept = well_formed_kept();
                assert forall|a: StorageView, x: UnprocessedWebsiteView|
                    kept(a, (#[trigger] step(a, x)).0) by {
                    assert(step(a, x).0 == a.add_server_website(
                        website_row(x, website_database(a, x.website)),
                    ));
                }
                lemma_replay_keeps(s1, deferred, step, kept);
            }
        }
    }
}

} // verus!
