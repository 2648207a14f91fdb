//! A server with its items, exported and imported again: what the import
//! of a server writes to the tables of its items, what a document lists for
//! a server, and that the two agree.

use vstd::prelude::*;
use crate::document::{
    ServerExtraUserImportExportView, ServerGroupImportExportView, ServerNoteImportExportView,
    ServerPoiImportExportView, ServerWithItemsImportExportView,
};
use crate::export::{
    server_database_wanted, server_group_item, server_items_of, server_note_wanted,
    server_poi_wanted, server_user_wanted, server_website_wanted, server_with_items,
};
use crate::groups::{
    lemma_ascending_no_duplicates, lemma_server_group_names, server_database_labels,
    server_extra_user_labels, server_group_names, server_note_labels, server_poi_labels,
    server_website_labels,
};
use crate::guarantees::{kept_by_server_writes, server_keeps, websites_kept};
use crate::import::{
    database_step, deferred_group_websites, deferred_websites, server_group_step,
    server_note_step, server_poi_step, server_row, server_user_step, spec_import_server,
    spec_import_server_items, website_row, website_step,
};
use crate::replay::{
    lemma_replay_appends, lemma_replay_keeps, replay, same_table, UnprocessedWebsiteView,
};
use crate::rows::{
    ProjectView, ServerDatabaseView, ServerExtraUserAccountView, ServerNoteView,
    ServerPointOfInterestView, ServerView, ServerWebsiteView,
};
use crate::select::{
    filed_under, grew_by, lemma_filter_same, lemma_grew_twice, lemma_grown_rows,
    lemma_selected_by_all_groups, lemma_selected_by_groups_last, select, selected_by_groups,
};
use crate::storage::StorageView;
use crate::types::EnvironmentType;

verus! {

// ---------------------------------------------------------------------------
// The databases of a server
// ---------------------------------------------------------------------------
/// The table of databases.
pub open spec fn database_table() -> spec_fn(StorageView) -> Seq<ServerDatabaseView> {
    |st: StorageView| st.server_databases
}

/// A row of the databases without its identifier.
pub open spec fn database_unnumbered() -> spec_fn(ServerDatabaseView) -> ServerDatabaseView {
    |r: ServerDatabaseView| ServerDatabaseView { id: 0, ..r }
}

/// The row that an import writes for one of the databases of a document,
/// under the server and the group that it stands under there.
pub open spec fn database_row(
    server_id: i32,
    group_name: Option<Seq<char>>) -> spec_fn(ServerDatabaseView,
) -> ServerDatabaseView {
    |d: ServerDatabaseView|
        ServerDatabaseView { id: 0, group_name, server_id, ..d }
}

/// The rows that an import writes for the databases of the named groups
/// of a server, group after group.
pub open spec fn database_rows_of_groups(
    server_id: i32,
    groups: Seq<(Seq<char>, ServerGroupImportExportView)>,
) -> Seq<ServerDatabaseView>
    decreases groups.len(),
{
    if groups.len() == 0 {
        Seq::empty()
    } else {
        groups[0].1.server_databases.map_values(database_row(server_id, Some(groups[0].0)))
            + database_rows_of_groups(server_id, groups.skip(1))
    }
}

/// The test that the databases of a server pass.
pub open spec fn database_of(server_id: i32) -> spec_fn(ServerDatabaseView) -> bool {
    |r: ServerDatabaseView| r.server_id == server_id
}

/// The group under which a row of the databases is filed.
pub open spec fn database_group() -> spec_fn(ServerDatabaseView) -> Option<Seq<char>> {
    |r: ServerDatabaseView| r.group_name
}

/// A row of the databases as it comes back from an import under the
/// server `server_id`: with every field as it was, but for its identifier,
/// which storage assigns anew, and its server.
pub open spec fn database_moved_to(
    server_id: i32) -> spec_fn(ServerDatabaseView,
) -> ServerDatabaseView {
    |r: ServerDatabaseView| ServerDatabaseView { id: 0, server_id, ..r }
}

/// The import of the items of one group of a server writes the group's
/// databases to their table, in order, and no other row.
pub proof fn databases_of_group_are_written(
    st: StorageView,
    server_id: i32,
    group_name: Option<Seq<char>>,
    items: ServerGroupImportExportView,
)
    requires
        spec_import_server_items(st, server_id, group_name, items).1 is Ok,
    ensures
        grew_by(
            st.server_databases,
            spec_import_server_items(st, server_id, group_name, items).0.server_databases,
            items.server_databases.map_values(database_row(server_id, group_name)),
            database_unnumbered(),
        ),
{
    let table = database_table();
    let strip = database_unnumbered();
    let row_of = database_row(server_id, group_name);
    let kept = same_table(table);
    let step = database_step(server_id, group_name);
    assert forall|a: StorageView, x: ServerDatabaseView|
        (#[trigger] step(a, x)).1 is Ok implies grew_by(
        table(a),
        table(step(a, x).0),
        seq![row_of(x)],
        strip,
    ) by {
        assert(table(step(a, x).0) =~= table(a).push(step(a, x).0.server_databases.last()));
    }
    lemma_replay_appends(st, items.server_databases, step, table, row_of, strip);
    let s1 = replay(st, items.server_databases, database_step(server_id, group_name)).0;
    lemma_replay_keeps(s1, items.server_notes, server_note_step(server_id, group_name), kept);
    let s2 = replay(s1, items.server_notes, server_note_step(server_id, group_name)).0;
    lemma_replay_keeps(s2, items.server_pois, server_poi_step(server_id, group_name), kept);
    let s3 = replay(s2, items.server_pois, server_poi_step(server_id, group_name)).0;
    lemma_replay_keeps(s3, items.server_extra_users, server_user_step(server_id, group_name), kept);
}

/// The import of the named groups of a server writes their databases,
/// group after group.
pub proof fn databases_of_groups_are_written(
    st: StorageView,
    server_id: i32,
    groups: Seq<(Seq<char>, ServerGroupImportExportView)>,
)
    requires
        replay(st, groups, server_group_step(server_id)).1 is Ok,
    ensures
        grew_by(
            st.server_databases,
            replay(st, groups, server_group_step(server_id)).0.server_databases,
            database_rows_of_groups(server_id, groups),
            database_unnumbered(),
        ),
    decreases groups.len(),
{
    if groups.len() > 0 {
        let after = spec_import_server_items(st, server_id, Some(groups[0].0), groups[0].1).0;
        databases_of_group_are_written(st, server_id, Some(groups[0].0), groups[0].1);
        databases_of_groups_are_written(after, server_id, groups.skip(1));
        lemma_grew_twice(
            st.server_databases,
            after.server_databases,
            replay(st, groups, server_group_step(server_id)).0.server_databases,
            groups[0].1.server_databases.map_values(database_row(server_id, Some(groups[0].0))),
            database_rows_of_groups(server_id, groups.skip(1)),
            database_unnumbered(),
        );
    }
}

/// The import of a server writes its databases: the ungrouped ones, then
/// those of its groups, all under the identifier that the server was given.
pub proof fn databases_of_server_are_written(
    st: StorageView,
    project_id: i32,
    env: EnvironmentType,
    group_name: Option<Seq<char>>,
    server: ServerWithItemsImportExportView,
)
    requires
        spec_import_server(st, project_id, env, group_name, server).1 is Ok,
    ensures
        grew_by(
            st.server_databases,
            spec_import_server(st, project_id, env, group_name, server).0.server_databases,
            server.items.server_databases.map_values(database_row(st.next_server_id()->0, None))
                + database_rows_of_groups(st.next_server_id()->0, server.items_in_groups),
            database_unnumbered(),
        ),
{
    let server_id = st.next_server_id()->0;
    let s1 = st.add_server(server_row(project_id, env, group_name, server.server));
    let s2 = spec_import_server_items(s1, server_id, None, server.items).0;
    databases_of_group_are_written(s1, server_id, None, server.items);
    databases_of_groups_are_written(s2, server_id, server.items_in_groups);
    lemma_grew_twice(
        s1.server_databases,
        s2.server_databases,
        replay(s2, server.items_in_groups, server_group_step(server_id)).0.server_databases,
        server.items.server_databases.map_values(database_row(server_id, None)),
        database_rows_of_groups(server_id, server.items_in_groups),
        database_unnumbered(),
    );
}

/// The databases that a document lists under one group of a server are
/// the databases of the server that are filed under that group, in table
/// order.
pub proof fn exported_database_group(
    st: StorageView,
    project: ProjectView,
    server: ServerView,
    group_name: Option<Seq<char>>,
    server_id: i32,
)
    ensures
        server_items_of(st, project, server, group_name).server_databases.map_values(
            database_row(server_id, group_name),
        ) == select(
            st.server_databases,
            filed_under(database_of(server.id), database_group(), group_name),
            database_moved_to(server_id),
        ),
{
    let wanted = server_database_wanted(server.id, group_name);
    let filed = filed_under(database_of(server.id), database_group(), group_name);
    lemma_filter_same(st.server_databases, wanted, filed);
    let found = st.server_databases.filter(wanted);
    let listed = server_items_of(st, project, server, group_name).server_databases.map_values(
        database_row(server_id, group_name),
    );
    let target = select(st.server_databases, filed, database_moved_to(server_id));
    assert(listed.len() == target.len());
    assert forall|k: int| 0 <= k < listed.len() implies listed[k] == target[k] by {
        st.server_databases.lemma_filter_pred(wanted, k);
        assert(wanted(found[k]));
    }
    assert(listed =~= target);
}

/// The databases that a document lists under the named groups of a
/// server are the databases of the server taken group after group.
pub proof fn exported_database_groups(
    st: StorageView,
    project: ProjectView,
    server: ServerView,
    names: Seq<Seq<char>>,
    server_id: i32,
)
    ensures
        database_rows_of_groups(server_id, names.map_values(server_group_item(st, project, server)))
            == selected_by_groups(
            st.server_databases,
            database_of(server.id),
            database_group(),
            names,
            database_moved_to(server_id),
        ),
    decreases names.len(),
{
    let groups = names.map_values(server_group_item(st, project, server));
    if names.len() > 0 {
        assert(groups.skip(1) =~= names.skip(1).map_values(server_group_item(st, project, server)));
        exported_database_groups(st, project, server, names.skip(1), server_id);
        exported_database_group(st, project, server, Some(names[0]), server_id);
    }
}

/// The rows that an import writes for the databases of a server of a
/// document: the ungrouped ones, then those of its groups, all under the
/// identifier that the server is given.
pub open spec fn database_rows_of_server() -> spec_fn(i32, ServerWithItemsImportExportView) -> Seq<
    ServerDatabaseView,
> {
    |server_id: i32, server: ServerWithItemsImportExportView|
        server.items.server_databases.map_values(database_row(server_id, None)) + database_rows_of_groups(
            server_id,
            server.items_in_groups,
        )
}

/// The databases that a document lists for a server are, as a
/// collection, the databases of the server: each of them once, with every
/// field as storage holds it, group included, identifier and server aside.
pub proof fn exported_database_rows(
    source: StorageView,
    project: ProjectView,
    server: ServerView,
    server_id: i32,
)
    ensures
        database_rows_of_server()(server_id, server_with_items(source, project)(server)).to_multiset()
            == select(
            source.server_databases,
            database_of(server.id),
            database_moved_to(server_id),
        ).to_multiset(),
{
    let names = server_group_names(source, server.id);
    let owned = database_of(server.id);
    let group_of = database_group();
    let moved = database_moved_to(server_id);
    exported_database_group(source, project, server, None, server_id);
    exported_database_groups(source, project, server, names, server_id);
    lemma_server_group_names(source, server.id);
    lemma_ascending_no_duplicates(names);
    assert forall|i: int|
        0 <= i < source.server_databases.len() && owned(#[trigger] source.server_databases[i]) && group_of(
            source.server_databases[i],
        ) is Some implies names.contains(group_of(source.server_databases[i])->0) by {
        let r = source.server_databases[i];
        assert(server_database_labels(source)[i] == (server.id, r.group_name));
        assert(server_database_labels(source).contains((server.id, Some(r.group_name->0))));
    }
    lemma_selected_by_all_groups(source.server_databases, owned, group_of, names, moved);
}

/// The databases of a server survive export and import. Where a server
/// of `source` is exported with its items and the import of what was
/// exported into `dest` succeeds, `dest` keeps its databases as they were,
/// and those that it gains are, as a collection, the databases of the
/// server in `source`: each of them once, with every field as it was,
/// group included, but for its identifier, which `dest` assigns, and its
/// server, which is the server that the import wrote.
pub proof fn databases_survive_export_and_import(
    source: StorageView,
    project: ProjectView,
    server: ServerView,
    dest: StorageView,
    project_id: i32,
    env: EnvironmentType,
    group_name: Option<Seq<char>>,
)
    requires
        spec_import_server(
            dest,
            project_id,
            env,
            group_name,
            server_with_items(source, project)(server),
        ).1 is Ok,
    ensures
        ({
            let fin = spec_import_server(
                dest,
                project_id,
                env,
                group_name,
                server_with_items(source, project)(server),
            ).0;
            let n = dest.server_databases.len() as int;
            &&& fin.server_databases.take(n) == dest.server_databases
            &&& fin.server_databases.skip(n).map_values(database_unnumbered()).to_multiset() == select(
                source.server_databases,
                database_of(server.id),
                database_moved_to(dest.next_server_id()->0),
            ).to_multiset()
        }),
{
    let entry = server_with_items(source, project)(server);
    let fin = spec_import_server(dest, project_id, env, group_name, entry).0;
    let server_id = dest.next_server_id()->0;
    databases_of_server_are_written(dest, project_id, env, group_name, entry);
    lemma_grown_rows(
        dest.server_databases,
        fin.server_databases,
        database_rows_of_server()(server_id, entry),
        database_unnumbered(),
    );
    exported_database_rows(source, project, server, server_id);
}

// ---------------------------------------------------------------------------
// The notes of a server
// ---------------------------------------------------------------------------
/// The table of notes.
pub open spec fn server_note_table() -> spec_fn(StorageView) -> Seq<ServerNoteView> {
    |st: StorageView| st.server_notes
}

/// A row of the notes without its identifier.
pub open spec fn server_note_unnumbered() -> spec_fn(ServerNoteView) -> ServerNoteView {
    |r: ServerNoteView| ServerNoteView { id: 0, ..r }
}

/// The row that an import writes for one of the notes of a document,
/// under the server and the group that it stands under there.
pub open spec fn server_note_row(
    server_id: i32,
    group_name: Option<Seq<char>>) -> spec_fn(ServerNoteImportExportView,
) -> ServerNoteView {
    |d: ServerNoteImportExportView|
        ServerNoteView { id: 0, title: d.title, group_name, contents: d.contents, server_id }
}

/// The rows that an import writes for the notes of the named groups
/// of a server, group after group.
pub open spec fn server_note_rows_of_groups(
    server_id: i32,
    groups: Seq<(Seq<char>, ServerGroupImportExportView)>,
) -> Seq<ServerNoteView>
    decreases groups.len(),
{
    if groups.len() == 0 {
        Seq::empty()
    } else {
        groups[0].1.server_notes.map_values(server_note_row(server_id, Some(groups[0].0)))
            + server_note_rows_of_groups(server_id, groups.skip(1))
    }
}

/// The test that the notes of a server pass.
pub open spec fn server_note_of(server_id: i32) -> spec_fn(ServerNoteView) -> bool {
    |r: ServerNoteView| r.server_id == server_id
}

/// The group under which a row of the notes is filed.
pub open spec fn server_note_group() -> spec_fn(ServerNoteView) -> Option<Seq<char>> {
    |r: ServerNoteView| r.group_name
}

/// A row of the notes as it comes back from an import under the
/// server `server_id`: with every field as it was, but for its identifier,
/// which storage assigns anew, and its server.
pub open spec fn server_note_moved_to(server_id: i32) -> spec_fn(ServerNoteView) -> ServerNoteView {
    |r: ServerNoteView| ServerNoteView { id: 0, server_id, ..r }
}

/// The import of the items of one group of a server writes the group's
/// notes to their table, in order, and no other row.
pub proof fn server_notes_of_group_are_written(
    st: StorageView,
    server_id: i32,
    group_name: Option<Seq<char>>,
    items: ServerGroupImportExportView,
)
    requires
        spec_import_server_items(st, server_id, group_name, items).1 is Ok,
    ensures
        grew_by(
            st.server_notes,
            spec_import_server_items(st, server_id, group_name, items).0.server_notes,
            items.server_notes.map_values(server_note_row(server_id, group_name)),
            server_note_unnumbered(),
        ),
{
    let table = server_note_table();
    let strip = server_note_unnumbered();
    let row_of = server_note_row(server_id, group_name);
    let kept = same_table(table);
    lemma_replay_keeps(st, items.server_databases, database_step(server_id, group_name), kept);
    let s1 = replay(st, items.server_databases, database_step(server_id, group_name)).0;
    let step = server_note_step(server_id, group_name);
    assert forall|a: StorageView, x: ServerNoteImportExportView|
        (#[trigger] step(a, x)).1 is Ok implies grew_by(
        table(a),
        table(step(a, x).0),
        seq![row_of(x)],
        strip,
    ) by {
        assert(table(step(a, x).0) =~= table(a).push(step(a, x).0.server_notes.last()));
    }
    lemma_replay_appends(s1, items.server_notes, step, table, row_of, strip);
    let s2 = replay(s1, items.server_notes, server_note_step(server_id, group_name)).0;
    lemma_replay_keeps(s2, items.server_pois, server_poi_step(server_id, group_name), kept);
    let s3 = replay(s2, items.server_pois, server_poi_step(server_id, group_name)).0;
    lemma_replay_keeps(s3, items.server_extra_users, server_user_step(server_id, group_name), kept);
}

/// The import of the named groups of a server writes their notes,
/// group after group.
pub proof fn server_notes_of_groups_are_written(
    st: StorageView,
    server_id: i32,
    groups: Seq<(Seq<char>, ServerGroupImportExportView)>,
)
    requires
        replay(st, groups, server_group_step(server_id)).1 is Ok,
    ensures
        grew_by(
            st.server_notes,
            replay(st, groups, server_group_step(server_id)).0.server_notes,
            server_note_rows_of_groups(server_id, groups),
            server_note_unnumbered(),
        ),
    decreases groups.len(),
{
    if groups.len() > 0 {
        let after = spec_import_server_items(st, server_id, Some(groups[0].0), groups[0].1).0;
        server_notes_of_group_are_written(st, server_id, Some(groups[0].0), groups[0].1);
        server_notes_of_groups_are_written(after, server_id, groups.skip(1));
        lemma_grew_twice(
            st.server_notes,
            after.server_notes,
            replay(st, groups, server_group_step(server_id)).0.server_notes,
            groups[0].1.server_notes.map_values(server_note_row(server_id, Some(groups[0].0))),
            server_note_rows_of_groups(server_id, groups.skip(1)),
            server_note_unnumbered(),
        );
    }
}

/// The import of a server writes its notes: the ungrouped ones, then
/// those of its groups, all under the identifier that the server was given.
pub proof fn server_notes_of_server_are_written(
    st: StorageView,
    project_id: i32,
    env: EnvironmentType,
    group_name: Option<Seq<char>>,
    server: ServerWithItemsImportExportView,
)
    requires
        spec_import_server(st, project_id, env, group_name, server).1 is Ok,
    ensures
        grew_by(
            st.server_notes,
            spec_import_server(st, project_id, env, group_name, server).0.server_notes,
            server.items.server_notes.map_values(server_note_row(st.next_server_id()->0, None))
                + server_note_rows_of_groups(st.next_server_id()->0, server.items_in_groups),
            server_note_unnumbered(),
        ),
{
    let server_id = st.next_server_id()->0;
    let s1 = st.add_server(server_row(project_id, env, group_name, server.server));
    let s2 = spec_import_server_items(s1, server_id, None, server.items).0;
    server_notes_of_group_are_written(s1, server_id, None, server.items);
    server_notes_of_groups_are_written(s2, server_id, server.items_in_groups);
    lemma_grew_twice(
        s1.server_notes,
        s2.server_notes,
        replay(s2, server.items_in_groups, server_group_step(server_id)).0.server_notes,
        server.items.server_notes.map_values(server_note_row(server_id, None)),
        server_note_rows_of_groups(server_id, server.items_in_groups),
        server_note_unnumbered(),
    );
}

/// The notes that a document lists under one group of a server are
/// the notes of the server that are filed under that group, in table
/// order.
pub proof fn exported_server_note_group(
    st: StorageView,
    project: ProjectView,
    server: ServerView,
    group_name: Option<Seq<char>>,
    server_id: i32,
)
    ensures
        server_items_of(st, project, server, group_name).server_notes.map_values(
            server_note_row(server_id, group_name),
        ) == select(
            st.server_notes,
            filed_under(server_note_of(server.id), server_note_group(), group_name),
            server_note_moved_to(server_id),
        ),
{
    let wanted = server_note_wanted(server.id, group_name);
    let filed = filed_under(server_note_of(server.id), server_note_group(), group_name);
    lemma_filter_same(st.server_notes, wanted, filed);
    let found = st.server_notes.filter(wanted);
    let listed = server_items_of(st, project, server, group_name).server_notes.map_values(
        server_note_row(server_id, group_name),
    );
    let target = select(st.server_notes, filed, server_note_moved_to(server_id));
    assert(listed.len() == target.len());
    assert forall|k: int| 0 <= k < listed.len() implies listed[k] == target[k] by {
        st.server_notes.lemma_filter_pred(wanted, k);
        assert(wanted(found[k]));
    }
    assert(listed =~= target);
}

/// The notes that a document lists under the named groups of a
/// server are the notes of the server taken group after group.
pub proof fn exported_server_note_groups(
    st: StorageView,
    project: ProjectView,
    server: ServerView,
    names: Seq<Seq<char>>,
    server_id: i32,
)
    ensures
        server_note_rows_of_groups(
            server_id,
            names.map_values(server_group_item(st, project, server)),
        )
            == selected_by_groups(
            st.server_notes,
            server_note_of(server.id),
            server_note_group(),
            names,
            server_note_moved_to(server_id),
        ),
    decreases names.len(),
{
    let groups = names.map_values(server_group_item(st, project, server));
    if names.len() > 0 {
        assert(groups.skip(1) =~= names.skip(1).map_values(server_group_item(st, project, server)));
        exported_server_note_groups(st, project, server, names.skip(1), server_id);
        exported_server_note_group(st, project, server, Some(names[0]), server_id);
    }
}

/// The rows that an import writes for the notes of a server of a
/// document: the ungrouped ones, then those of its groups, all under the
/// identifier that the server is given.
pub open spec fn server_note_rows_of_server() -> spec_fn(i32, ServerWithItemsImportExportView) -> Seq<
    ServerNoteView,
> {
    |server_id: i32, server: ServerWithItemsImportExportView|
        server.items.server_notes.map_values(server_note_row(server_id, None)) + server_note_rows_of_groups(
            server_id,
            server.items_in_groups,
        )
}

/// The notes that a document lists for a server are, as a
/// collection, the notes of the server: each of them once, with every
/// field as storage holds it, group included, identifier and server aside.
pub proof fn exported_server_note_rows(
    source: StorageView,
    project: ProjectView,
    server: ServerView,
    server_id: i32,
)
    ensures
        server_note_rows_of_server()(server_id, server_with_items(source, project)(server)).to_multiset()
            == select(
            source.server_notes,
            server_note_of(server.id),
            server_note_moved_to(server_id),
        ).to_multiset(),
{
    let names = server_group_names(source, server.id);
    let owned = server_note_of(server.id);
    let group_of = server_note_group();
    let moved = server_note_moved_to(server_id);
    exported_server_note_group(source, project, server, None, server_id);
    exported_server_note_groups(source, project, server, names, server_id);
    lemma_server_group_names(source, server.id);
    lemma_ascending_no_duplicates(names);
    assert forall|i: int|
        0 <= i < source.server_notes.len() && owned(#[trigger] source.server_notes[i]) && group_of(
            source.server_notes[i],
        ) is Some implies names.contains(group_of(source.server_notes[i])->0) by {
        let r = source.server_notes[i];
        assert(server_note_labels(source)[i] == (server.id, r.group_name));
        assert(server_note_labels(source).contains((server.id, Some(r.group_name->0))));
    }
    lemma_selected_by_all_groups(source.server_notes, owned, group_of, names, moved);
}

/// The notes of a server survive export and import. Where a server
/// of `source` is exported with its items and the import of what was
/// exported into `dest` succeeds, `dest` keeps its notes as they were,
/// and those that it gains are, as a collection, the notes of the
/// server in `source`: each of them once, with every field as it was,
/// group included, but for its identifier, which `dest` assigns, and its
/// server, which is the server that the import wrote.
pub proof fn server_notes_survive_export_and_import(
    source: StorageView,
    project: ProjectView,
    server: ServerView,
    dest: StorageView,
    project_id: i32,
    env: EnvironmentType,
    group_name: Option<Seq<char>>,
)
    requires
        spec_import_server(
            dest,
            project_id,
            env,
            group_name,
            server_with_items(source, project)(server),
        ).1 is Ok,
    ensures
        ({
            let fin = spec_import_server(
                dest,
                project_id,
                env,
                group_name,
                server_with_items(source, project)(server),
            ).0;
            let n = dest.server_notes.len() as int;
            &&& fin.server_notes.take(n) == dest.server_notes
            &&& fin.server_notes.skip(n).map_values(server_note_unnumbered()).to_multiset() == select(
                source.server_notes,
                server_note_of(server.id),
                server_note_moved_to(dest.next_server_id()->0),
            ).to_multiset()
        }),
{
    let entry = server_with_items(source, project)(server);
    let fin = spec_import_server(dest, project_id, env, group_name, entry).0;
    let server_id = dest.next_server_id()->0;
    server_notes_of_server_are_written(dest, project_id, env, group_name, entry);
    lemma_grown_rows(
        dest.server_notes,
        fin.server_notes,
        server_note_rows_of_server()(server_id, entry),
        server_note_unnumbered(),
    );
    exported_server_note_rows(source, project, server, server_id);
}

// ---------------------------------------------------------------------------
// The points of interest of a server
// ---------------------------------------------------------------------------
/// The table of points of interest.
pub open spec fn server_poi_table() -> spec_fn(StorageView) -> Seq<ServerPointOfInterestView> {
    |st: StorageView| st.server_pois
}

/// A row of the points of interest without its identifier.
pub open spec fn server_poi_unnumbered(
    ) -> spec_fn(ServerPointOfInterestView,
) -> ServerPointOfInterestView {
    |r: ServerPointOfInterestView| ServerPointOfInterestView { id: 0, ..r }
}

/// The row that an import writes for one of the points of interest of a document,
/// under the server and the group that it stands under there.
pub open spec fn server_poi_row(
    server_id: i32,
    group_name: Option<Seq<char>>) -> spec_fn(ServerPoiImportExportView,
) -> ServerPointOfInterestView {
    |d: ServerPoiImportExportView|
        ServerPointOfInterestView {
            id: 0,
            desc: d.desc,
            path: d.path,
            text: d.text,
            interest_type: d.interest_type,
            run_on: d.run_on,
            group_name,
            server_id,
        }
}

/// The rows that an import writes for the points of interest of the named groups
/// of a server, group after group.
pub open spec fn server_poi_rows_of_groups(
    server_id: i32,
    groups: Seq<(Seq<char>, ServerGroupImportExportView)>,
) -> Seq<ServerPointOfInterestView>
    decreases groups.len(),
{
    if groups.len() == 0 {
        Seq::empty()
    } else {
        groups[0].1.server_pois.map_values(server_poi_row(server_id, Some(groups[0].0)))
            + server_poi_rows_of_groups(server_id, groups.skip(1))
    }
}

/// The test that the points of interest of a server pass.
pub open spec fn server_poi_of(server_id: i32) -> spec_fn(ServerPointOfInterestView) -> bool {
    |r: ServerPointOfInterestView| r.server_id == server_id
}

/// The group under which a row of the points of interest is filed.
pub open spec fn server_poi_group() -> spec_fn(ServerPointOfInterestView) -> Option<Seq<char>> {
    |r: ServerPointOfInterestView| r.group_name
}

/// A row of the points of interest as it comes back from an import under the
/// server `server_id`: with every field as it was, but for its identifier,
/// which storage assigns anew, and its server.
pub open spec fn server_poi_moved_to(
    server_id: i32) -> spec_fn(ServerPointOfInterestView,
) -> ServerPointOfInterestView {
    |r: ServerPointOfInterestView| ServerPointOfInterestView { id: 0, server_id, ..r }
}

/// The import of the items of one group of a server writes the group's
/// points of interest to their table, in order, and no other row.
pub proof fn server_pois_of_group_are_written(
    st: StorageView,
    server_id: i32,
    group_name: Option<Seq<char>>,
    items: ServerGroupImportExportView,
)
    requires
        spec_import_server_items(st, server_id, group_name, items).1 is Ok,
    ensures
        grew_by(
            st.server_pois,
            spec_import_server_items(st, server_id, group_name, items).0.server_pois,
            items.server_pois.map_values(server_poi_row(server_id, group_name)),
            server_poi_unnumbered(),
        ),
{
    let table = server_poi_table();
    let strip = server_poi_unnumbered();
    let row_of = server_poi_row(server_id, group_name);
    let kept = same_table(table);
    lemma_replay_keeps(st, items.server_databases, database_step(server_id, group_name), kept);
    let s1 = replay(st, items.server_databases, database_step(server_id, group_name)).0;
    lemma_replay_keeps(s1, items.server_notes, server_note_step(server_id, group_name), kept);
    let s2 = replay(s1, items.server_notes, server_note_step(server_id, group_name)).0;
    let step = server_poi_step(server_id, group_name);
    assert forall|a: StorageView, x: ServerPoiImportExportView|
        (#[trigger] step(a, x)).1 is Ok implies grew_by(
        table(a),
        table(step(a, x).0),
        seq![row_of(x)],
        strip,
    ) by {
        assert(table(step(a, x).0) =~= table(a).push(step(a, x).0.server_pois.last()));
    }
    lemma_replay_appends(s2, items.server_pois, step, table, row_of, strip);
    let s3 = replay(s2, items.server_pois, server_poi_step(server_id, group_name)).0;
    lemma_replay_keeps(s3, items.server_extra_users, server_user_step(server_id, group_name), kept);
}

/// The import of the named groups of a server writes their points of interest,
/// group after group.
pub proof fn server_pois_of_groups_are_written(
    st: StorageView,
    server_id: i32,
    groups: Seq<(Seq<char>, ServerGroupImportExportView)>,
)
    requires
        replay(st, groups, server_group_step(server_id)).1 is Ok,
    ensures
        grew_by(
            st.server_pois,
            replay(st, groups, server_group_step(server_id)).0.server_pois,
            server_poi_rows_of_groups(server_id, groups),
            server_poi_unnumbered(),
        ),
    decreases groups.len(),
{
    if groups.len() > 0 {
        let after = spec_import_server_items(st, server_id, Some(groups[0].0), groups[0].1).0;
        server_pois_of_group_are_written(st, server_id, Some(groups[0].0), groups[0].1);
        server_pois_of_groups_are_written(after, server_id, groups.skip(1));
        lemma_grew_twice(
            st.server_pois,
            after.server_pois,
            replay(st, groups, server_group_step(server_id)).0.server_pois,
            groups[0].1.server_pois.map_values(server_poi_row(server_id, Some(groups[0].0))),
            server_poi_rows_of_groups(server_id, groups.skip(1)),
            server_poi_unnumbered(),
        );
    }
}

/// The import of a server writes its points of interest: the ungrouped ones, then
/// those of its groups, all under the identifier that the server was given.
pub proof fn server_pois_of_server_are_written(
    st: StorageView,
    project_id: i32,
    env: EnvironmentType,
    group_name: Option<Seq<char>>,
    server: ServerWithItemsImportExportView,
)
    requires
        spec_import_server(st, project_id, env, group_name, server).1 is Ok,
    ensures
        grew_by(
            st.server_pois,
            spec_import_server(st, project_id, env, group_name, server).0.server_pois,
            server.items.server_pois.map_values(server_poi_row(st.next_server_id()->0, None))
                + server_poi_rows_of_groups(st.next_server_id()->0, server.items_in_groups),
            server_poi_unnumbered(),
        ),
{
    let server_id = st.next_server_id()->0;
    let s1 = st.add_server(server_row(project_id, env, group_name, server.server));
    let s2 = spec_import_server_items(s1, server_id, None, server.items).0;
    server_pois_of_group_are_written(s1, server_id, None, server.items);
    server_pois_of_groups_are_written(s2, server_id, server.items_in_groups);
    lemma_grew_twice(
        s1.server_pois,
        s2.server_pois,
        replay(s2, server.items_in_groups, server_group_step(server_id)).0.server_pois,
        server.items.server_pois.map_values(server_poi_row(server_id, None)),
        server_poi_rows_of_groups(server_id, server.items_in_groups),
        server_poi_unnumbered(),
    );
}

/// The points of interest that a document lists under one group of a server are
/// the points of interest of the server that are filed under that group, in table
/// order.
pub proof fn exported_server_poi_group(
    st: StorageView,
    project: ProjectView,
    server: ServerView,
    group_name: Option<Seq<char>>,
    server_id: i32,
)
    ensures
        server_items_of(st, project, server, group_name).server_pois.map_values(
            server_poi_row(server_id, group_name),
        ) == select(
            st.server_pois,
            filed_under(server_poi_of(server.id), server_poi_group(), group_name),
            server_poi_moved_to(server_id),
        ),
{
    let wanted = server_poi_wanted(server.id, group_name);
    let filed = filed_under(server_poi_of(server.id), server_poi_group(), group_name);
    lemma_filter_same(st.server_pois, wanted, filed);
    let found = st.server_pois.filter(wanted);
    let listed = server_items_of(st, project, server, group_name).server_pois.map_values(
        server_poi_row(server_id, group_name),
    );
    let target = select(st.server_pois, filed, server_poi_moved_to(server_id));
    assert(listed.len() == target.len());
    assert forall|k: int| 0 <= k < listed.len() implies listed[k] == target[k] by {
        st.server_pois.lemma_filter_pred(wanted, k);
        assert(wanted(found[k]));
    }
    assert(listed =~= target);
}

/// The points of interest that a document lists under the named groups of a
/// server are the points of interest of the server taken group after group.
pub proof fn exported_server_poi_groups(
    st: StorageView,
    project: ProjectView,
    server: ServerView,
    names: Seq<Seq<char>>,
    server_id: i32,
)
    ensures
        server_poi_rows_of_groups(
            server_id,
            names.map_values(server_group_item(st, project, server)),
        )
            == selected_by_groups(
            st.server_pois,
            server_poi_of(server.id),
            server_poi_group(),
            names,
            server_poi_moved_to(server_id),
        ),
    decreases names.len(),
{
    let groups = names.map_values(server_group_item(st, project, server));
    if names.len() > 0 {
        assert(groups.skip(1) =~= names.skip(1).map_values(server_group_item(st, project, server)));
        exported_server_poi_groups(st, project, server, names.skip(1), server_id);
        exported_server_poi_group(st, project, server, Some(names[0]), server_id);
    }
}

/// The rows that an import writes for the points of interest of a server of a
/// document: the ungrouped ones, then those of its groups, all under the
/// identifier that the server is given.
pub open spec fn server_poi_rows_of_server() -> spec_fn(i32, ServerWithItemsImportExportView) -> Seq<
    ServerPointOfInterestView,
> {
    |server_id: i32, server: ServerWithItemsImportExportView|
        server.items.server_pois.map_values(server_poi_row(server_id, None)) + server_poi_rows_of_groups(
            server_id,
            server.items_in_groups,
        )
}

/// The points of interest that a document lists for a server are, as a
/// collection, the points of interest of the server: each of them once, with every
/// field as storage holds it, group included, identifier and server aside.
pub proof fn exported_server_poi_rows(
    source: StorageView,
    project: ProjectView,
    server: ServerView,
    server_id: i32,
)
    ensures
        server_poi_rows_of_server()(server_id, server_with_items(source, project)(server)).to_multiset()
            == select(
            source.server_pois,
            server_poi_of(server.id),
            server_poi_moved_to(server_id),
        ).to_multiset(),
{
    let names = server_group_names(source, server.id);
    let owned = server_poi_of(server.id);
    let group_of = server_poi_group();
    let moved = server_poi_moved_to(server_id);
    exported_server_poi_group(source, project, server, None, server_id);
    exported_server_poi_groups(source, project, server, names, server_id);
    lemma_server_group_names(source, server.id);
    lemma_ascending_no_duplicates(names);
    assert forall|i: int|
        0 <= i < source.server_pois.len() && owned(#[trigger] source.server_pois[i]) && group_of(
            source.server_pois[i],
        ) is Some implies names.contains(group_of(source.server_pois[i])->0) by {
        let r = source.server_pois[i];
        assert(server_poi_labels(source)[i] == (server.id, r.group_name));
        assert(server_poi_labels(source).contains((server.id, Some(r.group_name->0))));
    }
    lemma_selected_by_all_groups(source.server_pois, owned, group_of, names, moved);
}

/// The points of interest of a server survive export and import. Where a server
/// of `source` is exported with its items and the import of what was
/// exported into `dest` succeeds, `dest` keeps its points of interest as they were,
/// and those that it gains are, as a collection, the points of interest of the
/// server in `source`: each of them once, with every field as it was,
/// group included, but for its identifier, which `dest` assigns, and its
/// server, which is the server that the import wrote.
pub proof fn server_pois_survive_export_and_import(
    source: StorageView,
    project: ProjectView,
    server: ServerView,
    dest: StorageView,
    project_id: i32,
    env: EnvironmentType,
    group_name: Option<Seq<char>>,
)
    requires
        spec_import_server(
            dest,
            project_id,
            env,
            group_name,
            server_with_items(source, project)(server),
        ).1 is Ok,
    ensures
        ({
            let fin = spec_import_server(
                dest,
                project_id,
                env,
                group_name,
                server_with_items(source, project)(server),
            ).0;
            let n = dest.server_pois.len() as int;
            &&& fin.server_pois.take(n) == dest.server_pois
            &&& fin.server_pois.skip(n).map_values(server_poi_unnumbered()).to_multiset() == select(
                source.server_pois,
                server_poi_of(server.id),
                server_poi_moved_to(dest.next_server_id()->0),
            ).to_multiset()
        }),
{
    let entry = server_with_items(source, project)(server);
    let fin = spec_import_server(dest, project_id, env, group_name, entry).0;
    let server_id = dest.next_server_id()->0;
    server_pois_of_server_are_written(dest, project_id, env, group_name, entry);
    lemma_grown_rows(
        dest.server_pois,
        fin.server_pois,
        server_poi_rows_of_server()(server_id, entry),
        server_poi_unnumbered(),
    );
    exported_server_poi_rows(source, project, server, server_id);
}

// ---------------------------------------------------------------------------
// The extra user accounts of a server
// ---------------------------------------------------------------------------
/// The table of extra user accounts.
pub open spec fn extra_user_table() -> spec_fn(StorageView) -> Seq<ServerExtraUserAccountView> {
    |st: StorageView| st.server_extra_users
}

/// A row of the extra user accounts without its identifier.
pub open spec fn extra_user_unnumbered(
    ) -> spec_fn(ServerExtraUserAccountView,
) -> ServerExtraUserAccountView {
    |r: ServerExtraUserAccountView| ServerExtraUserAccountView { id: 0, ..r }
}

/// The row that an import writes for one of the extra user accounts of a document,
/// under the server and the group that it stands under there.
pub open spec fn extra_user_row(
    server_id: i32,
    group_name: Option<Seq<char>>) -> spec_fn(ServerExtraUserImportExportView,
) -> ServerExtraUserAccountView {
    |d: ServerExtraUserImportExportView|
        ServerExtraUserAccountView {
            id: 0,
            desc: d.desc,
            group_name,
            username: d.username,
            password: d.password,
            auth_key: d.auth_key,
            auth_key_filename: d.auth_key_filename,
            server_id,
        }
}

/// The rows that an import writes for the extra user accounts of the named groups
/// of a server, group after group.
pub open spec fn extra_user_rows_of_groups(
    server_id: i32,
    groups: Seq<(Seq<char>, ServerGroupImportExportView)>,
) -> Seq<ServerExtraUserAccountView>
    decreases groups.len(),
{
    if groups.len() == 0 {
        Seq::empty()
    } else {
        groups[0].1.server_extra_users.map_values(extra_user_row(server_id, Some(groups[0].0)))
            + extra_user_rows_of_groups(server_id, groups.skip(1))
    }
}

/// The test that the extra user accounts of a server pass.
pub open spec fn extra_user_of(server_id: i32) -> spec_fn(ServerExtraUserAccountView) -> bool {
    |r: ServerExtraUserAccountView| r.server_id == server_id
}

/// The group under which a row of the extra user accounts is filed.
pub open spec fn extra_user_group() -> spec_fn(ServerExtraUserAccountView) -> Option<Seq<char>> {
    |r: ServerExtraUserAccountView| r.group_name
}

/// A row of the extra user accounts as it comes back from an import under the
/// server `server_id`: with every field as it was, but for its identifier,
/// which storage assigns anew, and its server.
pub open spec fn extra_user_moved_to(
    server_id: i32) -> spec_fn(ServerExtraUserAccountView,
) -> ServerExtraUserAccountView {
    |r: ServerExtraUserAccountView| ServerExtraUserAccountView { id: 0, server_id, ..r }
}

/// The import of the items of one group of a server writes the group's
/// extra user accounts to their table, in order, and no other row.
pub proof fn extra_users_of_group_are_written(
    st: StorageView,
    server_id: i32,
    group_name: Option<Seq<char>>,
    items: ServerGroupImportExportView,
)
    requires
        spec_import_server_items(st, server_id, group_name, items).1 is Ok,
    ensures
        grew_by(
            st.server_extra_users,
            spec_import_server_items(st, server_id, group_name, items).0.server_extra_users,
            items.server_extra_users.map_values(extra_user_row(server_id, group_name)),
            extra_user_unnumbered(),
        ),
{
    let table = extra_user_table();
    let strip = extra_user_unnumbered();
    let row_of = extra_user_row(server_id, group_name);
    let kept = same_table(table);
    lemma_replay_keeps(st, items.server_databases, database_step(server_id, group_name), kept);
    let s1 = replay(st, items.server_databases, database_step(server_id, group_name)).0;
    lemma_replay_keeps(s1, items.server_notes, server_note_step(server_id, group_name), kept);
    let s2 = replay(s1, items.server_notes, server_note_step(server_id, group_name)).0;
    lemma_replay_keeps(s2, items.server_pois, server_poi_step(server_id, group_name), kept);
    let s3 = replay(s2, items.server_pois, server_poi_step(server_id, group_name)).0;
    let step = server_user_step(server_id, group_name);
    assert forall|a: StorageView, x: ServerExtraUserImportExportView|
        (#[trigger] step(a, x)).1 is Ok implies grew_by(
        table(a),
        table(step(a, x).0),
        seq![row_of(x)],
        strip,
    ) by {
        assert(table(step(a, x).0) =~= table(a).push(step(a, x).0.server_extra_users.last()));
    }
    lemma_replay_appends(s3, items.server_extra_users, step, table, row_of, strip);
}

/// The import of the named groups of a server writes their extra user accounts,
/// group after group.
pub proof fn extra_users_of_groups_are_written(
    st: StorageView,
    server_id: i32,
    groups: Seq<(Seq<char>, ServerGroupImportExportView)>,
)
    requires
        replay(st, groups, server_group_step(server_id)).1 is Ok,
    ensures
        grew_by(
            st.server_extra_users,
            replay(st, groups, server_group_step(server_id)).0.server_extra_users,
            extra_user_rows_of_groups(server_id, groups),
            extra_user_unnumbered(),
        ),
    decreases groups.len(),
{
    if groups.len() > 0 {
        let after = spec_import_server_items(st, server_id, Some(groups[0].0), groups[0].1).0;
        extra_users_of_group_are_written(st, server_id, Some(groups[0].0), groups[0].1);
        extra_users_of_groups_are_written(after, server_id, groups.skip(1));
        lemma_grew_twice(
            st.server_extra_users,
            after.server_extra_users,
            replay(st, groups, server_group_step(server_id)).0.server_extra_users,
            groups[0].1.server_extra_users.map_values(extra_user_row(server_id, Some(groups[0].0))),
            extra_user_rows_of_groups(server_id, groups.skip(1)),
            extra_user_unnumbered(),
        );
    }
}

/// The import of a server writes its extra user accounts: the ungrouped ones, then
/// those of its groups, all under the identifier that the server was given.
pub proof fn extra_users_of_server_are_written(
    st: StorageView,
    project_id: i32,
    env: EnvironmentType,
    group_name: Option<Seq<char>>,
    server: ServerWithItemsImportExportView,
)
    requires
        spec_import_server(st, project_id, env, group_name, server).1 is Ok,
    ensures
        grew_by(
            st.server_extra_users,
            spec_import_server(st, project_id, env, group_name, server).0.server_extra_users,
            server.items.server_extra_users.map_values(extra_user_row(st.next_server_id()->0, None))
                + extra_user_rows_of_groups(st.next_server_id()->0, server.items_in_groups),
            extra_user_unnumbered(),
        ),
{
    let server_id = st.next_server_id()->0;
    let s1 = st.add_server(server_row(project_id, env, group_name, server.server));
    let s2 = spec_import_server_items(s1, server_id, None, server.items).0;
    extra_users_of_group_are_written(s1, server_id, None, server.items);
    extra_users_of_groups_are_written(s2, server_id, server.items_in_groups);
    lemma_grew_twice(
        s1.server_extra_users,
        s2.server_extra_users,
        replay(s2, server.items_in_groups, server_group_step(server_id)).0.server_extra_users,
        server.items.server_extra_users.map_values(extra_user_row(server_id, None)),
        extra_user_rows_of_groups(server_id, server.items_in_groups),
        extra_user_unnumbered(),
    );
}

/// The extra user accounts that a document lists under one group of a server are
/// the extra user accounts of the server that are filed under that group, in table
/// order.
pub proof fn exported_extra_user_group(
    st: StorageView,
    project: ProjectView,
    server: ServerView,
    group_name: Option<Seq<char>>,
    server_id: i32,
)
    ensures
        server_items_of(st, project, server, group_name).server_extra_users.map_values(
            extra_user_row(server_id, group_name),
        ) == select(
            st.server_extra_users,
            filed_under(extra_user_of(server.id), extra_user_group(), group_name),
            extra_user_moved_to(server_id),
        ),
{
    let wanted = server_user_wanted(server.id, group_name);
    let filed = filed_under(extra_user_of(server.id), extra_user_group(), group_name);
    lemma_filter_same(st.server_extra_users, wanted, filed);
    let found = st.server_extra_users.filter(wanted);
    let listed = server_items_of(st, project, server, group_name).server_extra_users.map_values(
        extra_user_row(server_id, group_name),
    );
    let target = select(st.server_extra_users, filed, extra_user_moved_to(server_id));
    assert(listed.len() == target.len());
    assert forall|k: int| 0 <= k < listed.len() implies listed[k] == target[k] by {
        st.server_extra_users.lemma_filter_pred(wanted, k);
        assert(wanted(found[k]));
    }
    assert(listed =~= target);
}

/// The extra user accounts that a document lists under the named groups of a
/// server are the extra user accounts of the server taken group after group.
pub proof fn exported_extra_user_groups(
    st: StorageView,
    project: ProjectView,
    server: ServerView,
    names: Seq<Seq<char>>,
    server_id: i32,
)
    ensures
        extra_user_rows_of_groups(
            server_id,
            names.map_values(server_group_item(st, project, server)),
        )
            == selected_by_groups(
            st.server_extra_users,
            extra_user_of(server.id),
            extra_user_group(),
            names,
            extra_user_moved_to(server_id),
        ),
    decreases names.len(),
{
    let groups = names.map_values(server_group_item(st, project, server));
    if names.len() > 0 {
        assert(groups.skip(1) =~= names.skip(1).map_values(server_group_item(st, project, server)));
        exported_extra_user_groups(st, project, server, names.skip(1), server_id);
        exported_extra_user_group(st, project, server, Some(names[0]), server_id);
    }
}

/// The rows that an import writes for the extra user accounts of a server of a
/// document: the ungrouped ones, then those of its groups, all under the
/// identifier that the server is given.
pub open spec fn extra_user_rows_of_server() -> spec_fn(i32, ServerWithItemsImportExportView) -> Seq<
    ServerExtraUserAccountView,
> {
    |server_id: i32, server: ServerWithItemsImportExportView|
        server.items.server_extra_users.map_values(extra_user_row(server_id, None)) + extra_user_rows_of_groups(
            server_id,
            server.items_in_groups,
        )
}

/// The extra user accounts that a document lists for a server are, as a
/// collection, the extra user accounts of the server: each of them once, with every
/// field as storage holds it, group included, identifier and server aside.
pub proof fn exported_extra_user_rows(
    source: StorageView,
    project: ProjectView,
    server: ServerView,
    server_id: i32,
)
    ensures
        extra_user_rows_of_server()(server_id, server_with_items(source, project)(server)).to_multiset()
            == select(
            source.server_extra_users,
            extra_user_of(server.id),
            extra_user_moved_to(server_id),
        ).to_multiset(),
{
    let names = server_group_names(source, server.id);
    let owned = extra_user_of(server.id);
    let group_of = extra_user_group();
    let moved = extra_user_moved_to(server_id);
    exported_extra_user_group(source, project, server, None, server_id);
    exported_extra_user_groups(source, project, server, names, server_id);
    lemma_server_group_names(source, server.id);
    lemma_ascending_no_duplicates(names);
    assert forall|i: int|
        0 <= i < source.server_extra_users.len() && owned(#[trigger] source.server_extra_users[i]) && group_of(
            source.server_extra_users[i],
        ) is Some implies names.contains(group_of(source.server_extra_users[i])->0) by {
        let r = source.server_extra_users[i];
        assert(server_extra_user_labels(source)[i] == (server.id, r.group_name));
        assert(server_extra_user_labels(source).contains((server.id, Some(r.group_name->0))));
    }
    lemma_selected_by_all_groups(source.server_extra_users, owned, group_of, names, moved);
}

/// The extra user accounts of a server survive export and import. Where a server
/// of `source` is exported with its items and the import of what was
/// exported into `dest` succeeds, `dest` keeps its extra user accounts as they were,
/// and those that it gains are, as a collection, the extra user accounts of the
/// server in `source`: each of them once, with every field as it was,
/// group included, but for its identifier, which `dest` assigns, and its
/// server, which is the server that the import wrote.
pub proof fn extra_users_survive_export_and_import(
    source: StorageView,
    project: ProjectView,
    server: ServerView,
    dest: StorageView,
    project_id: i32,
    env: EnvironmentType,
    group_name: Option<Seq<char>>,
)
    requires
        spec_import_server(
            dest,
            project_id,
            env,
            group_name,
            server_with_items(source, project)(server),
        ).1 is Ok,
    ensures
        ({
            let fin = spec_import_server(
                dest,
                project_id,
                env,
                group_name,
                server_with_items(source, project)(server),
            ).0;
            let n = dest.server_extra_users.len() as int;
            &&& fin.server_extra_users.take(n) == dest.server_extra_users
            &&& fin.server_extra_users.skip(n).map_values(extra_user_unnumbered()).to_multiset() == select(
                source.server_extra_users,
                extra_user_of(server.id),
                extra_user_moved_to(dest.next_server_id()->0),
            ).to_multiset()
        }),
{
    let entry = server_with_items(source, project)(server);
    let fin = spec_import_server(dest, project_id, env, group_name, entry).0;
    let server_id = dest.next_server_id()->0;
    extra_users_of_server_are_written(dest, project_id, env, group_name, entry);
    lemma_grown_rows(
        dest.server_extra_users,
        fin.server_extra_users,
        extra_user_rows_of_server()(server_id, entry),
        extra_user_unnumbered(),
    );
    exported_extra_user_rows(source, project, server, server_id);
}

// ---------------------------------------------------------------------------
// The websites of a server
// ---------------------------------------------------------------------------
/// The table of websites.
pub open spec fn website_table() -> spec_fn(StorageView) -> Seq<ServerWebsiteView> {
    |st: StorageView| st.server_websites
}

/// A row of the websites without its identifier and without the database
/// that it points to.
pub open spec fn website_unreferenced() -> spec_fn(ServerWebsiteView) -> ServerWebsiteView {
    |r: ServerWebsiteView| ServerWebsiteView { id: 0, server_database_id: None, ..r }
}

/// The row that the second pass writes for a deferred website, the
/// database that it points to aside.
pub open spec fn deferred_row() -> spec_fn(UnprocessedWebsiteView) -> ServerWebsiteView {
    |info: UnprocessedWebsiteView| website_row(info, None)
}

/// The test that the websites of a server pass.
pub open spec fn website_of(server_id: i32) -> spec_fn(ServerWebsiteView) -> bool {
    |r: ServerWebsiteView| r.server_id == server_id
}

/// The group under which a website is filed.
pub open spec fn website_group() -> spec_fn(ServerWebsiteView) -> Option<Seq<char>> {
    |r: ServerWebsiteView| r.group_name
}

/// A website as it comes back from an import under the server
/// `server_id`: with every field as it was, but for its identifier, its
/// server, and the database that it points to, which is left aside here.
pub open spec fn website_moved_to(
    server_id: i32) -> spec_fn(ServerWebsiteView,
) -> ServerWebsiteView {
    |r: ServerWebsiteView| ServerWebsiteView { id: 0, server_id, server_database_id: None, ..r }
}

/// The second pass writes one row for each deferred website, in order,
/// with the contents and the group that the document gives.
pub proof fn deferred_websites_are_written(st: StorageView, pending: Seq<UnprocessedWebsiteView>)
    requires
        replay(st, pending, website_step()).1 is Ok,
    ensures
        grew_by(
            st.server_websites,
            replay(st, pending, website_step()).0.server_websites,
            pending.map_values(deferred_row()),
            website_unreferenced(),
        ),
{
    let table = website_table();
    let strip = website_unreferenced();
    let row_of = deferred_row();
    let step = website_step();
    assert forall|a: StorageView, x: UnprocessedWebsiteView|
        (#[trigger] step(a, x)).1 is Ok implies grew_by(
        table(a),
        table(step(a, x).0),
        seq![row_of(x)],
        strip,
    ) by {
        assert(table(step(a, x).0) =~= table(a).push(step(a, x).0.server_websites.last()));
    }
    lemma_replay_appends(st, pending, step, table, row_of, strip);
}

/// The websites that a document lists under one group of a server become
/// the rows of the websites of the server that are filed under that group,
/// in table order.
pub proof fn exported_website_group(
    st: StorageView,
    project: ProjectView,
    server: ServerView,
    group_name: Option<Seq<char>>,
    server_id: i32,
)
    ensures
        deferred_websites(
            server_id,
            group_name,
            server_items_of(st, project, server, group_name).server_websites,
        ).map_values(deferred_row()) == select(
            st.server_websites,
            filed_under(website_of(server.id), website_group(), group_name),
            website_moved_to(server_id),
        ),
{
    let wanted = server_website_wanted(server.id, group_name);
    let filed = filed_under(website_of(server.id), website_group(), group_name);
    lemma_filter_same(st.server_websites, wanted, filed);
    let found = st.server_websites.filter(wanted);
    let listed = deferred_websites(
        server_id,
        group_name,
        server_items_of(st, project, server, group_name).server_websites,
    ).map_values(deferred_row());
    let target = select(st.server_websites, filed, website_moved_to(server_id));
    assert(listed.len() == target.len());
    assert forall|k: int| 0 <= k < listed.len() implies listed[k] == target[k] by {
        st.server_websites.lemma_filter_pred(wanted, k);
        assert(wanted(found[k]));
    }
    assert(listed =~= target);
}

/// The websites that a document lists under the named groups of a server
/// become the rows of the websites of the server taken group after group.
pub proof fn exported_website_groups(
    st: StorageView,
    project: ProjectView,
    server: ServerView,
    names: Seq<Seq<char>>,
    server_id: i32,
)
    ensures
        deferred_group_websites(
            server_id,
            names.map_values(server_group_item(st, project, server)),
        ).map_values(deferred_row()) == selected_by_groups(
            st.server_websites,
            website_of(server.id),
            website_group(),
            names,
            website_moved_to(server_id),
        ),
    decreases names.len(),
{
    let groups = names.map_values(server_group_item(st, project, server));
    if names.len() > 0 {
        assert(groups.drop_last() =~= names.drop_last().map_values(
            server_group_item(st, project, server),
        ));
        exported_website_groups(st, project, server, names.drop_last(), server_id);
        exported_website_group(st, project, server, Some(names.last()), server_id);
        lemma_selected_by_groups_last(
            st.server_websites,
            website_of(server.id),
            website_group(),
            names,
            website_moved_to(server_id),
        );
        let front = deferred_group_websites(server_id, groups.drop_last());
        let last = deferred_websites(
            server_id,
            Some(groups.last().0),
            groups.last().1.server_websites,
        );
        assert((front + last).map_values(deferred_row()) =~= front.map_values(deferred_row())
            + last.map_values(deferred_row()));
    } else {
        assert(deferred_group_websites(server_id, groups).map_values(deferred_row())
            =~= Seq::<ServerWebsiteView>::empty());
    }
}

/// The websites that the import of a server of a document defers: the
/// ungrouped ones, then those of its groups, all under the identifier that
/// the server is given.
pub open spec fn deferred_of_server() -> spec_fn(i32, ServerWithItemsImportExportView) -> Seq<
    UnprocessedWebsiteView,
> {
    |server_id: i32, server: ServerWithItemsImportExportView|
        deferred_websites(server_id, None, server.items.server_websites) + deferred_group_websites(
            server_id,
            server.items_in_groups,
        )
}

/// The rows that the second pass writes for the websites of a server of a
/// document, the databases that they point to aside.
pub open spec fn website_rows_of_server() -> spec_fn(i32, ServerWithItemsImportExportView) -> Seq<
    ServerWebsiteView,
> {
    |server_id: i32, server: ServerWithItemsImportExportView|
        deferred_of_server()(server_id, server).map_values(deferred_row())
}

/// The websites that a document lists for a server are, as a collection,
/// the websites of the server: each of them once, with every field as
/// storage holds it, group included, but for its identifier, its server, and
/// the database that it points to.
pub proof fn exported_website_rows(
    source: StorageView,
    project: ProjectView,
    server: ServerView,
    server_id: i32,
)
    ensures
        website_rows_of_server()(server_id, server_with_items(source, project)(server)).to_multiset()
            == select(
            source.server_websites,
            website_of(server.id),
            website_moved_to(server_id),
        ).to_multiset(),
{
    let entry = server_with_items(source, project)(server);
    let names = server_group_names(source, server.id);
    let owned = website_of(server.id);
    let group_of = website_group();
    let moved = website_moved_to(server_id);
    exported_website_group(source, project, server, None, server_id);
    exported_website_groups(source, project, server, names, server_id);
    let ungrouped = deferred_websites(server_id, None, entry.items.server_websites);
    let grouped = deferred_group_websites(server_id, entry.items_in_groups);
    assert((ungrouped + grouped).map_values(deferred_row()) =~= ungrouped.map_values(
        deferred_row(),
    ) + grouped.map_values(deferred_row()));
    lemma_server_group_names(source, server.id);
    lemma_ascending_no_duplicates(names);
    assert forall|i: int|
        0 <= i < source.server_websites.len() && owned(#[trigger] source.server_websites[i])
            && group_of(source.server_websites[i]) is Some implies names.contains(
        group_of(source.server_websites[i])->0,
    ) by {
        let r = source.server_websites[i];
        assert(server_website_labels(source)[i] == (server.id, r.group_name));
        assert(server_website_labels(source).contains((server.id, Some(r.group_name->0))));
    }
    lemma_selected_by_all_groups(source.server_websites, owned, group_of, names, moved);
}

/// The websites of a server survive export and import, the databases that
/// they point to aside. Where a server of `source` is exported with its
/// items, the import of what was exported into `dest` succeeds, and the
/// second pass over the websites that this import deferred succeeds too,
/// `dest` keeps its websites as they were, and those that it gains are, as a
/// collection, the websites of the server in `source`: each of them once,
/// with every field as it was, group included, but for its identifier, its
/// server, and the database that it points to.
pub proof fn websites_survive_export_and_import(
    source: StorageView,
    project: ProjectView,
    server: ServerView,
    dest: StorageView,
    project_id: i32,
    env: EnvironmentType,
    group_name: Option<Seq<char>>,
)
    requires
        spec_import_server(
            dest,
            project_id,
            env,
            group_name,
            server_with_items(source, project)(server),
        ).1 is Ok,
        replay(
            spec_import_server(
                dest,
                project_id,
                env,
                group_name,
                server_with_items(source, project)(server),
            ).0,
            spec_import_server(
                dest,
                project_id,
                env,
                group_name,
                server_with_items(source, project)(server),
            ).1->Ok_0,
            website_step(),
        ).1 is Ok,
    ensures
        ({
            let first = spec_import_server(
                dest,
                project_id,
                env,
                group_name,
                server_with_items(source, project)(server),
            );
            let fin = replay(first.0, first.1->Ok_0, website_step()).0;
            let n = dest.server_websites.len() as int;
            &&& fin.server_websites.take(n) == dest.server_websites
            &&& fin.server_websites.skip(n).map_values(website_unreferenced()).to_multiset()
                == select(
                source.server_websites,
                website_of(server.id),
                website_moved_to(dest.next_server_id()->0),
            ).to_multiset()
        }),
{
    let entry = server_with_items(source, project)(server);
    let first = spec_import_server(dest, project_id, env, group_name, entry);
    let pending = first.1->Ok_0;
    let fin = replay(first.0, pending, website_step()).0;
    let server_id = dest.next_server_id()->0;
    assert(kept_by_server_writes(websites_kept()));
    server_keeps(dest, project_id, env, group_name, entry, websites_kept());
    deferred_websites_are_written(first.0, pending);
    lemma_grown_rows(
        dest.server_websites,
        fin.server_websites,
        pending.map_values(deferred_row()),
        website_unreferenced(),
    );
    exported_website_rows(source, project, server, server_id);
}

} // verus!
