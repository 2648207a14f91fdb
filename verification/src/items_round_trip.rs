//! The items of the servers of a whole document: what an import writes to
//! their tables, server after server, under the identifiers that the servers
//! were given.

use vstd::prelude::*;
use crate::document::{
    ProjectEnvGroupImportExportView, ProjectEnvImportExportView, ProjectImportExportView,
    ServerWithItemsImportExportView,
};
use crate::export::{
    env_group_item, env_if_present, env_of, has_environment, project_by_id, server_with_items,
    spec_export_project,
};
use crate::guarantees::{first_pass_keeps, second_pass_writes_websites_only, websites_kept};
use crate::import::{
    env_group_step, project_note_step, project_poi_step, project_row, server_link_step,
    server_step, spec_do_import, spec_first_pass, spec_first_pass_if_present,
    spec_import_project_env_first_pass, spec_import_project_env_group_first_pass,
    spec_import_server, then_first_pass,
};
use crate::replay::{
    after_deferring, lemma_replay_keeps, replay, replay_deferring, Deferred,
    UnprocessedWebsiteView,
};
use crate::round_trip::server_import_writes_one_row;
use crate::rows::{
    ProjectNoteView, ProjectPointOfInterestView, ProjectView, ServerLinkView, ServerView,
    ServerWebsiteView,
};
use crate::select::{grew_by, lemma_grew_twice, lemma_grown_rows, select};
use crate::server_round_trip::{
    database_moved_to, database_of, databases_of_server_are_written, database_rows_of_server,
    database_table, database_unnumbered, exported_database_rows, exported_extra_user_rows,
    exported_server_note_rows, exported_server_poi_rows, extra_user_moved_to, extra_user_of,
    extra_users_of_server_are_written, extra_user_rows_of_server, extra_user_table,
    extra_user_unnumbered, server_note_moved_to, server_note_of,
    server_notes_of_server_are_written, server_note_rows_of_server, server_note_table,
    server_note_unnumbered, server_poi_moved_to, server_poi_of, server_pois_of_server_are_written,
    server_poi_rows_of_server, server_poi_table, server_poi_unnumbered, deferred_of_server,
    deferred_row, deferred_websites_are_written, exported_website_rows, website_moved_to,
    website_of, website_rows_of_server, website_unreferenced,
};
use crate::storage::StorageView;
use crate::types::EnvironmentType;

verus! {

// ---------------------------------------------------------------------------
// The servers of a document, in order
// ---------------------------------------------------------------------------
/// The servers that the named groups of an environment hold, group after
/// group.
pub open spec fn servers_in_groups(groups: Seq<(Seq<char>, ProjectEnvGroupImportExportView)>) -> Seq<
    ServerWithItemsImportExportView,
>
    decreases groups.len(),
{
    if groups.len() == 0 {
        Seq::empty()
    } else {
        groups[0].1.servers + servers_in_groups(groups.skip(1))
    }
}

/// The servers that an environment holds: the ungrouped ones, then those
/// of the named groups.
pub open spec fn servers_in_env(project_env: Option<ProjectEnvImportExportView>) -> Seq<
    ServerWithItemsImportExportView,
> {
    match project_env {
        Some(e) => e.items.servers + servers_in_groups(e.items_in_groups),
        None => Seq::empty(),
    }
}

/// The servers that a document holds, in the order in which an import
/// writes them.
pub open spec fn servers_in_document(doc: ProjectImportExportView) -> Seq<
    ServerWithItemsImportExportView,
> {
    servers_in_env(doc.development_environment) + servers_in_env(doc.staging_environment)
        + servers_in_env(doc.uat_environment) + servers_in_env(doc.prod_environment)
}

/// The identifiers of the servers that `after` has behind those of
/// `before`.
pub open spec fn new_server_ids(before: StorageView, after: StorageView) -> Seq<i32> {
    after.servers.skip(before.servers.len() as int).map_values(|s: ServerView| s.id)
}

// ---------------------------------------------------------------------------
// The rows of the items, server after server
// ---------------------------------------------------------------------------
/// The rows that the servers bring to a table of items, server after
/// server, each server's rows under the identifier that stands at its place
/// in `ids`.
pub open spec fn rows_of_servers<R>(
    ids: Seq<i32>,
    servers: Seq<ServerWithItemsImportExportView>,
    rows_of: spec_fn(i32, ServerWithItemsImportExportView) -> Seq<R>,
) -> Seq<R>
    decreases servers.len(),
{
    if servers.len() == 0 || ids.len() == 0 {
        Seq::empty()
    } else {
        rows_of(ids[0], servers[0]) + rows_of_servers(ids.skip(1), servers.skip(1), rows_of)
    }
}

/// The rows of two runs of servers are the rows of the first run followed
/// by those of the second.
pub proof fn lemma_rows_of_servers_joined<R>(
    first_ids: Seq<i32>,
    second_ids: Seq<i32>,
    first: Seq<ServerWithItemsImportExportView>,
    second: Seq<ServerWithItemsImportExportView>,
    rows_of: spec_fn(i32, ServerWithItemsImportExportView) -> Seq<R>,
)
    requires
        first_ids.len() == first.len(),
    ensures
        rows_of_servers(first_ids + second_ids, first + second, rows_of) == rows_of_servers(
            first_ids,
            first,
            rows_of,
        ) + rows_of_servers(second_ids, second, rows_of),
    decreases first.len(),
{
    let ids = first_ids + second_ids;
    let servers = first + second;
    if first.len() == 0 {
        assert(ids =~= second_ids);
        assert(servers =~= second);
        assert(Seq::<R>::empty() + rows_of_servers(second_ids, second, rows_of)
            =~= rows_of_servers(second_ids, second, rows_of));
    } else {
        assert(ids[0] == first_ids[0] && servers[0] == first[0]);
        assert(ids.skip(1) =~= first_ids.skip(1) + second_ids);
        assert(servers.skip(1) =~= first.skip(1) + second);
        lemma_rows_of_servers_joined(first_ids.skip(1), second_ids, first.skip(1), second, rows_of);
        let head = rows_of(first_ids[0], first[0]);
        let mid = rows_of_servers(first_ids.skip(1), first.skip(1), rows_of);
        let tail = rows_of_servers(second_ids, second, rows_of);
        assert(head + (mid + tail) =~= (head + mid) + tail);
    }
}

/// Whether the import of a server writes to a table of items what
/// `rows_of` says, under the identifier that the server is given, and
/// whether no other write of the first pass touches the table.
pub open spec fn written_by_servers<R>(
    table: spec_fn(StorageView) -> Seq<R>,
    strip: spec_fn(R) -> R,
    rows_of: spec_fn(i32, ServerWithItemsImportExportView) -> Seq<R>,
) -> bool {
    &&& forall|
        st: StorageView,
        project_id: i32,
        env: EnvironmentType,
        group_name: Option<Seq<char>>,
        server: ServerWithItemsImportExportView,
    |
        (#[trigger] spec_import_server(st, project_id, env, group_name, server)).1 is Ok ==> grew_by(
            table(st),
            table(spec_import_server(st, project_id, env, group_name, server).0),
            rows_of(st.next_server_id()->0, server),
            strip,
        )
    &&& forall|a: StorageView, row: ProjectView| table(#[trigger] a.add_project(row)) == table(a)
    &&& forall|a: StorageView, row: ProjectPointOfInterestView|
        table(#[trigger] a.add_project_poi(row)) == table(a)
    &&& forall|a: StorageView, row: ProjectNoteView|
        table(#[trigger] a.add_project_note(row)) == table(a)
    &&& forall|a: StorageView, id: i32, env: EnvironmentType|
        table(#[trigger] a.mark_project_note(id, env)) == table(a)
    &&& forall|a: StorageView, row: ServerLinkView|
        table(#[trigger] a.add_server_link(row)) == table(a)
}

/// Whether `after` has the servers of `before` and one more for each of
/// `servers`, and in a table of items the rows of `before` and, behind them,
/// the rows that `servers` bring under the identifiers of the new servers.
pub open spec fn items_written<R>(
    before: StorageView,
    after: StorageView,
    servers: Seq<ServerWithItemsImportExportView>,
    table: spec_fn(StorageView) -> Seq<R>,
    strip: spec_fn(R) -> R,
    rows_of: spec_fn(i32, ServerWithItemsImportExportView) -> Seq<R>,
) -> bool {
    &&& after.servers.len() == before.servers.len() + servers.len()
    &&& forall|k: int| 0 <= k < before.servers.len() ==> after.servers[k] == before.servers[k]
    &&& grew_by(
        table(before),
        table(after),
        rows_of_servers(new_server_ids(before, after), servers, rows_of),
        strip,
    )
}

/// Writing items twice is writing the items of both runs of servers.
pub proof fn lemma_items_written_twice<R>(
    a: StorageView,
    b: StorageView,
    c: StorageView,
    first: Seq<ServerWithItemsImportExportView>,
    second: Seq<ServerWithItemsImportExportView>,
    table: spec_fn(StorageView) -> Seq<R>,
    strip: spec_fn(R) -> R,
    rows_of: spec_fn(i32, ServerWithItemsImportExportView) -> Seq<R>,
)
    requires
        items_written(a, b, first, table, strip, rows_of),
        items_written(b, c, second, table, strip, rows_of),
    ensures
        items_written(a, c, first + second, table, strip, rows_of),
{
    assert forall|k: int| 0 <= k < a.servers.len() implies c.servers[k] == a.servers[k] by {
        assert(c.servers[k] == b.servers[k]);
    }
    let ids_ab = new_server_ids(a, b);
    let ids_bc = new_server_ids(b, c);
    assert(new_server_ids(a, c) =~= ids_ab + ids_bc) by {
        assert forall|k: int| 0 <= k < ids_ab.len() implies new_server_ids(a, c)[k]
            == ids_ab[k] by {
            assert(c.servers[a.servers.len() + k] == b.servers[a.servers.len() + k]);
        }
    }
    lemma_rows_of_servers_joined(ids_ab, ids_bc, first, second, rows_of);
    lemma_grew_twice(
        table(a),
        table(b),
        table(c),
        rows_of_servers(ids_ab, first, rows_of),
        rows_of_servers(ids_bc, second, rows_of),
        strip,
    );
}

/// The import of the servers of one group writes their items, server
/// after server.
pub proof fn servers_write_their_items<R>(
    st: StorageView,
    project_id: i32,
    env: EnvironmentType,
    group_name: Option<Seq<char>>,
    servers: Seq<ServerWithItemsImportExportView>,
    table: spec_fn(StorageView) -> Seq<R>,
    strip: spec_fn(R) -> R,
    rows_of: spec_fn(i32, ServerWithItemsImportExportView) -> Seq<R>,
)
    requires
        written_by_servers(table, strip, rows_of),
        replay_deferring(st, servers, server_step(project_id, env, group_name)).1 is Ok,
    ensures
        items_written(
            st,
            replay_deferring(st, servers, server_step(project_id, env, group_name)).0,
            servers,
            table,
            strip,
            rows_of,
        ),
    decreases servers.len(),
{
    let fin = replay_deferring(st, servers, server_step(project_id, env, group_name)).0;
    if servers.len() == 0 {
        assert(rows_of_servers(new_server_ids(st, fin), servers, rows_of) =~= Seq::<R>::empty());
    } else {
        let after = spec_import_server(st, project_id, env, group_name, servers[0]).0;
        server_import_writes_one_row(st, project_id, env, group_name, servers[0]);
        let n = st.servers.len() as int;
        let ids = new_server_ids(st, after);
        assert(ids.len() == 1);
        assert(ids[0] == after.servers[n].id);
        assert(after.servers[n].id == st.next_server_id()->0);
        assert(ids.skip(1).len() == 0);
        assert(rows_of_servers(ids, seq![servers[0]], rows_of) =~= rows_of(
            st.next_server_id()->0,
            servers[0],
        )) by {
            assert(seq![servers[0]][0] == servers[0]);
            assert(rows_of_servers(ids.skip(1), seq![servers[0]].skip(1), rows_of)
                =~= Seq::<R>::empty());
        }
        assert(items_written(st, after, seq![servers[0]], table, strip, rows_of));
        servers_write_their_items(
            after,
            project_id,
            env,
            group_name,
            servers.skip(1),
            table,
            strip,
            rows_of,
        );
        lemma_items_written_twice(
            st,
            after,
            fin,
            seq![servers[0]],
            servers.skip(1),
            table,
            strip,
            rows_of,
        );
        assert(seq![servers[0]] + servers.skip(1) =~= servers);
    }
}

/// What keeps the servers and the table writes no items.
pub proof fn lemma_nothing_written<R>(
    a: StorageView,
    b: StorageView,
    table: spec_fn(StorageView) -> Seq<R>,
    strip: spec_fn(R) -> R,
    rows_of: spec_fn(i32, ServerWithItemsImportExportView) -> Seq<R>,
)
    requires
        a.servers == b.servers,
        table(a) == table(b),
    ensures
        items_written(a, b, Seq::empty(), table, strip, rows_of),
{
    assert(rows_of_servers(
        new_server_ids(a, b),
        Seq::<ServerWithItemsImportExportView>::empty(),
        rows_of,
    ) =~= Seq::<R>::empty());
}

/// The servers and a table of items are the same in both storages.
pub open spec fn items_kept<R>(table: spec_fn(StorageView) -> Seq<R>) -> spec_fn(
    StorageView,
    StorageView,
) -> bool {
    |a: StorageView, b: StorageView| a.servers == b.servers && table(a) == table(b)
}

/// The first pass over one group of an environment writes the items of
/// the group's servers.
pub proof fn env_group_writes_its_items<R>(
    st: StorageView,
    project_id: i32,
    items: ProjectEnvGroupImportExportView,
    env: EnvironmentType,
    group_name: Option<Seq<char>>,
    table: spec_fn(StorageView) -> Seq<R>,
    strip: spec_fn(R) -> R,
    rows_of: spec_fn(i32, ServerWithItemsImportExportView) -> Seq<R>,
)
    requires
        written_by_servers(table, strip, rows_of),
        spec_import_project_env_group_first_pass(st, project_id, items, env, group_name).1 is Ok,
    ensures
        items_written(
            st,
            spec_import_project_env_group_first_pass(st, project_id, items, env, group_name).0,
            items.servers,
            table,
            strip,
            rows_of,
        ),
{
    let kept = items_kept(table);
    let s1 = replay(st, items.project_pois, project_poi_step(project_id, group_name)).0;
    lemma_replay_keeps(st, items.project_pois, project_poi_step(project_id, group_name), kept);
    let s2 = replay(s1, items.project_notes, project_note_step(project_id, group_name, env)).0;
    lemma_replay_keeps(
        s1,
        items.project_notes,
        project_note_step(project_id, group_name, env),
        kept,
    );
    let s3 = replay(s2, items.server_links, server_link_step(project_id, group_name, env)).0;
    lemma_replay_keeps(s2, items.server_links, server_link_step(project_id, group_name, env), kept);
    servers_write_their_items(
        s3,
        project_id,
        env,
        group_name,
        items.servers,
        table,
        strip,
        rows_of,
    );
    let s4 = replay_deferring(s3, items.servers, server_step(project_id, env, group_name)).0;
    lemma_nothing_written(st, s3, table, strip, rows_of);
    lemma_items_written_twice(st, s3, s4, Seq::empty(), items.servers, table, strip, rows_of);
    assert(Seq::<ServerWithItemsImportExportView>::empty() + items.servers =~= items.servers);
}

/// The first pass over the named groups of an environment writes the
/// items of their servers, group after group.
pub proof fn env_groups_write_their_items<R>(
    st: StorageView,
    project_id: i32,
    env: EnvironmentType,
    groups: Seq<(Seq<char>, ProjectEnvGroupImportExportView)>,
    table: spec_fn(StorageView) -> Seq<R>,
    strip: spec_fn(R) -> R,
    rows_of: spec_fn(i32, ServerWithItemsImportExportView) -> Seq<R>,
)
    requires
        written_by_servers(table, strip, rows_of),
        replay_deferring(st, groups, env_group_step(project_id, env)).1 is Ok,
    ensures
        items_written(
            st,
            replay_deferring(st, groups, env_group_step(project_id, env)).0,
            servers_in_groups(groups),
            table,
            strip,
            rows_of,
        ),
    decreases groups.len(),
{
    if groups.len() == 0 {
        lemma_nothing_written(st, st, table, strip, rows_of);
    } else {
        let after = spec_import_project_env_group_first_pass(
            st,
            project_id,
            groups[0].1,
            env,
            Some(groups[0].0),
        ).0;
        env_group_writes_its_items(
            st,
            project_id,
            groups[0].1,
            env,
            Some(groups[0].0),
            table,
            strip,
            rows_of,
        );
        env_groups_write_their_items(after, project_id, env, groups.skip(1), table, strip, rows_of);
        lemma_items_written_twice(
            st,
            after,
            replay_deferring(st, groups, env_group_step(project_id, env)).0,
            groups[0].1.servers,
            servers_in_groups(groups.skip(1)),
            table,
            strip,
            rows_of,
        );
    }
}

/// The first pass over one environment, present or not, writes the items
/// of the environment's servers.
pub proof fn env_writes_its_items<R>(
    st: StorageView,
    project_id: i32,
    env: EnvironmentType,
    project_env: Option<ProjectEnvImportExportView>,
    table: spec_fn(StorageView) -> Seq<R>,
    strip: spec_fn(R) -> R,
    rows_of: spec_fn(i32, ServerWithItemsImportExportView) -> Seq<R>,
)
    requires
        written_by_servers(table, strip, rows_of),
        spec_first_pass_if_present(st, project_id, env, project_env).1 is Ok,
    ensures
        items_written(
            st,
            spec_first_pass_if_present(st, project_id, env, project_env).0,
            servers_in_env(project_env),
            table,
            strip,
            rows_of,
        ),
{
    match project_env {
        Some(e) => {
            let s1 = spec_import_project_env_group_first_pass(st, project_id, e.items, env, None).0;
            env_group_writes_its_items(st, project_id, e.items, env, None, table, strip, rows_of);
            env_groups_write_their_items(
                s1,
                project_id,
                env,
                e.items_in_groups,
                table,
                strip,
                rows_of,
            );
            lemma_items_written_twice(
                st,
                s1,
                spec_import_project_env_first_pass(st, project_id, env, e).0,
                e.items.servers,
                servers_in_groups(e.items_in_groups),
                table,
                strip,
                rows_of,
            );
        },
        None => {
            lemma_nothing_written(st, st, table, strip, rows_of);
        },
    }
}

/// The first pass writes the items of the servers of the document, server
/// after server.
pub proof fn first_pass_writes_the_items<R>(
    st: StorageView,
    project_id: i32,
    doc: ProjectImportExportView,
    table: spec_fn(StorageView) -> Seq<R>,
    strip: spec_fn(R) -> R,
    rows_of: spec_fn(i32, ServerWithItemsImportExportView) -> Seq<R>,
)
    requires
        written_by_servers(table, strip, rows_of),
        spec_first_pass(st, project_id, doc).1 is Ok,
    ensures
        items_written(
            st,
            spec_first_pass(st, project_id, doc).0,
            servers_in_document(doc),
            table,
            strip,
            rows_of,
        ),
{
    let dev = EnvironmentType::EnvDevelopment;
    let stage = EnvironmentType::EnvStage;
    let uat = EnvironmentType::EnvUat;
    let prod = EnvironmentType::EnvProd;
    let o1 = spec_first_pass_if_present(st, project_id, dev, doc.development_environment);
    let o2 = then_first_pass(o1, project_id, stage, doc.staging_environment);
    let o3 = then_first_pass(o2, project_id, uat, doc.uat_environment);
    let o4 = then_first_pass(o3, project_id, prod, doc.prod_environment);
    assert(o4.1 is Ok);
    assert(o3.1 is Ok);
    assert(o2.1 is Ok);
    assert(o1.1 is Ok);
    env_writes_its_items(st, project_id, dev, doc.development_environment, table, strip, rows_of);
    env_writes_its_items(o1.0, project_id, stage, doc.staging_environment, table, strip, rows_of);
    env_writes_its_items(o2.0, project_id, uat, doc.uat_environment, table, strip, rows_of);
    env_writes_its_items(o3.0, project_id, prod, doc.prod_environment, table, strip, rows_of);
    let r1 = servers_in_env(doc.development_environment);
    let r2 = servers_in_env(doc.staging_environment);
    let r3 = servers_in_env(doc.uat_environment);
    let r4 = servers_in_env(doc.prod_environment);
    lemma_items_written_twice(st, o1.0, o2.0, r1, r2, table, strip, rows_of);
    lemma_items_written_twice(st, o2.0, o3.0, r1 + r2, r3, table, strip, rows_of);
    lemma_items_written_twice(st, o3.0, o4.0, r1 + r2 + r3, r4, table, strip, rows_of);
}

/// An import writes the items of the servers of the document. After an
/// import that succeeds, storage has one more server for each server of the
/// document, and a table of items that no other write touches holds its old
/// rows and, behind them, the rows that these servers bring, server after
/// server in document order, each server's rows under the identifier that
/// the server was given.
pub proof fn import_writes_the_items<R>(
    st: StorageView,
    doc: ProjectImportExportView,
    table: spec_fn(StorageView) -> Seq<R>,
    strip: spec_fn(R) -> R,
    rows_of: spec_fn(i32, ServerWithItemsImportExportView) -> Seq<R>,
)
    requires
        written_by_servers(table, strip, rows_of),
        forall|a: StorageView, row: ServerWebsiteView|
            table(#[trigger] a.add_server_website(row)) == table(a),
        spec_do_import(st, doc).1 is Ok,
    ensures
        items_written(
            st,
            spec_do_import(st, doc).0,
            servers_in_document(doc),
            table,
            strip,
            rows_of,
        ),
{
    let project_id = st.next_project_id()->0;
    let s0 = st.add_project(project_row(doc));
    let s1 = spec_first_pass(s0, project_id, doc).0;
    let fin = spec_do_import(st, doc).0;
    first_pass_writes_the_items(s0, project_id, doc, table, strip, rows_of);
    second_pass_writes_websites_only(s1, spec_first_pass(s0, project_id, doc).1->Ok_0);
    let step = crate::import::website_step();
    let kept = crate::replay::same_table(table);
    lemma_replay_keeps(s1, spec_first_pass(s0, project_id, doc).1->Ok_0, step, kept);
    assert(new_server_ids(st, fin) =~= new_server_ids(s0, s1));
}

// ---------------------------------------------------------------------------
// What a document of a project lists
// ---------------------------------------------------------------------------
/// Whether every server of the list is a server of storage as a document
/// of the project holds it: its row, with the items that storage holds under
/// the identifier of the row.
pub open spec fn held_whole(
    st: StorageView,
    project: ProjectView,
    servers: Seq<ServerWithItemsImportExportView>,
) -> bool {
    forall|k: int|
        0 <= k < servers.len() ==> #[trigger] servers[k] == server_with_items(st, project)(
            servers[k].server,
        )
}

/// What two lists hold whole, their concatenation holds whole.
proof fn lemma_held_whole_joined(
    st: StorageView,
    project: ProjectView,
    first: Seq<ServerWithItemsImportExportView>,
    second: Seq<ServerWithItemsImportExportView>,
)
    requires
        held_whole(st, project, first),
        held_whole(st, project, second),
    ensures
        held_whole(st, project, first + second),
{
    assert forall|k: int| 0 <= k < (first + second).len() implies #[trigger] (first + second)[k]
        == server_with_items(st, project)((first + second)[k].server) by {
        if k < first.len() {
            assert((first + second)[k] == first[k]);
        } else {
            assert((first + second)[k] == second[k - first.len()]);
        }
    }
}

/// The servers that a document lists under named groups are held whole.
proof fn lemma_groups_held_whole(
    st: StorageView,
    project: ProjectView,
    env: EnvironmentType,
    names: Seq<Seq<char>>,
)
    ensures
        held_whole(
            st,
            project,
            servers_in_groups(names.map_values(env_group_item(st, project, env))),
        ),
    decreases names.len(),
{
    let groups = names.map_values(env_group_item(st, project, env));
    if names.len() > 0 {
        assert(groups.skip(1) =~= names.skip(1).map_values(env_group_item(st, project, env)));
        lemma_groups_held_whole(st, project, env, names.skip(1));
        lemma_held_whole_joined(
            st,
            project,
            groups[0].1.servers,
            servers_in_groups(groups.skip(1)),
        );
    }
}

/// The servers that a document lists under one environment are held whole.
proof fn lemma_env_held_whole(st: StorageView, project: ProjectView, env: EnvironmentType)
    ensures
        held_whole(st, project, servers_in_env(env_if_present(st, project, env))),
{
    if has_environment(project, env) {
        let e = env_of(st, project, env);
        lemma_groups_held_whole(
            st,
            project,
            env,
            crate::groups::project_item_group_names(st, project.id),
        );
        lemma_held_whole_joined(
            st,
            project,
            e.items.servers,
            servers_in_groups(e.items_in_groups),
        );
    }
}

/// A document holds its servers whole: every server that the document of
/// a project lists is a server row of storage together with the items that
/// storage holds under the identifier of that row.
pub proof fn exported_servers_are_held_whole(st: StorageView, source_id: i32)
    requires
        spec_export_project(st, source_id) is Ok,
    ensures
        held_whole(
            st,
            project_by_id(st, source_id)->0,
            servers_in_document(spec_export_project(st, source_id)->Ok_0),
        ),
{
    let project = project_by_id(st, source_id)->0;
    let doc = spec_export_project(st, source_id)->Ok_0;
    lemma_env_held_whole(st, project, EnvironmentType::EnvDevelopment);
    lemma_env_held_whole(st, project, EnvironmentType::EnvStage);
    lemma_env_held_whole(st, project, EnvironmentType::EnvUat);
    lemma_env_held_whole(st, project, EnvironmentType::EnvProd);
    let r1 = servers_in_env(doc.development_environment);
    let r2 = servers_in_env(doc.staging_environment);
    let r3 = servers_in_env(doc.uat_environment);
    let r4 = servers_in_env(doc.prod_environment);
    lemma_held_whole_joined(st, project, r1, r2);
    lemma_held_whole_joined(st, project, r1 + r2, r3);
    lemma_held_whole_joined(st, project, r1 + r2 + r3, r4);
}

// ---------------------------------------------------------------------------
// Export followed by import
// ---------------------------------------------------------------------------
/// The databases of all servers survive export and import. Where the
/// project `source_id` of `source` is exported and the import of the document
/// into `dest` succeeds, `dest` gains one server for each server of the
/// document, keeps its databases as they were, and gains behind them the
/// databases of these servers, server after server. Those that it gains
/// for a server are, as a collection, the databases that `source` holds
/// under the server as the document lists it: each of them once, with every
/// field as it was, group included, but for its identifier, which `dest`
/// assigns, and its server, which is the server that the import wrote.
pub proof fn all_databases_survive_export_and_import(
    source: StorageView,
    source_id: i32,
    dest: StorageView,
)
    requires
        spec_export_project(source, source_id) is Ok,
        spec_do_import(dest, spec_export_project(source, source_id)->Ok_0).1 is Ok,
    ensures
        ({
            let doc = spec_export_project(source, source_id)->Ok_0;
            let fin = spec_do_import(dest, doc).0;
            let servers = servers_in_document(doc);
            let ids = new_server_ids(dest, fin);
            let n = dest.server_databases.len() as int;
            &&& ids.len() == servers.len()
            &&& fin.server_databases.take(n) == dest.server_databases
            &&& fin.server_databases.skip(n).map_values(database_unnumbered()) == rows_of_servers(
                ids,
                servers,
                database_rows_of_server(),
            )
            &&& forall|k: int|
                0 <= k < servers.len() ==> (#[trigger] database_rows_of_server()(
                    ids[k],
                    servers[k],
                )).to_multiset() == select(
                    source.server_databases,
                    database_of(servers[k].server.id),
                    database_moved_to(ids[k]),
                ).to_multiset()
        }),
{
    let project = project_by_id(source, source_id)->0;
    let doc = spec_export_project(source, source_id)->Ok_0;
    let fin = spec_do_import(dest, doc).0;
    let servers = servers_in_document(doc);
    let ids = new_server_ids(dest, fin);
    let table = database_table();
    let strip = database_unnumbered();
    let rows_of = database_rows_of_server();
    assert forall|
        st: StorageView,
        project_id: i32,
        env: EnvironmentType,
        group_name: Option<Seq<char>>,
        server: ServerWithItemsImportExportView,
    |
        (#[trigger] spec_import_server(st, project_id, env, group_name, server)).1 is Ok implies grew_by(
        table(st),
        table(spec_import_server(st, project_id, env, group_name, server).0),
        rows_of(st.next_server_id()->0, server),
        strip,
    ) by {
        databases_of_server_are_written(st, project_id, env, group_name, server);
    }
    import_writes_the_items(dest, doc, table, strip, rows_of);
    lemma_grown_rows(
        dest.server_databases,
        fin.server_databases,
        rows_of_servers(ids, servers, rows_of),
        strip,
    );
    exported_servers_are_held_whole(source, source_id);
    assert forall|k: int| 0 <= k < servers.len() implies (#[trigger] rows_of(
        ids[k],
        servers[k],
    )).to_multiset() == select(
        source.server_databases,
        database_of(servers[k].server.id),
        database_moved_to(ids[k]),
    ).to_multiset() by {
        exported_database_rows(source, project, servers[k].server, ids[k]);
    }
}

/// The notes of all servers survive export and import. Where the
/// project `source_id` of `source` is exported and the import of the document
/// into `dest` succeeds, `dest` gains one server for each server of the
/// document, keeps its notes as they were, and gains behind them the
/// notes of these servers, server after server. Those that it gains
/// for a server are, as a collection, the notes that `source` holds
/// under the server as the document lists it: each of them once, with every
/// field as it was, group included, but for its identifier, which `dest`
/// assigns, and its server, which is the server that the import wrote.
pub proof fn all_server_notes_survive_export_and_import(
    source: StorageView,
    source_id: i32,
    dest: StorageView,
)
    requires
        spec_export_project(source, source_id) is Ok,
        spec_do_import(dest, spec_export_project(source, source_id)->Ok_0).1 is Ok,
    ensures
        ({
            let doc = spec_export_project(source, source_id)->Ok_0;
            let fin = spec_do_import(dest, doc).0;
            let servers = servers_in_document(doc);
            let ids = new_server_ids(dest, fin);
            let n = dest.server_notes.len() as int;
            &&& ids.len() == servers.len()
            &&& fin.server_notes.take(n) == dest.server_notes
            &&& fin.server_notes.skip(n).map_values(server_note_unnumbered()) == rows_of_servers(
                ids,
                servers,
                server_note_rows_of_server(),
            )
            &&& forall|k: int|
                0 <= k < servers.len() ==> (#[trigger] server_note_rows_of_server()(
                    ids[k],
                    servers[k],
                )).to_multiset() == select(
                    source.server_notes,
                    server_note_of(servers[k].server.id),
                    server_note_moved_to(ids[k]),
                ).to_multiset()
        }),
{
    let project = project_by_id(source, source_id)->0;
    let doc = spec_export_project(source, source_id)->Ok_0;
    let fin = spec_do_import(dest, doc).0;
    let servers = servers_in_document(doc);
    let ids = new_server_ids(dest, fin);
    let table = server_note_table();
    let strip = server_note_unnumbered();
    let rows_of = server_note_rows_of_server();
    assert forall|
        st: StorageView,
        project_id: i32,
        env: EnvironmentType,
        group_name: Option<Seq<char>>,
        server: ServerWithItemsImportExportView,
    |
        (#[trigger] spec_import_server(st, project_id, env, group_name, server)).1 is Ok implies grew_by(
        table(st),
        table(spec_import_server(st, project_id, env, group_name, server).0),
        rows_of(st.next_server_id()->0, server),
        strip,
    ) by {
        server_notes_of_server_are_written(st, project_id, env, group_name, server);
    }
    import_writes_the_items(dest, doc, table, strip, rows_of);
    lemma_grown_rows(
        dest.server_notes,
        fin.server_notes,
        rows_of_servers(ids, servers, rows_of),
        strip,
    );
    exported_servers_are_held_whole(source, source_id);
    assert forall|k: int| 0 <= k < servers.len() implies (#[trigger] rows_of(
        ids[k],
        servers[k],
    )).to_multiset() == select(
        source.server_notes,
        server_note_of(servers[k].server.id),
        server_note_moved_to(ids[k]),
    ).to_multiset() by {
        exported_server_note_rows(source, project, servers[k].server, ids[k]);
    }
}

/// The points of interest of all servers survive export and import. Where the
/// project `source_id` of `source` is exported and the import of the document
/// into `dest` succeeds, `dest` gains one server for each server of the
/// document, keeps its points of interest as they were, and gains behind them the
/// points of interest of these servers, server after server. Those that it gains
/// for a server are, as a collection, the points of interest that `source` holds
/// under the server as the document lists it: each of them once, with every
/// field as it was, group included, but for its identifier, which `dest`
/// assigns, and its server, which is the server that the import wrote.
pub proof fn all_server_pois_survive_export_and_import(
    source: StorageView,
    source_id: i32,
    dest: StorageView,
)
    requires
        spec_export_project(source, source_id) is Ok,
        spec_do_import(dest, spec_export_project(source, source_id)->Ok_0).1 is Ok,
    ensures
        ({
            let doc = spec_export_project(source, source_id)->Ok_0;
            let fin = spec_do_import(dest, doc).0;
            let servers = servers_in_document(doc);
            let ids = new_server_ids(dest, fin);
            let n = dest.server_pois.len() as int;
            &&& ids.len() == servers.len()
            &&& fin.server_pois.take(n) == dest.server_pois
            &&& fin.server_pois.skip(n).map_values(server_poi_unnumbered()) == rows_of_servers(
                ids,
                servers,
                server_poi_rows_of_server(),
            )
            &&& forall|k: int|
                0 <= k < servers.len() ==> (#[trigger] server_poi_rows_of_server()(
                    ids[k],
                    servers[k],
                )).to_multiset() == select(
                    source.server_pois,
                    server_poi_of(servers[k].server.id),
                    server_poi_moved_to(ids[k]),
                ).to_multiset()
        }),
{
    let project = project_by_id(source, source_id)->0;
    let doc = spec_export_project(source, source_id)->Ok_0;
    let fin = spec_do_import(dest, doc).0;
    let servers = servers_in_document(doc);
    let ids = new_server_ids(dest, fin);
    let table = server_poi_table();
    let strip = server_poi_unnumbered();
    let rows_of = server_poi_rows_of_server();
    assert forall|
        st: StorageView,
        project_id: i32,
        env: EnvironmentType,
        group_name: Option<Seq<char>>,
        server: ServerWithItemsImportExportView,
    |
        (#[trigger] spec_import_server(st, project_id, env, group_name, server)).1 is Ok implies grew_by(
        table(st),
        table(spec_import_server(st, project_id, env, group_name, server).0),
        rows_of(st.next_server_id()->0, server),
        strip,
    ) by {
        server_pois_of_server_are_written(st, project_id, env, group_name, server);
    }
    import_writes_the_items(dest, doc, table, strip, rows_of);
    lemma_grown_rows(
        dest.server_pois,
        fin.server_pois,
        rows_of_servers(ids, servers, rows_of),
        strip,
    );
    exported_servers_are_held_whole(source, source_id);
    assert forall|k: int| 0 <= k < servers.len() implies (#[trigger] rows_of(
        ids[k],
        servers[k],
    )).to_multiset() == select(
        source.server_pois,
        server_poi_of(servers[k].server.id),
        server_poi_moved_to(ids[k]),
    ).to_multiset() by {
        exported_server_poi_rows(source, project, servers[k].server, ids[k]);
    }
}

/// The extra user accounts of all servers survive export and import. Where the
/// project `source_id` of `source` is exported and the import of the document
/// into `dest` succeeds, `dest` gains one server for each server of the
/// document, keeps its extra user accounts as they were, and gains behind them the
/// extra user accounts of these servers, server after server. Those that it gains
/// for a server are, as a collection, the extra user accounts that `source` holds
/// under the server as the document lists it: each of them once, with every
/// field as it was, group included, but for its identifier, which `dest`
/// assigns, and its server, which is the server that the import wrote.
pub proof fn all_extra_users_survive_export_and_import(
    source: StorageView,
    source_id: i32,
    dest: StorageView,
)
    requires
        spec_export_project(source, source_id) is Ok,
        spec_do_import(dest, spec_export_project(source, source_id)->Ok_0).1 is Ok,
    ensures
        ({
            let doc = spec_export_project(source, source_id)->Ok_0;
            let fin = spec_do_import(dest, doc).0;
            let servers = servers_in_document(doc);
            let ids = new_server_ids(dest, fin);
            let n = dest.server_extra_users.len() as int;
            &&& ids.len() == servers.len()
            &&& fin.server_extra_users.take(n) == dest.server_extra_users
            &&& fin.server_extra_users.skip(n).map_values(extra_user_unnumbered()) == rows_of_servers(
                ids,
                servers,
                extra_user_rows_of_server(),
            )
            &&& forall|k: int|
                0 <= k < servers.len() ==> (#[trigger] extra_user_rows_of_server()(
                    ids[k],
                    servers[k],
                )).to_multiset() == select(
                    source.server_extra_users,
                    extra_user_of(servers[k].server.id),
                    extra_user_moved_to(ids[k]),
                ).to_multiset()
        }),
{
    let project = project_by_id(source, source_id)->0;
    let doc = spec_export_project(source, source_id)->Ok_0;
    let fin = spec_do_import(dest, doc).0;
    let servers = servers_in_document(doc);
    let ids = new_server_ids(dest, fin);
    let table = extra_user_table();
    let strip = extra_user_unnumbered();
    let rows_of = extra_user_rows_of_server();
    assert forall|
        st: StorageView,
        project_id: i32,
        env: EnvironmentType,
        group_name: Option<Seq<char>>,
        server: ServerWithItemsImportExportView,
    |
        (#[trigger] spec_import_server(st, project_id, env, group_name, server)).1 is Ok implies grew_by(
        table(st),
        table(spec_import_server(st, project_id, env, group_name, server).0),
        rows_of(st.next_server_id()->0, server),
        strip,
    ) by {
        extra_users_of_server_are_written(st, project_id, env, group_name, server);
    }
    import_writes_the_items(dest, doc, table, strip, rows_of);
    lemma_grown_rows(
        dest.server_extra_users,
        fin.server_extra_users,
        rows_of_servers(ids, servers, rows_of),
        strip,
    );
    exported_servers_are_held_whole(source, source_id);
    assert forall|k: int| 0 <= k < servers.len() implies (#[trigger] rows_of(
        ids[k],
        servers[k],
    )).to_multiset() == select(
        source.server_extra_users,
        extra_user_of(servers[k].server.id),
        extra_user_moved_to(ids[k]),
    ).to_multiset() by {
        exported_extra_user_rows(source, project, servers[k].server, ids[k]);
    }
}

// ---------------------------------------------------------------------------
// The websites
// ---------------------------------------------------------------------------
/// Whether an outcome is a success that leaves the servers of `before`
/// with one more for each of `servers` behind them, and defers the websites
/// of these servers, server after server, each under the identifier of its
/// server.
pub open spec fn websites_deferred(
    before: StorageView,
    outcome: Deferred,
    servers: Seq<ServerWithItemsImportExportView>,
) -> bool {
    &&& outcome.1 is Ok
    &&& outcome.0.servers.len() == before.servers.len() + servers.len()
    &&& forall|k: int| 0 <= k < before.servers.len() ==> outcome.0.servers[k] == before.servers[k]
    &&& outcome.1->Ok_0 == rows_of_servers(
        new_server_ids(before, outcome.0),
        servers,
        deferred_of_server(),
    )
}

/// Deferring twice is deferring the websites of both runs of servers.
pub proof fn lemma_websites_deferred_twice(
    a: StorageView,
    first: Deferred,
    second: Deferred,
    first_servers: Seq<ServerWithItemsImportExportView>,
    second_servers: Seq<ServerWithItemsImportExportView>,
)
    requires
        websites_deferred(a, first, first_servers),
        websites_deferred(first.0, second, second_servers),
    ensures
        websites_deferred(
            a,
            after_deferring(first.1->Ok_0, second),
            first_servers + second_servers,
        ),
{
    let b = first.0;
    let c = second.0;
    assert forall|k: int| 0 <= k < a.servers.len() implies c.servers[k] == a.servers[k] by {
        assert(c.servers[k] == b.servers[k]);
    }
    let ids_ab = new_server_ids(a, b);
    let ids_bc = new_server_ids(b, c);
    assert(new_server_ids(a, c) =~= ids_ab + ids_bc) by {
        assert forall|k: int| 0 <= k < ids_ab.len() implies new_server_ids(a, c)[k]
            == ids_ab[k] by {
            assert(c.servers[a.servers.len() + k] == b.servers[a.servers.len() + k]);
        }
    }
    lemma_rows_of_servers_joined(
        ids_ab,
        ids_bc,
        first_servers,
        second_servers,
        deferred_of_server(),
    );
}

/// The import of the servers of one group defers their websites, server
/// after server.
pub proof fn servers_defer_their_websites(
    st: StorageView,
    project_id: i32,
    env: EnvironmentType,
    group_name: Option<Seq<char>>,
    servers: Seq<ServerWithItemsImportExportView>,
)
    requires
        replay_deferring(st, servers, server_step(project_id, env, group_name)).1 is Ok,
    ensures
        websites_deferred(
            st,
            replay_deferring(st, servers, server_step(project_id, env, group_name)),
            servers,
        ),
    decreases servers.len(),
{
    let fin = replay_deferring(st, servers, server_step(project_id, env, group_name));
    if servers.len() == 0 {
        assert(rows_of_servers(new_server_ids(st, fin.0), servers, deferred_of_server())
            =~= Seq::<UnprocessedWebsiteView>::empty());
    } else {
        let after = spec_import_server(st, project_id, env, group_name, servers[0]);
        server_import_writes_one_row(st, project_id, env, group_name, servers[0]);
        let n = st.servers.len() as int;
        let ids = new_server_ids(st, after.0);
        assert(ids.len() == 1);
        assert(ids[0] == after.0.servers[n].id);
        assert(ids.skip(1).len() == 0);
        assert(rows_of_servers(ids, seq![servers[0]], deferred_of_server()) =~= deferred_of_server()(
            st.next_server_id()->0,
            servers[0],
        )) by {
            assert(seq![servers[0]][0] == servers[0]);
            assert(rows_of_servers(ids.skip(1), seq![servers[0]].skip(1), deferred_of_server())
                =~= Seq::<UnprocessedWebsiteView>::empty());
        }
        assert(websites_deferred(st, after, seq![servers[0]]));
        servers_defer_their_websites(after.0, project_id, env, group_name, servers.skip(1));
        lemma_websites_deferred_twice(
            st,
            after,
            replay_deferring(after.0, servers.skip(1), server_step(project_id, env, group_name)),
            seq![servers[0]],
            servers.skip(1),
        );
        assert(seq![servers[0]] + servers.skip(1) =~= servers);
    }
}

/// The first pass over one group of an environment defers the websites of
/// the group's servers.
pub proof fn env_group_defers_its_websites(
    st: StorageView,
    project_id: i32,
    items: ProjectEnvGroupImportExportView,
    env: EnvironmentType,
    group_name: Option<Seq<char>>,
)
    requires
        spec_import_project_env_group_first_pass(st, project_id, items, env, group_name).1 is Ok,
    ensures
        websites_deferred(
            st,
            spec_import_project_env_group_first_pass(st, project_id, items, env, group_name),
            items.servers,
        ),
{
    let kept = crate::round_trip::servers_kept();
    let s1 = replay(st, items.project_pois, project_poi_step(project_id, group_name)).0;
    lemma_replay_keeps(st, items.project_pois, project_poi_step(project_id, group_name), kept);
    let s2 = replay(s1, items.project_notes, project_note_step(project_id, group_name, env)).0;
    lemma_replay_keeps(
        s1,
        items.project_notes,
        project_note_step(project_id, group_name, env),
        kept,
    );
    let s3 = replay(s2, items.server_links, server_link_step(project_id, group_name, env)).0;
    lemma_replay_keeps(s2, items.server_links, server_link_step(project_id, group_name, env), kept);
    servers_defer_their_websites(s3, project_id, env, group_name, items.servers);
    let fin = replay_deferring(s3, items.servers, server_step(project_id, env, group_name));
    assert(new_server_ids(st, fin.0) =~= new_server_ids(s3, fin.0));
}

/// The first pass over the named groups of an environment defers the
/// websites of their servers, group after group.
pub proof fn env_groups_defer_their_websites(
    st: StorageView,
    project_id: i32,
    env: EnvironmentType,
    groups: Seq<(Seq<char>, ProjectEnvGroupImportExportView)>,
)
    requires
        replay_deferring(st, groups, env_group_step(project_id, env)).1 is Ok,
    ensures
        websites_deferred(
            st,
            replay_deferring(st, groups, env_group_step(project_id, env)),
            servers_in_groups(groups),
        ),
    decreases groups.len(),
{
    let fin = replay_deferring(st, groups, env_group_step(project_id, env));
    if groups.len() == 0 {
        assert(rows_of_servers(
            new_server_ids(st, fin.0),
            servers_in_groups(groups),
            deferred_of_server(),
        ) =~= Seq::<UnprocessedWebsiteView>::empty());
    } else {
        let after = spec_import_project_env_group_first_pass(
            st,
            project_id,
            groups[0].1,
            env,
            Some(groups[0].0),
        );
        env_group_defers_its_websites(st, project_id, groups[0].1, env, Some(groups[0].0));
        env_groups_defer_their_websites(after.0, project_id, env, groups.skip(1));
        lemma_websites_deferred_twice(
            st,
            after,
            replay_deferring(after.0, groups.skip(1), env_group_step(project_id, env)),
            groups[0].1.servers,
            servers_in_groups(groups.skip(1)),
        );
    }
}

/// The first pass over one environment, present or not, defers the
/// websites of the environment's servers.
pub proof fn env_defers_its_websites(
    st: StorageView,
    project_id: i32,
    env: EnvironmentType,
    project_env: Option<ProjectEnvImportExportView>,
)
    requires
        spec_first_pass_if_present(st, project_id, env, project_env).1 is Ok,
    ensures
        websites_deferred(
            st,
            spec_first_pass_if_present(st, project_id, env, project_env),
            servers_in_env(project_env),
        ),
{
    match project_env {
        Some(e) => {
            let first = spec_import_project_env_group_first_pass(
                st,
                project_id,
                e.items,
                env,
                None,
            );
            env_group_defers_its_websites(st, project_id, e.items, env, None);
            env_groups_defer_their_websites(first.0, project_id, env, e.items_in_groups);
            lemma_websites_deferred_twice(
                st,
                first,
                replay_deferring(first.0, e.items_in_groups, env_group_step(project_id, env)),
                e.items.servers,
                servers_in_groups(e.items_in_groups),
            );
        },
        None => {
            let fin = spec_first_pass_if_present(st, project_id, env, project_env);
            assert(rows_of_servers(
                new_server_ids(st, fin.0),
                Seq::<ServerWithItemsImportExportView>::empty(),
                deferred_of_server(),
            ) =~= Seq::<UnprocessedWebsiteView>::empty());
        },
    }
}

/// The first pass defers the websites of the servers of the document,
/// server after server.
pub proof fn first_pass_defers_the_websites(
    st: StorageView,
    project_id: i32,
    doc: ProjectImportExportView,
)
    requires
        spec_first_pass(st, project_id, doc).1 is Ok,
    ensures
        websites_deferred(st, spec_first_pass(st, project_id, doc), servers_in_document(doc)),
{
    let dev = EnvironmentType::EnvDevelopment;
    let stage = EnvironmentType::EnvStage;
    let uat = EnvironmentType::EnvUat;
    let prod = EnvironmentType::EnvProd;
    let o1 = spec_first_pass_if_present(st, project_id, dev, doc.development_environment);
    let o2 = then_first_pass(o1, project_id, stage, doc.staging_environment);
    let o3 = then_first_pass(o2, project_id, uat, doc.uat_environment);
    let o4 = then_first_pass(o3, project_id, prod, doc.prod_environment);
    assert(o4.1 is Ok);
    assert(o3.1 is Ok);
    assert(o2.1 is Ok);
    assert(o1.1 is Ok);
    env_defers_its_websites(st, project_id, dev, doc.development_environment);
    env_defers_its_websites(o1.0, project_id, stage, doc.staging_environment);
    env_defers_its_websites(o2.0, project_id, uat, doc.uat_environment);
    env_defers_its_websites(o3.0, project_id, prod, doc.prod_environment);
    let r1 = servers_in_env(doc.development_environment);
    let r2 = servers_in_env(doc.staging_environment);
    let r3 = servers_in_env(doc.uat_environment);
    let r4 = servers_in_env(doc.prod_environment);
    lemma_websites_deferred_twice(
        st,
        o1,
        spec_first_pass_if_present(o1.0, project_id, stage, doc.staging_environment),
        r1,
        r2,
    );
    lemma_websites_deferred_twice(
        st,
        o2,
        spec_first_pass_if_present(o2.0, project_id, uat, doc.uat_environment),
        r1 + r2,
        r3,
    );
    lemma_websites_deferred_twice(
        st,
        o3,
        spec_first_pass_if_present(o3.0, project_id, prod, doc.prod_environment),
        r1 + r2 + r3,
        r4,
    );
}

/// The rows of the deferred websites, server after server, are the rows
/// of the websites of the servers, server after server.
pub proof fn lemma_deferred_rows(ids: Seq<i32>, servers: Seq<ServerWithItemsImportExportView>)
    ensures
        rows_of_servers(ids, servers, deferred_of_server()).map_values(deferred_row())
            == rows_of_servers(ids, servers, website_rows_of_server()),
    decreases servers.len(),
{
    let deferred = rows_of_servers(ids, servers, deferred_of_server());
    if servers.len() == 0 || ids.len() == 0 {
        assert(deferred.map_values(deferred_row()) =~= Seq::<ServerWebsiteView>::empty());
    } else {
        lemma_deferred_rows(ids.skip(1), servers.skip(1));
        let head = deferred_of_server()(ids[0], servers[0]);
        let tail = rows_of_servers(ids.skip(1), servers.skip(1), deferred_of_server());
        assert((head + tail).map_values(deferred_row()) =~= head.map_values(deferred_row())
            + tail.map_values(deferred_row()));
    }
}

/// The websites of all servers survive export and import, the databases
/// that they point to aside. Where the project `source_id` of `source` is
/// exported and the import of the document into `dest` succeeds, `dest`
/// gains one server for each server of the document, keeps its websites as
/// they were, and gains behind them the websites of these servers, server
/// after server. Those that it gains for a server are, as a collection, the
/// websites that `source` holds under the server as the document lists it:
/// each of them once, with every field as it was, group included, but for
/// its identifier, its server, which is the server that the import wrote,
/// and the database that it points to.
pub proof fn all_websites_survive_export_and_import(
    source: StorageView,
    source_id: i32,
    dest: StorageView,
)
    requires
        spec_export_project(source, source_id) is Ok,
        spec_do_import(dest, spec_export_project(source, source_id)->Ok_0).1 is Ok,
    ensures
        ({
            let doc = spec_export_project(source, source_id)->Ok_0;
            let fin = spec_do_import(dest, doc).0;
            let servers = servers_in_document(doc);
            let ids = new_server_ids(dest, fin);
            let n = dest.server_websites.len() as int;
            &&& ids.len() == servers.len()
            &&& fin.server_websites.take(n) == dest.server_websites
            &&& fin.server_websites.skip(n).map_values(website_unreferenced()) == rows_of_servers(
                ids,
                servers,
                website_rows_of_server(),
            )
            &&& forall|k: int|
                0 <= k < servers.len() ==> (#[trigger] website_rows_of_server()(
                    ids[k],
                    servers[k],
                )).to_multiset() == select(
                    source.server_websites,
                    website_of(servers[k].server.id),
                    website_moved_to(ids[k]),
                ).to_multiset()
        }),
{
    let project = project_by_id(source, source_id)->0;
    let doc = spec_export_project(source, source_id)->Ok_0;
    let fin = spec_do_import(dest, doc).0;
    let servers = servers_in_document(doc);
    let ids = new_server_ids(dest, fin);
    let project_id = dest.next_project_id()->0;
    let s0 = dest.add_project(project_row(doc));
    let first = spec_first_pass(s0, project_id, doc);
    let pending = first.1->Ok_0;
    first_pass_defers_the_websites(s0, project_id, doc);
    first_pass_keeps(s0, project_id, doc, websites_kept());
    second_pass_writes_websites_only(first.0, pending);
    deferred_websites_are_written(first.0, pending);
    assert(new_server_ids(dest, fin) =~= new_server_ids(s0, first.0));
    lemma_deferred_rows(ids, servers);
    lemma_grown_rows(
        dest.server_websites,
        fin.server_websites,
        pending.map_values(deferred_row()),
        website_unreferenced(),
    );
    exported_servers_are_held_whole(source, source_id);
    assert forall|k: int| 0 <= k < servers.len() implies (#[trigger] website_rows_of_server()(
        ids[k],
        servers[k],
    )).to_multiset() == select(
        source.server_websites,
        website_of(servers[k].server.id),
        website_moved_to(ids[k]),
    ).to_multiset() by {
        exported_website_rows(source, project, servers[k].server, ids[k]);
    }
}

} // verus!
