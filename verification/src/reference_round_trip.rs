//! References to databases of the project, exported and imported into
//! empty storage: where the descriptions in the project tell its servers
//! and their databases apart, the description that the document gives of a
//! database designates, after the import, the database that came from it.

use vstd::prelude::*;
use crate::document::{ServerGroupImportExportView, ServerWithItemsImportExportView};
use crate::export::{
    database_by_id, database_path_of, env_group_item, env_group_of, env_if_present, env_of,
    has_environment, is_database, is_server, project_by_id, server_by_id, server_path_of,
    server_wanted, server_with_items, spec_export_project,
};
use crate::groups::project_item_group_names;
use crate::guarantees::{
    deferred_by, exported_project_row_survives_import, import_keeps_identifiers_growing,
    import_resolves_websites_in_final_storage,
};
use crate::import::{project_exists, spec_do_import};
use crate::items_round_trip::{
    all_databases_survive_export_and_import, new_server_ids, rows_of_servers, servers_in_document,
    servers_in_env, servers_in_groups,
};
use crate::link_round_trip::{links_of_document, links_survive_export_and_import, points_to};
use crate::resolve::{
    database_answers, matching_databases, matching_servers, project_named, resolve_database,
    server_answers, ResolveError,
};
use crate::round_trip::{
    import_writes_the_servers, moved_to, server_exported, server_unnumbered, servers_of_document,
    servers_of_env, servers_of_group, servers_of_groups, servers_survive_export_and_import,
};
use crate::rows::{ProjectView, ServerDatabaseView, ServerView};
use crate::select::{
    grew_by, lemma_filter_kept, lemma_filter_mapped, lemma_filter_none, lemma_filter_one,
    lemma_filter_same, lemma_the_one_selected, select,
};
use crate::server_round_trip::{
    database_moved_to, database_of, database_rows_of_groups, database_rows_of_server,
    database_unnumbered,
};
use crate::storage::StorageView;
use crate::types::EnvironmentType;

verus! {

// ---------------------------------------------------------------------------
// The servers of a document and their rows
// ---------------------------------------------------------------------------
/// Whether `rows` are the servers of the list as an import into the
/// project `project_id` writes them, identifiers aside, and every server of
/// the list is a server of storage that a document of the project lists.
pub open spec fn listed_as(
    st: StorageView,
    project: ProjectView,
    project_id: i32,
    rows: Seq<ServerView>,
    servers: Seq<ServerWithItemsImportExportView>,
) -> bool {
    &&& rows.len() == servers.len()
    &&& forall|k: int|
        0 <= k < servers.len() ==> {
            &&& rows[k] == moved_to(project_id)((#[trigger] servers[k]).server)
            &&& st.servers.contains(servers[k].server)
            &&& server_exported(project)(servers[k].server)
        }
}

/// Two lists with their rows make one list with its rows.
proof fn lemma_listed_joined(
    st: StorageView,
    project: ProjectView,
    project_id: i32,
    rows: Seq<ServerView>,
    servers: Seq<ServerWithItemsImportExportView>,
    more_rows: Seq<ServerView>,
    more_servers: Seq<ServerWithItemsImportExportView>,
)
    requires
        listed_as(st, project, project_id, rows, servers),
        listed_as(st, project, project_id, more_rows, more_servers),
    ensures
        listed_as(st, project, project_id, rows + more_rows, servers + more_servers),
{
    let all = servers + more_servers;
    assert forall|k: int| 0 <= k < all.len() implies {
        &&& (rows + more_rows)[k] == moved_to(project_id)((#[trigger] all[k]).server)
        &&& st.servers.contains(all[k].server)
        &&& server_exported(project)(all[k].server)
    } by {
        if k < servers.len() {
            assert(all[k] == servers[k]);
        } else {
            assert(all[k] == more_servers[k - servers.len()]);
        }
    }
}

/// The servers that a document lists under one group of an environment
/// which the project has.
proof fn lemma_group_listed(
    st: StorageView,
    project: ProjectView,
    project_id: i32,
    env: EnvironmentType,
    group_name: Option<Seq<char>>,
)
    requires
        has_environment(project, env),
    ensures
        listed_as(
            st,
            project,
            project_id,
            servers_of_group(
                project_id,
                env,
                group_name,
                env_group_of(st, project, env, group_name).servers,
            ),
            env_group_of(st, project, env, group_name).servers,
        ),
{
    let wanted = server_wanted(project.id, env, group_name);
    let servers = env_group_of(st, project, env, group_name).servers;
    let rows = servers_of_group(project_id, env, group_name, servers);
    assert forall|k: int| 0 <= k < servers.len() implies {
        &&& rows[k] == moved_to(project_id)((#[trigger] servers[k]).server)
        &&& st.servers.contains(servers[k].server)
        &&& server_exported(project)(servers[k].server)
    } by {
        let i = lemma_filter_kept(st.servers, wanted, k);
        assert(servers[k] == server_with_items(st, project)(st.servers.filter(wanted)[k]));
        assert(servers[k].server == st.servers[i]);
    }
}

/// The servers that a document lists under named groups of an
/// environment which the project has.
proof fn lemma_groups_listed(
    st: StorageView,
    project: ProjectView,
    project_id: i32,
    env: EnvironmentType,
    names: Seq<Seq<char>>,
)
    requires
        has_environment(project, env),
    ensures
        listed_as(
            st,
            project,
            project_id,
            servers_of_groups(project_id, env, names.map_values(env_group_item(st, project, env))),
            servers_in_groups(names.map_values(env_group_item(st, project, env))),
        ),
    decreases names.len(),
{
    let groups = names.map_values(env_group_item(st, project, env));
    if names.len() > 0 {
        assert(groups.skip(1) =~= names.skip(1).map_values(env_group_item(st, project, env)));
        assert(groups[0] == (names[0], env_group_of(st, project, env, Some(names[0]))));
        lemma_groups_listed(st, project, project_id, env, names.skip(1));
        lemma_group_listed(st, project, project_id, env, Some(names[0]));
        lemma_listed_joined(
            st,
            project,
            project_id,
            servers_of_group(project_id, env, Some(groups[0].0), groups[0].1.servers),
            groups[0].1.servers,
            servers_of_groups(project_id, env, groups.skip(1)),
            servers_in_groups(groups.skip(1)),
        );
    }
}

/// The servers that a document lists under one environment.
proof fn lemma_env_listed(
    st: StorageView,
    project: ProjectView,
    project_id: i32,
    env: EnvironmentType,
)
    ensures
        listed_as(
            st,
            project,
            project_id,
            servers_of_env(project_id, env, env_if_present(st, project, env)),
            servers_in_env(env_if_present(st, project, env)),
        ),
{
    if has_environment(project, env) {
        let e = env_of(st, project, env);
        lemma_group_listed(st, project, project_id, env, None);
        lemma_groups_listed(
            st,
            project,
            project_id,
            env,
            project_item_group_names(st, project.id),
        );
        lemma_listed_joined(
            st,
            project,
            project_id,
            servers_of_group(project_id, env, None, e.items.servers),
            e.items.servers,
            servers_of_groups(project_id, env, e.items_in_groups),
            servers_in_groups(e.items_in_groups),
        );
    }
}

/// The servers of an exported document are servers of the project: the
/// row that an import writes for each is the row of a server which storage
/// holds for the project, in an environment of the project, moved to the
/// importing project.
pub proof fn exported_servers_are_listed(st: StorageView, source_id: i32, project_id: i32)
    requires
        spec_export_project(st, source_id) is Ok,
    ensures
        listed_as(
            st,
            project_by_id(st, source_id)->0,
            project_id,
            servers_of_document(project_id, spec_export_project(st, source_id)->Ok_0),
            servers_in_document(spec_export_project(st, source_id)->Ok_0),
        ),
{
    let project = project_by_id(st, source_id)->0;
    let doc = spec_export_project(st, source_id)->Ok_0;
    let dev = EnvironmentType::EnvDevelopment;
    let stage = EnvironmentType::EnvStage;
    let uat = EnvironmentType::EnvUat;
    let prod = EnvironmentType::EnvProd;
    lemma_env_listed(st, project, project_id, dev);
    lemma_env_listed(st, project, project_id, stage);
    lemma_env_listed(st, project, project_id, uat);
    lemma_env_listed(st, project, project_id, prod);
    let r1 = servers_of_env(project_id, dev, doc.development_environment);
    let r2 = servers_of_env(project_id, stage, doc.staging_environment);
    let r3 = servers_of_env(project_id, uat, doc.uat_environment);
    let r4 = servers_of_env(project_id, prod, doc.prod_environment);
    let s1 = servers_in_env(doc.development_environment);
    let s2 = servers_in_env(doc.staging_environment);
    let s3 = servers_in_env(doc.uat_environment);
    let s4 = servers_in_env(doc.prod_environment);
    lemma_listed_joined(st, project, project_id, r1, s1, r2, s2);
    lemma_listed_joined(st, project, project_id, r1 + r2, s1 + s2, r3, s3);
    lemma_listed_joined(st, project, project_id, r1 + r2 + r3, s1 + s2 + s3, r4, s4);
}

// ---------------------------------------------------------------------------
// The server that a description designates
// ---------------------------------------------------------------------------
/// Whether the server at `place` is the only server that a document of
/// the project lists in its environment under its description.
pub open spec fn server_described_once(st: StorageView, project: ProjectView, place: int) -> bool {
    forall|j: int|
        0 <= j < st.servers.len() && server_exported(project)(#[trigger] st.servers[j])
            && st.servers[j].environment == st.servers[place].environment && st.servers[j].desc
            == st.servers[place].desc ==> j == place
}

/// The test that a server passes when it stands in `env` under `desc`.
pub open spec fn server_described(env: EnvironmentType, desc: Seq<char>) -> spec_fn(
    ServerView,
) -> bool {
    |s: ServerView| s.environment == env && s.desc == desc
}

/// Where a table of servers holds, in some order and identifiers aside,
/// the wanted servers of another table moved to one project, and one wanted
/// server is the only one in its environment under its description, exactly
/// one server of the table answers to the project's name, that environment
/// and that description: the one that stands for this server.
proof fn lemma_one_server_answers(
    projects: Seq<ProjectView>,
    name: Seq<char>,
    project_id: i32,
    table: Seq<ServerView>,
    rows: Seq<ServerView>,
    wanted: spec_fn(ServerView) -> bool,
    place: int,
) -> (k: int)
    requires
        table.map_values(server_unnumbered()).to_multiset() == select(
            rows,
            wanted,
            moved_to(project_id),
        ).to_multiset(),
        forall|i: int| 0 <= i < table.len() ==> (#[trigger] table[i]).project_id == project_id,
        project_named(projects, project_id, name),
        0 <= place < rows.len(),
        wanted(rows[place]),
        forall|j: int|
            0 <= j < rows.len() && wanted(#[trigger] rows[j]) && rows[j].environment
                == rows[place].environment && rows[j].desc == rows[place].desc ==> j == place,
    ensures
        0 <= k < table.len(),
        table.filter(server_answers(projects, name, rows[place].environment, rows[place].desc))
            == seq![table[k]],
        server_unnumbered()(table[k]) == moved_to(project_id)(rows[place]),
{
    let server = rows[place];
    let strip = server_unnumbered();
    let described = server_described(server.environment, server.desc);
    let answers = server_answers(projects, name, server.environment, server.desc);
    let before = |s: ServerView| described(strip(s));
    lemma_the_one_selected(
        table.map_values(strip),
        rows,
        wanted,
        moved_to(project_id),
        described,
        place,
    );
    lemma_filter_mapped(table, strip, described, before);
    lemma_filter_same(table, answers, before);
    let found = table.filter(before);
    assert(found.map_values(strip) == seq![moved_to(project_id)(server)]);
    assert(found.map_values(strip).len() == 1);
    let k = lemma_filter_kept(table, before, 0);
    assert(found =~= seq![table[k]]);
    assert(strip(table[k]) == found.map_values(strip)[0]);
    k
}

/// Where an empty table of servers grew by the rows of the servers that a
/// document of the project lists, and one server of the project is the only
/// one listed in its environment under its description, exactly one server
/// of the table answers to that description in the project named last: the
/// row written for this server, at the place where the server stands in the
/// list.
proof fn lemma_listed_rows(
    source: StorageView,
    project: ProjectView,
    project_id: i32,
    before: Seq<ServerView>,
    table: Seq<ServerView>,
    projects: Seq<ProjectView>,
    rows: Seq<ServerView>,
    servers: Seq<ServerWithItemsImportExportView>,
    place: int,
) -> (k: int)
    requires
        before.len() == 0,
        grew_by(before, table, rows, server_unnumbered()),
        listed_as(source, project, project_id, rows, servers),
        table.skip(0).map_values(server_unnumbered()).to_multiset() == select(
            source.servers,
            server_exported(project),
            moved_to(project_id),
        ).to_multiset(),
        projects.len() > 0,
        projects.last().id == project_id,
        projects.last().name == project.name,
        0 <= place < source.servers.len(),
        server_exported(project)(source.servers[place]),
        server_described_once(source, project, place),
    ensures
        0 <= k < table.len(),
        table.len() == servers.len(),
        table.filter(
            server_answers(
                projects,
                project.name,
                source.servers[place].environment,
                source.servers[place].desc,
            ),
        ) == seq![table[k]],
        server_unnumbered()(table[k]) == moved_to(project_id)(source.servers[place]),
        servers[k].server == source.servers[place],
{
    let strip = server_unnumbered();
    assert(table.skip(0) =~= table);
    assert forall|i: int| 0 <= i < table.len() implies (#[trigger] table[i]).project_id
        == project_id by {
        assert(strip(table[before.len() + i]) == rows[i]);
        assert(rows[i] == moved_to(project_id)(servers[i].server));
    }
    assert(project_named(projects, project_id, project.name)) by {
        let last = projects.len() - 1;
        assert(projects[last].id == project_id && projects[last].name == project.name);
    }
    let k = lemma_one_server_answers(
        projects,
        project.name,
        project_id,
        table,
        source.servers,
        server_exported(project),
        place,
    );
    assert(strip(table[before.len() + k]) == rows[k]);
    assert(rows[k] == moved_to(project_id)(servers[k].server));
    let j = choose|j: int| 0 <= j < source.servers.len() && source.servers[j] == servers[k].server;
    assert(server_exported(project)(source.servers[j]));
    assert(j == place);
    k
}

/// A server of the project is found again under its description. Where a
/// project is exported and the document is imported into empty storage, and
/// a server of the project is the only one that the document lists in its
/// environment under its description, then after the import exactly one
/// server answers to the project's name, that environment and that
/// description. It is the server that the import wrote for this server: it
/// has its fields, the identifier and the project aside, and it stands in
/// the table where the server stands in the document.
pub proof fn described_server_is_found(source: StorageView, source_id: i32, place: int) -> (k: int)
    requires
        spec_export_project(source, source_id) is Ok,
        spec_do_import(StorageView::empty(), spec_export_project(source, source_id)->Ok_0).1 is Ok,
        0 <= place < source.servers.len(),
        server_exported(project_by_id(source, source_id)->0)(source.servers[place]),
        server_described_once(source, project_by_id(source, source_id)->0, place),
    ensures
        ({
            let project = project_by_id(source, source_id)->0;
            let doc = spec_export_project(source, source_id)->Ok_0;
            let dest = StorageView::empty();
            let fin = spec_do_import(dest, doc).0;
            let server = source.servers[place];
            &&& 0 <= k < fin.servers.len()
            &&& fin.servers.len() == servers_in_document(doc).len()
            &&& matching_servers(fin, project.name, server.environment, server.desc)
                == seq![fin.servers[k]]
            &&& server_unnumbered()(fin.servers[k]) == moved_to(dest.next_project_id()->0)(server)
            &&& servers_in_document(doc)[k].server == server
        }),
{
    let project = project_by_id(source, source_id)->0;
    let doc = spec_export_project(source, source_id)->Ok_0;
    let dest = StorageView::empty();
    let fin = spec_do_import(dest, doc).0;
    let new_id = dest.next_project_id()->0;
    let server = source.servers[place];
    let servers = servers_in_document(doc);
    let rows = servers_of_document(new_id, doc);
    let strip = server_unnumbered();
    assert(dest.servers.len() == 0 && dest.projects.len() == 0);
    assert(!project_exists(dest, project.name));
    servers_survive_export_and_import(source, source_id, dest);
    import_writes_the_servers(dest, doc);
    exported_servers_are_listed(source, source_id, new_id);
    exported_project_row_survives_import(source, source_id, dest);
    lemma_listed_rows(
        source,
        project,
        new_id,
        dest.servers,
        fin.servers,
        fin.projects,
        rows,
        servers,
        place,
    )
}

// ---------------------------------------------------------------------------
// The database that a description designates
// ---------------------------------------------------------------------------
/// Whether the database at `place` is the only database of its server
/// under its description.
pub open spec fn database_described_once(st: StorageView, place: int) -> bool {
    forall|j: int|
        0 <= j < st.server_databases.len() && (#[trigger] st.server_databases[j]).server_id
            == st.server_databases[place].server_id && st.server_databases[j].desc
            == st.server_databases[place].desc ==> j == place
}

/// Every database that an import writes for a server stands under the
/// identifier of that server.
proof fn lemma_group_rows_are_of_the_server(
    server_id: i32,
    groups: Seq<(Seq<char>, ServerGroupImportExportView)>,
)
    ensures
        forall|i: int|
            0 <= i < database_rows_of_groups(server_id, groups).len() ==> (
            #[trigger] database_rows_of_groups(server_id, groups)[i]).server_id == server_id,
    decreases groups.len(),
{
    if groups.len() > 0 {
        lemma_group_rows_are_of_the_server(server_id, groups.skip(1));
    }
}

/// Every database that an import writes for a server stands under the
/// identifier of that server.
proof fn lemma_rows_are_of_the_server(server_id: i32, server: ServerWithItemsImportExportView)
    ensures
        forall|i: int|
            0 <= i < database_rows_of_server()(server_id, server).len() ==> (
            #[trigger] database_rows_of_server()(server_id, server)[i]).server_id == server_id,
{
    lemma_group_rows_are_of_the_server(server_id, server.items_in_groups);
}

/// Among the rows that the servers bring, those that pass a test which
/// only rows of the server at place `k` can pass are the rows of that
/// server that pass it; where there is no such place, none passes.
proof fn lemma_rows_of_one_server<R>(
    ids: Seq<i32>,
    servers: Seq<ServerWithItemsImportExportView>,
    rows_of: spec_fn(i32, ServerWithItemsImportExportView) -> Seq<R>,
    pred: spec_fn(R) -> bool,
    k: int,
)
    requires
        ids.len() == servers.len(),
        forall|j: int, i: int|
            0 <= j < servers.len() && j != k && 0 <= i < rows_of(ids[j], servers[j]).len() ==> !pred(
                #[trigger] rows_of(ids[j], servers[j])[i],
            ),
    ensures
        rows_of_servers(ids, servers, rows_of).filter(pred) == (if 0 <= k < servers.len() {
            rows_of(ids[k], servers[k]).filter(pred)
        } else {
            Seq::<R>::empty()
        }),
    decreases servers.len(),
{
    if servers.len() == 0 {
        Seq::<R>::empty().lemma_filter_len(pred);
        assert(Seq::<R>::empty().filter(pred) =~= Seq::<R>::empty());
    } else {
        let first = rows_of(ids[0], servers[0]);
        let rest = rows_of_servers(ids.skip(1), servers.skip(1), rows_of);
        assert forall|j: int, i: int|
            0 <= j < servers.skip(1).len() && j != k - 1 && 0 <= i < rows_of(
                ids.skip(1)[j],
                servers.skip(1)[j],
            ).len() implies !pred(#[trigger] rows_of(ids.skip(1)[j], servers.skip(1)[j])[i]) by {
            assert(ids.skip(1)[j] == ids[j + 1]);
            assert(servers.skip(1)[j] == servers[j + 1]);
        }
        lemma_rows_of_one_server(ids.skip(1), servers.skip(1), rows_of, pred, k - 1);
        Seq::filter_distributes_over_add(first, rest, pred);
        if k == 0 {
            assert(first.filter(pred) + Seq::<R>::empty() =~= first.filter(pred));
        } else {
            lemma_filter_none(first, pred);
            assert(first.filter(pred) =~= Seq::<R>::empty());
            assert(Seq::<R>::empty() + rest.filter(pred) =~= rest.filter(pred));
            if 0 < k < servers.len() {
                assert(ids.skip(1)[k - 1] == ids[k]);
                assert(servers.skip(1)[k - 1] == servers[k]);
            }
        }
    }
}

/// A server of a storage whose identifiers grow is the server that its
/// identifier finds.
proof fn lemma_server_found_by_id(st: StorageView, place: int)
    requires
        st.wf(),
        0 <= place < st.servers.len(),
    ensures
        server_by_id(st, st.servers[place].id) == Some(st.servers[place]),
{
    let server = st.servers[place];
    assert forall|j: int| 0 <= j < st.servers.len() && is_server(server.id)(
        #[trigger] st.servers[j],
    ) implies j == place by {
        let ids = st.server_ids();
        assert(ids[j] == st.servers[j].id && ids[place] == server.id);
        if j < place {
            assert(ids[j] < ids[place]);
        } else if place < j {
            assert(ids[place] < ids[j]);
        }
    }
    lemma_filter_one(st.servers, is_server(server.id), place);
}

/// A database of a storage whose identifiers grow is the database that
/// its identifier finds.
proof fn lemma_database_found_by_id(st: StorageView, place: int)
    requires
        st.wf(),
        0 <= place < st.server_databases.len(),
    ensures
        database_by_id(st, st.server_databases[place].id) == Some(st.server_databases[place]),
{
    let database = st.server_databases[place];
    assert forall|j: int| 0 <= j < st.server_databases.len() && is_database(database.id)(
        #[trigger] st.server_databases[j],
    ) implies j == place by {
        let ids = st.server_database_ids();
        assert(ids[j] == st.server_databases[j].id && ids[place] == database.id);
        if j < place {
            assert(ids[j] < ids[place]);
        } else if place < j {
            assert(ids[place] < ids[j]);
        }
    }
    lemma_filter_one(st.server_databases, is_database(database.id), place);
}

/// Where a table of databases holds, identifiers aside, the rows that
/// servers with different identifiers bring, server after server, and the
/// rows of the server at place `k` are, in some order, the databases of a
/// server of another table moved to it, one of which is the only one under
/// its description, then exactly one database of the table answers to the
/// identifier of the server at `k` and that description: the one that
/// stands for this database.
proof fn lemma_one_database_answers(
    table: Seq<ServerDatabaseView>,
    ids: Seq<i32>,
    servers: Seq<ServerWithItemsImportExportView>,
    rows: Seq<ServerDatabaseView>,
    k: int,
    place: int,
) -> (at: int)
    requires
        table.map_values(database_unnumbered()) == rows_of_servers(
            ids,
            servers,
            database_rows_of_server(),
        ),
        ids.len() == servers.len(),
        0 <= k < servers.len(),
        forall|i: int, j: int| 0 <= i < j < ids.len() ==> ids[i] != ids[j],
        0 <= place < rows.len(),
        database_rows_of_server()(ids[k], servers[k]).to_multiset() == select(
            rows,
            database_of(rows[place].server_id),
            database_moved_to(ids[k]),
        ).to_multiset(),
        forall|j: int|
            0 <= j < rows.len() && (#[trigger] rows[j]).server_id == rows[place].server_id
                && rows[j].desc == rows[place].desc ==> j == place,
    ensures
        0 <= at < table.len(),
        table.filter(database_answers(ids[k], rows[place].desc)) == seq![table[at]],
        database_unnumbered()(table[at]) == database_moved_to(ids[k])(rows[place]),
{
    let database = rows[place];
    let rows_of = database_rows_of_server();
    let strip = database_unnumbered();
    let answers = database_answers(ids[k], database.desc);
    lemma_the_one_selected(
        rows_of(ids[k], servers[k]),
        rows,
        database_of(database.server_id),
        database_moved_to(ids[k]),
        answers,
        place,
    );
    assert forall|j: int, i: int|
        0 <= j < servers.len() && j != k && 0 <= i < rows_of(ids[j], servers[j]).len() implies !answers(
            #[trigger] rows_of(ids[j], servers[j])[i],
        ) by {
        lemma_rows_are_of_the_server(ids[j], servers[j]);
        if j < k {
            assert(ids[j] != ids[k]);
        } else {
            assert(ids[k] != ids[j]);
        }
    }
    lemma_rows_of_one_server(ids, servers, rows_of, answers, k);
    lemma_filter_mapped(table, strip, answers, answers);
    let matching = table.filter(answers);
    assert(matching.map_values(strip) == seq![database_moved_to(ids[k])(database)]);
    assert(matching.map_values(strip).len() == 1);
    let at = lemma_filter_kept(table, answers, 0);
    assert(matching =~= seq![table[at]]);
    assert(strip(table[at]) == matching.map_values(strip)[0]);
    at
}

/// The identifiers of the servers of a storage whose identifiers grow
/// are all different.
proof fn lemma_server_ids_differ(st: StorageView, ids: Seq<i32>)
    requires
        st.wf(),
        ids.len() == st.servers.len(),
        forall|j: int| 0 <= j < ids.len() ==> ids[j] == st.servers[j].id,
    ensures
        forall|i: int, j: int| 0 <= i < j < ids.len() ==> ids[i] != ids[j],
{
    let all = st.server_ids();
    assert forall|i: int, j: int| 0 <= i < j < ids.len() implies ids[i] != ids[j] by {
        assert(all[i] == ids[i] && all[j] == ids[j]);
        assert(all[i] < all[j]);
    }
}

/// A reference to a database of the project survives export and import.
/// Where a project is exported from storage with growing identifiers and
/// the document is imported into empty storage, a database on a server of
/// the project is found again under the path by which the document refers
/// to it, provided that the descriptions tell them apart: the server is the
/// only one that the document lists in its environment under its
/// description, and the database the only one of the server under its
/// description. The path then resolves, in storage as the import leaves it,
/// to the database that the import wrote for this database: the row at
/// `found.1`, which has the fields of the database, the identifier aside,
/// under the server at `found.0`, which the import wrote for its server.
/// A website that refers to the database therefore refers, after the
/// import, to the database that came from it.
pub proof fn reference_into_the_project_survives(
    source: StorageView,
    source_id: i32,
    server_place: int,
    database_place: int,
    env: EnvironmentType,
) -> (found: (int, int))
    requires
        source.wf(),
        spec_export_project(source, source_id) is Ok,
        spec_do_import(StorageView::empty(), spec_export_project(source, source_id)->Ok_0).1 is Ok,
        0 <= server_place < source.servers.len(),
        server_exported(project_by_id(source, source_id)->0)(source.servers[server_place]),
        server_described_once(source, project_by_id(source, source_id)->0, server_place),
        0 <= database_place < source.server_databases.len(),
        source.server_databases[database_place].server_id == source.servers[server_place].id,
        database_described_once(source, database_place),
    ensures
        ({
            let project = project_by_id(source, source_id)->0;
            let doc = spec_export_project(source, source_id)->Ok_0;
            let dest = StorageView::empty();
            let fin = spec_do_import(dest, doc).0;
            let server = source.servers[server_place];
            let database = source.server_databases[database_place];
            &&& 0 <= found.0 < fin.servers.len()
            &&& 0 <= found.1 < fin.server_databases.len()
            &&& server_unnumbered()(fin.servers[found.0]) == moved_to(dest.next_project_id()->0)(
                server,
            )
            &&& database_unnumbered()(fin.server_databases[found.1]) == database_moved_to(
                fin.servers[found.0].id,
            )(database)
            &&& resolve_database(fin, database_path_of(source, project, env, database.id)) == Ok::<
                i32,
                ResolveError,
            >(fin.server_databases[found.1].id)
        }),
{
    let project = project_by_id(source, source_id)->0;
    let doc = spec_export_project(source, source_id)->Ok_0;
    let dest = StorageView::empty();
    let fin = spec_do_import(dest, doc).0;
    let server = source.servers[server_place];
    let database = source.server_databases[database_place];
    let servers = servers_in_document(doc);
    let k = described_server_is_found(source, source_id, server_place);
    all_databases_survive_export_and_import(source, source_id, dest);
    assert(dest.wf());
    import_keeps_identifiers_growing(dest, doc);
    lemma_server_found_by_id(source, server_place);
    lemma_database_found_by_id(source, database_place);
    assert(dest.servers.len() == 0 && dest.server_databases.len() == 0);
    assert(fin.servers.skip(0) =~= fin.servers);
    assert(fin.server_databases.skip(0) =~= fin.server_databases);
    let ids = new_server_ids(dest, fin);
    assert(ids.len() == fin.servers.len());
    assert forall|j: int| 0 <= j < ids.len() implies ids[j] == fin.servers[j].id by {}
    lemma_server_ids_differ(fin, ids);
    assert(database_rows_of_server()(ids[k], servers[k]).to_multiset() == select(
        source.server_databases,
        database_of(servers[k].server.id),
        database_moved_to(ids[k]),
    ).to_multiset());
    let at = lemma_one_database_answers(
        fin.server_databases,
        ids,
        servers,
        source.server_databases,
        k,
        database_place,
    );
    lemma_resolved(
        fin,
        source,
        project,
        env,
        server,
        database,
        fin.servers[k],
        fin.server_databases[at],
    );
    (k, at)
}

/// The path of a database of the project resolves to the one database
/// that answers to its description under the one server that answers to the
/// description of its server.
proof fn lemma_resolved(
    fin: StorageView,
    source: StorageView,
    project: ProjectView,
    env: EnvironmentType,
    server: ServerView,
    database: ServerDatabaseView,
    new_server: ServerView,
    new_database: ServerDatabaseView,
)
    requires
        database_by_id(source, database.id) == Some(database),
        server_by_id(source, database.server_id) == Some(server),
        server.project_id == project.id,
        matching_servers(fin, project.name, server.environment, server.desc) == seq![new_server],
        matching_databases(fin, new_server.id, database.desc) == seq![new_database],
    ensures
        resolve_database(fin, database_path_of(source, project, env, database.id)) == Ok::<
            i32,
            ResolveError,
        >(new_database.id),
{
}

/// A website keeps its database through export and import. Under the
/// conditions of [`reference_into_the_project_survives`], a website of the
/// document that refers to the database is written by the import with the
/// identifier of the database that the import wrote for it.
pub proof fn website_keeps_its_database(
    source: StorageView,
    source_id: i32,
    server_place: int,
    database_place: int,
    env: EnvironmentType,
    website: int,
) -> (found: (int, int))
    requires
        source.wf(),
        spec_export_project(source, source_id) is Ok,
        spec_do_import(StorageView::empty(), spec_export_project(source, source_id)->Ok_0).1 is Ok,
        0 <= server_place < source.servers.len(),
        server_exported(project_by_id(source, source_id)->0)(source.servers[server_place]),
        server_described_once(source, project_by_id(source, source_id)->0, server_place),
        0 <= database_place < source.server_databases.len(),
        source.server_databases[database_place].server_id == source.servers[server_place].id,
        database_described_once(source, database_place),
        0 <= website < deferred_by(
            StorageView::empty(),
            spec_export_project(source, source_id)->Ok_0,
        ).len(),
        deferred_by(
            StorageView::empty(),
            spec_export_project(source, source_id)->Ok_0,
        )[website].website.server_database == Some(
            database_path_of(
                source,
                project_by_id(source, source_id)->0,
                env,
                source.server_databases[database_place].id,
            ),
        ),
    ensures
        ({
            let doc = spec_export_project(source, source_id)->Ok_0;
            let dest = StorageView::empty();
            let fin = spec_do_import(dest, doc).0;
            &&& 0 <= found.0 < fin.servers.len()
            &&& 0 <= found.1 < fin.server_databases.len()
            &&& website < fin.server_websites.len()
            &&& server_unnumbered()(fin.servers[found.0]) == moved_to(dest.next_project_id()->0)(
                source.servers[server_place],
            )
            &&& database_unnumbered()(fin.server_databases[found.1]) == database_moved_to(
                fin.servers[found.0].id,
            )(source.server_databases[database_place])
            &&& fin.server_websites[website].server_database_id == Some(
                fin.server_databases[found.1].id,
            )
        }),
{
    let doc = spec_export_project(source, source_id)->Ok_0;
    let dest = StorageView::empty();
    let fin = spec_do_import(dest, doc).0;
    let found = reference_into_the_project_survives(
        source,
        source_id,
        server_place,
        database_place,
        env,
    );
    import_resolves_websites_in_final_storage(dest, doc);
    assert(dest.server_websites.len() == 0);
    assert(fin.server_websites[dest.server_websites.len() + website].server_database_id == Some(
        fin.server_databases[found.1].id,
    ));
    found
}

// ---------------------------------------------------------------------------
// Server links
// ---------------------------------------------------------------------------
/// A server link keeps its server through export and import. Where a
/// project is exported from storage with growing identifiers and the
/// document is imported into empty storage, and a server of the project is
/// the only one that the document lists in its environment under its
/// description, a server link of the document that points to this server is
/// written by the import with the identifier of the server that the import
/// wrote for it: the row at place `k` of the servers, which has the fields
/// of the server, the identifier and the project aside.
pub proof fn link_keeps_its_server(
    source: StorageView,
    source_id: i32,
    place: int,
    env: EnvironmentType,
    link: int,
) -> (k: int)
    requires
        source.wf(),
        spec_export_project(source, source_id) is Ok,
        spec_do_import(StorageView::empty(), spec_export_project(source, source_id)->Ok_0).1 is Ok,
        0 <= place < source.servers.len(),
        server_exported(project_by_id(source, source_id)->0)(source.servers[place]),
        server_described_once(source, project_by_id(source, source_id)->0, place),
        0 <= link < links_of_document(
            StorageView::empty().next_project_id()->0,
            spec_export_project(source, source_id)->Ok_0,
        ).len(),
        links_of_document(
            StorageView::empty().next_project_id()->0,
            spec_export_project(source, source_id)->Ok_0,
        )[link].1 == server_path_of(
            source,
            project_by_id(source, source_id)->0,
            env,
            source.servers[place].id,
        ),
    ensures
        ({
            let doc = spec_export_project(source, source_id)->Ok_0;
            let dest = StorageView::empty();
            let fin = spec_do_import(dest, doc).0;
            &&& 0 <= k < fin.servers.len()
            &&& link < fin.server_links.len()
            &&& server_unnumbered()(fin.servers[k]) == moved_to(dest.next_project_id()->0)(
                source.servers[place],
            )
            &&& fin.server_links[link].linked_server_id == fin.servers[k].id
        }),
{
    let project = project_by_id(source, source_id)->0;
    let doc = spec_export_project(source, source_id)->Ok_0;
    let dest = StorageView::empty();
    let fin = spec_do_import(dest, doc).0;
    let server = source.servers[place];
    let k = described_server_is_found(source, source_id, place);
    links_survive_export_and_import(source, source_id, dest);
    lemma_server_found_by_id(source, place);
    assert(dest.server_links.len() == 0);
    let entries = links_of_document(dest.next_project_id()->0, doc);
    let written = fin.server_links[dest.server_links.len() + link];
    assert(points_to(fin, entries[link].1, written.linked_server_id));
    let answers = server_answers(fin.projects, project.name, server.environment, server.desc);
    let i = choose|i: int|
        0 <= i < fin.servers.len() && (#[trigger] fin.servers[i]).id == written.linked_server_id
            && answers(fin.servers[i]);
    fin.servers.lemma_filter_contains(answers, i);
    assert(seq![fin.servers[k]].contains(fin.servers[i]));
    k
}

} // verus!
