//! Export followed by import: what comes back of a project. The servers of
//! a project as a whole, and one by one a note, a point of interest, a
//! server link and a reference to a database.

use vstd::prelude::*;
use crate::document::{
    ProjectEnvGroupImportExportView, ProjectEnvImportExportView, ProjectImportExportView,
    ProjectNoteImportExportView, ServerGroupImportExportView, ServerWithItemsImportExportView,
};
use crate::export::{
    database_by_id, database_path_of, earlier_environment, env_group_item, env_group_of,
    env_if_present, env_of, has_environment, note_in, note_in_earlier_environment,
    project_by_id, project_note_item, project_poi_item, server_by_id, server_link_item,
    server_path_of, server_wanted, server_with_items, spec_export_project,
};
use crate::groups::{
    lemma_ascending_no_duplicates, lemma_project_item_group_names, project_item_group_names,
    server_labels,
};
use crate::guarantees::{second_pass_writes_websites_only, unique_server_description_resolves};
use crate::import::{
    database_step, env_group_step, matching_notes, note_answers, project_note_step,
    project_poi_step, project_row, server_group_step, server_link_step, server_note_step,
    server_poi_step, server_row, server_step, server_user_step, spec_do_import, spec_first_pass,
    spec_first_pass_if_present, spec_import_project_env_first_pass,
    spec_import_project_env_group_first_pass, spec_import_project_note, spec_import_project_poi,
    spec_import_server, spec_import_server_items, spec_import_server_link, then_first_pass,
};
use crate::replay::{lemma_replay_keeps, replay, replay_deferring, Written};
use crate::resolve::{database_answers, resolve_database, server_answers};
use crate::rows::{
    ProjectNoteView, ProjectPointOfInterestView, ProjectView, ServerLinkView, ServerView,
};
use crate::select::{
    either, grew_by, lemma_filter_one, lemma_grew_twice, lemma_grown_rows, lemma_select_nothing,
    lemma_select_same, lemma_select_split, select,
};
use crate::storage::{present_in, StorageView};
use crate::types::EnvironmentType;

verus! {

// ---------------------------------------------------------------------------
// What an import writes to the table of servers
// ---------------------------------------------------------------------------
/// A server row without its identifier.
pub open spec fn server_unnumbered() -> spec_fn(ServerView) -> ServerView {
    |s: ServerView| ServerView { id: 0, ..s }
}

/// The table of servers is the same in both storages.
pub open spec fn servers_kept() -> spec_fn(StorageView, StorageView) -> bool {
    |a: StorageView, b: StorageView| a.servers == b.servers
}

/// The servers that one group of an environment brings, as rows of the
/// project `project_id`.
pub open spec fn servers_of_group(
    project_id: i32,
    env: EnvironmentType,
    group_name: Option<Seq<char>>,
    servers: Seq<ServerWithItemsImportExportView>,
) -> Seq<ServerView> {
    servers.map_values(
        |s: ServerWithItemsImportExportView| server_row(project_id, env, group_name, s.server),
    )
}

/// The servers that the named groups of an environment bring, group after
/// group.
pub open spec fn servers_of_groups(
    project_id: i32,
    env: EnvironmentType,
    groups: Seq<(Seq<char>, ProjectEnvGroupImportExportView)>,
) -> Seq<ServerView>
    decreases groups.len(),
{
    if groups.len() == 0 {
        Seq::empty()
    } else {
        servers_of_group(project_id, env, Some(groups[0].0), groups[0].1.servers)
            + servers_of_groups(project_id, env, groups.skip(1))
    }
}

/// The servers that an environment brings: the ungrouped ones, then those
/// of the named groups.
pub open spec fn servers_of_env(
    project_id: i32,
    env: EnvironmentType,
    project_env: Option<ProjectEnvImportExportView>,
) -> Seq<ServerView> {
    match project_env {
        Some(e) => servers_of_group(project_id, env, None, e.items.servers) + servers_of_groups(
            project_id,
            env,
            e.items_in_groups,
        ),
        None => Seq::empty(),
    }
}

/// The servers that a document brings, in the order in which an import
/// writes them.
pub open spec fn servers_of_document(project_id: i32, doc: ProjectImportExportView) -> Seq<
    ServerView,
> {
    servers_of_env(project_id, EnvironmentType::EnvDevelopment, doc.development_environment)
        + servers_of_env(project_id, EnvironmentType::EnvStage, doc.staging_environment)
        + servers_of_env(project_id, EnvironmentType::EnvUat, doc.uat_environment) + servers_of_env(
        project_id,
        EnvironmentType::EnvProd,
        doc.prod_environment,
    )
}

/// The items of a server bring no server.
pub proof fn server_items_bring_no_server(
    st: StorageView,
    server_id: i32,
    group_name: Option<Seq<char>>,
    items: ServerGroupImportExportView,
)
    ensures
        spec_import_server_items(st, server_id, group_name, items).0.servers == st.servers,
{
    let kept = servers_kept();
    let (s1, r1) = replay(st, items.server_databases, database_step(server_id, group_name));
    lemma_replay_keeps(st, items.server_databases, database_step(server_id, group_name), kept);
    let (s2, r2) = replay(s1, items.server_notes, server_note_step(server_id, group_name));
    lemma_replay_keeps(s1, items.server_notes, server_note_step(server_id, group_name), kept);
    let (s3, r3) = replay(s2, items.server_pois, server_poi_step(server_id, group_name));
    lemma_replay_keeps(s2, items.server_pois, server_poi_step(server_id, group_name), kept);
    lemma_replay_keeps(s3, items.server_extra_users, server_user_step(server_id, group_name), kept);
}

/// The import of one server writes one row to the table of servers: the
/// server as the document holds it, placed in its project, environment and
/// group, under the next identifier of the table.
pub proof fn server_import_writes_one_row(
    st: StorageView,
    project_id: i32,
    env: EnvironmentType,
    group_name: Option<Seq<char>>,
    server: ServerWithItemsImportExportView,
)
    requires
        spec_import_server(st, project_id, env, group_name, server).1 is Ok,
    ensures
        grew_by(
            st.servers,
            spec_import_server(st, project_id, env, group_name, server).0.servers,
            seq![server_row(project_id, env, group_name, server.server)],
            server_unnumbered(),
        ),
        spec_import_server(st, project_id, env, group_name, server).0.servers[st.servers.len() as int].id
            == st.next_server_id()->0,
{
    let server_id = st.next_server_id()->0;
    let kept = servers_kept();
    let s1 = st.add_server(server_row(project_id, env, group_name, server.server));
    server_items_bring_no_server(s1, server_id, None, server.items);
    let (s2, r2) = spec_import_server_items(s1, server_id, None, server.items);
    let step = server_group_step(server_id);
    assert forall|a: StorageView, x: (Seq<char>, ServerGroupImportExportView)|
        kept(a, (#[trigger] step(a, x)).0) by {
        server_items_bring_no_server(a, server_id, Some(x.0), x.1);
    }
    lemma_replay_keeps(s2, server.items_in_groups, step, kept);
    let s3 = replay(s2, server.items_in_groups, step).0;
    assert(s3.servers == s1.servers);
    assert(s1.servers.len() == st.servers.len() + 1);
}

/// The import of the servers of one group writes one row for each, in order.
pub proof fn servers_import_writes_their_rows(
    st: StorageView,
    project_id: i32,
    env: EnvironmentType,
    group_name: Option<Seq<char>>,
    servers: Seq<ServerWithItemsImportExportView>,
)
    requires
        replay_deferring(st, servers, server_step(project_id, env, group_name)).1 is Ok,
    ensures
        grew_by(
            st.servers,
            replay_deferring(st, servers, server_step(project_id, env, group_name)).0.servers,
            servers_of_group(project_id, env, group_name, servers),
            server_unnumbered(),
        ),
    decreases servers.len(),
{
    let rows = servers_of_group(project_id, env, group_name, servers);
    if servers.len() > 0 {
        let (after, r) = spec_import_server(st, project_id, env, group_name, servers[0]);
        server_import_writes_one_row(st, project_id, env, group_name, servers[0]);
        servers_import_writes_their_rows(after, project_id, env, group_name, servers.skip(1));
        let rest = servers_of_group(project_id, env, group_name, servers.skip(1));
        lemma_grew_twice(
            st.servers,
            after.servers,
            replay_deferring(st, servers, server_step(project_id, env, group_name)).0.servers,
            seq![server_row(project_id, env, group_name, servers[0].server)],
            rest,
            server_unnumbered(),
        );
        assert(seq![server_row(project_id, env, group_name, servers[0].server)] + rest =~= rows);
    }
}

/// The first pass over one group of an environment writes the group's
/// servers to the table of servers, and no other row.
pub proof fn env_group_writes_its_servers(
    st: StorageView,
    project_id: i32,
    items: ProjectEnvGroupImportExportView,
    env: EnvironmentType,
    group_name: Option<Seq<char>>,
)
    requires
        spec_import_project_env_group_first_pass(st, project_id, items, env, group_name).1 is Ok,
    ensures
        grew_by(
            st.servers,
            spec_import_project_env_group_first_pass(st, project_id, items, env, group_name).0.servers,
            servers_of_group(project_id, env, group_name, items.servers),
            server_unnumbered(),
        ),
{
    let kept = servers_kept();
    let (s1, r1) = replay(st, items.project_pois, project_poi_step(project_id, group_name));
    lemma_replay_keeps(st, items.project_pois, project_poi_step(project_id, group_name), kept);
    let (s2, r2) = replay(s1, items.project_notes, project_note_step(project_id, group_name, env));
    lemma_replay_keeps(
        s1,
        items.project_notes,
        project_note_step(project_id, group_name, env),
        kept,
    );
    let (s3, r3) = replay(s2, items.server_links, server_link_step(project_id, group_name, env));
    lemma_replay_keeps(s2, items.server_links, server_link_step(project_id, group_name, env), kept);
    servers_import_writes_their_rows(s3, project_id, env, group_name, items.servers);
}

/// The first pass over the named groups of an environment writes their
/// servers, group after group.
pub proof fn env_groups_write_their_servers(
    st: StorageView,
    project_id: i32,
    env: EnvironmentType,
    groups: Seq<(Seq<char>, ProjectEnvGroupImportExportView)>,
)
    requires
        replay_deferring(st, groups, env_group_step(project_id, env)).1 is Ok,
    ensures
        grew_by(
            st.servers,
            replay_deferring(st, groups, env_group_step(project_id, env)).0.servers,
            servers_of_groups(project_id, env, groups),
            server_unnumbered(),
        ),
    decreases groups.len(),
{
    if groups.len() > 0 {
        let (after, r) = spec_import_project_env_group_first_pass(
            st,
            project_id,
            groups[0].1,
            env,
            Some(groups[0].0),
        );
        env_group_writes_its_servers(st, project_id, groups[0].1, env, Some(groups[0].0));
        env_groups_write_their_servers(after, project_id, env, groups.skip(1));
        lemma_grew_twice(
            st.servers,
            after.servers,
            replay_deferring(st, groups, env_group_step(project_id, env)).0.servers,
            servers_of_group(project_id, env, Some(groups[0].0), groups[0].1.servers),
            servers_of_groups(project_id, env, groups.skip(1)),
            server_unnumbered(),
        );
    }
}

/// The first pass over one environment, present or not, writes the
/// environment's servers.
pub proof fn env_writes_its_servers(
    st: StorageView,
    project_id: i32,
    env: EnvironmentType,
    project_env: Option<ProjectEnvImportExportView>,
)
    requires
        spec_first_pass_if_present(st, project_id, env, project_env).1 is Ok,
    ensures
        grew_by(
            st.servers,
            spec_first_pass_if_present(st, project_id, env, project_env).0.servers,
            servers_of_env(project_id, env, project_env),
            server_unnumbered(),
        ),
{
    if let Some(e) = project_env {
        let (s1, r1) = spec_import_project_env_group_first_pass(st, project_id, e.items, env, None);
        env_group_writes_its_servers(st, project_id, e.items, env, None);
        env_groups_write_their_servers(s1, project_id, env, e.items_in_groups);
        lemma_grew_twice(
            st.servers,
            s1.servers,
            spec_import_project_env_first_pass(st, project_id, env, e).0.servers,
            servers_of_group(project_id, env, None, e.items.servers),
            servers_of_groups(project_id, env, e.items_in_groups),
            server_unnumbered(),
        );
    }
}

/// The first pass writes the servers of the document, environment after
/// environment.
pub proof fn first_pass_writes_the_servers(
    st: StorageView,
    project_id: i32,
    doc: ProjectImportExportView,
)
    requires
        spec_first_pass(st, project_id, doc).1 is Ok,
    ensures
        grew_by(
            st.servers,
            spec_first_pass(st, project_id, doc).0.servers,
            servers_of_document(project_id, doc),
            server_unnumbered(),
        ),
{
    let dev = EnvironmentType::EnvDevelopment;
    let stage = EnvironmentType::EnvStage;
    let uat = EnvironmentType::EnvUat;
    let prod = EnvironmentType::EnvProd;
    let o1 = spec_first_pass_if_present(st, project_id, dev, doc.development_environment);
    let o2 = then_first_pass(o1, project_id, stage, doc.staging_environment);
    let o3 = then_first_pass(o2, project_id, uat, doc.uat_environment);
    let o4 = then_first_pass(o3, project_id, prod, doc.prod_environment);
    assert(o4.1 is Ok);
    assert(o3.1 is Ok);
    assert(o2.1 is Ok);
    assert(o1.1 is Ok);
    env_writes_its_servers(st, project_id, dev, doc.development_environment);
    env_writes_its_servers(o1.0, project_id, stage, doc.staging_environment);
    env_writes_its_servers(o2.0, project_id, uat, doc.uat_environment);
    env_writes_its_servers(o3.0, project_id, prod, doc.prod_environment);
    let r1 = servers_of_env(project_id, dev, doc.development_environment);
    let r2 = servers_of_env(project_id, stage, doc.staging_environment);
    let r3 = servers_of_env(project_id, uat, doc.uat_environment);
    let r4 = servers_of_env(project_id, prod, doc.prod_environment);
    lemma_grew_twice(st.servers, o1.0.servers, o2.0.servers, r1, r2, server_unnumbered());
    lemma_grew_twice(st.servers, o2.0.servers, o3.0.servers, r1 + r2, r3, server_unnumbered());
    lemma_grew_twice(st.servers, o3.0.servers, o4.0.servers, r1 + r2 + r3, r4, server_unnumbered());
}

/// An import writes the servers of the document. After an import that
/// succeeds, the table of servers holds its old rows and, behind them, one
/// row for each server of the document: environment after environment, in
/// each the ungrouped servers before the groups, with the contents that the
/// document gives, in the project that the import created, in the
/// environment and group under which the document holds the server.
pub proof fn import_writes_the_servers(st: StorageView, doc: ProjectImportExportView)
    requires
        spec_do_import(st, doc).1 is Ok,
    ensures
        grew_by(
            st.servers,
            spec_do_import(st, doc).0.servers,
            servers_of_document(st.next_project_id()->0, doc),
            server_unnumbered(),
        ),
{
    let project_id = st.next_project_id()->0;
    let s0 = st.add_project(project_row(doc));
    let (s1, r1) = spec_first_pass(s0, project_id, doc);
    first_pass_writes_the_servers(s0, project_id, doc);
    second_pass_writes_websites_only(s1, r1->Ok_0);
}

// ---------------------------------------------------------------------------
// What a document of a project lists
// ---------------------------------------------------------------------------
/// A server as it comes back from an import into the project
/// `project_id`: with every field as it was, but for its identifier, which
/// storage assigns anew, and its project.
pub open spec fn moved_to(project_id: i32) -> spec_fn(ServerView) -> ServerView {
    |s: ServerView| ServerView { id: 0, project_id, ..s }
}

/// The test that a server of the project passes when it stands in `env`
/// under one of the named groups.
pub open spec fn server_in_groups(project_id: i32, env: EnvironmentType, names: Seq<Seq<char>>) -> spec_fn(
    ServerView,
) -> bool {
    |s: ServerView|
        s.project_id == project_id && s.environment == env && s.group_name is Some
            && names.contains(s.group_name->0)
}

/// The test that a server of the project passes when it stands in `env`,
/// and the project has that environment.
pub open spec fn server_in_env(project: ProjectView, env: EnvironmentType) -> spec_fn(
    ServerView,
) -> bool {
    |s: ServerView|
        s.project_id == project.id && s.environment == env && has_environment(project, env)
}

/// The test that the servers which a document of the project lists pass:
/// those of the project that stand in an environment which the project has.
pub open spec fn server_exported(project: ProjectView) -> spec_fn(ServerView) -> bool {
    |s: ServerView| s.project_id == project.id && has_environment(project, s.environment)
}

/// The servers that a document lists under one group of one environment
/// are the servers of the project in that environment and group, in table
/// order.
pub proof fn exported_group_lists_its_servers(
    st: StorageView,
    project: ProjectView,
    env: EnvironmentType,
    group_name: Option<Seq<char>>,
    project_id: i32,
)
    ensures
        servers_of_group(
            project_id,
            env,
            group_name,
            env_group_of(st, project, env, group_name).servers,
        ) == select(st.servers, server_wanted(project.id, env, group_name), moved_to(project_id)),
{
    let wanted = server_wanted(project.id, env, group_name);
    let found = st.servers.filter(wanted);
    let listed = servers_of_group(
        project_id,
        env,
        group_name,
        env_group_of(st, project, env, group_name).servers,
    );
    let target = select(st.servers, wanted, moved_to(project_id));
    assert(listed.len() == target.len());
    assert forall|k: int| 0 <= k < listed.len() implies listed[k] == target[k] by {
        st.servers.lemma_filter_pred(wanted, k);
        assert(wanted(found[k]));
        assert(server_with_items(st, project)(found[k]).server == found[k]);
    }
    assert(listed =~= target);
}

/// The servers that a document lists under named groups of one
/// environment are, as a collection, the servers of the project that stand
/// in that environment under one of these groups.
pub proof fn exported_groups_list_their_servers(
    st: StorageView,
    project: ProjectView,
    env: EnvironmentType,
    names: Seq<Seq<char>>,
    project_id: i32,
)
    requires
        names.no_duplicates(),
    ensures
        servers_of_groups(
            project_id,
            env,
            names.map_values(env_group_item(st, project, env)),
        ).to_multiset() == select(
            st.servers,
            server_in_groups(project.id, env, names),
            moved_to(project_id),
        ).to_multiset(),
    decreases names.len(),
{
    let groups = names.map_values(env_group_item(st, project, env));
    let moved = moved_to(project_id);
    let in_groups = server_in_groups(project.id, env, names);
    if names.len() == 0 {
        lemma_select_nothing(st.servers, in_groups, moved);
    } else {
        let first = server_wanted(project.id, env, Some(names[0]));
        let others = server_in_groups(project.id, env, names.skip(1));
        assert(groups.skip(1) =~= names.skip(1).map_values(env_group_item(st, project, env)));
        assert(names.skip(1).no_duplicates()) by {
            assert forall|i: int, j: int|
                0 <= i < names.skip(1).len() && 0 <= j < names.skip(1).len() && i != j implies names.skip(
                1,
            )[i] != names.skip(1)[j] by {
                assert(names[i + 1] != names[j + 1]);
            }
        }
        exported_groups_list_their_servers(st, project, env, names.skip(1), project_id);
        exported_group_lists_its_servers(st, project, env, Some(names[0]), project_id);
        let bucket = servers_of_group(project_id, env, Some(groups[0].0), groups[0].1.servers);
        let rest = servers_of_groups(project_id, env, groups.skip(1));
        vstd::seq_lib::lemma_multiset_commutative(bucket, rest);
        assert forall|i: int| 0 <= i < st.servers.len() implies !(first(#[trigger] st.servers[i])
            && others(st.servers[i])) by {
            let s = st.servers[i];
            if first(s) && others(s) {
                let k = choose|k: int| 0 <= k < names.skip(1).len() && names.skip(1)[k] == names[0];
                assert(names[k + 1] == names[0]);
            }
        }
        lemma_select_split(st.servers, first, others, moved);
        assert forall|i: int| 0 <= i < st.servers.len() implies either(first, others)(
            #[trigger] st.servers[i],
        ) == in_groups(st.servers[i]) by {
            let s = st.servers[i];
            if s.group_name is Some {
                let x = s.group_name->0;
                if names.contains(x) {
                    let k = choose|k: int| 0 <= k < names.len() && names[k] == x;
                    if k > 0 {
                        assert(names.skip(1)[k - 1] == x);
                    }
                }
                if names.skip(1).contains(x) {
                    let k = choose|k: int| 0 <= k < names.skip(1).len() && names.skip(1)[k] == x;
                    assert(names[k + 1] == x);
                }
                if x == names[0] {
                    assert(names.contains(x));
                }
            }
        }
        lemma_select_same(st.servers, either(first, others), in_groups, moved);
    }
}

/// The servers that a document lists under one environment are, as a
/// collection, the servers of the project that stand in that environment;
/// and none where the project does not have the environment.
pub proof fn exported_env_lists_its_servers(
    st: StorageView,
    project: ProjectView,
    env: EnvironmentType,
    project_id: i32,
)
    ensures
        servers_of_env(project_id, env, env_if_present(st, project, env)).to_multiset() == select(
            st.servers,
            server_in_env(project, env),
            moved_to(project_id),
        ).to_multiset(),
{
    let moved = moved_to(project_id);
    let in_env = server_in_env(project, env);
    if has_environment(project, env) {
        let names = project_item_group_names(st, project.id);
        lemma_project_item_group_names(st, project.id);
        lemma_ascending_no_duplicates(names);
        let ungrouped = server_wanted(project.id, env, None);
        let grouped = server_in_groups(project.id, env, names);
        exported_group_lists_its_servers(st, project, env, None, project_id);
        exported_groups_list_their_servers(st, project, env, names, project_id);
        let e = env_of(st, project, env);
        let bucket = servers_of_group(project_id, env, None, e.items.servers);
        let rest = servers_of_groups(project_id, env, e.items_in_groups);
        vstd::seq_lib::lemma_multiset_commutative(bucket, rest);
        lemma_select_split(st.servers, ungrouped, grouped, moved);
        assert forall|i: int| 0 <= i < st.servers.len() implies either(ungrouped, grouped)(
            #[trigger] st.servers[i],
        ) == in_env(st.servers[i]) by {
            let s = st.servers[i];
            if in_env(s) && s.group_name is Some {
                assert(server_labels(st)[i] == (project.id, s.group_name));
                assert(server_labels(st).contains((project.id, Some(s.group_name->0))));
                assert(names.contains(s.group_name->0));
            }
        }
        lemma_select_same(st.servers, either(ungrouped, grouped), in_env, moved);
    } else {
        lemma_select_nothing(st.servers, in_env, moved);
    }
}

/// A document lists every server of its project once. The servers that
/// the document of a project brings are, as a collection, the servers of the
/// project that stand in an environment which the project has: each of them
/// once, with every field as storage holds it, identifier and project aside.
pub proof fn exported_document_lists_the_servers(st: StorageView, source_id: i32, project_id: i32)
    requires
        spec_export_project(st, source_id) is Ok,
    ensures
        servers_of_document(project_id, spec_export_project(st, source_id)->Ok_0).to_multiset()
            == select(
            st.servers,
            server_exported(project_by_id(st, source_id)->0),
            moved_to(project_id),
        ).to_multiset(),
{
    broadcast use vstd::multiset::group_multiset_axioms;

    let project = project_by_id(st, source_id)->0;
    let doc = spec_export_project(st, source_id)->Ok_0;
    let moved = moved_to(project_id);
    let dev = EnvironmentType::EnvDevelopment;
    let stage = EnvironmentType::EnvStage;
    let uat = EnvironmentType::EnvUat;
    let prod = EnvironmentType::EnvProd;
    let r1 = servers_of_env(project_id, dev, doc.development_environment);
    let r2 = servers_of_env(project_id, stage, doc.staging_environment);
    let r3 = servers_of_env(project_id, uat, doc.uat_environment);
    let r4 = servers_of_env(project_id, prod, doc.prod_environment);
    exported_env_lists_its_servers(st, project, dev, project_id);
    exported_env_lists_its_servers(st, project, stage, project_id);
    exported_env_lists_its_servers(st, project, uat, project_id);
    exported_env_lists_its_servers(st, project, prod, project_id);
    vstd::seq_lib::lemma_multiset_commutative(r1, r2);
    vstd::seq_lib::lemma_multiset_commutative(r1 + r2, r3);
    vstd::seq_lib::lemma_multiset_commutative(r1 + r2 + r3, r4);
    let in_dev = server_in_env(project, dev);
    let in_stage = server_in_env(project, stage);
    let in_uat = server_in_env(project, uat);
    let in_prod = server_in_env(project, prod);
    let dev_or_stage = either(in_dev, in_stage);
    let up_to_uat = either(dev_or_stage, in_uat);
    let any_env = either(up_to_uat, in_prod);
    lemma_select_split(st.servers, in_dev, in_stage, moved);
    lemma_select_split(st.servers, dev_or_stage, in_uat, moved);
    lemma_select_split(st.servers, up_to_uat, in_prod, moved);
    lemma_select_same(st.servers, any_env, server_exported(project), moved);
}

// ---------------------------------------------------------------------------
// Export followed by import
// ---------------------------------------------------------------------------
/// The servers survive export and import. Where the project `source_id`
/// of `source` is exported and the import of the document into `dest`
/// succeeds, `dest` keeps its servers as they were, and the servers that it
/// gains are, as a collection, the servers of the exported project that stand
/// in an environment which the project has: each of them once, with every
/// field as it was in `source`, but for its identifier and its project,
/// which `dest` assigns.
pub proof fn servers_survive_export_and_import(source: StorageView, source_id: i32, dest: StorageView)
    requires
        spec_export_project(source, source_id) is Ok,
        spec_do_import(dest, spec_export_project(source, source_id)->Ok_0).1 is Ok,
    ensures
        ({
            let fin = spec_do_import(dest, spec_export_project(source, source_id)->Ok_0).0;
            let n = dest.servers.len() as int;
            &&& fin.servers.take(n) == dest.servers
            &&& fin.servers.skip(n).map_values(server_unnumbered()).to_multiset()
                == select(
                source.servers,
                server_exported(project_by_id(source, source_id)->0),
                moved_to(dest.next_project_id()->0),
            ).to_multiset()
        }),
{
    let doc = spec_export_project(source, source_id)->Ok_0;
    let fin = spec_do_import(dest, doc).0;
    let project_id = dest.next_project_id()->0;
    let n = dest.servers.len() as int;
    import_writes_the_servers(dest, doc);
    exported_document_lists_the_servers(source, source_id, project_id);
    lemma_grown_rows(
        dest.servers,
        fin.servers,
        servers_of_document(project_id, doc),
        server_unnumbered(),
    );
}

// ---------------------------------------------------------------------------
// A note through the environments
// ---------------------------------------------------------------------------
/// An outcome followed by the import of a note as the document of
/// `project` holds it in `env`. Nothing is imported where the outcome is a
/// failure, where the project does not have the environment, or where the
/// note is not present in it.
pub open spec fn then_note(
    outcome: Written,
    project: ProjectView,
    note: ProjectNoteView,
    project_id: i32,
    env: EnvironmentType,
) -> Written {
    if outcome.1 is Ok && has_environment(project, env) && note_in(note, env) {
        spec_import_project_note(
            outcome.0,
            project_id,
            note.group_name,
            env,
            project_note_item(project, env)(note),
        )
    } else {
        outcome
    }
}

/// The import of a note as a document of `project` holds it, environment
/// after environment, into the project `project_id`.
pub open spec fn note_through_environments(
    st: StorageView,
    project: ProjectView,
    note: ProjectNoteView,
    project_id: i32,
) -> Written {
    then_note(
        then_note(
            then_note(
                then_note(
                    (st, Ok(())),
                    project,
                    note,
                    project_id,
                    EnvironmentType::EnvDevelopment,
                ),
                project,
                note,
                project_id,
                EnvironmentType::EnvStage,
            ),
            project,
            note,
            project_id,
            EnvironmentType::EnvUat,
        ),
        project,
        note,
        project_id,
        EnvironmentType::EnvProd,
    )
}

/// A note as it comes back from an import into the project `project_id`:
/// with its title, contents and group, present in the environments in which
/// it was present and which the exported project has.
pub open spec fn note_moved_to(
    id: i32,
    project_id: i32,
    project: ProjectView,
    note: ProjectNoteView,
) -> ProjectNoteView {
    ProjectNoteView {
        id,
        project_id,
        has_dev: note.has_dev && project.has_dev,
        has_stage: note.has_stage && project.has_stage,
        has_uat: note.has_uat && project.has_uat,
        has_prod: note.has_prod && project.has_prod,
        ..note
    }
}

/// A marker finds the note that was just written. Where storage is `st`
/// with one more note, `row`, which is the only note of its project with its
/// title and group, the import of a marker for that title marks this row and
/// changes nothing else.
pub proof fn marker_marks_the_new_row(
    st: StorageView,
    row: ProjectNoteView,
    env: EnvironmentType,
    marker: ProjectNoteImportExportView,
)
    requires
        st.wf(),
        st.next_project_note_id() == Some(row.id),
        matching_notes(st, row.title, row.group_name, row.project_id).len() == 0,
        marker.shared_with_other_environments == Some(row.title),
    ensures
        spec_import_project_note(
            StorageView { project_notes: st.project_notes.push(row), ..st },
            row.project_id,
            row.group_name,
            env,
            marker,
        ).0 == (StorageView { project_notes: st.project_notes.push(present_in(row, env)), ..st }),
        spec_import_project_note(
            StorageView { project_notes: st.project_notes.push(row), ..st },
            row.project_id,
            row.group_name,
            env,
            marker,
        ).1 is Ok,
{
    let s1 = StorageView { project_notes: st.project_notes.push(row), ..st };
    let s2 = spec_import_project_note(s1, row.project_id, row.group_name, env, marker).0;
    let pred = note_answers(row.title, row.group_name, row.project_id);
    st.project_notes.lemma_filter_push(row, pred);
    assert(matching_notes(s1, row.title, row.group_name, row.project_id) =~= seq![row]);
    let expected = st.project_notes.push(present_in(row, env));
    assert(s2.project_notes.len() == expected.len());
    assert forall|k: int| 0 <= k < expected.len() implies s2.project_notes[k] == expected[k] by {
        if k < st.project_notes.len() {
            let ids = st.project_note_ids();
            assert(ids[k] == st.project_notes[k].id);
            assert(ids[k] <= ids.last());
            assert(s1.project_notes[k] == st.project_notes[k]);
        } else {
            assert(s1.project_notes[k] == row);
        }
    }
    assert(s2.project_notes =~= expected);
}

/// An outcome that holds one new note stays one after the next
/// environment: the note is marked where the document holds it there, and
/// nothing else changes.
proof fn lemma_then_note_marks(
    st: StorageView,
    row: ProjectNoteView,
    project: ProjectView,
    note: ProjectNoteView,
    env: EnvironmentType,
    outcome: Written,
)
    requires
        st.wf(),
        st.next_project_note_id() == Some(row.id),
        matching_notes(st, row.title, row.group_name, row.project_id).len() == 0,
        row.title == note.title,
        row.group_name == note.group_name,
        outcome.0 == (StorageView { project_notes: st.project_notes.push(row), ..st }),
        outcome.1 is Ok,
        note_in_earlier_environment(project, note, env),
    ensures
        then_note(outcome, project, note, row.project_id, env).1 is Ok,
        then_note(outcome, project, note, row.project_id, env).0 == (StorageView {
            project_notes: st.project_notes.push(
                if has_environment(project, env) && note_in(note, env) {
                    present_in(row, env)
                } else {
                    row
                },
            ),
            ..st
        }),
{
    if has_environment(project, env) && note_in(note, env) {
        marker_marks_the_new_row(st, row, env, project_note_item(project, env)(note));
    }
}

/// A note survives export and import. Where the project that the import
/// fills has no note yet with the note's title and group, importing the note
/// as a document of `project` holds it, environment after environment,
/// succeeds and adds one row and no more: the note with its title, contents
/// and group, present in exactly those of its environments that `project`
/// has. A note that is present in no environment of `project` is not in the
/// document, and nothing is written for it.
pub proof fn note_survives_export_and_import(
    st: StorageView,
    project: ProjectView,
    note: ProjectNoteView,
    project_id: i32,
)
    requires
        st.wf(),
        st.next_project_note_id() is Some,
        matching_notes(st, note.title, note.group_name, project_id).len() == 0,
    ensures
        note_through_environments(st, project, note, project_id).1 is Ok,
        note_through_environments(st, project, note, project_id).0 == (if note_in_earlier_environment(
            project,
            note,
            EnvironmentType::EnvProd,
        ) || (project.has_prod && note.has_prod) {
            StorageView {
                project_notes: st.project_notes.push(
                    note_moved_to(st.next_project_note_id()->0, project_id, project, note),
                ),
                ..st
            }
        } else {
            st
        }),
{
    let dev = EnvironmentType::EnvDevelopment;
    let stage = EnvironmentType::EnvStage;
    let uat = EnvironmentType::EnvUat;
    let prod = EnvironmentType::EnvProd;
    let id = st.next_project_note_id()->0;
    let o0: Written = (st, Ok(()));
    let o1 = then_note(o0, project, note, project_id, dev);
    let o2 = then_note(o1, project, note, project_id, stage);
    let o3 = then_note(o2, project, note, project_id, uat);
    let o4 = then_note(o3, project, note, project_id, prod);
    let blank = ProjectNoteView {
        id,
        project_id,
        has_dev: false,
        has_stage: false,
        has_uat: false,
        has_prod: false,
        ..note
    };
    if note_in_earlier_environment(project, note, stage) {
        let r1 = present_in(blank, dev);
        assert(o1.0 == (StorageView { project_notes: st.project_notes.push(r1), ..st }));
        lemma_then_note_marks(st, r1, project, note, stage, o1);
        let r2 = o2.0.project_notes.last();
        lemma_then_note_marks(st, r2, project, note, uat, o2);
        let r3 = o3.0.project_notes.last();
        lemma_then_note_marks(st, r3, project, note, prod, o3);
    } else if note_in_earlier_environment(project, note, uat) {
        let r2 = present_in(blank, stage);
        assert(o2.0 == (StorageView { project_notes: st.project_notes.push(r2), ..st }));
        lemma_then_note_marks(st, r2, project, note, uat, o2);
        let r3 = o3.0.project_notes.last();
        lemma_then_note_marks(st, r3, project, note, prod, o3);
    } else if note_in_earlier_environment(project, note, prod) {
        let r3 = present_in(blank, uat);
        assert(o3.0 == (StorageView { project_notes: st.project_notes.push(r3), ..st }));
        lemma_then_note_marks(st, r3, project, note, prod, o3);
    } else if project.has_prod && note.has_prod {
        let r4 = present_in(blank, prod);
        assert(o4.0 == (StorageView { project_notes: st.project_notes.push(r4), ..st }));
    }
}

// ---------------------------------------------------------------------------
// A point of interest through the environments
// ---------------------------------------------------------------------------
/// An outcome followed by the import of a point of interest as the
/// document of `project` holds it in `env`. Nothing is imported where the
/// outcome is a failure or where the project does not have the environment.
pub open spec fn then_poi(
    outcome: Written,
    project: ProjectView,
    poi: ProjectPointOfInterestView,
    project_id: i32,
    env: EnvironmentType,
) -> Written {
    if outcome.1 is Ok && has_environment(project, env) {
        spec_import_project_poi(
            outcome.0,
            project_id,
            poi.group_name,
            project_poi_item(earlier_environment(project, env))(poi),
        )
    } else {
        outcome
    }
}

/// The import of a point of interest as a document of `project` holds it,
/// environment after environment, into the project `project_id`.
pub open spec fn poi_through_environments(
    st: StorageView,
    project: ProjectView,
    poi: ProjectPointOfInterestView,
    project_id: i32,
) -> Written {
    then_poi(
        then_poi(
            then_poi(
                then_poi((st, Ok(())), project, poi, project_id, EnvironmentType::EnvDevelopment),
                project,
                poi,
                project_id,
                EnvironmentType::EnvStage,
            ),
            project,
            poi,
            project_id,
            EnvironmentType::EnvUat,
        ),
        project,
        poi,
        project_id,
        EnvironmentType::EnvProd,
    )
}

/// A point of interest survives export and import. Importing it as a
/// document of `project` holds it, environment after environment, adds one
/// row and no more, however many environments the project has: the point of
/// interest with every field as it was, but for its identifier and its
/// project. Where the project has no environment, the document does not
/// hold it, and nothing is written.
pub proof fn poi_survives_export_and_import(
    st: StorageView,
    project: ProjectView,
    poi: ProjectPointOfInterestView,
    project_id: i32,
)
    requires
        st.next_project_poi_id() is Some,
    ensures
        poi_through_environments(st, project, poi, project_id).1 is Ok,
        poi_through_environments(st, project, poi, project_id).0 == (if earlier_environment(
            project,
            EnvironmentType::EnvProd,
        ) || project.has_prod {
            StorageView {
                project_pois: st.project_pois.push(
                    ProjectPointOfInterestView {
                        id: st.next_project_poi_id()->0,
                        project_id,
                        ..poi
                    },
                ),
                ..st
            }
        } else {
            st
        }),
{
    let o0: Written = (st, Ok(()));
    let o1 = then_poi(o0, project, poi, project_id, EnvironmentType::EnvDevelopment);
    let o2 = then_poi(o1, project, poi, project_id, EnvironmentType::EnvStage);
    let o3 = then_poi(o2, project, poi, project_id, EnvironmentType::EnvUat);
    let o4 = then_poi(o3, project, poi, project_id, EnvironmentType::EnvProd);
    assert(o1.1 is Ok);
    assert(o2.1 is Ok);
    assert(o3.1 is Ok);
}

// ---------------------------------------------------------------------------
// References
// ---------------------------------------------------------------------------
/// A link to a server outside the project keeps its target. Where the
/// server that a link points to is not a server of the exported project, the
/// document carries its identifier, and the import writes the link with that
/// identifier, whatever the storage that it imports into holds.
pub proof fn outside_link_keeps_its_target(
    source: StorageView,
    project: ProjectView,
    link: ServerLinkView,
    dest: StorageView,
    project_id: i32,
)
    requires
        server_by_id(source, link.linked_server_id) is None || server_by_id(
            source,
            link.linked_server_id,
        )->0.project_id != project.id,
    ensures
        spec_import_server_link(
            dest,
            project_id,
            link.group_name,
            link.environment,
            server_link_item(source, project)(link),
        ).0 == dest.add_server_link(ServerLinkView { project_id, ..link }),
        spec_import_server_link(
            dest,
            project_id,
            link.group_name,
            link.environment,
            server_link_item(source, project)(link),
        ).1 is Ok <==> dest.next_server_link_id() is Some,
{
}

/// A link to a server of the project finds the server again. Where the
/// server that a link points to belongs to the exported project, the
/// document describes it; and where the storage that the document is imported
/// into holds, at place `i`, the one server that answers to this description,
/// the import writes the link with the identifier of that server.
pub proof fn inside_link_finds_its_target(
    source: StorageView,
    project: ProjectView,
    link: ServerLinkView,
    dest: StorageView,
    project_id: i32,
    i: int,
)
    requires
        server_by_id(source, link.linked_server_id) is Some,
        server_by_id(source, link.linked_server_id)->0.project_id == project.id,
        0 <= i < dest.servers.len(),
        server_answers(
            dest.projects,
            project.name,
            server_by_id(source, link.linked_server_id)->0.environment,
            server_by_id(source, link.linked_server_id)->0.desc,
        )(dest.servers[i]),
        forall|j: int|
            0 <= j < dest.servers.len() && server_answers(
                dest.projects,
                project.name,
                server_by_id(source, link.linked_server_id)->0.environment,
                server_by_id(source, link.linked_server_id)->0.desc,
            )(#[trigger] dest.servers[j]) ==> j == i,
    ensures
        spec_import_server_link(
            dest,
            project_id,
            link.group_name,
            link.environment,
            server_link_item(source, project)(link),
        ).0 == dest.add_server_link(
            ServerLinkView { project_id, linked_server_id: dest.servers[i].id, ..link },
        ),
        spec_import_server_link(
            dest,
            project_id,
            link.group_name,
            link.environment,
            server_link_item(source, project)(link),
        ).1 is Ok <==> dest.next_server_link_id() is Some,
{
    let path = server_path_of(source, project, link.environment, link.linked_server_id);
    unique_server_description_resolves(dest, path, i);
}

/// A reference to a database outside the project keeps its target. Where
/// the database that a website points to is not on a server of the exported
/// project, the document carries its identifier, and the second pass writes
/// the website with that identifier.
pub proof fn outside_reference_keeps_its_target(
    source: StorageView,
    project: ProjectView,
    env: EnvironmentType,
    database_id: i32,
    dest: StorageView,
)
    requires
        database_by_id(source, database_id) is None || server_by_id(
            source,
            database_by_id(source, database_id)->0.server_id,
        ) is None || server_by_id(
            source,
            database_by_id(source, database_id)->0.server_id,
        )->0.project_id != project.id,
    ensures
        resolve_database(dest, database_path_of(source, project, env, database_id)) == Ok::<
            i32,
            crate::resolve::ResolveError,
        >(database_id),
{
}

/// A reference to a database of the project finds the database again.
/// Where the database that a website points to is on a server of the
/// exported project, the document describes the server and the database; and
/// where the storage that the second pass works on holds, at place `i`, the
/// one server that answers to the description of the server, and at place
/// `k` the one database of that server that carries the description of the
/// database, the reference resolves to the identifier of that database.
pub proof fn inside_reference_finds_its_target(
    source: StorageView,
    project: ProjectView,
    env: EnvironmentType,
    database_id: i32,
    dest: StorageView,
    i: int,
    k: int,
)
    requires
        database_by_id(source, database_id) is Some,
        server_by_id(source, database_by_id(source, database_id)->0.server_id) is Some,
        server_by_id(source, database_by_id(source, database_id)->0.server_id)->0.project_id
            == project.id,
        0 <= i < dest.servers.len(),
        server_answers(
            dest.projects,
            project.name,
            server_by_id(source, database_by_id(source, database_id)->0.server_id)->0.environment,
            server_by_id(source, database_by_id(source, database_id)->0.server_id)->0.desc,
        )(dest.servers[i]),
        forall|j: int|
            0 <= j < dest.servers.len() && server_answers(
                dest.projects,
                project.name,
                server_by_id(
                    source,
                    database_by_id(source, database_id)->0.server_id,
                )->0.environment,
                server_by_id(source, database_by_id(source, database_id)->0.server_id)->0.desc,
            )(#[trigger] dest.servers[j]) ==> j == i,
        0 <= k < dest.server_databases.len(),
        database_answers(dest.servers[i].id, database_by_id(source, database_id)->0.desc)(
            dest.server_databases[k],
        ),
        forall|j: int|
            0 <= j < dest.server_databases.len() && database_answers(
                dest.servers[i].id,
                database_by_id(source, database_id)->0.desc,
            )(#[trigger] dest.server_databases[j]) ==> j == k,
    ensures
        resolve_database(dest, database_path_of(source, project, env, database_id)) == Ok::<
            i32,
            crate::resolve::ResolveError,
        >(dest.server_databases[k].id),
{
    let database = database_by_id(source, database_id)->0;
    let server = server_by_id(source, database.server_id)->0;
    let path = database_path_of(source, project, env, database_id);
    unique_server_description_resolves(dest, crate::resolve::owning_server(path), i);
    lemma_filter_one(
        dest.server_databases,
        database_answers(dest.servers[i].id, database.desc),
        k,
    );
}

} // verus!
