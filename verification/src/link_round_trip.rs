//! The server links of a project, exported and imported again: each link
//! of the project comes back once, and points to a server that answers to
//! the description of the server that it pointed to.

use vstd::prelude::*;
use crate::document::{
    ProjectEnvGroupImportExportView, ProjectEnvImportExportView, ProjectImportExportView,
    ServerLinkImportExportView, ServerPathView, ServerWithItemsImportExportView,
};
use crate::export::{
    env_group_item, env_group_of, env_if_present, has_environment, project_by_id,
    server_link_item, server_link_wanted, server_path_of, spec_export_project,
};
use crate::groups::{
    lemma_ascending_no_duplicates, lemma_project_item_group_names, project_item_group_names,
    server_link_labels,
};
use crate::guarantees::{
    kept_by_server_writes, resolved_server_is_in_storage, second_pass_writes_websites_only,
    server_keeps,
};
use crate::import::{
    env_group_step, project_note_step, project_poi_step, project_row, server_link_step,
    server_step, spec_do_import, spec_first_pass, spec_first_pass_if_present,
    spec_import_project_env_first_pass, spec_import_project_env_group_first_pass,
    spec_import_server_link, then_first_pass,
};
use crate::replay::{lemma_replay_deferring_keeps, lemma_replay_keeps, replay, replay_deferring};
use crate::resolve::{resolve_server, server_answers};
use crate::rows::{ProjectView, ServerLinkView, ServerView};
use crate::select::{
    either, filed_under, lemma_filter_same, lemma_select_nothing, lemma_select_same,
    lemma_select_split, lemma_selected_by_all_groups, select, selected_by_groups,
};
use crate::storage::StorageView;
use crate::types::EnvironmentType;

verus! {

// ---------------------------------------------------------------------------
// What an import writes to the table of server links
// ---------------------------------------------------------------------------
/// A server link of a document as an import places it, its target aside,
/// and the path to its target.
pub type LinkEntry = (ServerLinkView, ServerPathView);

/// A server link without its identifier and without its target.
pub open spec fn link_untargeted(link: ServerLinkView) -> ServerLinkView {
    ServerLinkView { id: 0, linked_server_id: 0, ..link }
}

/// Whether the server `id` is what a path stands for in storage: the
/// server that the path names directly, or a server in storage that answers
/// to the description in the path.
pub open spec fn points_to(st: StorageView, path: ServerPathView, id: i32) -> bool {
    match path.server_id {
        Some(direct) => id == direct,
        None => path.server_desc is Some && exists|i: int|
            0 <= i < st.servers.len() && (#[trigger] st.servers[i]).id == id && server_answers(
                st.projects,
                path.project_name,
                path.environment,
                path.server_desc->0,
            )(st.servers[i]),
    }
}

/// Whether the second storage has the projects of the first, and its
/// servers with possibly more behind them.
pub open spec fn servers_grown() -> spec_fn(StorageView, StorageView) -> bool {
    |a: StorageView, b: StorageView|
        a.projects == b.projects && a.servers.len() <= b.servers.len() && forall|k: int|
            0 <= k < a.servers.len() ==> #[trigger] b.servers[k] == a.servers[k]
}

/// The second storage has the projects, the servers with possibly more
/// behind them, and the server links of the first.
pub open spec fn links_kept() -> spec_fn(StorageView, StorageView) -> bool {
    |a: StorageView, b: StorageView| servers_grown()(a, b) && a.server_links == b.server_links
}

/// What a path stands for, it still stands for when servers are added.
pub proof fn lemma_points_to_stays(a: StorageView, b: StorageView, path: ServerPathView, id: i32)
    requires
        servers_grown()(a, b),
        points_to(a, path, id),
    ensures
        points_to(b, path, id),
{
    if path.server_id is None {
        let i = choose|i: int|
            0 <= i < a.servers.len() && (#[trigger] a.servers[i]).id == id && server_answers(
                a.projects,
                path.project_name,
                path.environment,
                path.server_desc->0,
            )(a.servers[i]);
        assert(b.servers[i] == a.servers[i]);
    }
}

/// Whether `after` has the server links of `before` and, behind them, one
/// link for each entry, in order: with the contents of the entry and a target
/// that the path of the entry stands for in `after`; and `after` has the
/// projects of `before` and its servers with possibly more behind them.
pub open spec fn links_written(before: StorageView, after: StorageView, entries: Seq<LinkEntry>) -> bool {
    &&& servers_grown()(before, after)
    &&& after.server_links.len() == before.server_links.len() + entries.len()
    &&& forall|k: int|
        0 <= k < before.server_links.len() ==> after.server_links[k] == before.server_links[k]
    &&& forall|k: int|
        0 <= k < entries.len() ==> link_untargeted(
            #[trigger] after.server_links[before.server_links.len() + k],
        ) == entries[k].0 && points_to(
            after,
            entries[k].1,
            after.server_links[before.server_links.len() + k].linked_server_id,
        )
}

/// Writing links twice is writing both lists of entries.
pub proof fn lemma_links_written_twice(
    a: StorageView,
    b: StorageView,
    c: StorageView,
    first: Seq<LinkEntry>,
    second: Seq<LinkEntry>,
)
    requires
        links_written(a, b, first),
        links_written(b, c, second),
    ensures
        links_written(a, c, first + second),
{
    let n = a.server_links.len() as int;
    assert forall|k: int| 0 <= k < a.servers.len() implies #[trigger] c.servers[k]
        == a.servers[k] by {
        assert(c.servers[k] == b.servers[k]);
    }
    assert forall|k: int| 0 <= k < n implies c.server_links[k] == a.server_links[k] by {
        assert(c.server_links[k] == b.server_links[k]);
    }
    assert forall|k: int| 0 <= k < (first + second).len() implies link_untargeted(
        #[trigger] c.server_links[n + k],
    ) == (first + second)[k].0 && points_to(
        c,
        (first + second)[k].1,
        c.server_links[n + k].linked_server_id,
    ) by {
        if k < first.len() {
            assert(c.server_links[n + k] == b.server_links[n + k]);
            lemma_points_to_stays(b, c, first[k].1, b.server_links[n + k].linked_server_id);
        } else {
            assert(c.server_links[b.server_links.len() + (k - first.len())] == c.server_links[n
                + k]);
        }
    }
}

/// What keeps the links writes none.
pub proof fn lemma_links_kept_written(a: StorageView, b: StorageView)
    requires
        links_kept()(a, b),
    ensures
        links_written(a, b, Seq::empty()),
{
}

/// No write of the import of a server touches the server links or the
/// projects, or takes a server away.
proof fn lemma_writes_keep_links()
    ensures
        kept_by_server_writes(links_kept()),
{
    let kept = links_kept();
    assert forall|a: StorageView, row: ServerView| kept(
        a,
        #[trigger] a.add_server(row),
    ) by {
        if let Some(id) = a.next_server_id() {
            let b = a.add_server(row);
            assert forall|k: int| 0 <= k < a.servers.len() implies #[trigger] b.servers[k]
                == a.servers[k] by {}
        }
    }
}

/// A server link as an import places it, its target aside, with the path
/// to its target.
pub open spec fn link_entry(project_id: i32, env: EnvironmentType, group_name: Option<Seq<char>>) -> spec_fn(
    ServerLinkImportExportView,
) -> LinkEntry {
    |l: ServerLinkImportExportView|
        (
            ServerLinkView {
                id: 0,
                desc: l.desc,
                linked_server_id: 0,
                environment: env,
                group_name,
                project_id,
            },
            l.server,
        )
}

/// The import of the server links of one group writes one link for each,
/// in order, with a target that its path stands for.
pub proof fn links_import_writes_their_rows(
    st: StorageView,
    project_id: i32,
    env: EnvironmentType,
    group_name: Option<Seq<char>>,
    links: Seq<ServerLinkImportExportView>,
)
    requires
        replay(st, links, server_link_step(project_id, group_name, env)).1 is Ok,
    ensures
        links_written(
            st,
            replay(st, links, server_link_step(project_id, group_name, env)).0,
            links.map_values(link_entry(project_id, env, group_name)),
        ),
    decreases links.len(),
{
    let entry = link_entry(project_id, env, group_name);
    if links.len() > 0 {
        let after = spec_import_server_link(st, project_id, group_name, env, links[0]).0;
        let path = links[0].server;
        let id = resolve_server(st, path)->Ok_0;
        assert(after.server_links =~= st.server_links.push(after.server_links.last()));
        assert(points_to(after, path, id)) by {
            if path.server_id is None {
                let i = resolved_server_is_in_storage(st, path);
                assert(after.servers[i] == st.servers[i]);
            }
        }
        assert(links_written(st, after, seq![entry(links[0])]));
        links_import_writes_their_rows(after, project_id, env, group_name, links.skip(1));
        lemma_links_written_twice(
            st,
            after,
            replay(st, links, server_link_step(project_id, group_name, env)).0,
            seq![entry(links[0])],
            links.skip(1).map_values(entry),
        );
        assert(seq![entry(links[0])] + links.skip(1).map_values(entry) =~= links.map_values(entry));
    }
}

/// The entries of the server links that the named groups of an
/// environment bring, group after group.
pub open spec fn links_of_groups(
    project_id: i32,
    env: EnvironmentType,
    groups: Seq<(Seq<char>, ProjectEnvGroupImportExportView)>,
) -> Seq<LinkEntry>
    decreases groups.len(),
{
    if groups.len() == 0 {
        Seq::empty()
    } else {
        groups[0].1.server_links.map_values(link_entry(project_id, env, Some(groups[0].0)))
            + links_of_groups(project_id, env, groups.skip(1))
    }
}

/// The entries of the server links that an environment brings: the
/// ungrouped ones, then those of the named groups.
pub open spec fn links_of_env(
    project_id: i32,
    env: EnvironmentType,
    project_env: Option<ProjectEnvImportExportView>,
) -> Seq<LinkEntry> {
    match project_env {
        Some(e) => e.items.server_links.map_values(link_entry(project_id, env, None))
            + links_of_groups(project_id, env, e.items_in_groups),
        None => Seq::empty(),
    }
}

/// The entries of the server links that a document brings, in the order
/// in which an import writes them.
pub open spec fn links_of_document(project_id: i32, doc: ProjectImportExportView) -> Seq<LinkEntry> {
    links_of_env(project_id, EnvironmentType::EnvDevelopment, doc.development_environment)
        + links_of_env(project_id, EnvironmentType::EnvStage, doc.staging_environment)
        + links_of_env(project_id, EnvironmentType::EnvUat, doc.uat_environment) + links_of_env(
        project_id,
        EnvironmentType::EnvProd,
        doc.prod_environment,
    )
}

/// The first pass over one group of an environment writes the group's
/// server links, and no other.
pub proof fn env_group_writes_its_links(
    st: StorageView,
    project_id: i32,
    items: ProjectEnvGroupImportExportView,
    env: EnvironmentType,
    group_name: Option<Seq<char>>,
)
    requires
        spec_import_project_env_group_first_pass(st, project_id, items, env, group_name).1 is Ok,
    ensures
        links_written(
            st,
            spec_import_project_env_group_first_pass(st, project_id, items, env, group_name).0,
            items.server_links.map_values(link_entry(project_id, env, group_name)),
        ),
{
    let kept = links_kept();
    lemma_writes_keep_links();
    let entries = items.server_links.map_values(link_entry(project_id, env, group_name));
    let s1 = replay(st, items.project_pois, project_poi_step(project_id, group_name)).0;
    lemma_replay_keeps(st, items.project_pois, project_poi_step(project_id, group_name), kept);
    let s2 = replay(s1, items.project_notes, project_note_step(project_id, group_name, env)).0;
    lemma_replay_keeps(
        s1,
        items.project_notes,
        project_note_step(project_id, group_name, env),
        kept,
    );
    let s3 = replay(s2, items.server_links, server_link_step(project_id, group_name, env)).0;
    links_import_writes_their_rows(s2, project_id, env, group_name, items.server_links);
    let servers = server_step(project_id, env, group_name);
    assert forall|a: StorageView, x: ServerWithItemsImportExportView|
        kept(a, (#[trigger] servers(a, x)).0) by {
        server_keeps(a, project_id, env, group_name, x, kept);
    }
    lemma_replay_deferring_keeps(s3, items.servers, servers, kept);
    let s4 = replay_deferring(s3, items.servers, servers).0;
    lemma_links_kept_written(st, s2);
    lemma_links_written_twice(st, s2, s3, Seq::empty(), entries);
    lemma_links_kept_written(s3, s4);
    lemma_links_written_twice(st, s3, s4, Seq::<LinkEntry>::empty() + entries, Seq::empty());
    assert(Seq::<LinkEntry>::empty() + entries + Seq::<LinkEntry>::empty() =~= entries);
}

/// The first pass over the named groups of an environment writes their
/// server links, group after group.
pub proof fn env_groups_write_their_links(
    st: StorageView,
    project_id: i32,
    env: EnvironmentType,
    groups: Seq<(Seq<char>, ProjectEnvGroupImportExportView)>,
)
    requires
        replay_deferring(st, groups, env_group_step(project_id, env)).1 is Ok,
    ensures
        links_written(
            st,
            replay_deferring(st, groups, env_group_step(project_id, env)).0,
            links_of_groups(project_id, env, groups),
        ),
    decreases groups.len(),
{
    if groups.len() > 0 {
        let after = spec_import_project_env_group_first_pass(
            st,
            project_id,
            groups[0].1,
            env,
            Some(groups[0].0),
        ).0;
        env_group_writes_its_links(st, project_id, groups[0].1, env, Some(groups[0].0));
        env_groups_write_their_links(after, project_id, env, groups.skip(1));
        lemma_links_written_twice(
            st,
            after,
            replay_deferring(st, groups, env_group_step(project_id, env)).0,
            groups[0].1.server_links.map_values(link_entry(project_id, env, Some(groups[0].0))),
            links_of_groups(project_id, env, groups.skip(1)),
        );
    }
}

/// The first pass over one environment, present or not, writes the
/// environment's server links.
pub proof fn env_writes_its_links(
    st: StorageView,
    project_id: i32,
    env: EnvironmentType,
    project_env: Option<ProjectEnvImportExportView>,
)
    requires
        spec_first_pass_if_present(st, project_id, env, project_env).1 is Ok,
    ensures
        links_written(
            st,
            spec_first_pass_if_present(st, project_id, env, project_env).0,
            links_of_env(project_id, env, project_env),
        ),
{
    if let Some(e) = project_env {
        let s1 = spec_import_project_env_group_first_pass(st, project_id, e.items, env, None).0;
        env_group_writes_its_links(st, project_id, e.items, env, None);
        env_groups_write_their_links(s1, project_id, env, e.items_in_groups);
        lemma_links_written_twice(
            st,
            s1,
            spec_import_project_env_first_pass(st, project_id, env, e).0,
            e.items.server_links.map_values(link_entry(project_id, env, None)),
            links_of_groups(project_id, env, e.items_in_groups),
        );
    }
}

/// An import writes the server links of the document. After an import
/// that succeeds, the table of server links holds its old rows and, behind
/// them, one link for each server link of the document, in document order:
/// in the project that the import created, in the environment and group
/// under which the document holds it, and with a target that its path stands
/// for in storage as the import leaves it, which is the server that the path
/// names directly, or a server that answers to the description in the path.
pub proof fn import_writes_the_links(st: StorageView, doc: ProjectImportExportView)
    requires
        spec_do_import(st, doc).1 is Ok,
    ensures
        ({
            let fin = spec_do_import(st, doc).0;
            let entries = links_of_document(st.next_project_id()->0, doc);
            let n = st.server_links.len() as int;
            &&& fin.server_links.len() == n + entries.len()
            &&& fin.server_links.take(n) == st.server_links
            &&& forall|k: int|
                0 <= k < entries.len() ==> link_untargeted(#[trigger] fin.server_links[n + k])
                    == entries[k].0 && points_to(
                    fin,
                    entries[k].1,
                    fin.server_links[n + k].linked_server_id,
                )
        }),
{
    let project_id = st.next_project_id()->0;
    let s0 = st.add_project(project_row(doc));
    let dev = EnvironmentType::EnvDevelopment;
    let stage = EnvironmentType::EnvStage;
    let uat = EnvironmentType::EnvUat;
    let prod = EnvironmentType::EnvProd;
    let o1 = spec_first_pass_if_present(s0, project_id, dev, doc.development_environment);
    let o2 = then_first_pass(o1, project_id, stage, doc.staging_environment);
    let o3 = then_first_pass(o2, project_id, uat, doc.uat_environment);
    let o4 = then_first_pass(o3, project_id, prod, doc.prod_environment);
    assert(o4 == spec_first_pass(s0, project_id, doc));
    assert(o4.1 is Ok);
    assert(o3.1 is Ok);
    assert(o2.1 is Ok);
    assert(o1.1 is Ok);
    env_writes_its_links(s0, project_id, dev, doc.development_environment);
    env_writes_its_links(o1.0, project_id, stage, doc.staging_environment);
    env_writes_its_links(o2.0, project_id, uat, doc.uat_environment);
    env_writes_its_links(o3.0, project_id, prod, doc.prod_environment);
    let r1 = links_of_env(project_id, dev, doc.development_environment);
    let r2 = links_of_env(project_id, stage, doc.staging_environment);
    let r3 = links_of_env(project_id, uat, doc.uat_environment);
    let r4 = links_of_env(project_id, prod, doc.prod_environment);
    lemma_links_written_twice(s0, o1.0, o2.0, r1, r2);
    lemma_links_written_twice(s0, o2.0, o3.0, r1 + r2, r3);
    lemma_links_written_twice(s0, o3.0, o4.0, r1 + r2 + r3, r4);
    second_pass_writes_websites_only(o4.0, o4.1->Ok_0);
    let fin = spec_do_import(st, doc).0;
    let n = st.server_links.len() as int;
    assert(fin.server_links.take(n) =~= st.server_links);
}

// ---------------------------------------------------------------------------
// What a document of a project lists
// ---------------------------------------------------------------------------
/// A server link as it comes back from an import into the project
/// `project_id`, its target aside, with the path under which the document
/// refers to its target.
pub open spec fn link_exported_as(st: StorageView, project: ProjectView, project_id: i32) -> spec_fn(
    ServerLinkView,
) -> LinkEntry {
    |l: ServerLinkView|
        (
            ServerLinkView { id: 0, project_id, linked_server_id: 0, ..l },
            server_path_of(st, project, l.environment, l.linked_server_id),
        )
}

/// The test that a server link of the project passes when it stands in
/// `env`, and the project has that environment.
pub open spec fn link_in_env(project: ProjectView, env: EnvironmentType) -> spec_fn(
    ServerLinkView,
) -> bool {
    |l: ServerLinkView|
        l.project_id == project.id && l.environment == env && has_environment(project, env)
}

/// The group under which a server link is filed.
pub open spec fn link_group() -> spec_fn(ServerLinkView) -> Option<Seq<char>> {
    |l: ServerLinkView| l.group_name
}

/// The test that the server links which a document of the project lists
/// pass: those of the project that stand in an environment which the project
/// has.
pub open spec fn link_exported(project: ProjectView) -> spec_fn(ServerLinkView) -> bool {
    |l: ServerLinkView| l.project_id == project.id && has_environment(project, l.environment)
}

/// The server links that a document lists under one group of one
/// environment are the links of the project in that environment and group,
/// in table order.
pub proof fn exported_group_lists_its_links(
    st: StorageView,
    project: ProjectView,
    env: EnvironmentType,
    group_name: Option<Seq<char>>,
    project_id: i32,
)
    requires
        has_environment(project, env),
    ensures
        env_group_of(st, project, env, group_name).server_links.map_values(
            link_entry(project_id, env, group_name),
        ) == select(
            st.server_links,
            filed_under(link_in_env(project, env), link_group(), group_name),
            link_exported_as(st, project, project_id),
        ),
{
    let wanted = server_link_wanted(project.id, env, group_name);
    let filed = filed_under(link_in_env(project, env), link_group(), group_name);
    lemma_filter_same(st.server_links, wanted, filed);
    let found = st.server_links.filter(wanted);
    let listed = env_group_of(st, project, env, group_name).server_links.map_values(
        link_entry(project_id, env, group_name),
    );
    let target = select(st.server_links, filed, link_exported_as(st, project, project_id));
    assert(listed.len() == target.len());
    assert forall|k: int| 0 <= k < listed.len() implies listed[k] == target[k] by {
        st.server_links.lemma_filter_pred(wanted, k);
        assert(wanted(found[k]));
        assert(server_link_item(st, project)(found[k]).server == server_path_of(
            st,
            project,
            found[k].environment,
            found[k].linked_server_id,
        ));
    }
    assert(listed =~= target);
}

/// The server links that a document lists under the named groups of one
/// environment are the links of the project in that environment taken group
/// after group.
pub proof fn exported_groups_list_their_links(
    st: StorageView,
    project: ProjectView,
    env: EnvironmentType,
    names: Seq<Seq<char>>,
    project_id: i32,
)
    requires
        has_environment(project, env),
    ensures
        links_of_groups(project_id, env, names.map_values(env_group_item(st, project, env)))
            == selected_by_groups(
            st.server_links,
            link_in_env(project, env),
            link_group(),
            names,
            link_exported_as(st, project, project_id),
        ),
    decreases names.len(),
{
    let groups = names.map_values(env_group_item(st, project, env));
    if names.len() > 0 {
        assert(groups.skip(1) =~= names.skip(1).map_values(env_group_item(st, project, env)));
        exported_groups_list_their_links(st, project, env, names.skip(1), project_id);
        exported_group_lists_its_links(st, project, env, Some(names[0]), project_id);
    }
}

/// The server links that a document lists under one environment are, as
/// a collection, the links of the project that stand in that environment;
/// and none where the project does not have the environment.
pub proof fn exported_env_lists_its_links(
    st: StorageView,
    project: ProjectView,
    env: EnvironmentType,
    project_id: i32,
)
    ensures
        links_of_env(project_id, env, env_if_present(st, project, env)).to_multiset() == select(
            st.server_links,
            link_in_env(project, env),
            link_exported_as(st, project, project_id),
        ).to_multiset(),
{
    let owned = link_in_env(project, env);
    let moved = link_exported_as(st, project, project_id);
    if has_environment(project, env) {
        let names = project_item_group_names(st, project.id);
        lemma_project_item_group_names(st, project.id);
        lemma_ascending_no_duplicates(names);
        exported_group_lists_its_links(st, project, env, None, project_id);
        exported_groups_list_their_links(st, project, env, names, project_id);
        assert forall|i: int|
            0 <= i < st.server_links.len() && owned(#[trigger] st.server_links[i]) && link_group()(
                st.server_links[i],
            ) is Some implies names.contains(link_group()(st.server_links[i])->0) by {
            let l = st.server_links[i];
            assert(server_link_labels(st)[i] == (project.id, l.group_name));
            assert(server_link_labels(st).contains((project.id, Some(l.group_name->0))));
        }
        lemma_selected_by_all_groups(st.server_links, owned, link_group(), names, moved);
    } else {
        lemma_select_nothing(st.server_links, owned, moved);
    }
}

/// A document lists every server link of its project once. The server
/// links that the document of a project brings are, as a collection, the
/// links of the project that stand in an environment which the project has:
/// each of them once, with every field as storage holds it, identifier,
/// project and target aside, and with the path under which the document
/// refers to its target.
pub proof fn exported_document_lists_the_links(st: StorageView, source_id: i32, project_id: i32)
    requires
        spec_export_project(st, source_id) is Ok,
    ensures
        links_of_document(project_id, spec_export_project(st, source_id)->Ok_0).to_multiset()
            == select(
            st.server_links,
            link_exported(project_by_id(st, source_id)->0),
            link_exported_as(st, project_by_id(st, source_id)->0, project_id),
        ).to_multiset(),
{
    broadcast use vstd::multiset::group_multiset_axioms;

    let project = project_by_id(st, source_id)->0;
    let doc = spec_export_project(st, source_id)->Ok_0;
    let moved = link_exported_as(st, project, project_id);
    let dev = EnvironmentType::EnvDevelopment;
    let stage = EnvironmentType::EnvStage;
    let uat = EnvironmentType::EnvUat;
    let prod = EnvironmentType::EnvProd;
    let r1 = links_of_env(project_id, dev, doc.development_environment);
    let r2 = links_of_env(project_id, stage, doc.staging_environment);
    let r3 = links_of_env(project_id, uat, doc.uat_environment);
    let r4 = links_of_env(project_id, prod, doc.prod_environment);
    exported_env_lists_its_links(st, project, dev, project_id);
    exported_env_lists_its_links(st, project, stage, project_id);
    exported_env_lists_its_links(st, project, uat, project_id);
    exported_env_lists_its_links(st, project, prod, project_id);
    vstd::seq_lib::lemma_multiset_commutative(r1, r2);
    vstd::seq_lib::lemma_multiset_commutative(r1 + r2, r3);
    vstd::seq_lib::lemma_multiset_commutative(r1 + r2 + r3, r4);
    let in_dev = link_in_env(project, dev);
    let in_stage = link_in_env(project, stage);
    let in_uat = link_in_env(project, uat);
    let in_prod = link_in_env(project, prod);
    let dev_or_stage = either(in_dev, in_stage);
    let up_to_uat = either(dev_or_stage, in_uat);
    let any_env = either(up_to_uat, in_prod);
    lemma_select_split(st.server_links, in_dev, in_stage, moved);
    lemma_select_split(st.server_links, dev_or_stage, in_uat, moved);
    lemma_select_split(st.server_links, up_to_uat, in_prod, moved);
    lemma_select_same(st.server_links, any_env, link_exported(project), moved);
}

// ---------------------------------------------------------------------------
// Export followed by import
// ---------------------------------------------------------------------------
/// The server links survive export and import. Where the project
/// `source_id` of `source` is exported and the import of the document into
/// `dest` succeeds, `dest` keeps its server links as they were and gains one
/// link for each entry of a list `entries`, in order: with the contents of
/// the entry, and a target that the path of the entry stands for in the
/// storage that the import leaves. The entries are, as a collection, the
/// server links of the exported project that stand in an environment which
/// the project has: each of them once, with every field as it was in
/// `source`, but for its identifier and its project, which `dest` assigns,
/// and with the path under which the document refers to its target, which
/// describes a server of the project and names any other server by its
/// identifier.
pub proof fn links_survive_export_and_import(source: StorageView, source_id: i32, dest: StorageView)
    requires
        spec_export_project(source, source_id) is Ok,
        spec_do_import(dest, spec_export_project(source, source_id)->Ok_0).1 is Ok,
    ensures
        ({
            let doc = spec_export_project(source, source_id)->Ok_0;
            let fin = spec_do_import(dest, doc).0;
            let entries = links_of_document(dest.next_project_id()->0, doc);
            let n = dest.server_links.len() as int;
            &&& fin.server_links.len() == n + entries.len()
            &&& fin.server_links.take(n) == dest.server_links
            &&& forall|k: int|
                0 <= k < entries.len() ==> link_untargeted(#[trigger] fin.server_links[n + k])
                    == entries[k].0 && points_to(
                    fin,
                    entries[k].1,
                    fin.server_links[n + k].linked_server_id,
                )
            &&& entries.to_multiset() == select(
                source.server_links,
                link_exported(project_by_id(source, source_id)->0),
                link_exported_as(
                    source,
                    project_by_id(source, source_id)->0,
                    dest.next_project_id()->0,
                ),
            ).to_multiset()
        }),
{
    let doc = spec_export_project(source, source_id)->Ok_0;
    import_writes_the_links(dest, doc);
    exported_document_lists_the_links(source, source_id, dest.next_project_id()->0);
}

} // verus!
