//! The points of interest of a project, exported and imported again: what
//! an import writes to their table, what a document lists, and that the two
//! agree.

use vstd::prelude::*;
use crate::document::{
    ProjectEnvGroupImportExportView, ProjectEnvImportExportView, ProjectImportExportView,
    ProjectPoiImportExportView, ServerWithItemsImportExportView,
};
use crate::export::{
    earlier_environment, env_group_item, env_group_of, env_if_present, has_environment,
    project_by_id, project_poi_item, project_poi_wanted, spec_export_project,
};
use crate::groups::{
    lemma_ascending_no_duplicates, lemma_project_item_group_names, project_item_group_names,
    project_poi_labels,
};
use crate::guarantees::{kept_by_server_writes, second_pass_writes_websites_only, server_keeps};
use crate::import::{
    env_group_step, project_note_step, project_poi_step, project_row, server_link_step,
    server_step, spec_do_import, spec_first_pass, spec_first_pass_if_present,
    spec_import_project_env_first_pass, spec_import_project_env_group_first_pass,
    then_first_pass,
};
use crate::replay::{
    all_rows, lemma_all_rows_none, lemma_all_rows_one_each, lemma_replay_appends_rows,
    lemma_replay_deferring_keeps, lemma_replay_keeps, replay, replay_deferring, same_table,
};
use crate::rows::{ProjectPointOfInterestView, ProjectView};
use crate::select::{
    filed_under, grew_by, lemma_filter_same, lemma_grew_twice, lemma_grown_rows,
    lemma_selected_by_all_groups, select, selected_by_groups,
};
use crate::storage::StorageView;
use crate::types::EnvironmentType;

verus! {

// ---------------------------------------------------------------------------
// What an import writes to the table of points of interest
// ---------------------------------------------------------------------------
/// The table of project points of interest.
pub open spec fn poi_table() -> spec_fn(StorageView) -> Seq<ProjectPointOfInterestView> {
    |st: StorageView| st.project_pois
}

/// A point of interest without its identifier.
pub open spec fn poi_unnumbered(
    ) -> spec_fn(ProjectPointOfInterestView,
) -> ProjectPointOfInterestView {
    |r: ProjectPointOfInterestView| ProjectPointOfInterestView { id: 0, ..r }
}

/// The row that an import writes for a point of interest of a document.
pub open spec fn poi_row(project_id: i32, group_name: Option<Seq<char>>) -> spec_fn(
    ProjectPoiImportExportView,
) -> ProjectPointOfInterestView {
    |p: ProjectPoiImportExportView|
        ProjectPointOfInterestView {
            id: 0,
            desc: p.desc,
            path: p.path,
            text: p.text,
            interest_type: p.interest_type,
            group_name,
            project_id,
        }
}

/// The rows that an import writes for a point of interest of a document:
/// one row, or none where the document marks it as shared.
pub open spec fn poi_rows(project_id: i32, group_name: Option<Seq<char>>) -> spec_fn(
    ProjectPoiImportExportView,
) -> Seq<ProjectPointOfInterestView> {
    |p: ProjectPoiImportExportView|
        if p.shared_with_other_environments is Some {
            Seq::empty()
        } else {
            seq![poi_row(project_id, group_name)(p)]
        }
}

/// The points of interest that the named groups of an environment bring,
/// group after group.
pub open spec fn pois_of_groups(
    project_id: i32,
    groups: Seq<(Seq<char>, ProjectEnvGroupImportExportView)>,
) -> Seq<ProjectPointOfInterestView>
    decreases groups.len(),
{
    if groups.len() == 0 {
        Seq::empty()
    } else {
        all_rows(groups[0].1.project_pois, poi_rows(project_id, Some(groups[0].0)))
            + pois_of_groups(project_id, groups.skip(1))
    }
}

/// The points of interest that an environment brings: the ungrouped ones,
/// then those of the named groups.
pub open spec fn pois_of_env(project_id: i32, project_env: Option<ProjectEnvImportExportView>) -> Seq<
    ProjectPointOfInterestView,
> {
    match project_env {
        Some(e) => all_rows(e.items.project_pois, poi_rows(project_id, None)) + pois_of_groups(
            project_id,
            e.items_in_groups,
        ),
        None => Seq::empty(),
    }
}

/// The points of interest that a document brings, in the order in which
/// an import writes them.
pub open spec fn pois_of_document(project_id: i32, doc: ProjectImportExportView) -> Seq<
    ProjectPointOfInterestView,
> {
    pois_of_env(project_id, doc.development_environment) + pois_of_env(
        project_id,
        doc.staging_environment,
    ) + pois_of_env(project_id, doc.uat_environment) + pois_of_env(
        project_id,
        doc.prod_environment,
    )
}

/// The first pass over one group of an environment writes the group's
/// points of interest that are not marked as shared, and no other row of
/// their table.
pub proof fn env_group_writes_its_pois(
    st: StorageView,
    project_id: i32,
    items: ProjectEnvGroupImportExportView,
    env: EnvironmentType,
    group_name: Option<Seq<char>>,
)
    requires
        spec_import_project_env_group_first_pass(st, project_id, items, env, group_name).1 is Ok,
    ensures
        grew_by(
            st.project_pois,
            spec_import_project_env_group_first_pass(
                st,
                project_id,
                items,
                env,
                group_name,
            ).0.project_pois,
            all_rows(items.project_pois, poi_rows(project_id, group_name)),
            poi_unnumbered(),
        ),
{
    let table = poi_table();
    let strip = poi_unnumbered();
    let kept = same_table(table);
    let rows_of = poi_rows(project_id, group_name);
    let step = project_poi_step(project_id, group_name);
    assert forall|a: StorageView, x: ProjectPoiImportExportView|
        (#[trigger] step(a, x)).1 is Ok implies grew_by(
        table(a),
        table(step(a, x).0),
        rows_of(x),
        strip,
    ) by {
        if x.shared_with_other_environments is None {
            assert(table(step(a, x).0) =~= table(a).push(step(a, x).0.project_pois.last()));
        }
    }
    lemma_replay_appends_rows(st, items.project_pois, step, table, rows_of, strip);
    let s1 = replay(st, items.project_pois, step).0;
    let s2 = replay(s1, items.project_notes, project_note_step(project_id, group_name, env)).0;
    lemma_replay_keeps(
        s1,
        items.project_notes,
        project_note_step(project_id, group_name, env),
        kept,
    );
    let s3 = replay(s2, items.server_links, server_link_step(project_id, group_name, env)).0;
    lemma_replay_keeps(s2, items.server_links, server_link_step(project_id, group_name, env), kept);
    let servers = server_step(project_id, env, group_name);
    assert(kept_by_server_writes(kept));
    assert forall|a: StorageView, x: ServerWithItemsImportExportView|
        kept(a, (#[trigger] servers(a, x)).0) by {
        server_keeps(a, project_id, env, group_name, x, kept);
    }
    lemma_replay_deferring_keeps(s3, items.servers, servers, kept);
}

/// The first pass over the named groups of an environment writes their
/// points of interest, group after group.
pub proof fn env_groups_write_their_pois(
    st: StorageView,
    project_id: i32,
    env: EnvironmentType,
    groups: Seq<(Seq<char>, ProjectEnvGroupImportExportView)>,
)
    requires
        replay_deferring(st, groups, env_group_step(project_id, env)).1 is Ok,
    ensures
        grew_by(
            st.project_pois,
            replay_deferring(st, groups, env_group_step(project_id, env)).0.project_pois,
            pois_of_groups(project_id, groups),
            poi_unnumbered(),
        ),
    decreases groups.len(),
{
    if groups.len() > 0 {
        let after = spec_import_project_env_group_first_pass(
            st,
            project_id,
            groups[0].1,
            env,
            Some(groups[0].0),
        ).0;
        env_group_writes_its_pois(st, project_id, groups[0].1, env, Some(groups[0].0));
        env_groups_write_their_pois(after, project_id, env, groups.skip(1));
        lemma_grew_twice(
            st.project_pois,
            after.project_pois,
            replay_deferring(st, groups, env_group_step(project_id, env)).0.project_pois,
            all_rows(groups[0].1.project_pois, poi_rows(project_id, Some(groups[0].0))),
            pois_of_groups(project_id, groups.skip(1)),
            poi_unnumbered(),
        );
    }
}

/// The first pass over one environment, present or not, writes the
/// environment's points of interest.
pub proof fn env_writes_its_pois(
    st: StorageView,
    project_id: i32,
    env: EnvironmentType,
    project_env: Option<ProjectEnvImportExportView>,
)
    requires
        spec_first_pass_if_present(st, project_id, env, project_env).1 is Ok,
    ensures
        grew_by(
            st.project_pois,
            spec_first_pass_if_present(st, project_id, env, project_env).0.project_pois,
            pois_of_env(project_id, project_env),
            poi_unnumbered(),
        ),
{
    if let Some(e) = project_env {
        let s1 = spec_import_project_env_group_first_pass(st, project_id, e.items, env, None).0;
        env_group_writes_its_pois(st, project_id, e.items, env, None);
        env_groups_write_their_pois(s1, project_id, env, e.items_in_groups);
        lemma_grew_twice(
            st.project_pois,
            s1.project_pois,
            spec_import_project_env_first_pass(st, project_id, env, e).0.project_pois,
            all_rows(e.items.project_pois, poi_rows(project_id, None)),
            pois_of_groups(project_id, e.items_in_groups),
            poi_unnumbered(),
        );
    }
}

/// An import writes the points of interest of the document. After an
/// import that succeeds, the table of project points of interest holds its
/// old rows and, behind them, one row for each point of interest of the
/// document that is not marked as shared, in document order, in the project
/// that the import created and in the group under which the document holds
/// it.
pub proof fn import_writes_the_pois(st: StorageView, doc: ProjectImportExportView)
    requires
        spec_do_import(st, doc).1 is Ok,
    ensures
        grew_by(
            st.project_pois,
            spec_do_import(st, doc).0.project_pois,
            pois_of_document(st.next_project_id()->0, doc),
            poi_unnumbered(),
        ),
{
    let project_id = st.next_project_id()->0;
    let s0 = st.add_project(project_row(doc));
    let dev = EnvironmentType::EnvDevelopment;
    let stage = EnvironmentType::EnvStage;
    let uat = EnvironmentType::EnvUat;
    let prod = EnvironmentType::EnvProd;
    let o1 = spec_first_pass_if_present(s0, project_id, dev, doc.development_environment);
    let o2 = then_first_pass(o1, project_id, stage, doc.staging_environment);
    let o3 = then_first_pass(o2, project_id, uat, doc.uat_environment);
    let o4 = then_first_pass(o3, project_id, prod, doc.prod_environment);
    assert(o4 == spec_first_pass(s0, project_id, doc));
    assert(o4.1 is Ok);
    assert(o3.1 is Ok);
    assert(o2.1 is Ok);
    assert(o1.1 is Ok);
    env_writes_its_pois(s0, project_id, dev, doc.development_environment);
    env_writes_its_pois(o1.0, project_id, stage, doc.staging_environment);
    env_writes_its_pois(o2.0, project_id, uat, doc.uat_environment);
    env_writes_its_pois(o3.0, project_id, prod, doc.prod_environment);
    let r1 = pois_of_env(project_id, doc.development_environment);
    let r2 = pois_of_env(project_id, doc.staging_environment);
    let r3 = pois_of_env(project_id, doc.uat_environment);
    let r4 = pois_of_env(project_id, doc.prod_environment);
    let strip = poi_unnumbered();
    lemma_grew_twice(s0.project_pois, o1.0.project_pois, o2.0.project_pois, r1, r2, strip);
    lemma_grew_twice(s0.project_pois, o2.0.project_pois, o3.0.project_pois, r1 + r2, r3, strip);
    lemma_grew_twice(
        s0.project_pois,
        o3.0.project_pois,
        o4.0.project_pois,
        r1 + r2 + r3,
        r4,
        strip,
    );
    second_pass_writes_websites_only(o4.0, o4.1->Ok_0);
}

// ---------------------------------------------------------------------------
// What a document of a project lists
// ---------------------------------------------------------------------------
/// The test that the points of interest of a project pass.
pub open spec fn poi_of(project_id: i32) -> spec_fn(ProjectPointOfInterestView) -> bool {
    |r: ProjectPointOfInterestView| r.project_id == project_id
}

/// The group under which a point of interest is filed.
pub open spec fn poi_group() -> spec_fn(ProjectPointOfInterestView) -> Option<Seq<char>> {
    |r: ProjectPointOfInterestView| r.group_name
}

/// A point of interest as it comes back from an import into the project
/// `project_id`: with every field as it was, but for its identifier and its
/// project.
pub open spec fn poi_moved_to(project_id: i32) -> spec_fn(
    ProjectPointOfInterestView,
) -> ProjectPointOfInterestView {
    |r: ProjectPointOfInterestView| ProjectPointOfInterestView { id: 0, project_id, ..r }
}

/// Whether the project has any environment.
pub open spec fn has_any_environment(project: ProjectView) -> bool {
    project.has_dev || project.has_stage || project.has_uat || project.has_prod
}

/// Whether `env` is the first environment that the project has.
pub open spec fn is_first_environment(project: ProjectView, env: EnvironmentType) -> bool {
    has_environment(project, env) && !earlier_environment(project, env)
}

/// The points of interest that a document lists under one group of one
/// environment bring, in the first environment of the project, the points of
/// interest of the project that are filed under that group, in table order;
/// in any later environment they are marked as shared and bring nothing.
pub proof fn exported_group_lists_its_pois(
    st: StorageView,
    project: ProjectView,
    env: EnvironmentType,
    group_name: Option<Seq<char>>,
    project_id: i32,
)
    ensures
        all_rows(
            env_group_of(st, project, env, group_name).project_pois,
            poi_rows(project_id, group_name),
        ) == (if earlier_environment(project, env) {
            Seq::empty()
        } else {
            select(
                st.project_pois,
                filed_under(poi_of(project.id), poi_group(), group_name),
                poi_moved_to(project_id),
            )
        }),
{
    let shared = earlier_environment(project, env);
    let wanted = project_poi_wanted(project.id, group_name);
    let filed = filed_under(poi_of(project.id), poi_group(), group_name);
    let found = st.project_pois.filter(wanted);
    let items = env_group_of(st, project, env, group_name).project_pois;
    let rows_of = poi_rows(project_id, group_name);
    assert(items == found.map_values(project_poi_item(shared)));
    if shared {
        lemma_all_rows_none(items, rows_of);
    } else {
        lemma_all_rows_one_each(items, rows_of, poi_row(project_id, group_name));
        lemma_filter_same(st.project_pois, wanted, filed);
        let listed = items.map_values(poi_row(project_id, group_name));
        let target = select(st.project_pois, filed, poi_moved_to(project_id));
        assert(listed.len() == target.len());
        assert forall|k: int| 0 <= k < listed.len() implies listed[k] == target[k] by {
            st.project_pois.lemma_filter_pred(wanted, k);
            assert(wanted(found[k]));
        }
        assert(listed =~= target);
    }
}

/// The points of interest that a document lists under the named groups of
/// one environment bring, in the first environment of the project, the
/// points of interest of the project taken group after group, and nothing in
/// any later environment.
pub proof fn exported_groups_list_their_pois(
    st: StorageView,
    project: ProjectView,
    env: EnvironmentType,
    names: Seq<Seq<char>>,
    project_id: i32,
)
    ensures
        pois_of_groups(project_id, names.map_values(env_group_item(st, project, env))) == (
        if earlier_environment(project, env) {
            Seq::empty()
        } else {
            selected_by_groups(
                st.project_pois,
                poi_of(project.id),
                poi_group(),
                names,
                poi_moved_to(project_id),
            )
        }),
    decreases names.len(),
{
    let groups = names.map_values(env_group_item(st, project, env));
    if names.len() > 0 {
        assert(groups.skip(1) =~= names.skip(1).map_values(env_group_item(st, project, env)));
        exported_groups_list_their_pois(st, project, env, names.skip(1), project_id);
        exported_group_lists_its_pois(st, project, env, Some(names[0]), project_id);
        if earlier_environment(project, env) {
            assert(Seq::<ProjectPointOfInterestView>::empty() + Seq::<
                ProjectPointOfInterestView,
            >::empty() =~= Seq::<ProjectPointOfInterestView>::empty());
        }
    }
}

/// The points of interest that a document lists under one environment
/// are, in the first environment of the project, as a collection the points
/// of interest of the project; any other environment brings none.
pub proof fn exported_env_lists_its_pois(
    st: StorageView,
    project: ProjectView,
    env: EnvironmentType,
    project_id: i32,
)
    ensures
        is_first_environment(project, env) ==> pois_of_env(
            project_id,
            env_if_present(st, project, env),
        ).to_multiset() == select(
            st.project_pois,
            poi_of(project.id),
            poi_moved_to(project_id),
        ).to_multiset(),
        !is_first_environment(project, env) ==> pois_of_env(
            project_id,
            env_if_present(st, project, env),
        ) == Seq::<ProjectPointOfInterestView>::empty(),
{
    if has_environment(project, env) {
        let names = project_item_group_names(st, project.id);
        exported_group_lists_its_pois(st, project, env, None, project_id);
        exported_groups_list_their_pois(st, project, env, names, project_id);
        if earlier_environment(project, env) {
            assert(Seq::<ProjectPointOfInterestView>::empty() + Seq::<
                ProjectPointOfInterestView,
            >::empty() =~= Seq::<ProjectPointOfInterestView>::empty());
        } else {
            let owned = poi_of(project.id);
            let group_of = poi_group();
            lemma_project_item_group_names(st, project.id);
            lemma_ascending_no_duplicates(names);
            assert forall|i: int|
                0 <= i < st.project_pois.len() && owned(#[trigger] st.project_pois[i]) && group_of(
                    st.project_pois[i],
                ) is Some implies names.contains(group_of(st.project_pois[i])->0) by {
                let r = st.project_pois[i];
                assert(project_poi_labels(st)[i] == (project.id, r.group_name));
                assert(project_poi_labels(st).contains((project.id, Some(r.group_name->0))));
            }
            lemma_selected_by_all_groups(
                st.project_pois,
                owned,
                group_of,
                names,
                poi_moved_to(project_id),
            );
        }
    }
}

/// A document lists every point of interest of its project once: in the
/// first environment that the project has. The points of interest that the
/// document brings are, as a collection, those of the project: each of them
/// once, with every field as storage holds it, identifier and project aside.
/// The document of a project without any environment brings none.
pub proof fn exported_document_lists_the_pois(st: StorageView, source_id: i32, project_id: i32)
    requires
        spec_export_project(st, source_id) is Ok,
    ensures
        has_any_environment(project_by_id(st, source_id)->0) ==> pois_of_document(
            project_id,
            spec_export_project(st, source_id)->Ok_0,
        ).to_multiset() == select(
            st.project_pois,
            poi_of(project_by_id(st, source_id)->0.id),
            poi_moved_to(project_id),
        ).to_multiset(),
        !has_any_environment(project_by_id(st, source_id)->0) ==> pois_of_document(
            project_id,
            spec_export_project(st, source_id)->Ok_0,
        ) == Seq::<ProjectPointOfInterestView>::empty(),
{
    let project = project_by_id(st, source_id)->0;
    let doc = spec_export_project(st, source_id)->Ok_0;
    let none = Seq::<ProjectPointOfInterestView>::empty();
    let r1 = pois_of_env(project_id, doc.development_environment);
    let r2 = pois_of_env(project_id, doc.staging_environment);
    let r3 = pois_of_env(project_id, doc.uat_environment);
    let r4 = pois_of_env(project_id, doc.prod_environment);
    exported_env_lists_its_pois(st, project, EnvironmentType::EnvDevelopment, project_id);
    exported_env_lists_its_pois(st, project, EnvironmentType::EnvStage, project_id);
    exported_env_lists_its_pois(st, project, EnvironmentType::EnvUat, project_id);
    exported_env_lists_its_pois(st, project, EnvironmentType::EnvProd, project_id);
    if project.has_dev {
        assert(r1 + none + none + none =~= r1);
    } else if project.has_stage {
        assert(none + r2 + none + none =~= r2);
    } else if project.has_uat {
        assert(none + none + r3 + none =~= r3);
    } else if project.has_prod {
        assert(none + none + none + r4 =~= r4);
    } else {
        assert(none + none + none + none =~= none);
    }
}

// ---------------------------------------------------------------------------
// Export followed by import
// ---------------------------------------------------------------------------
/// The points of interest survive export and import. Where the project
/// `source_id` of `source` has an environment, is exported, and the import
/// of the document into `dest` succeeds, `dest` keeps its points of interest
/// as they were, and those that it gains are, as a collection, the points of
/// interest of the exported project: each of them once, however many
/// environments the project has, with every field as it was in `source`, but
/// for its identifier and its project, which `dest` assigns.
pub proof fn pois_survive_export_and_import(source: StorageView, source_id: i32, dest: StorageView)
    requires
        spec_export_project(source, source_id) is Ok,
        has_any_environment(project_by_id(source, source_id)->0),
        spec_do_import(dest, spec_export_project(source, source_id)->Ok_0).1 is Ok,
    ensures
        ({
            let fin = spec_do_import(dest, spec_export_project(source, source_id)->Ok_0).0;
            let n = dest.project_pois.len() as int;
            &&& fin.project_pois.take(n) == dest.project_pois
            &&& fin.project_pois.skip(n).map_values(poi_unnumbered()).to_multiset() == select(
                source.project_pois,
                poi_of(project_by_id(source, source_id)->0.id),
                poi_moved_to(dest.next_project_id()->0),
            ).to_multiset()
        }),
{
    let doc = spec_export_project(source, source_id)->Ok_0;
    let fin = spec_do_import(dest, doc).0;
    let project_id = dest.next_project_id()->0;
    import_writes_the_pois(dest, doc);
    exported_document_lists_the_pois(source, source_id, project_id);
    lemma_grown_rows(
        dest.project_pois,
        fin.project_pois,
        pois_of_document(project_id, doc),
        poi_unnumbered(),
    );
}

} // verus!
