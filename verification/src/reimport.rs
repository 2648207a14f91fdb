//! Why the import of an exported document can stop: a server link whose
//! target is missing, or a table without identifiers left. It never stops
//! at the marker of a shared note, since a document lists every note in
//! full before it lists a marker for it.

use vstd::prelude::*;
use crate::document::{ServerGroupImportExportView, ServerWithItemsImportExportView};
use crate::export::{
    env_group_item, env_group_of, env_if_present, env_of, has_environment, note_in,
    note_in_earlier_environment, project_by_id, project_note_item, project_note_wanted,
    spec_export_project,
};
use crate::groups::{lemma_project_item_group_names, project_item_group_names, project_note_labels};
use crate::guarantees::{env_group_keeps, kept_by_first_pass_writes, server_keeps};
use crate::import::{
    database_step, env_group_step, matching_notes, note_answers, project_exists, project_note_step,
    project_poi_step, project_row, server_group_step, server_link_step, server_note_step,
    server_poi_step, server_row, server_step, server_user_step, spec_do_import, spec_first_pass,
    spec_first_pass_if_present, spec_import_project_env_group_first_pass,
    spec_import_project_note, spec_import_server, spec_import_server_items, then_first_pass,
    website_step,
};
use crate::note_round_trip::{copies, lemma_marked_copies, marked};
use crate::replay::{
    fails_as, lemma_replay_deferring_fails_as_its_steps, lemma_replay_deferring_keeps,
    lemma_replay_fails_as_its_steps, lemma_replay_keeps, lemma_replay_push, replay,
    replay_deferring, ImportError,
};
use crate::rows::{ProjectNoteView, ProjectView};
use crate::select::{lemma_select_ends, lemma_select_push, select};
use crate::storage::{StorageError, StorageView};
use crate::types::EnvironmentType;

verus! {

// ---------------------------------------------------------------------------
// What storage knows of the notes
// ---------------------------------------------------------------------------
/// Whether storage holds a note of the project `project_id` with the
/// title and the group of `note`.
pub open spec fn known(st: StorageView, note: ProjectNoteView, project_id: i32) -> bool {
    copies(st, note, project_id).len() > 0
}

/// Whether storage knows, under `project_id`, every note of the project
/// `source_id` among `notes` that passes the test.
pub open spec fn knows(
    st: StorageView,
    notes: Seq<ProjectNoteView>,
    source_id: i32,
    project_id: i32,
    seen: spec_fn(ProjectNoteView) -> bool,
) -> bool {
    forall|i: int|
        0 <= i < notes.len() && (#[trigger] notes[i]).project_id == source_id && seen(notes[i])
            ==> known(st, notes[i], project_id)
}

/// The second storage holds a note for every title, group and project
/// for which the first holds one.
pub open spec fn knowledge_kept() -> spec_fn(StorageView, StorageView) -> bool {
    |a: StorageView, b: StorageView|
        forall|title: Seq<char>, group_name: Option<Seq<char>>, project_id: i32|
            (#[trigger] matching_notes(a, title, group_name, project_id)).len() > 0
                ==> matching_notes(b, title, group_name, project_id).len() > 0
}

/// No write of the first pass makes storage forget a note: a new row
/// leaves the others alone, and a mark changes no title, group or project.
pub proof fn writes_keep_knowledge()
    ensures
        kept_by_first_pass_writes(knowledge_kept()),
{
    let kept = knowledge_kept();
    assert forall|a: StorageView, row: ProjectNoteView|
        kept(a, #[trigger] a.add_project_note(row)) by {
        let b = a.add_project_note(row);
        assert forall|title: Seq<char>, group_name: Option<Seq<char>>, project_id: i32|
            (#[trigger] matching_notes(a, title, group_name, project_id)).len() > 0 implies matching_notes(
            b,
            title,
            group_name,
            project_id,
        ).len() > 0 by {
            if a.next_project_note_id() is Some {
                a.project_notes.lemma_filter_push(
                    b.project_notes.last(),
                    note_answers(title, group_name, project_id),
                );
            }
        }
    }
    assert forall|a: StorageView, id: i32, env: EnvironmentType|
        kept(a, #[trigger] a.mark_project_note(id, env)) by {
        let b = a.mark_project_note(id, env);
        assert(b.project_notes =~= marked(a.project_notes, id, env));
        assert forall|title: Seq<char>, group_name: Option<Seq<char>>, project_id: i32|
            (#[trigger] matching_notes(a, title, group_name, project_id)).len() > 0 implies matching_notes(
            b,
            title,
            group_name,
            project_id,
        ).len() > 0 by {
            lemma_marked_copies(a.project_notes, id, env, title, group_name, project_id);
        }
    }
}

/// What one storage knows of the notes, a storage that keeps its knowledge
/// knows too.
pub proof fn lemma_knowledge_carries(
    a: StorageView,
    b: StorageView,
    notes: Seq<ProjectNoteView>,
    source_id: i32,
    project_id: i32,
    seen: spec_fn(ProjectNoteView) -> bool,
)
    requires
        knowledge_kept()(a, b),
        knows(a, notes, source_id, project_id, seen),
    ensures
        knows(b, notes, source_id, project_id, seen),
{
    assert forall|i: int|
        0 <= i < notes.len() && (#[trigger] notes[i]).project_id == source_id && seen(
            notes[i],
        ) implies known(b, notes[i], project_id) by {
        assert(matching_notes(a, notes[i].title, notes[i].group_name, project_id).len() > 0);
    }
}

// ---------------------------------------------------------------------------
// The failures of the first pass
// ---------------------------------------------------------------------------
/// The failures that the import of an exported document can end in: a
/// server link whose target is not found, and a table without identifiers
/// left.
pub open spec fn link_or_identifier_missing() -> spec_fn(ImportError) -> bool {
    |e: ImportError| e is LinkedServerNotFound || e is Storage
}

/// The import of the items of one group of a server fails only for want
/// of identifiers.
pub proof fn server_items_fail_for_identifiers(
    st: StorageView,
    server_id: i32,
    group_name: Option<Seq<char>>,
    items: ServerGroupImportExportView,
)
    ensures
        fails_as(
            spec_import_server_items(st, server_id, group_name, items).1,
            link_or_identifier_missing(),
        ),
{
    let allowed = link_or_identifier_missing();
    let (s1, r1) = replay(st, items.server_databases, database_step(server_id, group_name));
    lemma_replay_fails_as_its_steps(
        st,
        items.server_databases,
        database_step(server_id, group_name),
        allowed,
    );
    let (s2, r2) = replay(s1, items.server_notes, server_note_step(server_id, group_name));
    lemma_replay_fails_as_its_steps(
        s1,
        items.server_notes,
        server_note_step(server_id, group_name),
        allowed,
    );
    let (s3, r3) = replay(s2, items.server_pois, server_poi_step(server_id, group_name));
    lemma_replay_fails_as_its_steps(
        s2,
        items.server_pois,
        server_poi_step(server_id, group_name),
        allowed,
    );
    lemma_replay_fails_as_its_steps(
        s3,
        items.server_extra_users,
        server_user_step(server_id, group_name),
        allowed,
    );
}

/// The import of a server with its items fails only for want of
/// identifiers.
pub proof fn server_fails_for_identifiers(
    st: StorageView,
    project_id: i32,
    env: EnvironmentType,
    group_name: Option<Seq<char>>,
    server: ServerWithItemsImportExportView,
)
    ensures
        fails_as(
            spec_import_server(st, project_id, env, group_name, server).1,
            link_or_identifier_missing(),
        ),
{
    let allowed = link_or_identifier_missing();
    if st.next_server_id() is Some {
        let server_id = st.next_server_id()->0;
        let s1 = st.add_server(server_row(project_id, env, group_name, server.server));
        server_items_fail_for_identifiers(s1, server_id, None, server.items);
        let (s2, r2) = spec_import_server_items(s1, server_id, None, server.items);
        let step = server_group_step(server_id);
        assert forall|a: StorageView, x: (Seq<char>, ServerGroupImportExportView)|
            fails_as((#[trigger] step(a, x)).1, allowed) by {
            server_items_fail_for_identifiers(a, server_id, Some(x.0), x.1);
        }
        lemma_replay_fails_as_its_steps(s2, server.items_in_groups, step, allowed);
    }
}

// ---------------------------------------------------------------------------
// The notes of one group of one environment
// ---------------------------------------------------------------------------
/// The test that a note passes when it was present in an environment of
/// the project before `env`.
pub open spec fn met_earlier(project: ProjectView, env: EnvironmentType) -> spec_fn(
    ProjectNoteView,
) -> bool {
    |n: ProjectNoteView| note_in_earlier_environment(project, n, env)
}

/// The test that a note passes when it is filed under the group and
/// present in `env`.
pub open spec fn in_bucket(env: EnvironmentType, group_name: Option<Seq<char>>) -> spec_fn(
    ProjectNoteView,
) -> bool {
    |n: ProjectNoteView| n.group_name == group_name && note_in(n, env)
}

/// The import of the notes that a document lists under one group of one
/// environment finds the note of every marker, where storage knows the
/// notes of the earlier environments; and storage knows afterwards the notes
/// of this group and environment too.
pub proof fn bucket_finds_its_notes(
    source: Seq<ProjectNoteView>,
    k: int,
    st: StorageView,
    project: ProjectView,
    project_id: i32,
    env: EnvironmentType,
    group_name: Option<Seq<char>>,
)
    requires
        0 <= k <= source.len(),
        knows(st, source, project.id, project_id, met_earlier(project, env)),
    ensures
        ({
            let out = replay(
                st,
                select(
                    source.take(k),
                    project_note_wanted(project.id, env, group_name),
                    project_note_item(project, env),
                ),
                project_note_step(project_id, group_name, env),
            );
            &&& fails_as(out.1, link_or_identifier_missing())
            &&& knowledge_kept()(st, out.0)
            &&& out.1 is Ok ==> knows(
                out.0,
                source.take(k),
                project.id,
                project_id,
                in_bucket(env, group_name),
            )
        }),
    decreases k,
{
    let wanted = project_note_wanted(project.id, env, group_name);
    let item = project_note_item(project, env);
    let step = project_note_step(project_id, group_name, env);
    let kept = knowledge_kept();
    writes_keep_knowledge();
    if k == 0 {
        lemma_select_ends(source, wanted, item);
    } else {
        let other = source[k - 1];
        let earlier = select(source.take(k - 1), wanted, item);
        assert(source.take(k) =~= source.take(k - 1).push(other));
        lemma_select_push(source.take(k - 1), other, wanted, item);
        bucket_finds_its_notes(source, k - 1, st, project, project_id, env, group_name);
        let before = replay(st, earlier, step);
        let mid = before.0;
        if wanted(other) {
            lemma_replay_push(st, earlier, item(other), step);
            if before.1 is Ok {
                let after = spec_import_project_note(mid, project_id, group_name, env, item(other));
                assert(step(mid, item(other)) == after);
                if note_in_earlier_environment(project, other, env) {
                    assert(known(st, other, project_id));
                    assert(matching_notes(st, other.title, other.group_name, project_id).len() > 0);
                    assert(matching_notes(mid, other.title, other.group_name, project_id).len() > 0);
                    assert(after.1 is Ok);
                    assert(kept(mid, after.0));
                } else {
                    assert(kept(mid, after.0));
                    if after.1 is Ok {
                        let row = after.0.project_notes.last();
                        assert(after.0.project_notes == mid.project_notes.push(row));
                        mid.project_notes.lemma_filter_push(
                            row,
                            note_answers(other.title, other.group_name, project_id),
                        );
                    }
                }
                if after.1 is Ok {
                    assert(known(after.0, other, project_id));
                    assert forall|i: int|
                        0 <= i < source.take(k).len() && (#[trigger] source.take(k)[i]).project_id
                            == project.id && in_bucket(env, group_name)(
                            source.take(k)[i],
                        ) implies known(after.0, source.take(k)[i], project_id) by {
                        if i < k - 1 {
                            let n = source.take(k - 1)[i];
                            assert(n == source.take(k)[i]);
                            assert(known(mid, n, project_id));
                            assert(matching_notes(mid, n.title, n.group_name, project_id).len() > 0);
                        }
                    }
                }
            }
        } else {
            if before.1 is Ok {
                assert forall|i: int|
                    0 <= i < source.take(k).len() && (#[trigger] source.take(k)[i]).project_id
                        == project.id && in_bucket(env, group_name)(
                        source.take(k)[i],
                    ) implies known(mid, source.take(k)[i], project_id) by {
                    if i < k - 1 {
                        assert(source.take(k - 1)[i] == source.take(k)[i]);
                    }
                }
            }
        }
    }
}

/// The first pass over one group of one environment of an exported
/// project finds the note of every marker, where storage knows the notes of
/// the earlier environments; and storage knows afterwards the notes of this
/// group and environment too.
pub proof fn env_group_finds_its_notes(
    source: StorageView,
    st: StorageView,
    project: ProjectView,
    project_id: i32,
    env: EnvironmentType,
    group_name: Option<Seq<char>>,
)
    requires
        knows(st, source.project_notes, project.id, project_id, met_earlier(project, env)),
    ensures
        ({
            let out = spec_import_project_env_group_first_pass(
                st,
                project_id,
                env_group_of(source, project, env, group_name),
                env,
                group_name,
            );
            &&& fails_as(out.1, link_or_identifier_missing())
            &&& knowledge_kept()(st, out.0)
            &&& out.1 is Ok ==> knows(
                out.0,
                source.project_notes,
                project.id,
                project_id,
                in_bucket(env, group_name),
            )
        }),
{
    let items = env_group_of(source, project, env, group_name);
    let kept = knowledge_kept();
    let allowed = link_or_identifier_missing();
    let notes = source.project_notes;
    writes_keep_knowledge();
    env_group_keeps(st, project_id, items, env, group_name, kept);
    let pois = project_poi_step(project_id, group_name);
    let (s1, r1) = replay(st, items.project_pois, pois);
    lemma_replay_keeps(st, items.project_pois, pois, kept);
    lemma_replay_fails_as_its_steps(st, items.project_pois, pois, allowed);
    lemma_knowledge_carries(st, s1, notes, project.id, project_id, met_earlier(project, env));
    assert(notes.take(notes.len() as int) =~= notes);
    bucket_finds_its_notes(notes, notes.len() as int, s1, project, project_id, env, group_name);
    let (s2, r2) = replay(s1, items.project_notes, project_note_step(project_id, group_name, env));
    let links = server_link_step(project_id, group_name, env);
    let (s3, r3) = replay(s2, items.server_links, links);
    lemma_replay_keeps(s2, items.server_links, links, kept);
    lemma_replay_fails_as_its_steps(s2, items.server_links, links, allowed);
    let servers = server_step(project_id, env, group_name);
    assert forall|a: StorageView, x: ServerWithItemsImportExportView|
        kept(a, (#[trigger] servers(a, x)).0) && fails_as(servers(a, x).1, allowed) by {
        server_keeps(a, project_id, env, group_name, x, kept);
        server_fails_for_identifiers(a, project_id, env, group_name, x);
    }
    lemma_replay_deferring_keeps(s3, items.servers, servers, kept);
    lemma_replay_deferring_fails_as_its_steps(s3, items.servers, servers, allowed);
    let s4 = replay_deferring(s3, items.servers, servers).0;
    if r1 is Ok && r2 is Ok && r3 is Ok {
        assert(kept(s2, s4));
        lemma_knowledge_carries(s2, s4, notes, project.id, project_id, in_bucket(env, group_name));
    }
}

// ---------------------------------------------------------------------------
// The named groups of one environment
// ---------------------------------------------------------------------------
/// The test that a note passes when it is filed under one of the names
/// and present in `env`.
pub open spec fn in_named_groups(env: EnvironmentType, names: Seq<Seq<char>>) -> spec_fn(
    ProjectNoteView,
) -> bool {
    |n: ProjectNoteView| n.group_name is Some && names.contains(n.group_name->0) && note_in(n, env)
}

/// The first pass over named groups of one environment of an exported
/// project finds the note of every marker, where storage knows the notes of
/// the earlier environments; and storage knows afterwards the notes of these
/// groups in this environment too.
pub proof fn env_groups_find_their_notes(
    source: StorageView,
    names: Seq<Seq<char>>,
    st: StorageView,
    project: ProjectView,
    project_id: i32,
    env: EnvironmentType,
)
    requires
        knows(st, source.project_notes, project.id, project_id, met_earlier(project, env)),
    ensures
        ({
            let out = replay_deferring(
                st,
                names.map_values(env_group_item(source, project, env)),
                env_group_step(project_id, env),
            );
            &&& fails_as(out.1, link_or_identifier_missing())
            &&& knowledge_kept()(st, out.0)
            &&& out.1 is Ok ==> knows(
                out.0,
                source.project_notes,
                project.id,
                project_id,
                in_named_groups(env, names),
            )
        }),
    decreases names.len(),
{
    let notes = source.project_notes;
    let groups = names.map_values(env_group_item(source, project, env));
    let kept = knowledge_kept();
    writes_keep_knowledge();
    if names.len() > 0 {
        let rest = names.skip(1);
        assert(groups.skip(1) =~= rest.map_values(env_group_item(source, project, env)));
        assert(groups[0] == (names[0], env_group_of(source, project, env, Some(names[0]))));
        env_group_finds_its_notes(source, st, project, project_id, env, Some(names[0]));
        let first = spec_import_project_env_group_first_pass(
            st,
            project_id,
            groups[0].1,
            env,
            Some(groups[0].0),
        );
        assert(env_group_step(project_id, env)(st, groups[0]) == first);
        if first.1 is Ok {
            let after = first.0;
            lemma_knowledge_carries(st, after, notes, project.id, project_id, met_earlier(project, env));
            env_groups_find_their_notes(source, rest, after, project, project_id, env);
            let out = replay_deferring(
                after,
                rest.map_values(env_group_item(source, project, env)),
                env_group_step(project_id, env),
            );
            assert(kept(st, out.0));
            if out.1 is Ok {
                lemma_knowledge_carries(
                    after,
                    out.0,
                    notes,
                    project.id,
                    project_id,
                    in_bucket(env, Some(names[0])),
                );
                assert forall|i: int|
                    0 <= i < notes.len() && (#[trigger] notes[i]).project_id == project.id
                        && in_named_groups(env, names)(notes[i]) implies known(
                    out.0,
                    notes[i],
                    project_id,
                ) by {
                    let x = notes[i].group_name->0;
                    let j = choose|j: int| 0 <= j < names.len() && names[j] == x;
                    if j > 0 {
                        assert(rest[j - 1] == x);
                        assert(in_named_groups(env, rest)(notes[i]));
                    } else {
                        assert(in_bucket(env, Some(names[0]))(notes[i]));
                    }
                }
            }
        }
    }
}

// ---------------------------------------------------------------------------
// The environments
// ---------------------------------------------------------------------------
/// The test that a note passes when it was present in an environment of
/// the project before `env`, or is present in `env` and the project has it.
pub open spec fn met_through(project: ProjectView, env: EnvironmentType) -> spec_fn(
    ProjectNoteView,
) -> bool {
    |n: ProjectNoteView|
        note_in_earlier_environment(project, n, env) || (has_environment(project, env) && note_in(
            n,
            env,
        ))
}

/// The first pass over one environment of an exported project finds the
/// note of every marker, where storage knows the notes of the earlier
/// environments; and storage knows afterwards the notes of this environment
/// too.
pub proof fn env_finds_its_notes(
    source: StorageView,
    st: StorageView,
    project: ProjectView,
    project_id: i32,
    env: EnvironmentType,
)
    requires
        knows(st, source.project_notes, project.id, project_id, met_earlier(project, env)),
    ensures
        ({
            let out = spec_first_pass_if_present(
                st,
                project_id,
                env,
                env_if_present(source, project, env),
            );
            &&& fails_as(out.1, link_or_identifier_missing())
            &&& knowledge_kept()(st, out.0)
            &&& out.1 is Ok ==> knows(
                out.0,
                source.project_notes,
                project.id,
                project_id,
                met_through(project, env),
            )
        }),
{
    let notes = source.project_notes;
    let kept = knowledge_kept();
    writes_keep_knowledge();
    if has_environment(project, env) {
        let names = project_item_group_names(source, project.id);
        lemma_project_item_group_names(source, project.id);
        env_group_finds_its_notes(source, st, project, project_id, env, None);
        let e = env_of(source, project, env);
        let first = spec_import_project_env_group_first_pass(st, project_id, e.items, env, None);
        if first.1 is Ok {
            let s1 = first.0;
            lemma_knowledge_carries(st, s1, notes, project.id, project_id, met_earlier(project, env));
            env_groups_find_their_notes(source, names, s1, project, project_id, env);
            let out = replay_deferring(s1, e.items_in_groups, env_group_step(project_id, env));
            assert(kept(st, out.0));
            if out.1 is Ok {
                lemma_knowledge_carries(s1, out.0, notes, project.id, project_id, in_bucket(env, None));
                lemma_knowledge_carries(
                    st,
                    out.0,
                    notes,
                    project.id,
                    project_id,
                    met_earlier(project, env),
                );
                assert forall|i: int|
                    0 <= i < notes.len() && (#[trigger] notes[i]).project_id == project.id
                        && met_through(project, env)(notes[i]) implies known(
                    out.0,
                    notes[i],
                    project_id,
                ) by {
                    let n = notes[i];
                    if note_in_earlier_environment(project, n, env) {
                        assert(met_earlier(project, env)(n));
                    } else if n.group_name is Some {
                        assert(project_note_labels(source)[i] == (project.id, n.group_name));
                        assert(project_note_labels(source).contains(
                            (project.id, Some(n.group_name->0)),
                        ));
                        assert(names.contains(n.group_name->0));
                        assert(in_named_groups(env, names)(n));
                    } else {
                        assert(in_bucket(env, None)(n));
                    }
                }
            }
        }
    } else {
        lemma_knowledge_carries(st, st, notes, project.id, project_id, met_earlier(project, env));
        assert forall|i: int|
            0 <= i < notes.len() && (#[trigger] notes[i]).project_id == project.id && met_through(
                project,
                env,
            )(notes[i]) implies known(st, notes[i], project_id) by {
            assert(met_earlier(project, env)(notes[i]));
        }
    }
}

/// What storage knows through one environment, it knows before the next.
proof fn lemma_through_is_earlier(
    st: StorageView,
    notes: Seq<ProjectNoteView>,
    project: ProjectView,
    project_id: i32,
    env: EnvironmentType,
    next: EnvironmentType,
)
    requires
        knows(st, notes, project.id, project_id, met_through(project, env)),
        (env == EnvironmentType::EnvDevelopment && next == EnvironmentType::EnvStage) || (env
            == EnvironmentType::EnvStage && next == EnvironmentType::EnvUat) || (env
            == EnvironmentType::EnvUat && next == EnvironmentType::EnvProd),
    ensures
        knows(st, notes, project.id, project_id, met_earlier(project, next)),
{
    assert forall|i: int|
        0 <= i < notes.len() && (#[trigger] notes[i]).project_id == project.id && met_earlier(
            project,
            next,
        )(notes[i]) implies known(st, notes[i], project_id) by {
        assert(met_through(project, env)(notes[i]));
    }
}

/// The import of an exported document stops only where a server link
/// finds no target or a table has no identifier left. Where storage has no
/// project of the exported project's name yet, the import of the document
/// either succeeds, or fails because the target of a server link was not
/// found, or fails because identifiers ran out. It never fails for a shared
/// note that is missing: in the document every marker of a shared note
/// stands in a later environment than the note itself.
pub proof fn import_of_an_export_stops_only_for_a_link_or_an_identifier(
    source: StorageView,
    source_id: i32,
    dest: StorageView,
)
    requires
        spec_export_project(source, source_id) is Ok,
        !project_exists(dest, project_by_id(source, source_id)->0.name),
    ensures
        ({
            let r = spec_do_import(dest, spec_export_project(source, source_id)->Ok_0).1;
            ||| r is Ok
            ||| r == Err::<(), ImportError>(ImportError::LinkedServerNotFound)
            ||| r == Err::<(), ImportError>(
                ImportError::Storage(StorageError::IdentifiersExhausted),
            )
        }),
{
    let project = project_by_id(source, source_id)->0;
    let doc = spec_export_project(source, source_id)->Ok_0;
    let notes = source.project_notes;
    let allowed = link_or_identifier_missing();
    let dev = EnvironmentType::EnvDevelopment;
    let stage = EnvironmentType::EnvStage;
    let uat = EnvironmentType::EnvUat;
    let prod = EnvironmentType::EnvProd;
    if dest.next_project_id() is Some {
        let project_id = dest.next_project_id()->0;
        let s0 = dest.add_project(project_row(doc));
        let o1 = spec_first_pass_if_present(s0, project_id, dev, doc.development_environment);
        let o2 = then_first_pass(o1, project_id, stage, doc.staging_environment);
        let o3 = then_first_pass(o2, project_id, uat, doc.uat_environment);
        let o4 = then_first_pass(o3, project_id, prod, doc.prod_environment);
        assert(o4 == spec_first_pass(s0, project_id, doc));
        assert(knows(s0, notes, project.id, project_id, met_earlier(project, dev)));
        env_finds_its_notes(source, s0, project, project_id, dev);
        if o1.1 is Ok {
            lemma_through_is_earlier(o1.0, notes, project, project_id, dev, stage);
            env_finds_its_notes(source, o1.0, project, project_id, stage);
            if o2.1 is Ok {
                lemma_through_is_earlier(o2.0, notes, project, project_id, stage, uat);
                env_finds_its_notes(source, o2.0, project, project_id, uat);
                if o3.1 is Ok {
                    lemma_through_is_earlier(o3.0, notes, project, project_id, uat, prod);
                    env_finds_its_notes(source, o3.0, project, project_id, prod);
                }
            }
        }
        assert(fails_as(o4.1, allowed));
        if o4.1 is Ok {
            lemma_replay_fails_as_its_steps(o4.0, o4.1->Ok_0, website_step(), allowed);
        }
    }
}

} // verus!
