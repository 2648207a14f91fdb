//! The notes of a project, exported and imported again: each note of the
//! project comes back as one row, present in the environments in which it
//! was present.

use vstd::prelude::*;
use crate::document::{
    ProjectEnvGroupImportExportView, ProjectEnvImportExportView, ProjectImportExportView,
    ProjectNoteImportExportView, ServerWithItemsImportExportView,
};
use crate::export::{
    env_group_item, env_group_of, env_if_present, env_of, has_environment, note_in,
    note_in_earlier_environment, project_by_id, project_note_item, project_note_wanted,
    spec_export_project,
};
use crate::groups::{
    lemma_ascending_no_duplicates, lemma_project_item_group_names, project_item_group_names,
    project_note_labels,
};
use crate::guarantees::{
    kept_by_server_writes, second_pass_writes_websites_only, server_keeps,
    writes_keep_identifiers_growing,
};
use crate::import::{
    env_group_step, matching_notes, note_answers, project_note_step, project_poi_step,
    project_row, server_link_step, server_step, spec_do_import, spec_first_pass,
    spec_first_pass_if_present, spec_import_project_env_first_pass,
    spec_import_project_env_group_first_pass, spec_import_project_note, then_first_pass,
};
use crate::replay::{
    all_rows, lemma_all_rows_push, lemma_replay_deferring_keeps, lemma_replay_keeps,
    lemma_replay_push, replay, replay_deferring, same_table,
};
use crate::round_trip::note_moved_to;
use crate::rows::{ProjectNoteView, ProjectView};
use crate::select::{
    either, filed_under, lemma_filter_kept, lemma_select_ends, lemma_select_nothing,
    lemma_select_push, lemma_select_same, lemma_select_split, lemma_selected_by_all_groups,
    select, selected_by_groups,
};
use crate::storage::{present_in, StorageView};
use crate::types::EnvironmentType;

verus! {

// ---------------------------------------------------------------------------
// The copies of a note
// ---------------------------------------------------------------------------
/// The rows of the project `project_id` that carry the title and the
/// group of `note`.
pub open spec fn copies(st: StorageView, note: ProjectNoteView, project_id: i32) -> Seq<
    ProjectNoteView,
> {
    matching_notes(st, note.title, note.group_name, project_id)
}

/// A note as an import writes it when it first meets it, in `env`.
pub open spec fn first_met(note: ProjectNoteView, project_id: i32, env: EnvironmentType) -> ProjectNoteView {
    ProjectNoteView {
        id: 0,
        project_id,
        has_dev: env == EnvironmentType::EnvDevelopment,
        has_uat: env == EnvironmentType::EnvUat,
        has_stage: env == EnvironmentType::EnvStage,
        has_prod: env == EnvironmentType::EnvProd,
        ..note
    }
}

/// What an import has made of a note, identifier aside, once it has met
/// it in `env`: a new row where it had made nothing of it yet, and the row
/// marked present in `env` too where it had.
pub open spec fn met_in(
    so_far: Option<ProjectNoteView>,
    note: ProjectNoteView,
    project_id: i32,
    env: EnvironmentType,
) -> Option<ProjectNoteView> {
    match so_far {
        None => Some(first_met(note, project_id, env)),
        Some(row) => Some(present_in(row, env)),
    }
}

/// Whether storage holds of a note what an import has made of it so far:
/// no copy, or one copy with these contents, identifier aside.
pub open spec fn holds_copy(
    st: StorageView,
    note: ProjectNoteView,
    project_id: i32,
    so_far: Option<ProjectNoteView>,
) -> bool {
    match so_far {
        None => copies(st, note, project_id).len() == 0,
        Some(row) => copies(st, note, project_id).len() == 1 && (ProjectNoteView {
            id: 0,
            ..copies(st, note, project_id)[0]
        }) == row,
    }
}

/// Whether no two notes of the project carry the same title in the same
/// group.
pub open spec fn titles_are_unique(notes: Seq<ProjectNoteView>, project_id: i32) -> bool {
    forall|i: int, j: int|
        0 <= i < notes.len() && 0 <= j < notes.len() && (#[trigger] notes[i]).project_id
            == project_id && (#[trigger] notes[j]).project_id == project_id && notes[i].title
            == notes[j].title && notes[i].group_name == notes[j].group_name ==> i == j
}

/// The notes after the rows with the identifier `id` were marked present
/// in `env`.
pub open spec fn marked(notes: Seq<ProjectNoteView>, id: i32, env: EnvironmentType) -> Seq<
    ProjectNoteView,
> {
    Seq::new(
        notes.len(),
        |i: int|
            if notes[i].id == id {
                present_in(notes[i], env)
            } else {
                notes[i]
            },
    )
}

/// The mark that a row gets when the rows with the identifier `id` are
/// marked.
pub open spec fn mark_of(id: i32, env: EnvironmentType) -> spec_fn(ProjectNoteView) -> ProjectNoteView {
    |r: ProjectNoteView|
        if r.id == id {
            present_in(r, env)
        } else {
            r
        }
}

/// Marking changes no title, group or project: the rows that answer to a
/// title after the marking are those that answered before, marked.
pub proof fn lemma_marked_copies(
    notes: Seq<ProjectNoteView>,
    id: i32,
    env: EnvironmentType,
    title: Seq<char>,
    group_name: Option<Seq<char>>,
    project_id: i32,
)
    ensures
        marked(notes, id, env).filter(note_answers(title, group_name, project_id)) == notes.filter(
            note_answers(title, group_name, project_id),
        ).map_values(mark_of(id, env)),
    decreases notes.len(),
{
    let answers = note_answers(title, group_name, project_id);
    let after = marked(notes, id, env);
    if notes.len() == 0 {
        notes.lemma_filter_len(answers);
        after.lemma_filter_len(answers);
        assert(after.filter(answers) =~= notes.filter(answers).map_values(mark_of(id, env)));
    } else {
        let front = notes.drop_last();
        let last = notes.last();
        assert(notes =~= front.push(last));
        assert(after =~= marked(front, id, env).push(mark_of(id, env)(last)));
        lemma_marked_copies(front, id, env, title, group_name, project_id);
        front.lemma_filter_push(last, answers);
        marked(front, id, env).lemma_filter_push(mark_of(id, env)(last), answers);
        assert(answers(mark_of(id, env)(last)) == answers(last));
        if answers(last) {
            assert(front.filter(answers).push(last).map_values(mark_of(id, env)) =~= front.filter(
                answers,
            ).map_values(mark_of(id, env)).push(mark_of(id, env)(last)));
        }
    }
}

/// Two rows that answer to different titles or groups are different rows,
/// so where identifiers grow they carry different identifiers.
proof fn lemma_other_rows_have_other_ids(
    st: StorageView,
    a: ProjectNoteView,
    b: ProjectNoteView,
)
    requires
        st.wf(),
        st.project_notes.contains(a),
        st.project_notes.contains(b),
        a.title != b.title || a.group_name != b.group_name,
    ensures
        a.id != b.id,
{
    let i = choose|i: int| 0 <= i < st.project_notes.len() && st.project_notes[i] == a;
    let j = choose|j: int| 0 <= j < st.project_notes.len() && st.project_notes[j] == b;
    let ids = st.project_note_ids();
    assert(ids[i] == a.id && ids[j] == b.id);
    if i < j {
        assert(ids[i] < ids[j]);
    } else if j < i {
        assert(ids[j] < ids[i]);
    }
}

/// A row that the filter keeps is a row of the table.
proof fn lemma_kept_is_contained(
    notes: Seq<ProjectNoteView>,
    answers: spec_fn(ProjectNoteView) -> bool,
    k: int,
)
    requires
        0 <= k < notes.filter(answers).len(),
    ensures
        notes.contains(notes.filter(answers)[k]),
        answers(notes.filter(answers)[k]),
{
    let i = lemma_filter_kept(notes, answers, k);
}

// ---------------------------------------------------------------------------
// One step
// ---------------------------------------------------------------------------
/// The import of the note itself, as the document holds it in `env`,
/// makes of it what meeting it in `env` makes: a new row where there was no
/// copy, and the one copy marked where there was one.
pub proof fn own_entry_is_met(
    st: StorageView,
    project: ProjectView,
    note: ProjectNoteView,
    project_id: i32,
    env: EnvironmentType,
    so_far: Option<ProjectNoteView>,
)
    requires
        st.wf(),
        holds_copy(st, note, project_id, so_far),
        so_far is Some <==> note_in_earlier_environment(project, note, env),
        spec_import_project_note(
            st,
            project_id,
            note.group_name,
            env,
            project_note_item(project, env)(note),
        ).1 is Ok,
    ensures
        holds_copy(
            spec_import_project_note(
                st,
                project_id,
                note.group_name,
                env,
                project_note_item(project, env)(note),
            ).0,
            note,
            project_id,
            met_in(so_far, note, project_id, env),
        ),
{
    let entry = project_note_item(project, env)(note);
    let after = spec_import_project_note(st, project_id, note.group_name, env, entry).0;
    let answers = note_answers(note.title, note.group_name, project_id);
    match so_far {
        None => {
            let row = after.project_notes.last();
            assert(after.project_notes == st.project_notes.push(row));
            st.project_notes.lemma_filter_push(row, answers);
            assert(copies(after, note, project_id) =~= seq![row]);
        },
        Some(r) => {
            let copy = copies(st, note, project_id)[0];
            lemma_marked_copies(
                st.project_notes,
                copy.id,
                env,
                note.title,
                note.group_name,
                project_id,
            );
            assert(after.project_notes =~= marked(st.project_notes, copy.id, env));
            assert(copies(after, note, project_id) =~= seq![present_in(copy, env)]);
        },
    }
}

/// The import of another note of the project, as the document holds it,
/// leaves the copies of the note as they were.
pub proof fn other_entry_is_passed(
    st: StorageView,
    project: ProjectView,
    note: ProjectNoteView,
    other: ProjectNoteView,
    project_id: i32,
    env: EnvironmentType,
)
    requires
        st.wf(),
        other.title != note.title || other.group_name != note.group_name,
        spec_import_project_note(
            st,
            project_id,
            other.group_name,
            env,
            project_note_item(project, env)(other),
        ).1 is Ok,
    ensures
        copies(
            spec_import_project_note(
                st,
                project_id,
                other.group_name,
                env,
                project_note_item(project, env)(other),
            ).0,
            note,
            project_id,
        ) == copies(st, note, project_id),
{
    let entry = project_note_item(project, env)(other);
    let after = spec_import_project_note(st, project_id, other.group_name, env, entry).0;
    let answers = note_answers(note.title, note.group_name, project_id);
    if entry.shared_with_other_environments is Some {
        let found = matching_notes(st, other.title, other.group_name, project_id);
        let id = found[0].id;
        lemma_kept_is_contained(
            st.project_notes,
            note_answers(other.title, other.group_name, project_id),
            0,
        );
        lemma_marked_copies(st.project_notes, id, env, note.title, note.group_name, project_id);
        assert(after.project_notes =~= marked(st.project_notes, id, env));
        let before = copies(st, note, project_id);
        assert forall|k: int| 0 <= k < before.len() implies mark_of(id, env)(before[k])
            == before[k] by {
            lemma_kept_is_contained(st.project_notes, answers, k);
            lemma_other_rows_have_other_ids(st, before[k], found[0]);
        }
        assert(before.map_values(mark_of(id, env)) =~= before);
    } else {
        let row = after.project_notes.last();
        assert(after.project_notes == st.project_notes.push(row));
        st.project_notes.lemma_filter_push(row, answers);
    }
}

// ---------------------------------------------------------------------------
// One group of one environment
// ---------------------------------------------------------------------------
/// What an import has made of the note after the notes of one group of
/// one environment, of which it has seen those among the first `k` rows of
/// the source table: it has met the note where the note stands among them.
pub open spec fn after_bucket(
    so_far: Option<ProjectNoteView>,
    note: ProjectNoteView,
    place: int,
    project_id: i32,
    env: EnvironmentType,
    group_name: Option<Seq<char>>,
    k: int,
) -> Option<ProjectNoteView> {
    if group_name == note.group_name && note_in(note, env) && place < k {
        met_in(so_far, note, project_id, env)
    } else {
        so_far
    }
}

/// The import of the notes that a document lists under one group of one
/// environment meets the note once where it stands there, and leaves its
/// copies alone otherwise.
pub proof fn bucket_meets_the_note(
    source: Seq<ProjectNoteView>,
    k: int,
    st: StorageView,
    project: ProjectView,
    place: int,
    project_id: i32,
    env: EnvironmentType,
    group_name: Option<Seq<char>>,
    so_far: Option<ProjectNoteView>,
)
    requires
        0 <= k <= source.len(),
        0 <= place < source.len(),
        source[place].project_id == project.id,
        titles_are_unique(source, project.id),
        st.wf(),
        holds_copy(st, source[place], project_id, so_far),
        group_name == source[place].group_name && note_in(source[place], env) ==> (so_far is Some
            <==> note_in_earlier_environment(project, source[place], env)),
        replay(
            st,
            select(
                source.take(k),
                project_note_wanted(project.id, env, group_name),
                project_note_item(project, env),
            ),
            project_note_step(project_id, group_name, env),
        ).1 is Ok,
    ensures
        replay(
            st,
            select(
                source.take(k),
                project_note_wanted(project.id, env, group_name),
                project_note_item(project, env),
            ),
            project_note_step(project_id, group_name, env),
        ).0.wf(),
        holds_copy(
            replay(
                st,
                select(
                    source.take(k),
                    project_note_wanted(project.id, env, group_name),
                    project_note_item(project, env),
                ),
                project_note_step(project_id, group_name, env),
            ).0,
            source[place],
            project_id,
            after_bucket(so_far, source[place], place, project_id, env, group_name, k),
        ),
    decreases k,
{
    let note = source[place];
    let wanted = project_note_wanted(project.id, env, group_name);
    let item = project_note_item(project, env);
    let step = project_note_step(project_id, group_name, env);
    if k == 0 {
        lemma_select_ends(source, wanted, item);
    } else {
        let other = source[k - 1];
        let earlier = select(source.take(k - 1), wanted, item);
        assert(source.take(k) =~= source.take(k - 1).push(other));
        lemma_select_push(source.take(k - 1), other, wanted, item);
        if wanted(other) {
            lemma_replay_push(st, earlier, item(other), step);
            let mid = replay(st, earlier, step).0;
            bucket_meets_the_note(
                source,
                k - 1,
                st,
                project,
                place,
                project_id,
                env,
                group_name,
                so_far,
            );
            writes_keep_identifiers_growing();
            let after = spec_import_project_note(mid, project_id, group_name, env, item(other)).0;
            assert(after.wf());
            if k - 1 == place {
                own_entry_is_met(mid, project, note, project_id, env, so_far);
            } else {
                other_entry_is_passed(mid, project, note, other, project_id, env);
            }
        } else {
            bucket_meets_the_note(
                source,
                k - 1,
                st,
                project,
                place,
                project_id,
                env,
                group_name,
                so_far,
            );
        }
    }
}

/// The project notes are the same in both storages, and where the first
/// has growing identifiers, so has the second.
pub open spec fn notes_kept() -> spec_fn(StorageView, StorageView) -> bool {
    |a: StorageView, b: StorageView| a.project_notes == b.project_notes && (a.wf() ==> b.wf())
}

/// No write of the import of a server touches the project notes or the
/// order of the identifiers.
proof fn lemma_server_writes_keep_notes()
    ensures
        kept_by_server_writes(notes_kept()),
{
    writes_keep_identifiers_growing();
}

/// The first pass over one group of one environment of an exported
/// project meets the note once where the note stands in that group and
/// environment, and leaves its copies alone otherwise.
pub proof fn env_group_meets_the_note(
    source: StorageView,
    st: StorageView,
    project: ProjectView,
    place: int,
    project_id: i32,
    env: EnvironmentType,
    group_name: Option<Seq<char>>,
    so_far: Option<ProjectNoteView>,
)
    requires
        0 <= place < source.project_notes.len(),
        source.project_notes[place].project_id == project.id,
        titles_are_unique(source.project_notes, project.id),
        st.wf(),
        holds_copy(st, source.project_notes[place], project_id, so_far),
        group_name == source.project_notes[place].group_name && note_in(
            source.project_notes[place],
            env,
        ) ==> (so_far is Some <==> note_in_earlier_environment(
            project,
            source.project_notes[place],
            env,
        )),
        spec_import_project_env_group_first_pass(
            st,
            project_id,
            env_group_of(source, project, env, group_name),
            env,
            group_name,
        ).1 is Ok,
    ensures
        spec_import_project_env_group_first_pass(
            st,
            project_id,
            env_group_of(source, project, env, group_name),
            env,
            group_name,
        ).0.wf(),
        holds_copy(
            spec_import_project_env_group_first_pass(
                st,
                project_id,
                env_group_of(source, project, env, group_name),
                env,
                group_name,
            ).0,
            source.project_notes[place],
            project_id,
            after_bucket(
                so_far,
                source.project_notes[place],
                place,
                project_id,
                env,
                group_name,
                source.project_notes.len() as int,
            ),
        ),
{
    let items = env_group_of(source, project, env, group_name);
    let kept = notes_kept();
    writes_keep_identifiers_growing();
    lemma_server_writes_keep_notes();
    let s1 = replay(st, items.project_pois, project_poi_step(project_id, group_name)).0;
    lemma_replay_keeps(st, items.project_pois, project_poi_step(project_id, group_name), kept);
    assert(source.project_notes.take(source.project_notes.len() as int) =~= source.project_notes);
    bucket_meets_the_note(
        source.project_notes,
        source.project_notes.len() as int,
        s1,
        project,
        place,
        project_id,
        env,
        group_name,
        so_far,
    );
    let s2 = replay(s1, items.project_notes, project_note_step(project_id, group_name, env)).0;
    let s3 = replay(s2, items.server_links, server_link_step(project_id, group_name, env)).0;
    lemma_replay_keeps(s2, items.server_links, server_link_step(project_id, group_name, env), kept);
    let servers = server_step(project_id, env, group_name);
    assert forall|a: StorageView, x: ServerWithItemsImportExportView|
        kept(a, (#[trigger] servers(a, x)).0) by {
        server_keeps(a, project_id, env, group_name, x, kept);
    }
    lemma_replay_deferring_keeps(s3, items.servers, servers, kept);
}

/// The first pass over named groups of one environment of an exported
/// project meets the note once where the note stands in one of these groups
/// and in the environment, and leaves its copies alone otherwise.
pub proof fn env_groups_meet_the_note(
    source: StorageView,
    names: Seq<Seq<char>>,
    st: StorageView,
    project: ProjectView,
    place: int,
    project_id: i32,
    env: EnvironmentType,
    so_far: Option<ProjectNoteView>,
)
    requires
        names.no_duplicates(),
        0 <= place < source.project_notes.len(),
        source.project_notes[place].project_id == project.id,
        titles_are_unique(source.project_notes, project.id),
        st.wf(),
        holds_copy(st, source.project_notes[place], project_id, so_far),
        source.project_notes[place].group_name is Some && names.contains(
            source.project_notes[place].group_name->0,
        ) && note_in(source.project_notes[place], env) ==> (so_far is Some
            <==> note_in_earlier_environment(project, source.project_notes[place], env)),
        replay_deferring(
            st,
            names.map_values(env_group_item(source, project, env)),
            env_group_step(project_id, env),
        ).1 is Ok,
    ensures
        replay_deferring(
            st,
            names.map_values(env_group_item(source, project, env)),
            env_group_step(project_id, env),
        ).0.wf(),
        holds_copy(
            replay_deferring(
                st,
                names.map_values(env_group_item(source, project, env)),
                env_group_step(project_id, env),
            ).0,
            source.project_notes[place],
            project_id,
            if source.project_notes[place].group_name is Some && names.contains(
                source.project_notes[place].group_name->0,
            ) && note_in(source.project_notes[place], env) {
                met_in(so_far, source.project_notes[place], project_id, env)
            } else {
                so_far
            },
        ),
    decreases names.len(),
{
    let note = source.project_notes[place];
    let groups = names.map_values(env_group_item(source, project, env));
    if names.len() > 0 {
        let rest = names.skip(1);
        assert(groups.skip(1) =~= rest.map_values(env_group_item(source, project, env)));
        assert(groups[0] == (names[0], env_group_of(source, project, env, Some(names[0]))));
        assert(rest.no_duplicates()) by {
            assert forall|i: int, j: int|
                0 <= i < rest.len() && 0 <= j < rest.len() && i != j implies rest[i] != rest[j] by {
                assert(names[i + 1] != names[j + 1]);
            }
        }
        assert forall|x: Seq<char>| names.contains(x) <==> (x == names[0] || rest.contains(x)) by {
            if names.contains(x) {
                let k = choose|k: int| 0 <= k < names.len() && names[k] == x;
                if k > 0 {
                    assert(rest[k - 1] == x);
                }
            }
            if rest.contains(x) {
                let k = choose|k: int| 0 <= k < rest.len() && rest[k] == x;
                assert(names[k + 1] == x);
            }
            if x == names[0] {
                assert(names[0] == x);
            }
        }
        assert(!rest.contains(names[0])) by {
            if rest.contains(names[0]) {
                let k = choose|k: int| 0 <= k < rest.len() && rest[k] == names[0];
                assert(names[k + 1] == names[0]);
            }
        }
        env_group_meets_the_note(
            source,
            st,
            project,
            place,
            project_id,
            env,
            Some(names[0]),
            so_far,
        );
        let after = spec_import_project_env_group_first_pass(
            st,
            project_id,
            groups[0].1,
            env,
            Some(groups[0].0),
        ).0;
        let then = after_bucket(
            so_far,
            note,
            place,
            project_id,
            env,
            Some(names[0]),
            source.project_notes.len() as int,
        );
        env_groups_meet_the_note(source, rest, after, project, place, project_id, env, then);
    }
}

// ---------------------------------------------------------------------------
// The environments
// ---------------------------------------------------------------------------
/// What an import has made of the note after one more environment of the
/// exported project: it has met the note where the project has the
/// environment and the note is present in it.
pub open spec fn after_env(
    so_far: Option<ProjectNoteView>,
    project: ProjectView,
    note: ProjectNoteView,
    project_id: i32,
    env: EnvironmentType,
) -> Option<ProjectNoteView> {
    if has_environment(project, env) && note_in(note, env) {
        met_in(so_far, note, project_id, env)
    } else {
        so_far
    }
}

/// Whether the document of the project holds the note: whether the note
/// is present in an environment that the project has.
pub open spec fn note_exported(project: ProjectView, note: ProjectNoteView) -> bool {
    (project.has_dev && note.has_dev) || (project.has_stage && note.has_stage) || (project.has_uat
        && note.has_uat) || (project.has_prod && note.has_prod)
}

/// The first pass over one environment of an exported project meets the
/// note once where the project has the environment and the note is present
/// in it, and leaves its copies alone otherwise.
pub proof fn env_meets_the_note(
    source: StorageView,
    st: StorageView,
    project: ProjectView,
    place: int,
    project_id: i32,
    env: EnvironmentType,
    so_far: Option<ProjectNoteView>,
)
    requires
        0 <= place < source.project_notes.len(),
        source.project_notes[place].project_id == project.id,
        titles_are_unique(source.project_notes, project.id),
        st.wf(),
        holds_copy(st, source.project_notes[place], project_id, so_far),
        so_far is Some <==> note_in_earlier_environment(project, source.project_notes[place], env),
        spec_first_pass_if_present(
            st,
            project_id,
            env,
            env_if_present(source, project, env),
        ).1 is Ok,
    ensures
        spec_first_pass_if_present(
            st,
            project_id,
            env,
            env_if_present(source, project, env),
        ).0.wf(),
        holds_copy(
            spec_first_pass_if_present(
                st,
                project_id,
                env,
                env_if_present(source, project, env),
            ).0,
            source.project_notes[place],
            project_id,
            after_env(so_far, project, source.project_notes[place], project_id, env),
        ),
{
    let note = source.project_notes[place];
    if has_environment(project, env) {
        let names = project_item_group_names(source, project.id);
        lemma_project_item_group_names(source, project.id);
        lemma_ascending_no_duplicates(names);
        if note.group_name is Some {
            assert(project_note_labels(source)[place] == (project.id, note.group_name));
            assert(project_note_labels(source).contains((project.id, Some(note.group_name->0))));
            assert(names.contains(note.group_name->0));
        }
        env_group_meets_the_note(source, st, project, place, project_id, env, None, so_far);
        let e = env_of(source, project, env);
        let s1 = spec_import_project_env_group_first_pass(st, project_id, e.items, env, None).0;
        let then = after_bucket(
            so_far,
            note,
            place,
            project_id,
            env,
            None,
            source.project_notes.len() as int,
        );
        env_groups_meet_the_note(source, names, s1, project, place, project_id, env, then);
    }
}

/// What an import makes of a note of an exported project: one row where
/// the document holds the note, with its title, contents and group, present
/// in those of its environments that the project has; and nothing where the
/// document does not hold it.
pub proof fn lemma_met_in_every_environment(project: ProjectView, note: ProjectNoteView, project_id: i32)
    ensures
        after_env(
            after_env(
                after_env(
                    after_env(None, project, note, project_id, EnvironmentType::EnvDevelopment),
                    project,
                    note,
                    project_id,
                    EnvironmentType::EnvStage,
                ),
                project,
                note,
                project_id,
                EnvironmentType::EnvUat,
            ),
            project,
            note,
            project_id,
            EnvironmentType::EnvProd,
        ) == (if note_exported(project, note) {
            Some(note_moved_to(0, project_id, project, note))
        } else {
            None
        }),
{
}

/// Every note survives export and import as one row. Where no two notes
/// of the exported project carry the same title in the same group, the
/// storage that the document is imported into has growing identifiers and no
/// note yet that would answer to the note's title and group in the project
/// to come, and the import succeeds, then the imported project has exactly
/// one note with that title and group where the document holds the note: with
/// the contents of the note, and present in exactly those of its environments
/// that the exported project has. Where the document does not hold the note,
/// because it is present in no environment of the project, the imported
/// project has none.
pub proof fn notes_survive_export_and_import(
    source: StorageView,
    source_id: i32,
    place: int,
    dest: StorageView,
)
    requires
        spec_export_project(source, source_id) is Ok,
        0 <= place < source.project_notes.len(),
        source.project_notes[place].project_id == project_by_id(source, source_id)->0.id,
        titles_are_unique(source.project_notes, project_by_id(source, source_id)->0.id),
        dest.wf(),
        dest.next_project_id() is Some,
        copies(dest, source.project_notes[place], dest.next_project_id()->0).len() == 0,
        spec_do_import(dest, spec_export_project(source, source_id)->Ok_0).1 is Ok,
    ensures
        holds_copy(
            spec_do_import(dest, spec_export_project(source, source_id)->Ok_0).0,
            source.project_notes[place],
            dest.next_project_id()->0,
            if note_exported(project_by_id(source, source_id)->0, source.project_notes[place]) {
                Some(
                    note_moved_to(
                        0,
                        dest.next_project_id()->0,
                        project_by_id(source, source_id)->0,
                        source.project_notes[place],
                    ),
                )
            } else {
                None
            },
        ),
{
    let project = project_by_id(source, source_id)->0;
    let note = source.project_notes[place];
    let doc = spec_export_project(source, source_id)->Ok_0;
    let project_id = dest.next_project_id()->0;
    let dev = EnvironmentType::EnvDevelopment;
    let stage = EnvironmentType::EnvStage;
    let uat = EnvironmentType::EnvUat;
    let prod = EnvironmentType::EnvProd;
    writes_keep_identifiers_growing();
    let s0 = dest.add_project(project_row(doc));
    let o1 = spec_first_pass_if_present(s0, project_id, dev, doc.development_environment);
    let o2 = then_first_pass(o1, project_id, stage, doc.staging_environment);
    let o3 = then_first_pass(o2, project_id, uat, doc.uat_environment);
    let o4 = then_first_pass(o3, project_id, prod, doc.prod_environment);
    assert(o4 == spec_first_pass(s0, project_id, doc));
    assert(o4.1 is Ok);
    assert(o3.1 is Ok);
    assert(o2.1 is Ok);
    assert(o1.1 is Ok);
    let n0: Option<ProjectNoteView> = None;
    let n1 = after_env(n0, project, note, project_id, dev);
    let n2 = after_env(n1, project, note, project_id, stage);
    let n3 = after_env(n2, project, note, project_id, uat);
    env_meets_the_note(source, s0, project, place, project_id, dev, n0);
    env_meets_the_note(source, o1.0, project, place, project_id, stage, n1);
    env_meets_the_note(source, o2.0, project, place, project_id, uat, n2);
    env_meets_the_note(source, o3.0, project, place, project_id, prod, n3);
    lemma_met_in_every_environment(project, note, project_id);
    second_pass_writes_websites_only(o4.0, o4.1->Ok_0);
}

// ---------------------------------------------------------------------------
// What an import writes to the table of notes
// ---------------------------------------------------------------------------
/// A note without its identifier and without the environments in which it
/// is present.
pub open spec fn note_unflagged() -> spec_fn(ProjectNoteView) -> ProjectNoteView {
    |r: ProjectNoteView|
        ProjectNoteView {
            id: 0,
            has_dev: false,
            has_stage: false,
            has_uat: false,
            has_prod: false,
            ..r
        }
}

/// The rows that an import writes for a note of a document: one row, or
/// none where the document only refers to the note.
pub open spec fn note_rows(project_id: i32, group_name: Option<Seq<char>>) -> spec_fn(
    ProjectNoteImportExportView,
) -> Seq<ProjectNoteView> {
    |x: ProjectNoteImportExportView|
        if x.shared_with_other_environments is Some {
            Seq::empty()
        } else {
            seq![
                ProjectNoteView {
                    id: 0,
                    title: x.title,
                    contents: x.contents,
                    has_dev: false,
                    has_stage: false,
                    has_uat: false,
                    has_prod: false,
                    group_name,
                    project_id,
                },
            ]
        }
}

/// Whether the table `after` has the notes of `before`, marked present
/// in more environments perhaps, and, behind them, one note for each of
/// `rows`, in order and with the same contents.
pub open spec fn notes_grew_by(
    before: Seq<ProjectNoteView>,
    after: Seq<ProjectNoteView>,
    rows: Seq<ProjectNoteView>,
) -> bool {
    &&& after.len() == before.len() + rows.len()
    &&& forall|k: int|
        0 <= k < before.len() ==> note_unflagged()(#[trigger] after[k]) == note_unflagged()(
            before[k],
        )
    &&& forall|k: int|
        0 <= k < rows.len() ==> note_unflagged()(#[trigger] after[before.len() + k]) == rows[k]
}

/// Growing twice is growing by both lists of notes.
pub proof fn lemma_notes_grew_twice(
    a: Seq<ProjectNoteView>,
    b: Seq<ProjectNoteView>,
    c: Seq<ProjectNoteView>,
    first: Seq<ProjectNoteView>,
    second: Seq<ProjectNoteView>,
)
    requires
        notes_grew_by(a, b, first),
        notes_grew_by(b, c, second),
    ensures
        notes_grew_by(a, c, first + second),
{
    let n = a.len() as int;
    assert forall|k: int| 0 <= k < n implies note_unflagged()(#[trigger] c[k]) == note_unflagged()(
        a[k],
    ) by {
        assert(note_unflagged()(c[k]) == note_unflagged()(b[k]));
    }
    assert forall|k: int| 0 <= k < (first + second).len() implies note_unflagged()(
        #[trigger] c[n + k],
    ) == (first + second)[k] by {
        if k < first.len() {
            assert(note_unflagged()(c[n + k]) == note_unflagged()(b[n + k]));
        } else {
            assert(c[b.len() + (k - first.len())] == c[n + k]);
        }
    }
}

/// The import of the notes of one group writes one row for each note that
/// the document holds with its contents, in order, and none for a note that
/// it only refers to.
pub proof fn notes_import_writes_their_rows(
    st: StorageView,
    project_id: i32,
    env: EnvironmentType,
    group_name: Option<Seq<char>>,
    notes: Seq<ProjectNoteImportExportView>,
)
    requires
        replay(st, notes, project_note_step(project_id, group_name, env)).1 is Ok,
    ensures
        notes_grew_by(
            st.project_notes,
            replay(st, notes, project_note_step(project_id, group_name, env)).0.project_notes,
            all_rows(notes, note_rows(project_id, group_name)),
        ),
    decreases notes.len(),
{
    let rows_of = note_rows(project_id, group_name);
    if notes.len() > 0 {
        let after = spec_import_project_note(st, project_id, group_name, env, notes[0]).0;
        if notes[0].shared_with_other_environments is None {
            assert(after.project_notes =~= st.project_notes.push(after.project_notes.last()));
        }
        assert(notes_grew_by(st.project_notes, after.project_notes, rows_of(notes[0])));
        notes_import_writes_their_rows(after, project_id, env, group_name, notes.skip(1));
        lemma_notes_grew_twice(
            st.project_notes,
            after.project_notes,
            replay(st, notes, project_note_step(project_id, group_name, env)).0.project_notes,
            rows_of(notes[0]),
            all_rows(notes.skip(1), rows_of),
        );
    }
}

/// The notes that the named groups of an environment bring with their
/// contents, group after group.
pub open spec fn notes_of_groups(
    project_id: i32,
    groups: Seq<(Seq<char>, ProjectEnvGroupImportExportView)>,
) -> Seq<ProjectNoteView>
    decreases groups.len(),
{
    if groups.len() == 0 {
        Seq::empty()
    } else {
        all_rows(groups[0].1.project_notes, note_rows(project_id, Some(groups[0].0)))
            + notes_of_groups(project_id, groups.skip(1))
    }
}

/// The notes that an environment brings with their contents: the
/// ungrouped ones, then those of the named groups.
pub open spec fn notes_of_env(project_id: i32, project_env: Option<ProjectEnvImportExportView>) -> Seq<
    ProjectNoteView,
> {
    match project_env {
        Some(e) => all_rows(e.items.project_notes, note_rows(project_id, None)) + notes_of_groups(
            project_id,
            e.items_in_groups,
        ),
        None => Seq::empty(),
    }
}

/// The notes that a document brings with their contents, in the order in
/// which an import writes them.
pub open spec fn notes_of_document(project_id: i32, doc: ProjectImportExportView) -> Seq<
    ProjectNoteView,
> {
    notes_of_env(project_id, doc.development_environment) + notes_of_env(
        project_id,
        doc.staging_environment,
    ) + notes_of_env(project_id, doc.uat_environment) + notes_of_env(
        project_id,
        doc.prod_environment,
    )
}

/// The table of project notes.
pub open spec fn note_table() -> spec_fn(StorageView) -> Seq<ProjectNoteView> {
    |st: StorageView| st.project_notes
}

/// The first pass over one group of an environment writes the group's
/// notes that the document holds with their contents.
pub proof fn env_group_writes_its_notes(
    st: StorageView,
    project_id: i32,
    items: ProjectEnvGroupImportExportView,
    env: EnvironmentType,
    group_name: Option<Seq<char>>,
)
    requires
        spec_import_project_env_group_first_pass(st, project_id, items, env, group_name).1 is Ok,
    ensures
        notes_grew_by(
            st.project_notes,
            spec_import_project_env_group_first_pass(
                st,
                project_id,
                items,
                env,
                group_name,
            ).0.project_notes,
            all_rows(items.project_notes, note_rows(project_id, group_name)),
        ),
{
    let kept = same_table(note_table());
    let s1 = replay(st, items.project_pois, project_poi_step(project_id, group_name)).0;
    lemma_replay_keeps(st, items.project_pois, project_poi_step(project_id, group_name), kept);
    notes_import_writes_their_rows(s1, project_id, env, group_name, items.project_notes);
    let s2 = replay(s1, items.project_notes, project_note_step(project_id, group_name, env)).0;
    let s3 = replay(s2, items.server_links, server_link_step(project_id, group_name, env)).0;
    lemma_replay_keeps(s2, items.server_links, server_link_step(project_id, group_name, env), kept);
    let servers = server_step(project_id, env, group_name);
    assert(kept_by_server_writes(kept));
    assert forall|a: StorageView, x: ServerWithItemsImportExportView|
        kept(a, (#[trigger] servers(a, x)).0) by {
        server_keeps(a, project_id, env, group_name, x, kept);
    }
    lemma_replay_deferring_keeps(s3, items.servers, servers, kept);
}

/// The first pass over the named groups of an environment writes their
/// notes, group after group.
pub proof fn env_groups_write_their_notes(
    st: StorageView,
    project_id: i32,
    env: EnvironmentType,
    groups: Seq<(Seq<char>, ProjectEnvGroupImportExportView)>,
)
    requires
        replay_deferring(st, groups, env_group_step(project_id, env)).1 is Ok,
    ensures
        notes_grew_by(
            st.project_notes,
            replay_deferring(st, groups, env_group_step(project_id, env)).0.project_notes,
            notes_of_groups(project_id, groups),
        ),
    decreases groups.len(),
{
    if groups.len() > 0 {
        let after = spec_import_project_env_group_first_pass(
            st,
            project_id,
            groups[0].1,
            env,
            Some(groups[0].0),
        ).0;
        env_group_writes_its_notes(st, project_id, groups[0].1, env, Some(groups[0].0));
        env_groups_write_their_notes(after, project_id, env, groups.skip(1));
        lemma_notes_grew_twice(
            st.project_notes,
            after.project_notes,
            replay_deferring(st, groups, env_group_step(project_id, env)).0.project_notes,
            all_rows(groups[0].1.project_notes, note_rows(project_id, Some(groups[0].0))),
            notes_of_groups(project_id, groups.skip(1)),
        );
    }
}

/// The first pass over one environment, present or not, writes the
/// environment's notes.
pub proof fn env_writes_its_notes(
    st: StorageView,
    project_id: i32,
    env: EnvironmentType,
    project_env: Option<ProjectEnvImportExportView>,
)
    requires
        spec_first_pass_if_present(st, project_id, env, project_env).1 is Ok,
    ensures
        notes_grew_by(
            st.project_notes,
            spec_first_pass_if_present(st, project_id, env, project_env).0.project_notes,
            notes_of_env(project_id, project_env),
        ),
{
    if let Some(e) = project_env {
        let s1 = spec_import_project_env_group_first_pass(st, project_id, e.items, env, None).0;
        env_group_writes_its_notes(st, project_id, e.items, env, None);
        env_groups_write_their_notes(s1, project_id, env, e.items_in_groups);
        lemma_notes_grew_twice(
            st.project_notes,
            s1.project_notes,
            spec_import_project_env_first_pass(st, project_id, env, e).0.project_notes,
            all_rows(e.items.project_notes, note_rows(project_id, None)),
            notes_of_groups(project_id, e.items_in_groups),
        );
    }
}

/// An import writes the notes of the document. After an import that
/// succeeds, the table of project notes holds its old rows, marked present
/// in more environments perhaps, and, behind them, one row for each note
/// that the document holds with its contents, in document order, in the
/// project that the import created and in the group under which the document
/// holds it. The notes that the document only refers to add no row.
pub proof fn import_writes_the_notes(st: StorageView, doc: ProjectImportExportView)
    requires
        spec_do_import(st, doc).1 is Ok,
    ensures
        notes_grew_by(
            st.project_notes,
            spec_do_import(st, doc).0.project_notes,
            notes_of_document(st.next_project_id()->0, doc),
        ),
{
    let project_id = st.next_project_id()->0;
    let s0 = st.add_project(project_row(doc));
    let dev = EnvironmentType::EnvDevelopment;
    let stage = EnvironmentType::EnvStage;
    let uat = EnvironmentType::EnvUat;
    let prod = EnvironmentType::EnvProd;
    let o1 = spec_first_pass_if_present(s0, project_id, dev, doc.development_environment);
    let o2 = then_first_pass(o1, project_id, stage, doc.staging_environment);
    let o3 = then_first_pass(o2, project_id, uat, doc.uat_environment);
    let o4 = then_first_pass(o3, project_id, prod, doc.prod_environment);
    assert(o4 == spec_first_pass(s0, project_id, doc));
    assert(o4.1 is Ok);
    assert(o3.1 is Ok);
    assert(o2.1 is Ok);
    assert(o1.1 is Ok);
    env_writes_its_notes(s0, project_id, dev, doc.development_environment);
    env_writes_its_notes(o1.0, project_id, stage, doc.staging_environment);
    env_writes_its_notes(o2.0, project_id, uat, doc.uat_environment);
    env_writes_its_notes(o3.0, project_id, prod, doc.prod_environment);
    let r1 = notes_of_env(project_id, doc.development_environment);
    let r2 = notes_of_env(project_id, doc.staging_environment);
    let r3 = notes_of_env(project_id, doc.uat_environment);
    let r4 = notes_of_env(project_id, doc.prod_environment);
    lemma_notes_grew_twice(s0.project_notes, o1.0.project_notes, o2.0.project_notes, r1, r2);
    lemma_notes_grew_twice(s0.project_notes, o2.0.project_notes, o3.0.project_notes, r1 + r2, r3);
    lemma_notes_grew_twice(
        s0.project_notes,
        o3.0.project_notes,
        o4.0.project_notes,
        r1 + r2 + r3,
        r4,
    );
    second_pass_writes_websites_only(o4.0, o4.1->Ok_0);
}

// ---------------------------------------------------------------------------
// What a document of a project lists
// ---------------------------------------------------------------------------
/// The test that a note of the project passes when `env` is the first
/// environment of the project in which it is present: the environment in
/// which the document holds the note with its contents.
pub open spec fn note_first_in(project: ProjectView, env: EnvironmentType) -> spec_fn(
    ProjectNoteView,
) -> bool {
    |r: ProjectNoteView|
        r.project_id == project.id && has_environment(project, env) && note_in(r, env)
            && !note_in_earlier_environment(project, r, env)
}

/// The group under which a note is filed.
pub open spec fn note_group() -> spec_fn(ProjectNoteView) -> Option<Seq<char>> {
    |r: ProjectNoteView| r.group_name
}

/// A note as it comes back from an import into the project `project_id`,
/// its identifier and the environments in which it is present aside.
pub open spec fn note_unflagged_in(project_id: i32) -> spec_fn(ProjectNoteView) -> ProjectNoteView {
    |r: ProjectNoteView|
        ProjectNoteView {
            id: 0,
            project_id,
            has_dev: false,
            has_stage: false,
            has_uat: false,
            has_prod: false,
            ..r
        }
}

/// The test that the notes which a document of the project holds pass.
pub open spec fn note_is_exported(project: ProjectView) -> spec_fn(ProjectNoteView) -> bool {
    |r: ProjectNoteView| r.project_id == project.id && note_exported(project, r)
}

/// The notes that a list of entries brings with their contents, where the
/// entries are the notes of a table that pass a test, as the document holds
/// them in `env`: they are the notes that pass the test and have `env` as
/// their first environment.
proof fn lemma_first_entries(
    table: Seq<ProjectNoteView>,
    project: ProjectView,
    env: EnvironmentType,
    group_name: Option<Seq<char>>,
    project_id: i32,
)
    requires
        has_environment(project, env),
    ensures
        all_rows(
            select(
                table,
                project_note_wanted(project.id, env, group_name),
                project_note_item(project, env),
            ),
            note_rows(project_id, group_name),
        ) == select(
            table,
            filed_under(note_first_in(project, env), note_group(), group_name),
            note_unflagged_in(project_id),
        ),
    decreases table.len(),
{
    let wanted = project_note_wanted(project.id, env, group_name);
    let item = project_note_item(project, env);
    let rows_of = note_rows(project_id, group_name);
    let first = filed_under(note_first_in(project, env), note_group(), group_name);
    let moved = note_unflagged_in(project_id);
    if table.len() == 0 {
        lemma_select_ends(table, wanted, item);
        lemma_select_ends(table, first, moved);
        assert(table.take(0) =~= table);
    } else {
        let front = table.drop_last();
        let last = table.last();
        assert(table =~= front.push(last));
        lemma_first_entries(front, project, env, group_name, project_id);
        lemma_select_push(front, last, wanted, item);
        lemma_select_push(front, last, first, moved);
        if wanted(last) {
            lemma_all_rows_push(select(front, wanted, item), item(last), rows_of);
            if first(last) {
                assert(rows_of(item(last)) =~= seq![moved(last)]);
                assert(select(front, first, moved) + seq![moved(last)] =~= select(
                    front,
                    first,
                    moved,
                ).push(moved(last)));
            } else {
                assert(select(front, first, moved) + rows_of(item(last)) =~= select(
                    front,
                    first,
                    moved,
                ));
            }
        }
    }
}

/// The notes that a document lists with their contents under the named
/// groups of one environment are the notes of the project that have the
/// environment as their first, taken group after group.
pub proof fn exported_groups_list_their_notes(
    st: StorageView,
    project: ProjectView,
    env: EnvironmentType,
    names: Seq<Seq<char>>,
    project_id: i32,
)
    requires
        has_environment(project, env),
    ensures
        notes_of_groups(project_id, names.map_values(env_group_item(st, project, env)))
            == selected_by_groups(
            st.project_notes,
            note_first_in(project, env),
            note_group(),
            names,
            note_unflagged_in(project_id),
        ),
    decreases names.len(),
{
    let groups = names.map_values(env_group_item(st, project, env));
    if names.len() > 0 {
        assert(groups.skip(1) =~= names.skip(1).map_values(env_group_item(st, project, env)));
        exported_groups_list_their_notes(st, project, env, names.skip(1), project_id);
        lemma_first_entries(st.project_notes, project, env, Some(names[0]), project_id);
    }
}

/// The notes that a document lists with their contents under one
/// environment are, as a collection, the notes of the project that have the
/// environment as their first; and none where the project does not have the
/// environment.
pub proof fn exported_env_lists_its_notes(
    st: StorageView,
    project: ProjectView,
    env: EnvironmentType,
    project_id: i32,
)
    ensures
        notes_of_env(project_id, env_if_present(st, project, env)).to_multiset() == select(
            st.project_notes,
            note_first_in(project, env),
            note_unflagged_in(project_id),
        ).to_multiset(),
{
    let owned = note_first_in(project, env);
    let moved = note_unflagged_in(project_id);
    if has_environment(project, env) {
        let names = project_item_group_names(st, project.id);
        lemma_project_item_group_names(st, project.id);
        lemma_ascending_no_duplicates(names);
        lemma_first_entries(st.project_notes, project, env, None, project_id);
        exported_groups_list_their_notes(st, project, env, names, project_id);
        assert forall|i: int|
            0 <= i < st.project_notes.len() && owned(#[trigger] st.project_notes[i]) && note_group()(
                st.project_notes[i],
            ) is Some implies names.contains(note_group()(st.project_notes[i])->0) by {
            let r = st.project_notes[i];
            assert(project_note_labels(st)[i] == (project.id, r.group_name));
            assert(project_note_labels(st).contains((project.id, Some(r.group_name->0))));
        }
        lemma_selected_by_all_groups(st.project_notes, owned, note_group(), names, moved);
    } else {
        lemma_select_nothing(st.project_notes, owned, moved);
    }
}

/// A document holds every note of its project once with its contents: in
/// the first environment of the project in which the note is present. The
/// notes that the document brings with their contents are, as a collection,
/// the notes of the project that are present in an environment which the
/// project has: each of them once, with title, contents and group as storage
/// holds them.
pub proof fn exported_document_lists_the_notes(st: StorageView, source_id: i32, project_id: i32)
    requires
        spec_export_project(st, source_id) is Ok,
    ensures
        notes_of_document(project_id, spec_export_project(st, source_id)->Ok_0).to_multiset()
            == select(
            st.project_notes,
            note_is_exported(project_by_id(st, source_id)->0),
            note_unflagged_in(project_id),
        ).to_multiset(),
{
    broadcast use vstd::multiset::group_multiset_axioms;

    let project = project_by_id(st, source_id)->0;
    let doc = spec_export_project(st, source_id)->Ok_0;
    let moved = note_unflagged_in(project_id);
    let dev = EnvironmentType::EnvDevelopment;
    let stage = EnvironmentType::EnvStage;
    let uat = EnvironmentType::EnvUat;
    let prod = EnvironmentType::EnvProd;
    let r1 = notes_of_env(project_id, doc.development_environment);
    let r2 = notes_of_env(project_id, doc.staging_environment);
    let r3 = notes_of_env(project_id, doc.uat_environment);
    let r4 = notes_of_env(project_id, doc.prod_environment);
    exported_env_lists_its_notes(st, project, dev, project_id);
    exported_env_lists_its_notes(st, project, stage, project_id);
    exported_env_lists_its_notes(st, project, uat, project_id);
    exported_env_lists_its_notes(st, project, prod, project_id);
    vstd::seq_lib::lemma_multiset_commutative(r1, r2);
    vstd::seq_lib::lemma_multiset_commutative(r1 + r2, r3);
    vstd::seq_lib::lemma_multiset_commutative(r1 + r2 + r3, r4);
    let in_dev = note_first_in(project, dev);
    let in_stage = note_first_in(project, stage);
    let in_uat = note_first_in(project, uat);
    let in_prod = note_first_in(project, prod);
    let dev_or_stage = either(in_dev, in_stage);
    let up_to_uat = either(dev_or_stage, in_uat);
    let any_env = either(up_to_uat, in_prod);
    lemma_select_split(st.project_notes, in_dev, in_stage, moved);
    lemma_select_split(st.project_notes, dev_or_stage, in_uat, moved);
    lemma_select_split(st.project_notes, up_to_uat, in_prod, moved);
    lemma_select_same(st.project_notes, any_env, note_is_exported(project), moved);
}

/// No note is lost and none is added. Where the project `source_id` of
/// `source` is exported and the import of the document into `dest` succeeds,
/// `dest` keeps its notes, marked present in more environments perhaps, and
/// the notes that it gains are, as a collection, the notes of the exported
/// project that are present in an environment which the project has: each
/// of them once, with title, contents and group as they were in `source`.
/// In which environments each is present afterwards is what
/// [`notes_survive_export_and_import`] states.
pub proof fn notes_are_neither_lost_nor_added(source: StorageView, source_id: i32, dest: StorageView)
    requires
        spec_export_project(source, source_id) is Ok,
        spec_do_import(dest, spec_export_project(source, source_id)->Ok_0).1 is Ok,
    ensures
        ({
            let fin = spec_do_import(dest, spec_export_project(source, source_id)->Ok_0).0;
            let n = dest.project_notes.len() as int;
            &&& fin.project_notes.len() >= n
            &&& fin.project_notes.take(n).map_values(note_unflagged())
                == dest.project_notes.map_values(note_unflagged())
            &&& fin.project_notes.skip(n).map_values(note_unflagged()).to_multiset() == select(
                source.project_notes,
                note_is_exported(project_by_id(source, source_id)->0),
                note_unflagged_in(dest.next_project_id()->0),
            ).to_multiset()
        }),
{
    let doc = spec_export_project(source, source_id)->Ok_0;
    let fin = spec_do_import(dest, doc).0;
    let project_id = dest.next_project_id()->0;
    let n = dest.project_notes.len() as int;
    import_writes_the_notes(dest, doc);
    exported_document_lists_the_notes(source, source_id, project_id);
    let rows = notes_of_document(project_id, doc);
    assert(fin.project_notes.take(n).map_values(note_unflagged())
        =~= dest.project_notes.map_values(note_unflagged()));
    assert forall|k: int| 0 <= k < rows.len() implies fin.project_notes.skip(n).map_values(
        note_unflagged(),
    )[k] == rows[k] by {
        assert(fin.project_notes.skip(n)[k] == fin.project_notes[n + k]);
    }
    assert(fin.project_notes.skip(n).map_values(note_unflagged()) =~= rows);
}

} // verus!
