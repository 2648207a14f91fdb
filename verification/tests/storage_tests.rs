use projectpad::rows::{ProjectNote, ServerNote};
use projectpad::storage::{Storage, StorageError};
use projectpad::types::EnvironmentType;

fn sto_note(id: i32, title: &str) -> ServerNote {
    ServerNote {
        id,
        title: title.to_string(),
        group_name: None,
        contents: String::new(),
        server_id: 1,
    }
}

fn sto_project_note(title: &str) -> ProjectNote {
    ProjectNote {
        id: 0,
        title: title.to_string(),
        contents: String::new(),
        has_dev: false,
        has_uat: false,
        has_stage: false,
        has_prod: false,
        group_name: None,
        project_id: 1,
    }
}

#[test]
fn new_storage_is_empty() {
    let st = Storage::new();
    assert!(st.projects().is_empty());
    assert!(st.project_pois().is_empty());
    assert!(st.project_notes().is_empty());
    assert!(st.server_links().is_empty());
    assert!(st.servers().is_empty());
    assert!(st.server_databases().is_empty());
    assert!(st.server_notes().is_empty());
    assert!(st.server_pois().is_empty());
    assert!(st.server_extra_users().is_empty());
    assert!(st.server_websites().is_empty());
}

#[test]
fn identifiers_count_up_from_one() {
    let mut st = Storage::new();
    assert_eq!(st.insert_server_note(sto_note(500, "a")), Ok(1));
    assert_eq!(st.insert_server_note(sto_note(-3, "b")), Ok(2));
    assert_eq!(st.insert_server_note(sto_note(1, "c")), Ok(3));
    let ids: Vec<i32> = st.server_notes().iter().map(|n| n.id).collect();
    assert_eq!(ids, vec![1, 2, 3]);
    assert_eq!(st.server_notes()[1].title, "b");
}

#[test]
fn identifiers_go_on_after_the_last_row() {
    let mut st = Storage::new();
    assert!(st.restore_server_note(sto_note(40, "old")));
    assert_eq!(st.insert_server_note(sto_note(0, "new")), Ok(41));
}

#[test]
fn restore_takes_growing_identifiers_only() {
    let mut st = Storage::new();
    assert!(st.restore_server_note(sto_note(-5, "a")));
    assert!(st.restore_server_note(sto_note(7, "b")));
    assert!(!st.restore_server_note(sto_note(7, "again")));
    assert!(!st.restore_server_note(sto_note(3, "back")));
    assert!(st.restore_server_note(sto_note(8, "c")));
    let ids: Vec<i32> = st.server_notes().iter().map(|n| n.id).collect();
    assert_eq!(ids, vec![-5, 7, 8]);
}

#[test]
fn full_table_refuses_rows() {
    let mut st = Storage::new();
    assert!(st.restore_server_note(sto_note(i32::MAX, "last")));
    assert_eq!(
        st.insert_server_note(sto_note(0, "one more")),
        Err(StorageError::IdentifiersExhausted)
    );
    assert_eq!(st.server_notes().len(), 1);
}

#[test]
fn mark_project_note_touches_one_row() {
    let mut st = Storage::new();
    let a = st.insert_project_note(sto_project_note("a")).unwrap();
    let b = st.insert_project_note(sto_project_note("b")).unwrap();
    st.mark_project_note(b, EnvironmentType::EnvUat);
    st.mark_project_note(b, EnvironmentType::EnvUat);
    st.mark_project_note(a, EnvironmentType::EnvProd);
    st.mark_project_note(b + 10, EnvironmentType::EnvDevelopment);
    let notes = st.project_notes();
    assert_eq!(
        (notes[0].has_dev, notes[0].has_stage, notes[0].has_uat, notes[0].has_prod),
        (false, false, false, true)
    );
    assert_eq!(
        (notes[1].has_dev, notes[1].has_stage, notes[1].has_uat, notes[1].has_prod),
        (false, false, true, false)
    );
}
