use projectpad::events::{
    click_outcome, edit_dialog, wheel_step, window_key_action, ClickOutcome, EditDialog,
    WindowKeyAction,
};
use projectpad::items::{OperationMode, ProjectPadItem, SearchItemsType};
use projectpad::layout::Area;
use projectpad::rows::{Project, ProjectNote, Server, ServerDatabase};
use projectpad::types::{EnvironmentType, ServerAccessType, ServerType};

fn ev_server(id: i32, project_id: i32) -> Server {
    Server {
        id,
        desc: "srv".to_string(),
        is_retired: false,
        ip: String::new(),
        text: String::new(),
        group_name: None,
        username: String::new(),
        password: String::new(),
        auth_key: None,
        auth_key_filename: None,
        server_type: ServerType::SrvApplication,
        access_type: ServerAccessType::SrvAccessSsh,
        environment: EnvironmentType::EnvDevelopment,
        project_id,
    }
}

fn ev_database(id: i32, server_id: i32) -> ServerDatabase {
    ServerDatabase {
        id,
        desc: "db".to_string(),
        name: String::new(),
        group_name: None,
        text: String::new(),
        username: String::new(),
        password: String::new(),
        server_id,
    }
}

fn ev_areas() -> (
    Vec<(Area, String)>,
    Vec<(Area, ProjectPadItem)>,
    Vec<(Area, ProjectPadItem)>,
) {
    let links = vec![(Area::new(0, 0, 10, 10), "https://example.org".to_string())];
    let actions = vec![
        (Area::new(100, 0, 10, 10), ProjectPadItem::Server(ev_server(1, 1))),
        (Area::new(100, 20, 10, 10), ProjectPadItem::ServerDatabase(ev_database(1, 1))),
        (Area::new(0, 0, 10, 10), ProjectPadItem::Server(ev_server(2, 1))),
    ];
    let titles = vec![
        (Area::new(50, 0, 10, 10), ProjectPadItem::Server(ev_server(1, 1))),
        (Area::new(100, 0, 10, 10), ProjectPadItem::ServerDatabase(ev_database(1, 1))),
    ];
    (links, actions, titles)
}

const EV_NOTHING: ClickOutcome = ClickOutcome { link: None, popover: None, open: None, select: None };

#[test]
fn click_on_a_link_opens_only_the_link() {
    let (links, actions, titles) = ev_areas();
    for mode in [OperationMode::ItemActions, OperationMode::SelectItem] {
        assert_eq!(
            click_outcome(&links, &actions, &titles, mode, SearchItemsType::All, 5, 5),
            ClickOutcome { link: Some(0), ..EV_NOTHING }
        );
    }
}

#[test]
fn click_on_an_item_in_action_mode() {
    let (links, actions, titles) = ev_areas();
    let mode = OperationMode::ItemActions;
    assert_eq!(
        click_outcome(&links, &actions, &titles, mode, SearchItemsType::All, 105, 5),
        ClickOutcome { popover: Some(0), open: Some(1), ..EV_NOTHING }
    );
    assert_eq!(
        click_outcome(&links, &actions, &titles, mode, SearchItemsType::All, 55, 5),
        ClickOutcome { open: Some(0), ..EV_NOTHING }
    );
    assert_eq!(
        click_outcome(&links, &actions, &titles, mode, SearchItemsType::All, 105, 25),
        ClickOutcome { popover: Some(1), ..EV_NOTHING }
    );
    assert_eq!(
        click_outcome(&links, &actions, &titles, mode, SearchItemsType::All, 500, 500),
        EV_NOTHING
    );
}

#[test]
fn click_on_an_item_in_selection_mode() {
    let (links, actions, titles) = ev_areas();
    let mode = OperationMode::SelectItem;
    assert_eq!(
        click_outcome(&links, &actions, &titles, mode, SearchItemsType::All, 105, 5),
        ClickOutcome { select: Some(0), ..EV_NOTHING }
    );
    assert_eq!(
        click_outcome(&links, &actions, &titles, mode, SearchItemsType::ServersOnly, 105, 5),
        ClickOutcome { select: Some(0), ..EV_NOTHING }
    );
    assert_eq!(
        click_outcome(&links, &actions, &titles, mode, SearchItemsType::ServerDbsOnly, 105, 5),
        EV_NOTHING
    );
    assert_eq!(
        click_outcome(&links, &actions, &titles, mode, SearchItemsType::ServerDbsOnly, 105, 25),
        ClickOutcome { select: Some(1), ..EV_NOTHING }
    );
    // a click on a title selects nothing
    assert_eq!(
        click_outcome(&links, &actions, &titles, mode, SearchItemsType::All, 55, 5),
        EV_NOTHING
    );
}

#[test]
fn click_without_any_area() {
    assert_eq!(
        click_outcome(&vec![], &vec![], &vec![], OperationMode::ItemActions, SearchItemsType::All, 0, 0),
        EV_NOTHING
    );
}

#[test]
fn each_kind_has_its_edit_dialog() {
    assert_eq!(
        edit_dialog(&ProjectPadItem::Server(ev_server(3, 8))),
        EditDialog { title: "Server", owner_id: Some(8) }
    );
    assert_eq!(
        edit_dialog(&ProjectPadItem::ServerDatabase(ev_database(4, 3))),
        EditDialog { title: "Server Database", owner_id: Some(3) }
    );
    assert_eq!(
        edit_dialog(&ProjectPadItem::ProjectNote(ProjectNote {
            id: 1,
            title: "t".to_string(),
            contents: String::new(),
            has_dev: true,
            has_uat: false,
            has_stage: false,
            has_prod: false,
            group_name: None,
            project_id: 12,
        })),
        EditDialog { title: "Project note", owner_id: Some(12) }
    );
    assert_eq!(
        edit_dialog(&ProjectPadItem::Project(Project {
            id: 5,
            name: "p".to_string(),
            icon: None,
            has_dev: true,
            has_uat: false,
            has_stage: false,
            has_prod: false,
        })),
        EditDialog { title: "Project", owner_id: None }
    );
}

#[test]
fn keys_in_the_window() {
    assert_eq!(window_key_action(true, None, false), WindowKeyAction::CloseSearch);
    assert_eq!(window_key_action(true, Some('x'), true), WindowKeyAction::CloseSearch);
    assert_eq!(window_key_action(false, Some('x'), false), WindowKeyAction::StartSearch('x'));
    assert_eq!(window_key_action(false, Some('c'), true), WindowKeyAction::Nothing);
    assert_eq!(window_key_action(false, None, false), WindowKeyAction::Nothing);
}

#[test]
fn wheel_moves_the_list_by_twenty_pixels() {
    assert_eq!(wheel_step(true, false), -20);
    assert_eq!(wheel_step(false, true), -20);
    assert_eq!(wheel_step(true, true), -20);
    assert_eq!(wheel_step(false, false), 20);
}
