use projectpad::forms::{project_poi_form, server_extra_user_form, ProjectPoiForm, ServerExtraUserForm};
use projectpad::items::{
    can_select, environment_of, selected_summary, OperationMode, ProjectItem, ProjectPadItem,
    SearchItemsType, ServerItem,
};
use projectpad::lookup::{
    filter_projects, passes_project_filter, project_ids_to_load, searches_databases,
    searches_other_kinds, searches_servers, server_ids_to_load,
};
use projectpad::results::{
    build_search_items, item_opened_by_enter, open_item_full, scroll_upper, shortcut_label,
    shortcut_target, SearchResult, SEARCH_RESULT_WIDGET_HEIGHT,
};
use projectpad::rows::{
    Project, ProjectNote, ProjectPointOfInterest, Server, ServerDatabase,
    ServerExtraUserAccount, ServerLink, ServerNote, ServerPointOfInterest, ServerWebsite,
};
use projectpad::types::{EnvironmentType, InterestType, RunOn, ServerAccessType, ServerType};

fn rt_project(id: i32, name: &str) -> Project {
    Project {
        id,
        name: name.to_string(),
        icon: None,
        has_dev: true,
        has_uat: false,
        has_stage: false,
        has_prod: false,
    }
}

fn rt_server(id: i32, project_id: i32) -> Server {
    Server {
        id,
        desc: format!("server {}", id),
        is_retired: false,
        ip: String::new(),
        text: String::new(),
        group_name: None,
        username: String::new(),
        password: String::new(),
        auth_key: None,
        auth_key_filename: None,
        server_type: ServerType::SrvApplication,
        access_type: ServerAccessType::SrvAccessSsh,
        environment: EnvironmentType::EnvUat,
        project_id,
    }
}

fn rt_database(id: i32, server_id: i32) -> ServerDatabase {
    ServerDatabase {
        id,
        desc: format!("db {}", id),
        name: String::new(),
        group_name: None,
        text: String::new(),
        username: String::new(),
        password: String::new(),
        server_id,
    }
}

fn rt_website(id: i32, server_id: i32) -> ServerWebsite {
    ServerWebsite {
        id,
        desc: format!("www {}", id),
        url: String::new(),
        text: String::new(),
        group_name: None,
        username: String::new(),
        password: String::new(),
        server_database_id: None,
        server_id,
    }
}

fn rt_server_note(id: i32, server_id: i32) -> ServerNote {
    ServerNote { id, title: format!("sn {}", id), group_name: None, contents: String::new(), server_id }
}

fn rt_server_poi(id: i32, server_id: i32) -> ServerPointOfInterest {
    ServerPointOfInterest {
        id,
        desc: format!("spoi {}", id),
        path: String::new(),
        text: String::new(),
        interest_type: InterestType::PoiLogFile,
        run_on: RunOn::RunOnServer,
        group_name: None,
        server_id,
    }
}

fn rt_user(id: i32, server_id: i32) -> ServerExtraUserAccount {
    ServerExtraUserAccount {
        id,
        desc: format!("user {}", id),
        group_name: None,
        username: String::new(),
        password: String::new(),
        auth_key: None,
        auth_key_filename: None,
        server_id,
    }
}

fn rt_link(id: i32, project_id: i32, linked: i32) -> ServerLink {
    ServerLink {
        id,
        desc: format!("link {}", id),
        linked_server_id: linked,
        environment: EnvironmentType::EnvStage,
        group_name: None,
        project_id,
    }
}

fn rt_note(id: i32, project_id: i32) -> ProjectNote {
    ProjectNote {
        id,
        title: format!("note {}", id),
        contents: String::new(),
        has_dev: false,
        has_uat: false,
        has_stage: false,
        has_prod: false,
        group_name: None,
        project_id,
    }
}

fn rt_poi(id: i32, project_id: i32) -> ProjectPointOfInterest {
    ProjectPointOfInterest {
        id,
        desc: format!("poi {}", id),
        path: String::new(),
        text: String::new(),
        interest_type: InterestType::PoiApplication,
        group_name: None,
        project_id,
    }
}

fn rt_empty() -> SearchResult {
    SearchResult {
        projects: vec![],
        project_notes: vec![],
        project_pois: vec![],
        server_links: vec![],
        servers: vec![],
        server_databases: vec![],
        server_extra_users: vec![],
        server_notes: vec![],
        server_pois: vec![],
        server_websites: vec![],
    }
}

fn rt_found() -> SearchResult {
    SearchResult {
        projects: vec![rt_project(1, "One"), rt_project(2, "Two")],
        project_notes: vec![rt_note(1, 2), rt_note(2, 1)],
        project_pois: vec![rt_poi(1, 1)],
        server_links: vec![rt_link(1, 1, 20)],
        servers: vec![rt_server(10, 1), rt_server(20, 2), rt_server(11, 1), rt_server(30, 3)],
        server_databases: vec![rt_database(1, 11), rt_database(2, 10)],
        server_extra_users: vec![rt_user(1, 10)],
        server_notes: vec![rt_server_note(1, 10)],
        server_pois: vec![rt_server_poi(1, 10), rt_server_poi(2, 40)],
        server_websites: vec![rt_website(1, 20), rt_website(2, 10)],
    }
}

#[test]
fn search_items_are_listed_project_by_project() {
    let items = build_search_items(&rt_found());
    let expected = vec![
        ProjectPadItem::Project(rt_project(1, "One")),
        ProjectPadItem::Server(rt_server(10, 1)),
        ProjectPadItem::ServerWebsite(rt_website(2, 10)),
        ProjectPadItem::ServerNote(rt_server_note(1, 10)),
        ProjectPadItem::ServerExtraUserAccount(rt_user(1, 10)),
        ProjectPadItem::ServerDatabase(rt_database(2, 10)),
        ProjectPadItem::ServerPoi(rt_server_poi(1, 10)),
        ProjectPadItem::Server(rt_server(11, 1)),
        ProjectPadItem::ServerDatabase(rt_database(1, 11)),
        ProjectPadItem::ServerLink(rt_link(1, 1, 20)),
        ProjectPadItem::ProjectNote(rt_note(2, 1)),
        ProjectPadItem::ProjectPoi(rt_poi(1, 1)),
        ProjectPadItem::Project(rt_project(2, "Two")),
        ProjectPadItem::Server(rt_server(20, 2)),
        ProjectPadItem::ServerWebsite(rt_website(1, 20)),
        ProjectPadItem::ProjectNote(rt_note(1, 2)),
    ];
    assert_eq!(items, expected);
}

#[test]
fn no_result_gives_no_items() {
    assert!(build_search_items(&rt_empty()).is_empty());
    let mut only_leaves = rt_empty();
    only_leaves.servers.push(rt_server(1, 1));
    only_leaves.project_notes.push(rt_note(1, 1));
    assert!(build_search_items(&only_leaves).is_empty());
}

#[test]
fn scroll_upper_is_the_height_of_the_list() {
    assert_eq!(SEARCH_RESULT_WIDGET_HEIGHT, 75);
    assert_eq!(scroll_upper(0), Some(0));
    assert_eq!(scroll_upper(16), Some(1200));
    assert_eq!(scroll_upper(28633115), Some(2147483625));
    assert_eq!(scroll_upper(28633116), None);
    assert_eq!(scroll_upper(usize::MAX), None);
}

#[test]
fn opening_a_project_shows_it_alone() {
    let items = build_search_items(&rt_found());
    let opened = open_item_full(&items, ProjectPadItem::Project(rt_project(2, "Two")));
    assert_eq!(opened, Some((rt_project(2, "Two"), None, None)));
}

#[test]
fn opening_a_project_item_shows_its_project() {
    let items = build_search_items(&rt_found());
    assert_eq!(
        open_item_full(&items, ProjectPadItem::ProjectNote(rt_note(1, 2))),
        Some((rt_project(2, "Two"), Some(ProjectItem::ProjectNote(rt_note(1, 2))), None))
    );
    assert_eq!(
        open_item_full(&items, ProjectPadItem::Server(rt_server(11, 1))),
        Some((rt_project(1, "One"), Some(ProjectItem::Server(rt_server(11, 1))), None))
    );
    assert_eq!(
        open_item_full(&items, ProjectPadItem::ServerLink(rt_link(1, 1, 20))),
        Some((rt_project(1, "One"), Some(ProjectItem::ServerLink(rt_link(1, 1, 20))), None))
    );
    assert_eq!(
        open_item_full(&items, ProjectPadItem::ProjectPoi(rt_poi(1, 1))),
        Some((rt_project(1, "One"), Some(ProjectItem::ProjectPointOfInterest(rt_poi(1, 1))), None))
    );
}

#[test]
fn opening_a_server_item_shows_its_server_and_project() {
    let items = build_search_items(&rt_found());
    assert_eq!(
        open_item_full(&items, ProjectPadItem::ServerDatabase(rt_database(1, 11))),
        Some((
            rt_project(1, "One"),
            Some(ProjectItem::Server(rt_server(11, 1))),
            Some(ServerItem::Database(rt_database(1, 11)))
        ))
    );
    assert_eq!(
        open_item_full(&items, ProjectPadItem::ServerWebsite(rt_website(1, 20))),
        Some((
            rt_project(2, "Two"),
            Some(ProjectItem::Server(rt_server(20, 2))),
            Some(ServerItem::Website(rt_website(1, 20)))
        ))
    );
}

#[test]
fn opening_an_item_whose_parent_is_not_listed_shows_nothing() {
    let items = build_search_items(&rt_found());
    assert_eq!(open_item_full(&items, ProjectPadItem::ServerPoi(rt_server_poi(2, 40))), None);
    assert_eq!(open_item_full(&items, ProjectPadItem::Server(rt_server(30, 3))), None);
    assert_eq!(open_item_full(&vec![], ProjectPadItem::ProjectNote(rt_note(1, 1))), None);
}

#[test]
fn enter_opens_the_single_deepest_item() {
    let p = ProjectPadItem::Project(rt_project(1, "One"));
    let s = ProjectPadItem::Server(rt_server(10, 1));
    let d = ProjectPadItem::ServerDatabase(rt_database(1, 10));
    let n = ProjectPadItem::ProjectNote(rt_note(1, 1));
    assert_eq!(item_opened_by_enter(&vec![]), None);
    assert_eq!(item_opened_by_enter(&vec![p.clone()]), Some(0));
    assert_eq!(item_opened_by_enter(&vec![p.clone(), s.clone()]), Some(1));
    assert_eq!(item_opened_by_enter(&vec![p.clone(), s.clone(), d.clone()]), Some(2));
    assert_eq!(item_opened_by_enter(&vec![p.clone(), s.clone(), n.clone()]), None);
    assert_eq!(item_opened_by_enter(&vec![p.clone(), s.clone(), d.clone(), d.clone()]), None);
    assert_eq!(item_opened_by_enter(&vec![p.clone(), p.clone()]), None);
    assert_eq!(item_opened_by_enter(&vec![p.clone(), d.clone()]), None);
    assert_eq!(item_opened_by_enter(&vec![s.clone()]), None);
}

#[test]
fn digit_keys_stand_for_the_first_ten_items() {
    assert_eq!(shortcut_target(1, 3), Some(0));
    assert_eq!(shortcut_target(3, 3), Some(2));
    assert_eq!(shortcut_target(4, 3), None);
    assert_eq!(shortcut_target(9, 20), Some(8));
    assert_eq!(shortcut_target(0, 20), Some(9));
    assert_eq!(shortcut_target(0, 9), None);
    assert_eq!(shortcut_target(1, 0), None);
    assert_eq!(shortcut_target(10, 20), None);
    assert_eq!(shortcut_label(0), Some(1));
    assert_eq!(shortcut_label(8), Some(9));
    assert_eq!(shortcut_label(9), Some(0));
    assert_eq!(shortcut_label(10), None);
}

#[test]
fn items_convert_to_the_narrower_kinds() {
    let db = ProjectPadItem::ServerDatabase(rt_database(1, 10));
    assert_eq!(db.to_server_item(), Some(ServerItem::Database(rt_database(1, 10))));
    assert_eq!(db.to_project_item(), None);
    let srv = ProjectPadItem::Server(rt_server(10, 1));
    assert_eq!(srv.to_project_item(), Some(ProjectItem::Server(rt_server(10, 1))));
    assert_eq!(srv.to_server_item(), None);
    let prj = ProjectPadItem::Project(rt_project(1, "One"));
    assert_eq!(prj.to_project_item(), None);
    assert_eq!(prj.to_server_item(), None);
    assert_eq!(
        ProjectPadItem::ServerPoi(rt_server_poi(1, 10)).to_server_item(),
        Some(ServerItem::PointOfInterest(rt_server_poi(1, 10)))
    );
    assert_eq!(
        ProjectPadItem::ServerExtraUserAccount(rt_user(1, 10)).to_server_item(),
        Some(ServerItem::ExtraUserAccount(rt_user(1, 10)))
    );
    assert_eq!(
        ProjectPadItem::ServerNote(rt_server_note(1, 10)).to_server_item(),
        Some(ServerItem::Note(rt_server_note(1, 10)))
    );
    assert_eq!(ServerItem::Website(rt_website(1, 20)).server_id(), 20);
    assert_eq!(srv.clone(), srv);
}

#[test]
fn environment_of_a_displayed_item() {
    assert_eq!(environment_of(&None), None);
    assert_eq!(
        environment_of(&Some(ProjectItem::Server(rt_server(1, 1)))),
        Some(EnvironmentType::EnvUat)
    );
    assert_eq!(
        environment_of(&Some(ProjectItem::ServerLink(rt_link(1, 1, 1)))),
        Some(EnvironmentType::EnvStage)
    );
    let mut note = rt_note(1, 1);
    assert_eq!(environment_of(&Some(ProjectItem::ProjectNote(rt_note(1, 1)))), None);
    note.has_dev = true;
    note.has_stage = true;
    assert_eq!(
        environment_of(&Some(ProjectItem::ProjectNote(rt_note_like(&note)))),
        Some(EnvironmentType::EnvStage)
    );
    note.has_prod = true;
    assert_eq!(
        environment_of(&Some(ProjectItem::ProjectNote(rt_note_like(&note)))),
        Some(EnvironmentType::EnvProd)
    );
    assert_eq!(
        environment_of(&Some(ProjectItem::ProjectPointOfInterest(rt_poi(1, 1)))),
        None
    );
}

fn rt_note_like(n: &ProjectNote) -> ProjectNote {
    n.clone()
}

#[test]
fn selection_depends_on_what_is_searched() {
    let db = ProjectPadItem::ServerDatabase(rt_database(1, 10));
    let srv = ProjectPadItem::Server(rt_server(10, 1));
    let note = ProjectPadItem::ProjectNote(rt_note(1, 1));
    assert!(can_select(SearchItemsType::All, &note));
    assert!(can_select(SearchItemsType::ServersOnly, &srv));
    assert!(!can_select(SearchItemsType::ServersOnly, &db));
    assert!(can_select(SearchItemsType::ServerDbsOnly, &db));
    assert!(!can_select(SearchItemsType::ServerDbsOnly, &srv));
    assert_ne!(OperationMode::ItemActions, OperationMode::SelectItem);
    assert_eq!(selected_summary(&Some(db)), Some((1, "db 1".to_string())));
    assert_eq!(selected_summary(&Some(srv)), Some((10, "server 10".to_string())));
    assert_eq!(selected_summary(&Some(note)), None);
    assert_eq!(selected_summary(&None), None);
}

#[test]
fn searched_kinds() {
    assert!(searches_servers(SearchItemsType::All));
    assert!(searches_servers(SearchItemsType::ServersOnly));
    assert!(!searches_servers(SearchItemsType::ServerDbsOnly));
    assert!(searches_databases(SearchItemsType::All));
    assert!(searches_databases(SearchItemsType::ServerDbsOnly));
    assert!(!searches_databases(SearchItemsType::ServersOnly));
    assert!(searches_other_kinds(SearchItemsType::All));
    assert!(!searches_other_kinds(SearchItemsType::ServersOnly));
    assert!(!searches_other_kinds(SearchItemsType::ServerDbsOnly));
}

#[test]
fn servers_to_load_are_those_found_and_those_above_what_was_found() {
    let ids = server_ids_to_load(&rt_found());
    assert_eq!(ids, vec![10, 11, 20, 30, 40]);
    assert!(server_ids_to_load(&rt_empty()).is_empty());
    let mut links_only = rt_empty();
    links_only.server_links.push(rt_link(1, 1, 77));
    links_only.server_links.push(rt_link(2, 1, 77));
    assert_eq!(server_ids_to_load(&links_only), vec![77]);
}

#[test]
fn projects_to_load_are_those_found_and_those_above_what_was_found() {
    let mut found = rt_found();
    found.project_pois.push(rt_poi(9, 7));
    let loaded = vec![rt_server(10, 1), rt_server(40, 5), rt_server(20, 2)];
    assert_eq!(project_ids_to_load(&loaded, &found), vec![1, 2, 5, 7]);
    assert_eq!(project_ids_to_load(&vec![], &rt_empty()), Vec::<i32>::new());
}

#[test]
fn projects_are_filtered_by_name_in_lower_case() {
    let all = vec![rt_project(1, "Web Shop"), rt_project(2, "Intranet"), rt_project(3, "webmail")];
    let kept = filter_projects(all, &Some("web".to_string()));
    assert_eq!(kept, vec![rt_project(1, "Web Shop"), rt_project(3, "webmail")]);
    let all = vec![rt_project(1, "Web Shop"), rt_project(2, "Intranet")];
    assert_eq!(filter_projects(all, &None).len(), 2);
    let all = vec![rt_project(1, "Web Shop")];
    assert_eq!(filter_projects(all, &Some("Web".to_string())), vec![]);
    let all = vec![rt_project(1, "Web Shop")];
    assert_eq!(filter_projects(all, &Some(String::new())).len(), 1);
}

#[test]
fn project_filter_looks_for_the_text_anywhere_in_the_name() {
    assert!(passes_project_filter("web shop", "b s"));
    assert!(passes_project_filter("web shop", ""));
    assert!(!passes_project_filter("web shop", "shopping"));
    assert!(!passes_project_filter("", "x"));
}

#[test]
fn dialog_for_a_new_point_of_interest_starts_empty() {
    assert_eq!(
        project_poi_form(3, &None),
        ProjectPoiForm {
            project_id: 3,
            description: String::new(),
            path: String::new(),
            text: String::new(),
            group_name: None,
            interest_type: InterestType::PoiApplication,
        }
    );
}

#[test]
fn dialog_for_a_point_of_interest_starts_from_its_fields() {
    let poi = ProjectPointOfInterest {
        id: 8,
        desc: "logs".to_string(),
        path: "/var/log".to_string(),
        text: "tail".to_string(),
        interest_type: InterestType::PoiLogFile,
        group_name: Some("ops".to_string()),
        project_id: 3,
    };
    assert_eq!(
        project_poi_form(3, &Some(poi)),
        ProjectPoiForm {
            project_id: 3,
            description: "logs".to_string(),
            path: "/var/log".to_string(),
            text: "tail".to_string(),
            group_name: Some("ops".to_string()),
            interest_type: InterestType::PoiLogFile,
        }
    );
}

#[test]
fn dialog_for_an_extra_user_account() {
    assert_eq!(
        server_extra_user_form(4, &None),
        ServerExtraUserForm {
            server_id: 4,
            description: String::new(),
            group_name: None,
            username: String::new(),
            password: String::new(),
        }
    );
    let mut user = rt_user(1, 4);
    user.username = "bob".to_string();
    user.password = "pw".to_string();
    user.group_name = Some("g".to_string());
    assert_eq!(
        server_extra_user_form(4, &Some(user)),
        ServerExtraUserForm {
            server_id: 4,
            description: "user 1".to_string(),
            group_name: Some("g".to_string()),
            username: "bob".to_string(),
            password: "pw".to_string(),
        }
    );
}
