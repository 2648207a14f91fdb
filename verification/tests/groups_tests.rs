use projectpad::groups::{
    get_project_group_names, get_project_item_group_names, get_server_group_names, insert_name,
    sorts_before,
};
use projectpad::rows::{
    ProjectNote, ProjectPointOfInterest, Server, ServerDatabase, ServerLink, ServerNote,
    ServerWebsite,
};
use projectpad::storage::Storage;
use projectpad::types::{EnvironmentType, InterestType, ServerAccessType, ServerType};

fn grp_server(project_id: i32, group: Option<&str>) -> Server {
    Server {
        id: 0,
        desc: "s".to_string(),
        is_retired: false,
        ip: String::new(),
        text: String::new(),
        group_name: group.map(|g| g.to_string()),
        username: String::new(),
        password: String::new(),
        auth_key: None,
        auth_key_filename: None,
        server_type: ServerType::SrvApplication,
        access_type: ServerAccessType::SrvAccessSsh,
        environment: EnvironmentType::EnvDevelopment,
        project_id,
    }
}

fn grp_poi(project_id: i32, group: Option<&str>) -> ProjectPointOfInterest {
    ProjectPointOfInterest {
        id: 0,
        desc: "p".to_string(),
        path: String::new(),
        text: String::new(),
        interest_type: InterestType::PoiApplication,
        group_name: group.map(|g| g.to_string()),
        project_id,
    }
}

#[test]
fn sorts_before_is_the_order_of_strings() {
    let samples = ["", "a", "A", "ab", "b", "é", "z", "zz", "日本", "a b"];
    for x in samples {
        for y in samples {
            assert_eq!(sorts_before(&x.to_string(), &y.to_string()), x < y, "{:?} {:?}", x, y);
        }
    }
}

#[test]
fn insert_name_keeps_the_list_sorted_and_free_of_repeats() {
    let mut names: Vec<String> = vec![];
    for n in ["m", "c", "x", "c", "a", "m", "zz", ""] {
        insert_name(&mut names, &n.to_string());
    }
    assert_eq!(names, vec!["", "a", "c", "m", "x", "zz"]);
}

#[test]
fn project_group_names_come_from_servers_and_points_of_interest() {
    let mut st = Storage::new();
    st.insert_server(grp_server(1, Some("web"))).unwrap();
    st.insert_server(grp_server(1, None)).unwrap();
    st.insert_server(grp_server(2, Some("other project"))).unwrap();
    st.insert_server(grp_server(1, Some("db"))).unwrap();
    st.insert_project_poi(grp_poi(1, Some("web"))).unwrap();
    st.insert_project_poi(grp_poi(1, Some("apps"))).unwrap();
    st.insert_project_note(ProjectNote {
        id: 0,
        title: "n".to_string(),
        contents: String::new(),
        has_dev: true,
        has_uat: false,
        has_stage: false,
        has_prod: false,
        group_name: Some("notes only".to_string()),
        project_id: 1,
    }).unwrap();
    st.insert_server_link(ServerLink {
        id: 0,
        desc: "l".to_string(),
        linked_server_id: 1,
        environment: EnvironmentType::EnvDevelopment,
        group_name: Some("links only".to_string()),
        project_id: 1,
    }).unwrap();
    assert_eq!(get_project_group_names(&st, 1), vec!["apps", "db", "web"]);
    assert_eq!(
        get_project_item_group_names(&st, 1),
        vec!["apps", "db", "links only", "notes only", "web"]
    );
    assert_eq!(get_project_group_names(&st, 2), vec!["other project"]);
    assert!(get_project_group_names(&st, 3).is_empty());
}

#[test]
fn server_group_names_come_from_all_kinds_of_items() {
    let mut st = Storage::new();
    st.insert_server_database(ServerDatabase {
        id: 0,
        desc: "d".to_string(),
        name: String::new(),
        group_name: Some("data".to_string()),
        text: String::new(),
        username: String::new(),
        password: String::new(),
        server_id: 5,
    }).unwrap();
    st.insert_server_website(ServerWebsite {
        id: 0,
        desc: "w".to_string(),
        url: String::new(),
        text: String::new(),
        group_name: Some("Web".to_string()),
        username: String::new(),
        password: String::new(),
        server_database_id: None,
        server_id: 5,
    }).unwrap();
    st.insert_server_note(ServerNote {
        id: 0,
        title: "n".to_string(),
        group_name: Some("data".to_string()),
        contents: String::new(),
        server_id: 5,
    }).unwrap();
    st.insert_server_note(ServerNote {
        id: 0,
        title: "n".to_string(),
        group_name: Some("elsewhere".to_string()),
        contents: String::new(),
        server_id: 6,
    }).unwrap();
    assert_eq!(get_server_group_names(&st, 5), vec!["Web", "data"]);
    assert_eq!(get_server_group_names(&st, 6), vec!["elsewhere"]);
}
