use projectpad::document::{ServerDatabasePath, ServerPath};
use projectpad::export::{export_project, ExportError};
use projectpad::import::do_import;
use projectpad::replay::ImportError;
use projectpad::rows::{
    Project, ProjectNote, ProjectPointOfInterest, Server, ServerDatabase,
    ServerExtraUserAccount, ServerLink, ServerNote, ServerPointOfInterest, ServerWebsite,
};
use projectpad::storage::Storage;
use projectpad::types::{EnvironmentType, InterestType, RunOn, ServerAccessType, ServerType};

fn exp_project(name: &str, dev: bool, stage: bool, uat: bool, prod: bool) -> Project {
    Project {
        id: 0,
        name: name.to_string(),
        icon: Some(vec![0xCA, 0xFE]),
        has_dev: dev,
        has_uat: uat,
        has_stage: stage,
        has_prod: prod,
    }
}

fn exp_server(desc: &str, env: EnvironmentType, group: Option<&str>, project_id: i32) -> Server {
    Server {
        id: 0,
        desc: desc.to_string(),
        is_retired: desc.len() % 2 == 0,
        ip: format!("{}.example.org", desc),
        text: format!("about {}", desc),
        group_name: group.map(|g| g.to_string()),
        username: "root".to_string(),
        password: format!("pw-{}", desc),
        auth_key: Some(desc.as_bytes().to_vec()),
        auth_key_filename: Some(format!("{}.pem", desc)),
        server_type: ServerType::SrvHttpOrProxy,
        access_type: ServerAccessType::SrvAccessWww,
        environment: env,
        project_id,
    }
}

fn exp_database(desc: &str, group: Option<&str>, server_id: i32) -> ServerDatabase {
    ServerDatabase {
        id: 0,
        desc: desc.to_string(),
        name: format!("{}_db", desc),
        group_name: group.map(|g| g.to_string()),
        text: "t".to_string(),
        username: "dbu".to_string(),
        password: "dbp".to_string(),
        server_id,
    }
}

fn exp_website(desc: &str, db: Option<i32>, group: Option<&str>, server_id: i32) -> ServerWebsite {
    ServerWebsite {
        id: 0,
        desc: desc.to_string(),
        url: format!("https://{}", desc),
        text: String::new(),
        group_name: group.map(|g| g.to_string()),
        username: "wu".to_string(),
        password: "wp".to_string(),
        server_database_id: db,
        server_id,
    }
}

fn exp_note(title: &str, dev: bool, stage: bool, uat: bool, prod: bool, group: Option<&str>, project_id: i32) -> ProjectNote {
    ProjectNote {
        id: 0,
        title: title.to_string(),
        contents: format!("contents of {}", title),
        has_dev: dev,
        has_uat: uat,
        has_stage: stage,
        has_prod: prod,
        group_name: group.map(|g| g.to_string()),
        project_id,
    }
}

struct ExpIds {
    project: i32,
    other_server: i32,
    other_db: i32,
}

fn exp_source() -> (Storage, ExpIds) {
    let mut st = Storage::new();
    // another project comes first, so that identifiers differ after the round trip
    let other = st.insert_project(exp_project("Other", true, false, false, false)).unwrap();
    let other_server = st
        .insert_server(exp_server("foreign", EnvironmentType::EnvDevelopment, None, other))
        .unwrap();
    let other_db = st.insert_server_database(exp_database("foreign-db", None, other_server)).unwrap();

    let p = st.insert_project(exp_project("Vault", true, true, false, true)).unwrap();
    let dev_a = st.insert_server(exp_server("A", EnvironmentType::EnvDevelopment, None, p)).unwrap();
    let prod_b = st.insert_server(exp_server("B", EnvironmentType::EnvProd, Some("core"), p)).unwrap();
    let dev_c = st.insert_server(exp_server("C", EnvironmentType::EnvDevelopment, Some("edge"), p)).unwrap();

    let db_b = st.insert_server_database(exp_database("main", None, prod_b)).unwrap();
    let _db_c = st.insert_server_database(exp_database("cache", Some("stores"), dev_c)).unwrap();
    // A's website uses a database of B, which the document holds later
    st.insert_server_website(exp_website("shop", Some(db_b), None, dev_a)).unwrap();
    st.insert_server_website(exp_website("admin", None, Some("internal"), dev_a)).unwrap();
    st.insert_server_website(exp_website("partner", Some(other_db), None, prod_b)).unwrap();
    st.insert_server_note(ServerNote {
        id: 0,
        title: "restart".to_string(),
        group_name: None,
        contents: "systemctl".to_string(),
        server_id: dev_a,
    }).unwrap();
    st.insert_server_poi(ServerPointOfInterest {
        id: 0,
        desc: "logs".to_string(),
        path: "/var/log".to_string(),
        text: "tail -f".to_string(),
        interest_type: InterestType::PoiLogFile,
        run_on: RunOn::RunOnServer,
        group_name: Some("stores".to_string()),
        server_id: dev_c,
    }).unwrap();
    st.insert_server_extra_user(ServerExtraUserAccount {
        id: 0,
        desc: "deploy".to_string(),
        group_name: None,
        username: "deployer".to_string(),
        password: "dpw".to_string(),
        auth_key: None,
        auth_key_filename: None,
        server_id: prod_b,
    }).unwrap();

    st.insert_project_note(exp_note("everywhere", true, true, false, true, None, p)).unwrap();
    st.insert_project_note(exp_note("prod only", false, false, false, true, Some("core"), p)).unwrap();
    st.insert_project_note(exp_note("late", false, true, false, true, Some("docs"), p)).unwrap();
    st.insert_project_poi(ProjectPointOfInterest {
        id: 0,
        desc: "repo".to_string(),
        path: "/src".to_string(),
        text: "git".to_string(),
        interest_type: InterestType::PoiApplication,
        group_name: Some("docs".to_string()),
        project_id: p,
    }).unwrap();
    // a link from Stage to a server of Development, and one to another project
    st.insert_server_link(ServerLink {
        id: 0,
        desc: "to A".to_string(),
        linked_server_id: dev_a,
        environment: EnvironmentType::EnvStage,
        group_name: None,
        project_id: p,
    }).unwrap();
    st.insert_server_link(ServerLink {
        id: 0,
        desc: "to foreign".to_string(),
        linked_server_id: other_server,
        environment: EnvironmentType::EnvProd,
        group_name: Some("core".to_string()),
        project_id: p,
    }).unwrap();
    (st, ExpIds { project: p, other_server, other_db })
}

#[test]
fn unknown_project_is_not_exported() {
    let (st, _) = exp_source();
    assert_eq!(export_project(&st, 999), Err(ExportError::ProjectNotFound));
    assert_eq!(export_project(&Storage::new(), 1), Err(ExportError::ProjectNotFound));
}

#[test]
fn document_has_the_environments_of_the_project() {
    let (st, ids) = exp_source();
    let doc = export_project(&st, ids.project).unwrap();
    assert_eq!(doc.project_name, "Vault");
    assert!(doc.development_environment.is_some());
    assert!(doc.staging_environment.is_some());
    assert!(doc.uat_environment.is_none());
    assert!(doc.prod_environment.is_some());
}

#[test]
fn document_is_nested_by_environment_and_group() {
    let (st, ids) = exp_source();
    let doc = export_project(&st, ids.project).unwrap();
    let dev = doc.development_environment.unwrap();
    let groups: Vec<&str> = dev.items_in_groups.iter().map(|g| g.0.as_str()).collect();
    assert_eq!(groups, vec!["core", "docs", "edge"]);
    assert_eq!(dev.items.servers.len(), 1);
    assert_eq!(dev.items.servers[0].server.0.desc, "A");
    assert_eq!(dev.items_in_groups[0].1.servers.len(), 0);
    assert_eq!(dev.items_in_groups[2].1.servers.len(), 1);
    let c = &dev.items_in_groups[2].1.servers[0];
    assert_eq!(c.server.0.desc, "C");
    assert_eq!(c.items.server_databases.len(), 0);
    let c_groups: Vec<&str> = c.items_in_groups.iter().map(|g| g.0.as_str()).collect();
    assert_eq!(c_groups, vec!["stores"]);
    assert_eq!(c.items_in_groups[0].1.server_databases[0].0.desc, "cache");
    assert_eq!(c.items_in_groups[0].1.server_pois[0].desc, "logs");

    let a = &dev.items.servers[0];
    let a_groups: Vec<&str> = a.items_in_groups.iter().map(|g| g.0.as_str()).collect();
    assert_eq!(a_groups, vec!["internal"]);
    assert_eq!(a.items.server_websites.len(), 1);
    assert_eq!(a.items.server_notes[0].title, "restart");
    assert_eq!(a.items_in_groups[0].1.server_websites[0].desc, "admin");
    assert_eq!(a.items_in_groups[0].1.server_websites[0].server_database, None);
}

#[test]
fn references_inside_the_project_are_described() {
    let (st, ids) = exp_source();
    let doc = export_project(&st, ids.project).unwrap();
    let dev = doc.development_environment.unwrap();
    assert_eq!(
        dev.items.servers[0].items.server_websites[0].server_database,
        Some(ServerDatabasePath {
            project_name: "Vault".to_string(),
            environment: EnvironmentType::EnvProd,
            server_id: None,
            server_desc: Some("B".to_string()),
            database_id: None,
            database_desc: Some("main".to_string()),
        })
    );
    let stage = doc.staging_environment.unwrap();
    assert_eq!(stage.items.server_links.len(), 1);
    assert_eq!(
        stage.items.server_links[0].server,
        ServerPath {
            server_id: None,
            project_name: "Vault".to_string(),
            environment: EnvironmentType::EnvDevelopment,
            server_desc: Some("A".to_string()),
        }
    );
}

#[test]
fn references_outside_the_project_are_identifiers() {
    let (st, ids) = exp_source();
    let doc = export_project(&st, ids.project).unwrap();
    let prod = doc.prod_environment.unwrap();
    let core = &prod.items_in_groups[0].1;
    assert_eq!(core.server_links[0].server.server_id, Some(ids.other_server));
    assert_eq!(core.server_links[0].server.server_desc, None);
    let b = &core.servers[0];
    let site = &b.items.server_websites[0];
    let path = site.server_database.as_ref().unwrap();
    assert_eq!(path.database_id, Some(ids.other_db));
    assert_eq!(path.database_desc, None);
    assert_eq!(path.server_desc, None);
}

#[test]
fn shared_notes_are_written_once_and_marked_after() {
    let (st, ids) = exp_source();
    let doc = export_project(&st, ids.project).unwrap();
    let dev = doc.development_environment.unwrap();
    let stage = doc.staging_environment.unwrap();
    let prod = doc.prod_environment.unwrap();

    assert_eq!(dev.items.project_notes.len(), 1);
    assert_eq!(dev.items.project_notes[0].title, "everywhere");
    assert_eq!(dev.items.project_notes[0].contents, "contents of everywhere");
    assert_eq!(dev.items.project_notes[0].shared_with_other_environments, None);
    assert_eq!(stage.items.project_notes.len(), 1);
    assert_eq!(stage.items.project_notes[0].contents, "");
    assert_eq!(
        stage.items.project_notes[0].shared_with_other_environments,
        Some("everywhere".to_string())
    );
    assert_eq!(
        prod.items.project_notes[0].shared_with_other_environments,
        Some("everywhere".to_string())
    );
    // "late" is first present in Stage
    let docs_in_dev = &dev.items_in_groups[1].1;
    let docs_in_stage = &stage.items_in_groups[1].1;
    let docs_in_prod = &prod.items_in_groups[1].1;
    assert_eq!(docs_in_dev.project_notes.len(), 0);
    assert_eq!(docs_in_stage.project_notes[0].shared_with_other_environments, None);
    assert_eq!(docs_in_stage.project_notes[0].contents, "contents of late");
    assert_eq!(
        docs_in_prod.project_notes[0].shared_with_other_environments,
        Some("late".to_string())
    );
    // points of interest stand in full in the first environment only
    assert_eq!(docs_in_dev.project_pois[0].shared_with_other_environments, None);
    assert_eq!(
        docs_in_stage.project_pois[0].shared_with_other_environments,
        Some("repo".to_string())
    );
}

fn exp_same_server(a: &Server, b: &Server) -> bool {
    a.desc == b.desc && a.is_retired == b.is_retired && a.ip == b.ip && a.text == b.text
        && a.group_name == b.group_name && a.username == b.username && a.password == b.password
        && a.auth_key == b.auth_key && a.auth_key_filename == b.auth_key_filename
        && a.server_type == b.server_type && a.access_type == b.access_type
        && a.environment == b.environment
}

#[test]
fn export_then_import_gives_the_project_back() {
    let (source, ids) = exp_source();
    let doc = export_project(&source, ids.project).unwrap();
    let mut dest = Storage::new();
    assert_eq!(do_import(&mut dest, &doc), Ok(()));

    // the project row, icon apart
    assert_eq!(dest.projects().len(), 1);
    let p = &dest.projects()[0];
    assert_eq!(
        (p.name.as_str(), p.has_dev, p.has_stage, p.has_uat, p.has_prod),
        ("Vault", true, true, false, true)
    );
    assert_eq!(p.icon, Some(vec![]));

    // every server of the project, and no other
    let source_servers: Vec<&Server> =
        source.servers().iter().filter(|s| s.project_id == ids.project).collect();
    assert_eq!(dest.servers().len(), source_servers.len());
    for s in &source_servers {
        assert_eq!(dest.servers().iter().filter(|d| exp_same_server(d, s)).count(), 1);
    }
    let server_of = |desc: &str| dest.servers().iter().find(|s| s.desc == desc).unwrap().id;

    // databases stay under their servers
    assert_eq!(dest.server_databases().len(), 2);
    let main = dest.server_databases().iter().find(|d| d.desc == "main").unwrap();
    assert_eq!(main.server_id, server_of("B"));
    assert_eq!((main.name.as_str(), main.group_name.clone()), ("main_db", None));
    let cache = dest.server_databases().iter().find(|d| d.desc == "cache").unwrap();
    assert_eq!(cache.server_id, server_of("C"));
    assert_eq!(cache.group_name, Some("stores".to_string()));

    // websites keep their databases: by description inside, by identifier outside
    assert_eq!(dest.server_websites().len(), 3);
    let shop = dest.server_websites().iter().find(|w| w.desc == "shop").unwrap();
    assert_eq!(shop.server_id, server_of("A"));
    assert_eq!(shop.server_database_id, Some(main.id));
    let admin = dest.server_websites().iter().find(|w| w.desc == "admin").unwrap();
    assert_eq!(admin.server_database_id, None);
    assert_eq!(admin.group_name, Some("internal".to_string()));
    let partner = dest.server_websites().iter().find(|w| w.desc == "partner").unwrap();
    assert_eq!(partner.server_database_id, Some(ids.other_db));

    // the other items of the servers
    assert_eq!(dest.server_notes().len(), 1);
    assert_eq!(dest.server_notes()[0].server_id, server_of("A"));
    assert_eq!(dest.server_notes()[0].contents, "systemctl");
    assert_eq!(dest.server_pois().len(), 1);
    assert_eq!(dest.server_pois()[0].server_id, server_of("C"));
    assert_eq!(dest.server_pois()[0].group_name, Some("stores".to_string()));
    assert_eq!(dest.server_extra_users().len(), 1);
    assert_eq!(dest.server_extra_users()[0].server_id, server_of("B"));
    assert_eq!(dest.server_extra_users()[0].username, "deployer");

    // notes: one row each, with the same presence
    assert_eq!(dest.project_notes().len(), 3);
    for n in source.project_notes() {
        let back: Vec<&ProjectNote> =
            dest.project_notes().iter().filter(|d| d.title == n.title).collect();
        assert_eq!(back.len(), 1);
        let d = back[0];
        assert_eq!(d.contents, n.contents);
        assert_eq!(d.group_name, n.group_name);
        assert_eq!(
            (d.has_dev, d.has_stage, d.has_uat, d.has_prod),
            (n.has_dev, n.has_stage, n.has_uat, n.has_prod)
        );
        assert_eq!(d.project_id, p.id);
    }

    // the point of interest is not repeated for every environment
    assert_eq!(dest.project_pois().len(), 1);
    assert_eq!(dest.project_pois()[0].desc, "repo");
    assert_eq!(dest.project_pois()[0].group_name, Some("docs".to_string()));

    // links
    assert_eq!(dest.server_links().len(), 2);
    let to_a = dest.server_links().iter().find(|l| l.desc == "to A").unwrap();
    assert_eq!(to_a.linked_server_id, server_of("A"));
    assert_eq!(to_a.environment, EnvironmentType::EnvStage);
    let to_foreign = dest.server_links().iter().find(|l| l.desc == "to foreign").unwrap();
    assert_eq!(to_foreign.linked_server_id, ids.other_server);
    assert_eq!(to_foreign.group_name, Some("core".to_string()));
}

#[test]
fn export_leaves_storage_as_it_was() {
    let (st, ids) = exp_source();
    let before = (st.projects().len(), st.servers().len(), st.server_websites().len());
    let first = export_project(&st, ids.project).unwrap();
    let second = export_project(&st, ids.project).unwrap();
    assert_eq!(first, second);
    assert_eq!(before, (st.projects().len(), st.servers().len(), st.server_websites().len()));
}

#[test]
fn exported_link_to_a_server_of_its_own_group_does_not_import() {
    let mut source = Storage::new();
    let p = source.insert_project(exp_project("Loop", true, false, false, false)).unwrap();
    let a = source.insert_server(exp_server("A", EnvironmentType::EnvDevelopment, None, p)).unwrap();
    source
        .insert_server_link(ServerLink {
            id: 0,
            desc: "to A".to_string(),
            linked_server_id: a,
            environment: EnvironmentType::EnvDevelopment,
            group_name: None,
            project_id: p,
        })
        .unwrap();
    let doc = export_project(&source, p).unwrap();
    let mut dest = Storage::new();
    // the link stands before the server that it points to
    assert_eq!(do_import(&mut dest, &doc), Err(ImportError::LinkedServerNotFound));
    assert_eq!(dest.projects().len(), 1);
    assert_eq!(dest.servers().len(), 0);
    assert_eq!(dest.server_links().len(), 0);
}

#[test]
fn exported_markers_find_their_notes() {
    let mut source = Storage::new();
    let p = source.insert_project(exp_project("Notes", true, true, true, true)).unwrap();
    source.insert_project_note(exp_note("n", false, true, false, true, Some("g"), p)).unwrap();
    source.insert_project_note(exp_note("n", true, false, true, false, None, p)).unwrap();
    source.insert_project_note(exp_note("m", false, false, false, false, None, p)).unwrap();
    let doc = export_project(&source, p).unwrap();
    let mut dest = Storage::new();
    assert_eq!(do_import(&mut dest, &doc), Ok(()));
    let notes = dest.project_notes();
    assert_eq!(notes.len(), 2);
    let flags = |n: &ProjectNote| (n.has_dev, n.has_stage, n.has_uat, n.has_prod);
    let grouped = notes.iter().find(|n| n.group_name == Some("g".to_string())).unwrap();
    assert_eq!(flags(grouped), (false, true, false, true));
    let plain = notes.iter().find(|n| n.group_name.is_none()).unwrap();
    assert_eq!(flags(plain), (true, false, true, false));
}
