use projectpad::document::{
    ProjectEnvGroupImportExport, ProjectEnvImportExport, ProjectImportExport,
    ProjectNoteImportExport, ProjectPoiImportExport, ServerDatabaseImportExport,
    ServerDatabasePath, ServerExtraUserImportExport, ServerGroupImportExport, ServerImportExport,
    ServerLinkImportExport, ServerNoteImportExport, ServerPath, ServerPoiImportExport,
    ServerWebsiteImportExport, ServerWithItemsImportExport,
};
use projectpad::import::{
    do_import, import_project_note, import_project_poi, import_server, import_server_link,
    import_server_website, UnprocessedWebsite,
};
use projectpad::replay::ImportError;
use projectpad::rows::{Project, Server, ServerDatabase};
use projectpad::storage::Storage;
use projectpad::types::{EnvironmentType, InterestType, RunOn, ServerAccessType, ServerType};

fn imp_empty_group() -> ProjectEnvGroupImportExport {
    ProjectEnvGroupImportExport {
        project_pois: vec![],
        project_notes: vec![],
        server_links: vec![],
        servers: vec![],
    }
}

fn imp_env(items: ProjectEnvGroupImportExport) -> ProjectEnvImportExport {
    ProjectEnvImportExport { items, items_in_groups: vec![] }
}

fn imp_doc(name: &str) -> ProjectImportExport {
    ProjectImportExport {
        project_name: name.to_string(),
        development_environment: None,
        staging_environment: None,
        uat_environment: None,
        prod_environment: None,
    }
}

fn imp_server_row(desc: &str) -> Server {
    Server {
        id: 77,
        desc: desc.to_string(),
        is_retired: false,
        ip: "10.1.2.3".to_string(),
        text: "notes".to_string(),
        group_name: Some("ignored".to_string()),
        username: "admin".to_string(),
        password: "pw".to_string(),
        auth_key: Some(vec![1, 2, 3]),
        auth_key_filename: Some("id_rsa".to_string()),
        server_type: ServerType::SrvDatabase,
        access_type: ServerAccessType::SrvAccessSsh,
        environment: EnvironmentType::EnvProd,
        project_id: 99,
    }
}

fn imp_no_items() -> ServerGroupImportExport {
    ServerGroupImportExport {
        server_pois: vec![],
        server_websites: vec![],
        server_databases: vec![],
        server_notes: vec![],
        server_extra_users: vec![],
    }
}

fn imp_server(desc: &str, items: ServerGroupImportExport) -> ServerWithItemsImportExport {
    ServerWithItemsImportExport {
        server: ServerImportExport(imp_server_row(desc)),
        items,
        items_in_groups: vec![],
    }
}

fn imp_database(desc: &str) -> ServerDatabaseImportExport {
    ServerDatabaseImportExport(ServerDatabase {
        id: 5,
        desc: desc.to_string(),
        name: format!("{}_name", desc),
        group_name: None,
        text: String::new(),
        username: "dbuser".to_string(),
        password: "dbpw".to_string(),
        server_id: 1234,
    })
}

fn imp_website(desc: &str, database: Option<ServerDatabasePath>) -> ServerWebsiteImportExport {
    ServerWebsiteImportExport {
        desc: desc.to_string(),
        url: format!("https://{}.example.org", desc),
        text: String::new(),
        username: "web".to_string(),
        password: "webpw".to_string(),
        server_database: database,
    }
}

fn imp_db_path(project: &str, env: EnvironmentType, server: &str, db: &str) -> ServerDatabasePath {
    ServerDatabasePath {
        project_name: project.to_string(),
        environment: env,
        server_id: None,
        server_desc: Some(server.to_string()),
        database_id: None,
        database_desc: Some(db.to_string()),
    }
}

fn imp_note(title: &str, contents: &str) -> ProjectNoteImportExport {
    ProjectNoteImportExport {
        title: title.to_string(),
        contents: contents.to_string(),
        shared_with_other_environments: None,
    }
}

fn imp_marker(title: &str) -> ProjectNoteImportExport {
    ProjectNoteImportExport {
        title: title.to_string(),
        contents: String::new(),
        shared_with_other_environments: Some(title.to_string()),
    }
}

fn imp_row_count(st: &Storage) -> usize {
    st.projects().len() + st.project_pois().len() + st.project_notes().len()
        + st.server_links().len() + st.servers().len() + st.server_databases().len()
        + st.server_notes().len() + st.server_pois().len() + st.server_extra_users().len()
        + st.server_websites().len()
}

#[test]
fn empty_document_writes_the_project_row() {
    let mut st = Storage::new();
    let mut doc = imp_doc("Vault");
    doc.development_environment = Some(imp_env(imp_empty_group()));
    doc.prod_environment = Some(imp_env(imp_empty_group()));
    assert_eq!(do_import(&mut st, &doc), Ok(()));
    assert_eq!(
        st.projects(),
        &vec![Project {
            id: 1,
            name: "Vault".to_string(),
            icon: Some(vec![]),
            has_dev: true,
            has_uat: false,
            has_stage: false,
            has_prod: true,
        }]
    );
    assert_eq!(imp_row_count(&st), 1);
}

#[test]
fn duplicate_project_name_is_refused_and_nothing_is_written() {
    let mut st = Storage::new();
    let mut first = imp_doc("Vault");
    first.development_environment = Some(imp_env(imp_empty_group()));
    assert_eq!(do_import(&mut st, &first), Ok(()));
    let before = imp_row_count(&st);

    let mut again = imp_doc("Vault");
    let mut group = imp_empty_group();
    group.project_notes.push(imp_note("n", "c"));
    group.servers.push(imp_server("srv", imp_no_items()));
    again.development_environment = Some(imp_env(group));
    assert_eq!(do_import(&mut st, &again), Err(ImportError::ProjectAlreadyExists));
    assert_eq!(imp_row_count(&st), before);
    assert_eq!(st.projects().len(), 1);
}

#[test]
fn project_names_are_compared_exactly() {
    let mut st = Storage::new();
    assert_eq!(do_import(&mut st, &imp_doc("Vault")), Ok(()));
    assert_eq!(do_import(&mut st, &imp_doc("vault")), Ok(()));
    assert_eq!(st.projects().len(), 2);
    assert_eq!(st.projects()[1].id, 2);
}

#[test]
fn shared_note_in_two_environments_is_one_row() {
    let mut st = Storage::new();
    let mut doc = imp_doc("Vault");
    let mut dev = imp_empty_group();
    dev.project_notes.push(imp_note("Deploy", "how to deploy"));
    let mut stage = imp_empty_group();
    stage.project_notes.push(imp_marker("Deploy"));
    doc.development_environment = Some(imp_env(dev));
    doc.staging_environment = Some(imp_env(stage));
    assert_eq!(do_import(&mut st, &doc), Ok(()));
    assert_eq!(st.project_notes().len(), 1);
    let note = &st.project_notes()[0];
    assert_eq!(note.title, "Deploy");
    assert_eq!(note.contents, "how to deploy");
    assert!(note.has_dev);
    assert!(note.has_stage);
    assert!(!note.has_uat);
    assert!(!note.has_prod);
    assert_eq!(note.project_id, 1);
    assert_eq!(note.group_name, None);
}

#[test]
fn shared_note_in_all_environments() {
    let mut st = Storage::new();
    let mut doc = imp_doc("Vault");
    let mut dev = imp_empty_group();
    dev.project_notes.push(imp_note("Deploy", "text"));
    let mut later = imp_empty_group();
    later.project_notes.push(imp_marker("Deploy"));
    let mut later2 = imp_empty_group();
    later2.project_notes.push(imp_marker("Deploy"));
    let mut later3 = imp_empty_group();
    later3.project_notes.push(imp_marker("Deploy"));
    doc.development_environment = Some(imp_env(dev));
    doc.staging_environment = Some(imp_env(later));
    doc.uat_environment = Some(imp_env(later2));
    doc.prod_environment = Some(imp_env(later3));
    assert_eq!(do_import(&mut st, &doc), Ok(()));
    assert_eq!(st.project_notes().len(), 1);
    let note = &st.project_notes()[0];
    assert!(note.has_dev && note.has_stage && note.has_uat && note.has_prod);
}

#[test]
fn shared_note_without_its_contents_fails() {
    let mut st = Storage::new();
    let mut doc = imp_doc("Vault");
    let mut dev = imp_empty_group();
    dev.project_notes.push(imp_note("Other", "text"));
    let mut stage = imp_empty_group();
    stage.project_notes.push(imp_marker("Deploy"));
    doc.development_environment = Some(imp_env(dev));
    doc.staging_environment = Some(imp_env(stage));
    assert_eq!(do_import(&mut st, &doc), Err(ImportError::SharedNoteNotFound));
    // what was written before the failure stays
    assert_eq!(st.projects().len(), 1);
    assert_eq!(st.project_notes().len(), 1);
}

#[test]
fn shared_note_is_looked_up_in_its_own_group() {
    let mut st = Storage::new();
    let p = st.insert_project(Project {
        id: 0,
        name: "Vault".to_string(),
        icon: None,
        has_dev: true,
        has_uat: false,
        has_stage: true,
        has_prod: false,
    }).unwrap();
    let group = Some("ops".to_string());
    assert_eq!(
        import_project_note(&mut st, p, &group, EnvironmentType::EnvDevelopment, &imp_note("N", "c")),
        Ok(())
    );
    assert_eq!(
        import_project_note(&mut st, p, &None, EnvironmentType::EnvStage, &imp_marker("N")),
        Err(ImportError::SharedNoteNotFound)
    );
    assert_eq!(
        import_project_note(&mut st, p + 1, &group, EnvironmentType::EnvStage, &imp_marker("N")),
        Err(ImportError::SharedNoteNotFound)
    );
    assert_eq!(
        import_project_note(&mut st, p, &group, EnvironmentType::EnvStage, &imp_marker("N")),
        Ok(())
    );
    assert_eq!(st.project_notes().len(), 1);
    assert!(st.project_notes()[0].has_dev && st.project_notes()[0].has_stage);
}

#[test]
fn shared_marker_in_development_marks_development() {
    let mut st = Storage::new();
    assert_eq!(
        import_project_note(&mut st, 1, &None, EnvironmentType::EnvProd, &imp_note("N", "c")),
        Ok(())
    );
    assert_eq!(
        import_project_note(&mut st, 1, &None, EnvironmentType::EnvDevelopment, &imp_marker("N")),
        Ok(())
    );
    let note = &st.project_notes()[0];
    assert!(note.has_dev && note.has_prod && !note.has_stage && !note.has_uat);
}

#[test]
fn shared_point_of_interest_is_passed_over() {
    let mut st = Storage::new();
    let plain = ProjectPoiImportExport {
        desc: "logs".to_string(),
        path: "/var/log".to_string(),
        text: "tail".to_string(),
        interest_type: InterestType::PoiLogFile,
        shared_with_other_environments: None,
    };
    let shared = ProjectPoiImportExport {
        desc: "logs".to_string(),
        path: "/var/log".to_string(),
        text: "tail".to_string(),
        interest_type: InterestType::PoiLogFile,
        shared_with_other_environments: Some("logs".to_string()),
    };
    assert_eq!(import_project_poi(&mut st, 4, &Some("g".to_string()), &plain), Ok(()));
    assert_eq!(import_project_poi(&mut st, 4, &Some("g".to_string()), &shared), Ok(()));
    assert_eq!(st.project_pois().len(), 1);
    let poi = &st.project_pois()[0];
    assert_eq!(poi.id, 1);
    assert_eq!(poi.desc, "logs");
    assert_eq!(poi.path, "/var/log");
    assert_eq!(poi.text, "tail");
    assert_eq!(poi.interest_type, InterestType::PoiLogFile);
    assert_eq!(poi.group_name, Some("g".to_string()));
    assert_eq!(poi.project_id, 4);
}

#[test]
fn website_finds_a_database_on_a_later_server() {
    let mut st = Storage::new();
    let mut doc = imp_doc("Vault");
    let mut a_items = imp_no_items();
    a_items.server_websites.push(imp_website(
        "site",
        Some(imp_db_path("Vault", EnvironmentType::EnvDevelopment, "B", "maindb")),
    ));
    let mut b_items = imp_no_items();
    b_items.server_databases.push(imp_database("maindb"));
    let mut dev = imp_empty_group();
    dev.servers.push(imp_server("A", a_items));
    dev.servers.push(imp_server("B", b_items));
    doc.development_environment = Some(imp_env(dev));
    assert_eq!(do_import(&mut st, &doc), Ok(()));

    assert_eq!(st.servers().len(), 2);
    assert_eq!(st.server_databases().len(), 1);
    let db = &st.server_databases()[0];
    assert_eq!(db.server_id, st.servers()[1].id);
    assert_eq!(st.server_websites().len(), 1);
    let site = &st.server_websites()[0];
    assert_eq!(site.server_id, st.servers()[0].id);
    assert_eq!(site.server_database_id, Some(db.id));
    assert_eq!(site.url, "https://site.example.org");
}

#[test]
fn website_finds_a_database_in_a_later_environment() {
    let mut st = Storage::new();
    let mut doc = imp_doc("Vault");
    let mut a_items = imp_no_items();
    a_items.server_websites.push(imp_website(
        "site",
        Some(imp_db_path("Vault", EnvironmentType::EnvProd, "B", "maindb")),
    ));
    let mut b_items = imp_no_items();
    b_items.server_databases.push(imp_database("maindb"));
    let mut dev = imp_empty_group();
    dev.servers.push(imp_server("A", a_items));
    let mut prod = imp_empty_group();
    prod.servers.push(imp_server("B", b_items));
    doc.development_environment = Some(imp_env(dev));
    doc.prod_environment = Some(imp_env(prod));
    assert_eq!(do_import(&mut st, &doc), Ok(()));
    assert_eq!(st.server_websites()[0].server_database_id, Some(st.server_databases()[0].id));
    assert_eq!(st.servers()[1].environment, EnvironmentType::EnvProd);
}

#[test]
fn dangling_database_reference_is_left_unset() {
    let mut st = Storage::new();
    let mut doc = imp_doc("Vault");
    let mut items = imp_no_items();
    items.server_websites.push(imp_website(
        "site",
        Some(imp_db_path("Vault", EnvironmentType::EnvDevelopment, "nowhere", "nothing")),
    ));
    items.server_websites.push(imp_website("plain", None));
    let mut dev = imp_empty_group();
    dev.servers.push(imp_server("A", items));
    doc.development_environment = Some(imp_env(dev));
    assert_eq!(do_import(&mut st, &doc), Ok(()));
    assert_eq!(st.server_websites().len(), 2);
    assert_eq!(st.server_websites()[0].desc, "site");
    assert_eq!(st.server_websites()[0].server_database_id, None);
    assert_eq!(st.server_websites()[1].desc, "plain");
    assert_eq!(st.server_websites()[1].server_database_id, None);
}

#[test]
fn ambiguous_database_reference_is_left_unset() {
    let mut st = Storage::new();
    let mut doc = imp_doc("Vault");
    let mut a_items = imp_no_items();
    a_items.server_websites.push(imp_website(
        "site",
        Some(imp_db_path("Vault", EnvironmentType::EnvDevelopment, "B", "maindb")),
    ));
    let mut b_items = imp_no_items();
    b_items.server_databases.push(imp_database("maindb"));
    b_items.server_databases.push(imp_database("maindb"));
    let mut dev = imp_empty_group();
    dev.servers.push(imp_server("A", a_items));
    dev.servers.push(imp_server("B", b_items));
    doc.development_environment = Some(imp_env(dev));
    assert_eq!(do_import(&mut st, &doc), Ok(()));
    assert_eq!(st.server_websites()[0].server_database_id, None);
}

#[test]
fn website_with_a_direct_database_id_keeps_it() {
    let mut st = Storage::new();
    let info = UnprocessedWebsite {
        server_id: 3,
        group_name: Some("web".to_string()),
        website: imp_website(
            "site",
            Some(ServerDatabasePath {
                project_name: "Vault".to_string(),
                environment: EnvironmentType::EnvUat,
                server_id: None,
                server_desc: Some("no such server".to_string()),
                database_id: Some(4711),
                database_desc: Some("no such database".to_string()),
            }),
        ),
    };
    assert_eq!(import_server_website(&mut st, &info), Ok(()));
    let site = &st.server_websites()[0];
    assert_eq!(site.id, 1);
    assert_eq!(site.server_database_id, Some(4711));
    assert_eq!(site.server_id, 3);
    assert_eq!(site.group_name, Some("web".to_string()));
    assert_eq!(site.desc, "site");
    assert_eq!(site.username, "web");
    assert_eq!(site.password, "webpw");
}

#[test]
fn server_link_to_an_earlier_server_resolves() {
    let mut st = Storage::new();
    let mut doc = imp_doc("Vault");
    let mut dev = imp_empty_group();
    dev.servers.push(imp_server("target", imp_no_items()));
    let mut stage = imp_empty_group();
    stage.server_links.push(ServerLinkImportExport {
        desc: "to dev".to_string(),
        server: ServerPath {
            server_id: None,
            project_name: "Vault".to_string(),
            environment: EnvironmentType::EnvDevelopment,
            server_desc: Some("target".to_string()),
        },
    });
    doc.development_environment = Some(imp_env(dev));
    doc.staging_environment = Some(imp_env(stage));
    assert_eq!(do_import(&mut st, &doc), Ok(()));
    assert_eq!(st.server_links().len(), 1);
    let link = &st.server_links()[0];
    assert_eq!(link.linked_server_id, st.servers()[0].id);
    assert_eq!(link.environment, EnvironmentType::EnvStage);
    assert_eq!(link.desc, "to dev");
    assert_eq!(link.project_id, 1);
}

#[test]
fn server_link_to_a_later_server_fails_and_leaves_a_partial_project() {
    let mut st = Storage::new();
    let mut doc = imp_doc("Vault");
    let mut dev = imp_empty_group();
    dev.project_notes.push(imp_note("kept", "c"));
    dev.server_links.push(ServerLinkImportExport {
        desc: "forward".to_string(),
        server: ServerPath {
            server_id: None,
            project_name: "Vault".to_string(),
            environment: EnvironmentType::EnvDevelopment,
            server_desc: Some("target".to_string()),
        },
    });
    dev.servers.push(imp_server("target", imp_no_items()));
    doc.development_environment = Some(imp_env(dev));
    assert_eq!(do_import(&mut st, &doc), Err(ImportError::LinkedServerNotFound));
    assert_eq!(st.projects().len(), 1);
    assert_eq!(st.project_notes().len(), 1);
    assert_eq!(st.server_links().len(), 0);
    assert_eq!(st.servers().len(), 0);
}

#[test]
fn server_link_with_a_direct_id_is_not_checked() {
    let mut st = Storage::new();
    let link = ServerLinkImportExport {
        desc: "elsewhere".to_string(),
        server: ServerPath {
            server_id: Some(31337),
            project_name: "Other".to_string(),
            environment: EnvironmentType::EnvProd,
            server_desc: None,
        },
    };
    assert_eq!(import_server_link(&mut st, 1, &None, EnvironmentType::EnvUat, &link), Ok(()));
    assert_eq!(st.server_links()[0].linked_server_id, 31337);
    assert_eq!(st.server_links()[0].environment, EnvironmentType::EnvUat);
}

#[test]
fn server_row_follows_its_place_in_the_document() {
    let mut st = Storage::new();
    let mut items = imp_no_items();
    items.server_databases.push(imp_database("db1"));
    items.server_notes.push(ServerNoteImportExport {
        title: "t".to_string(),
        contents: "c".to_string(),
    });
    items.server_pois.push(ServerPoiImportExport {
        desc: "p".to_string(),
        path: "/p".to_string(),
        text: "x".to_string(),
        interest_type: InterestType::PoiCommandToRun,
        run_on: RunOn::RunOnClient,
    });
    items.server_extra_users.push(ServerExtraUserImportExport {
        username: "u".to_string(),
        password: "pw".to_string(),
        desc: "d".to_string(),
        auth_key: Some(vec![9]),
        auth_key_filename: None,
    });
    items.server_websites.push(imp_website("w0", None));
    let mut grouped = imp_no_items();
    grouped.server_databases.push(imp_database("db2"));
    grouped.server_websites.push(imp_website("w1", None));
    let mut server = imp_server("srv", items);
    server.items_in_groups.push(("backend".to_string(), grouped));

    let pending = import_server(
        &mut st,
        8,
        EnvironmentType::EnvUat,
        &Some("cluster".to_string()),
        &server,
    ).ok().unwrap();

    assert_eq!(st.servers().len(), 1);
    let row = &st.servers()[0];
    let mut expected = imp_server_row("srv");
    expected.id = 1;
    expected.group_name = Some("cluster".to_string());
    expected.environment = EnvironmentType::EnvUat;
    expected.project_id = 8;
    assert_eq!(row, &expected);

    assert_eq!(st.server_databases().len(), 2);
    assert_eq!(st.server_databases()[0].desc, "db1");
    assert_eq!(st.server_databases()[0].name, "db1_name");
    assert_eq!(st.server_databases()[0].group_name, None);
    assert_eq!(st.server_databases()[0].server_id, 1);
    assert_eq!(st.server_databases()[1].desc, "db2");
    assert_eq!(st.server_databases()[1].group_name, Some("backend".to_string()));
    assert_eq!(st.server_notes().len(), 1);
    assert_eq!(st.server_notes()[0].server_id, 1);
    assert_eq!(st.server_pois().len(), 1);
    assert_eq!(st.server_pois()[0].run_on, RunOn::RunOnClient);
    assert_eq!(st.server_extra_users().len(), 1);
    assert_eq!(st.server_extra_users()[0].auth_key, Some(vec![9]));
    // websites wait for the second pass
    assert_eq!(st.server_websites().len(), 0);
    assert_eq!(pending.len(), 2);
    assert_eq!(pending[0].server_id, 1);
    assert_eq!(pending[0].group_name, None);
    assert_eq!(pending[0].website.desc, "w0");
    assert_eq!(pending[1].group_name, Some("backend".to_string()));
    assert_eq!(pending[1].website.desc, "w1");
}

#[test]
fn environments_are_imported_in_a_fixed_order() {
    let mut st = Storage::new();
    let mut doc = imp_doc("Vault");
    let mut prod = imp_empty_group();
    prod.servers.push(imp_server("in prod", imp_no_items()));
    let mut uat = imp_empty_group();
    uat.servers.push(imp_server("in uat", imp_no_items()));
    let mut stage = imp_empty_group();
    stage.servers.push(imp_server("in stage", imp_no_items()));
    let mut dev = imp_empty_group();
    dev.servers.push(imp_server("in dev", imp_no_items()));
    doc.prod_environment = Some(imp_env(prod));
    doc.uat_environment = Some(imp_env(uat));
    doc.staging_environment = Some(imp_env(stage));
    doc.development_environment = Some(imp_env(dev));
    assert_eq!(do_import(&mut st, &doc), Ok(()));
    let descs: Vec<&str> = st.servers().iter().map(|s| s.desc.as_str()).collect();
    assert_eq!(descs, vec!["in dev", "in stage", "in uat", "in prod"]);
    let envs: Vec<EnvironmentType> = st.servers().iter().map(|s| s.environment).collect();
    assert_eq!(
        envs,
        vec![
            EnvironmentType::EnvDevelopment,
            EnvironmentType::EnvStage,
            EnvironmentType::EnvUat,
            EnvironmentType::EnvProd
        ]
    );
    assert_eq!(st.projects()[0].has_dev, true);
    assert_eq!(st.projects()[0].has_stage, true);
    assert_eq!(st.projects()[0].has_uat, true);
    assert_eq!(st.projects()[0].has_prod, true);
}

#[test]
fn ungrouped_items_come_before_the_groups() {
    let mut st = Storage::new();
    let mut doc = imp_doc("Vault");
    let mut ungrouped = imp_empty_group();
    ungrouped.servers.push(imp_server("plain", imp_no_items()));
    let mut g1 = imp_empty_group();
    g1.servers.push(imp_server("in zeta", imp_no_items()));
    let mut g2 = imp_empty_group();
    g2.servers.push(imp_server("in alpha", imp_no_items()));
    doc.development_environment = Some(ProjectEnvImportExport {
        items: ungrouped,
        items_in_groups: vec![("zeta".to_string(), g1), ("alpha".to_string(), g2)],
    });
    assert_eq!(do_import(&mut st, &doc), Ok(()));
    let descs: Vec<&str> = st.servers().iter().map(|s| s.desc.as_str()).collect();
    assert_eq!(descs, vec!["plain", "in zeta", "in alpha"]);
    assert_eq!(st.servers()[0].group_name, None);
    assert_eq!(st.servers()[1].group_name, Some("zeta".to_string()));
    assert_eq!(st.servers()[2].group_name, Some("alpha".to_string()));
}

#[test]
fn import_into_storage_that_holds_other_projects() {
    let mut st = Storage::new();
    let mut first = imp_doc("One");
    let mut dev = imp_empty_group();
    let mut items = imp_no_items();
    items.server_databases.push(imp_database("shared db"));
    dev.servers.push(imp_server("hub", items));
    first.development_environment = Some(imp_env(dev));
    assert_eq!(do_import(&mut st, &first), Ok(()));

    // a website of a second project may refer to a database of the first
    let mut second = imp_doc("Two");
    let mut stage = imp_empty_group();
    let mut items = imp_no_items();
    items.server_websites.push(imp_website(
        "portal",
        Some(imp_db_path("One", EnvironmentType::EnvDevelopment, "hub", "shared db")),
    ));
    stage.servers.push(imp_server("front", items));
    second.staging_environment = Some(imp_env(stage));
    assert_eq!(do_import(&mut st, &second), Ok(()));
    assert_eq!(st.projects().len(), 2);
    assert_eq!(st.servers()[1].project_id, 2);
    assert_eq!(st.server_websites()[0].server_database_id, Some(1));
    assert_eq!(st.server_websites()[0].server_id, 2);
}
