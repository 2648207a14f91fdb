use projectpad::document::{ServerDatabasePath, ServerPath};
use projectpad::resolve::{get_linked_server_id, get_new_databaseid, ResolveError};
use projectpad::rows::{Project, Server, ServerDatabase};
use projectpad::storage::Storage;
use projectpad::types::{EnvironmentType, ServerAccessType, ServerType};

fn res_project(name: &str) -> Project {
    Project {
        id: 0,
        name: name.to_string(),
        icon: None,
        has_dev: true,
        has_uat: false,
        has_stage: false,
        has_prod: true,
    }
}

fn res_server(desc: &str, env: EnvironmentType, project_id: i32) -> Server {
    Server {
        id: 0,
        desc: desc.to_string(),
        is_retired: false,
        ip: "10.0.0.1".to_string(),
        text: String::new(),
        group_name: None,
        username: "root".to_string(),
        password: "secret".to_string(),
        auth_key: None,
        auth_key_filename: None,
        server_type: ServerType::SrvApplication,
        access_type: ServerAccessType::SrvAccessSsh,
        environment: env,
        project_id,
    }
}

fn res_database(desc: &str, server_id: i32) -> ServerDatabase {
    ServerDatabase {
        id: 0,
        desc: desc.to_string(),
        name: "name".to_string(),
        group_name: None,
        text: String::new(),
        username: "u".to_string(),
        password: "p".to_string(),
        server_id,
    }
}

fn res_described(project_name: &str, env: EnvironmentType, desc: &str) -> ServerPath {
    ServerPath {
        server_id: None,
        project_name: project_name.to_string(),
        environment: env,
        server_desc: Some(desc.to_string()),
    }
}

fn res_db_described(project: &str, env: EnvironmentType, server: &str, db: &str) -> ServerDatabasePath {
    ServerDatabasePath {
        project_name: project.to_string(),
        environment: env,
        server_id: None,
        server_desc: Some(server.to_string()),
        database_id: None,
        database_desc: Some(db.to_string()),
    }
}

#[test]
fn described_server_resolves_to_its_id() {
    let mut st = Storage::new();
    let p = st.insert_project(res_project("Vault")).unwrap();
    let _a = st.insert_server(res_server("web", EnvironmentType::EnvDevelopment, p)).unwrap();
    let b = st.insert_server(res_server("db", EnvironmentType::EnvProd, p)).unwrap();
    assert_eq!(
        get_linked_server_id(&st, &res_described("Vault", EnvironmentType::EnvProd, "db")),
        Ok(b)
    );
}

#[test]
fn direct_id_wins_over_description() {
    let mut st = Storage::new();
    let p = st.insert_project(res_project("Vault")).unwrap();
    let a = st.insert_server(res_server("web", EnvironmentType::EnvDevelopment, p)).unwrap();
    let b = st.insert_server(res_server("db", EnvironmentType::EnvDevelopment, p)).unwrap();
    // the description designates `a`, the id says `b`
    let mut path = res_described("Vault", EnvironmentType::EnvDevelopment, "web");
    path.server_id = Some(b);
    assert_ne!(a, b);
    assert_eq!(get_linked_server_id(&st, &path), Ok(b));
    // an id that no row has is returned as it is
    path.server_id = Some(a + 41);
    assert_eq!(get_linked_server_id(&st, &path), Ok(a + 41));
}

#[test]
fn ambiguous_description_fails() {
    let mut st = Storage::new();
    let p = st.insert_project(res_project("Vault")).unwrap();
    st.insert_server(res_server("web", EnvironmentType::EnvDevelopment, p)).unwrap();
    st.insert_server(res_server("web", EnvironmentType::EnvDevelopment, p)).unwrap();
    assert_eq!(
        get_linked_server_id(&st, &res_described("Vault", EnvironmentType::EnvDevelopment, "web")),
        Err(ResolveError::ServerNotFound)
    );
}

#[test]
fn same_description_in_another_environment_or_project_is_no_ambiguity() {
    let mut st = Storage::new();
    let p = st.insert_project(res_project("Vault")).unwrap();
    let q = st.insert_project(res_project("Other")).unwrap();
    let a = st.insert_server(res_server("web", EnvironmentType::EnvDevelopment, p)).unwrap();
    let b = st.insert_server(res_server("web", EnvironmentType::EnvProd, p)).unwrap();
    let c = st.insert_server(res_server("web", EnvironmentType::EnvDevelopment, q)).unwrap();
    assert_eq!(
        get_linked_server_id(&st, &res_described("Vault", EnvironmentType::EnvDevelopment, "web")),
        Ok(a)
    );
    assert_eq!(
        get_linked_server_id(&st, &res_described("Vault", EnvironmentType::EnvProd, "web")),
        Ok(b)
    );
    assert_eq!(
        get_linked_server_id(&st, &res_described("Other", EnvironmentType::EnvDevelopment, "web")),
        Ok(c)
    );
}

#[test]
fn unknown_description_fails() {
    let mut st = Storage::new();
    let p = st.insert_project(res_project("Vault")).unwrap();
    st.insert_server(res_server("web", EnvironmentType::EnvDevelopment, p)).unwrap();
    for path in [
        res_described("Vault", EnvironmentType::EnvDevelopment, "Web"),
        res_described("Vault", EnvironmentType::EnvStage, "web"),
        res_described("vault", EnvironmentType::EnvDevelopment, "web"),
        res_described("Vault", EnvironmentType::EnvDevelopment, ""),
    ] {
        assert_eq!(get_linked_server_id(&st, &path), Err(ResolveError::ServerNotFound));
    }
}

#[test]
fn path_without_id_and_description_fails() {
    let st = Storage::new();
    let path = ServerPath {
        server_id: None,
        project_name: "Vault".to_string(),
        environment: EnvironmentType::EnvDevelopment,
        server_desc: None,
    };
    assert_eq!(get_linked_server_id(&st, &path), Err(ResolveError::ServerNotFound));
}

#[test]
fn server_of_a_project_that_is_gone_does_not_answer() {
    let mut st = Storage::new();
    st.insert_server(res_server("web", EnvironmentType::EnvDevelopment, 12)).unwrap();
    assert_eq!(
        get_linked_server_id(&st, &res_described("Vault", EnvironmentType::EnvDevelopment, "web")),
        Err(ResolveError::ServerNotFound)
    );
}

#[test]
fn described_database_resolves_under_its_server() {
    let mut st = Storage::new();
    let p = st.insert_project(res_project("Vault")).unwrap();
    let a = st.insert_server(res_server("A", EnvironmentType::EnvDevelopment, p)).unwrap();
    let b = st.insert_server(res_server("B", EnvironmentType::EnvDevelopment, p)).unwrap();
    let on_a = st.insert_server_database(res_database("main", a)).unwrap();
    let on_b = st.insert_server_database(res_database("main", b)).unwrap();
    assert_eq!(
        get_new_databaseid(&st, &res_db_described("Vault", EnvironmentType::EnvDevelopment, "A", "main")),
        Ok(on_a)
    );
    assert_eq!(
        get_new_databaseid(&st, &res_db_described("Vault", EnvironmentType::EnvDevelopment, "B", "main")),
        Ok(on_b)
    );
}

#[test]
fn database_errors_say_which_step_failed() {
    let mut st = Storage::new();
    let p = st.insert_project(res_project("Vault")).unwrap();
    let a = st.insert_server(res_server("A", EnvironmentType::EnvDevelopment, p)).unwrap();
    st.insert_server_database(res_database("twice", a)).unwrap();
    st.insert_server_database(res_database("twice", a)).unwrap();
    assert_eq!(
        get_new_databaseid(&st, &res_db_described("Vault", EnvironmentType::EnvDevelopment, "Z", "main")),
        Err(ResolveError::ServerNotFound)
    );
    assert_eq!(
        get_new_databaseid(&st, &res_db_described("Vault", EnvironmentType::EnvDevelopment, "A", "main")),
        Err(ResolveError::DatabaseNotFound)
    );
    assert_eq!(
        get_new_databaseid(&st, &res_db_described("Vault", EnvironmentType::EnvDevelopment, "A", "twice")),
        Err(ResolveError::DatabaseNotFound)
    );
    let mut no_desc = res_db_described("Vault", EnvironmentType::EnvDevelopment, "A", "x");
    no_desc.database_desc = None;
    assert_eq!(get_new_databaseid(&st, &no_desc), Err(ResolveError::DatabaseNotFound));
}

#[test]
fn direct_database_id_wins() {
    let mut st = Storage::new();
    let p = st.insert_project(res_project("Vault")).unwrap();
    let a = st.insert_server(res_server("A", EnvironmentType::EnvDevelopment, p)).unwrap();
    let main = st.insert_server_database(res_database("main", a)).unwrap();
    let mut path = res_db_described("Vault", EnvironmentType::EnvDevelopment, "A", "main");
    path.database_id = Some(main + 100);
    assert_eq!(get_new_databaseid(&st, &path), Ok(main + 100));
}

#[test]
fn direct_server_id_in_a_database_path_is_not_looked_up() {
    let mut st = Storage::new();
    let p = st.insert_project(res_project("Vault")).unwrap();
    let a = st.insert_server(res_server("A", EnvironmentType::EnvDevelopment, p)).unwrap();
    let b = st.insert_server(res_server("B", EnvironmentType::EnvDevelopment, p)).unwrap();
    let _on_a = st.insert_server_database(res_database("main", a)).unwrap();
    let on_b = st.insert_server_database(res_database("main", b)).unwrap();
    let mut path = res_db_described("Vault", EnvironmentType::EnvDevelopment, "A", "main");
    path.server_id = Some(b);
    assert_eq!(get_new_databaseid(&st, &path), Ok(on_b));
}
