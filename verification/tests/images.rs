use contain_rs::builder::{
    container, env_var, health_check, image, port, wait_for_healthcheck, wait_for_log, Component,
    DeclarationError,
};
use contain_rs::container::{Image, IntoContainer, WaitStrategy};
use contain_rs::error::ErrorType;
use contain_rs::images::postgres::Postgres;
use contain_rs::images::surrealdb::SurrealDB;

#[test]
fn postgres_default_container() {
    let c = Postgres::default().container();
    assert_eq!(c.image.name, "docker.io/library/postgres");
    assert_eq!(c.image.tag, "latest");
    assert_eq!(c.health_check.as_ref().unwrap().command, "pg_isready");
    assert_eq!(c.additional_wait_period, 2000);
    assert!(matches!(c.wait_strategy, Some(WaitStrategy::HealthCheck)));
    assert_eq!(c.env_vars.len(), 1);
    assert_eq!(c.env_vars[0].key, "POSTGRES_PASSWORD");
    assert_eq!(c.env_vars[0].value, "docker.io/library/postgres");
}

#[test]
fn postgres_settings_become_environment() {
    let c = Postgres::default().with_password("password").with_user("me").with_db("shop").into_container();
    let env: Vec<(String, String)> = c.env_vars.iter().map(|e| (e.key.clone(), e.value.clone())).collect();
    assert_eq!(
        env,
        vec![
            ("POSTGRES_PASSWORD".to_string(), "password".to_string()),
            ("POSTGRES_DB".to_string(), "shop".to_string()),
            ("POSTGRES_USER".to_string(), "me".to_string()),
        ]
    );
}

#[test]
fn surrealdb_container() {
    let mut db = SurrealDB::default();
    let db = db.user("root");
    let mut db = db;
    let db = db.password("secret");
    let mut db = db;
    let db = db.port(8080);
    let c = db.into_container();
    let reference = Image::from_str("docker.io/surrealdb/surrealdb:latest").unwrap();
    assert_eq!(c.image.name, reference.name);
    assert_eq!(c.image.tag, reference.tag);
    assert_eq!(c.command, vec!["start", "--user", "root", "--pass", "secret"]);
    assert_eq!(c.port_mappings[0].source.number, "8080");
    assert_eq!(c.port_mappings[0].target.number, "8000");
    assert!(matches!(c.wait_strategy, Some(WaitStrategy::LogMessage { ref pattern }) if pattern == ".*Started web server on.*"));
}

#[test]
fn surrealdb_without_credentials() {
    let c = SurrealDB::default().into_container();
    assert_eq!(c.command, vec!["start"]);
    assert_eq!(c.port_mappings[0].source.number, "0");
}

#[test]
fn declaration_with_one_image() {
    let declaration = container(vec![
        image("docker.io/library/nginx"),
        port(8081, 80),
        env_var("SOME_VAR", "1"),
        health_check("curl http://localhost || exit 1", None, None, None, None),
        wait_for_healthcheck(),
        wait_for_log("ready"),
    ]);
    let c = declaration.try_into_container().ok().unwrap();
    assert_eq!(c.image.name, "docker.io/library/nginx");
    assert_eq!(c.image.tag, "latest");
    assert!(c.name.starts_with("contain-rs-"));
}

#[test]
fn declaration_image_errors() {
    let none = container(vec![port(1, 2)]);
    assert!(matches!(none.get_image(), Err(DeclarationError::MissingImage)));
    let two = container(vec![image("a"), Component::Port(1, 2), image("b")]);
    assert!(matches!(two.get_image(), Err(DeclarationError::MultipleImages)));
}

#[test]
fn error_type_messages() {
    assert_eq!(ErrorType::Unrecoverable.message(), "Unrecoverable Error");
    assert_eq!(ErrorType::ContainerStateError.message(), "Container Is Not Running");
    assert_eq!(ErrorType::CommandError.message(), "Command Error");
    assert_eq!(ErrorType::LogError.message(), "Log Error");
    assert_eq!(ErrorType::WaitError.message(), "Wait Error");
    assert_eq!(ErrorType::PsError.message(), "Ps Error");
}
