use contain_rs::container::{Container, EnvVar, HealthCheck, Image, Port, Volume, WaitStrategy};
use contain_rs::error::ContainersError;

#[test]
fn health_check_builder_sets_each_setting() {
    let check = HealthCheck::new("curl http://localhost || exit 1")
        .retries(3)
        .interval(1500)
        .start_period(10000)
        .timeout(2000);
    assert_eq!(check.command, "curl http://localhost || exit 1");
    assert_eq!(check.retries, Some(3));
    assert_eq!(check.interval, Some(1500));
    assert_eq!(check.start_period, Some(10000));
    assert_eq!(check.timeout, Some(2000));
}

#[test]
fn health_check_new_leaves_settings_unset() {
    let check = HealthCheck::new("pg_isready");
    assert_eq!(check.retries, None);
    assert_eq!(check.interval, None);
    assert_eq!(check.start_period, None);
    assert_eq!(check.timeout, None);
}

#[test]
fn image_from_name_is_latest() {
    let image = Image::from_name("docker.io/library/nginx");
    assert_eq!(image.name, "docker.io/library/nginx");
    assert_eq!(image.tag, "latest");
    assert_eq!(image.to_string(), "docker.io/library/nginx:latest");
}

#[test]
fn image_from_str_reads_readme_examples() {
    let image = Image::from_str("docker.io/library/nginx");
    assert!(image.is_ok());
    let image = image.unwrap();
    assert_eq!(image.name, "docker.io/library/nginx");
    assert_eq!(image.tag, "latest");

    let latest = Image::from_str("docker.io/library/nginx:latest");
    assert!(latest.is_ok());
    let latest = latest.unwrap();
    assert_eq!(latest.name, "docker.io/library/nginx");
    assert_eq!(latest.tag, "latest");
}

#[test]
fn image_from_str_reads_tag() {
    let image = Image::from_str("docker.io/surrealdb/surrealdb:1.0.2").unwrap();
    assert_eq!(image.name, "docker.io/surrealdb/surrealdb");
    assert_eq!(image.tag, "1.0.2");
}

#[test]
fn image_from_str_takes_first_run_of_name_characters() {
    let image = Image::from_str("  nginx:alpine extra").unwrap();
    assert_eq!(image.name, "nginx");
    assert_eq!(image.tag, "alpine");
    // a colon not followed by a tag character leaves the default tag
    let image = Image::from_str("nginx:-x").unwrap();
    assert_eq!(image.name, "nginx");
    assert_eq!(image.tag, "latest");
}

#[test]
fn image_from_str_refuses_text_without_name() {
    match Image::from_str("::: !!") {
        Err(ContainersError::InvalidImageName { name }) => assert_eq!(name, "::: !!"),
        _ => panic!("expected an invalid image name"),
    }
}

#[test]
fn image_reference_round_trip() {
    let image = Image::from_name_and_tag("docker.io/library/postgres", "16.1");
    let read = Image::from_str(&image.to_string()).unwrap();
    assert_eq!(read.name, image.name);
    assert_eq!(read.tag, image.tag);
}

#[test]
fn container_from_image_generates_name() {
    let container = Container::from_image(Image::from_name("docker.io/library/nginx"));
    assert_eq!(container.name.len(), 19);
    assert!(container.name.starts_with("contain-rs-"));
    assert!(container.name[11..].chars().all(|c| c.is_ascii_alphanumeric()));
    assert!(container.command.is_empty());
    assert!(container.port_mappings.is_empty());
    assert!(container.env_vars.is_empty());
    assert!(container.volumes.is_empty());
    assert!(container.health_check.is_none());
    assert!(container.wait_strategy.is_none());
    assert_eq!(container.additional_wait_period, 0);
}

#[test]
fn container_with_suffix_is_named_after_it() {
    let container = Container::from_image_with_suffix(Image::from_name("nginx"), "abc");
    assert_eq!(container.name, "contain-rs-abc");
}

#[test]
fn container_builder_chains() {
    let mut container = Container::from_image(Image::from_name("docker.io/library/nginx"));
    container
        .name("web")
        .map_port(Port::from_number(8081), Port::from_number(80))
        .env_var("SOME_VAR", "1")
        .volume("data", "/data")
        .mount("/tmp/host", "/mnt")
        .arg("nginx")
        .arg("-g")
        .health_check(HealthCheck::new("curl http://localhost || exit 1"))
        .wait_for(WaitStrategy::HealthCheck)
        .additional_wait_period(2000);
    assert_eq!(container.name, "web");
    assert_eq!(container.port_mappings.len(), 1);
    assert_eq!(container.port_mappings[0].source.number, "8081");
    assert_eq!(container.port_mappings[0].target.number, "80");
    assert_eq!(container.env_vars[0].key, "SOME_VAR");
    assert_eq!(container.env_vars[0].value, "1");
    assert!(matches!(&container.volumes[0], Volume::Named { name, mount_point } if name == "data" && mount_point == "/data"));
    assert!(matches!(&container.volumes[1], Volume::Mount { host_path, mount_point } if host_path == "/tmp/host" && mount_point == "/mnt"));
    assert_eq!(container.command, vec!["nginx".to_string(), "-g".to_string()]);
    assert!(matches!(container.wait_strategy, Some(WaitStrategy::HealthCheck)));
    assert_eq!(container.additional_wait_period, 2000);
}

#[test]
fn container_map_ports_replaces_mappings() {
    let mut container = Container::from_image(Image::from_name("nginx"));
    container.map_port(Port::from_number(1), Port::from_number(2));
    container.map_ports(&[
        (Port::from_number(8080), Port::from_number(80)),
        (Port::from_text("8443"), Port::from_text("443")),
    ]);
    assert_eq!(container.port_mappings.len(), 2);
    assert_eq!(container.port_mappings[0].source.number, "8080");
    assert_eq!(container.port_mappings[1].target.number, "443");
}

#[test]
fn container_command_replaces_command() {
    let mut container = Container::from_image(Image::from_name("nginx"));
    container.arg("old");
    container.command(vec!["start".to_string()]);
    assert_eq!(container.command, vec!["start".to_string()]);
}

#[test]
fn port_from_number_renders_decimal() {
    assert_eq!(Port::from_number(0).number, "0");
    assert_eq!(Port::from_number(8000).number, "8000");
    assert_eq!(Port::from_number(4294967295).number, "4294967295");
}

#[test]
fn container_clone_keeps_everything() {
    let mut container = Container::from_image(Image::from_name("nginx"));
    container.env_var("A", "b").wait_for(WaitStrategy::LogMessage { pattern: "ready".to_string() });
    let copy = container.clone();
    assert_eq!(copy.name, container.name);
    assert_eq!(copy.env_vars[0].key, "A");
    assert!(matches!(copy.wait_strategy, Some(WaitStrategy::LogMessage { ref pattern }) if pattern == "ready"));
}

#[test]
fn env_var_from_key_value_pair() {
    let env = EnvVar::from(("POSTGRES_DB".to_string(), "app".to_string()));
    assert_eq!(env.key, "POSTGRES_DB");
    assert_eq!(env.value, "app");
}

#[test]
fn port_from_text() {
    let port: Port = String::from("8080").into();
    assert_eq!(port.number, "8080");
}
