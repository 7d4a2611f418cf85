use contain_rs::client::shared::{
    add_health_check_args, add_health_check_run_args, add_podman_health_check_args, build_exists_command,
    build_inspect_command, build_log_command, build_podman_run_command, build_ps_command, build_rm_command,
    build_run_command, build_stop_command,
};
use contain_rs::container::{Container, HealthCheck, Image, Port};

fn strings(v: &[&str]) -> Vec<String> {
    v.iter().map(|s| s.to_string()).collect()
}

fn web() -> Container {
    let mut c = Container::from_image_with_suffix(Image::from_name("docker.io/library/nginx"), "abcdefgh");
    c.name("web");
    c
}

#[test]
fn run_command_of_bare_container() {
    let mut args = Vec::new();
    build_run_command(&mut args, &web());
    assert_eq!(args, strings(&["run", "-d", "--name", "web", "docker.io/library/nginx:latest"]));
}

#[test]
fn run_command_of_full_container() {
    let mut c = web();
    c.env_var("USER", "admin")
        .env_var("PASSWORD", "x=y")
        .volume("data", "/var/lib/data")
        .mount("/home/me", "/mnt")
        .map_port(Port::from_number(8081), Port::from_number(80))
        .health_check(HealthCheck::new("curl http://localhost || exit 1").start_period(2500).interval(1000).timeout(30000).retries(3))
        .command(strings(&["nginx", "-g", "daemon off;"]));
    let mut args = strings(&["docker"]);
    build_run_command(&mut args, &c);
    assert_eq!(
        args,
        strings(&[
            "docker",
            "run",
            "-d",
            "--name",
            "web",
            "-e",
            "USER=admin",
            "-e",
            "PASSWORD=x=y",
            "-v",
            "data:/var/lib/data",
            "-v",
            "/home/me:/mnt",
            "-p8081:80",
            "--health-cmd",
            "curl http://localhost || exit 1",
            "--health-start-period=2s",
            "--health-interval=1s",
            "--health-timeout=30s",
            "--health-retries=3",
            "docker.io/library/nginx:latest",
            "nginx",
            "-g",
            "daemon off;",
        ])
    );
}

#[test]
fn health_check_args_skip_unset_settings() {
    let mut c = web();
    c.health_check(HealthCheck::new("pg_isready").retries(10));
    let mut args = Vec::new();
    add_health_check_args(&mut args, &c);
    assert_eq!(args, strings(&["--health-cmd", "pg_isready", "--health-retries=10"]));
    let mut none = Vec::new();
    add_health_check_args(&mut none, &web());
    assert!(none.is_empty());
}

#[test]
fn podman_health_check_args() {
    let mut c = web();
    c.health_check(HealthCheck::new("true").start_period(1000).interval(2000).timeout(3000).retries(4));
    let mut args = Vec::new();
    add_podman_health_check_args(&mut args, &c);
    assert_eq!(
        args,
        strings(&[
            "--healthcheck-command",
            "CMD-SHELL true",
            "--healthcheck-start-period",
            "1s",
            "--healthcheck-interval",
            "2s",
            "--healthcheck-start-period",
            "3s",
            "--healthcheck-retries",
            "4",
        ])
    );
}

#[test]
fn podman_run_command() {
    let mut c = web();
    c.env_var("A", "1").map_port(Port::from_text("8080"), Port::from_text("80")).arg("ignored");
    let mut args = Vec::new();
    build_podman_run_command(&mut args, &c);
    assert_eq!(
        args,
        strings(&["run", "-d", "--name", "web", "-e", "A=1", "-p8080:80", "docker.io/library/nginx:latest"])
    );
}

#[test]
fn short_commands() {
    let c = web();
    let mut a = Vec::new();
    build_log_command(&mut a, &c);
    assert_eq!(a, strings(&["logs", "-f", "web"]));
    let mut a = Vec::new();
    build_rm_command(&mut a, &c);
    assert_eq!(a, strings(&["rm", "-f", "web"]));
    let mut a = Vec::new();
    build_stop_command(&mut a, &c);
    assert_eq!(a, strings(&["stop", "web"]));
    let mut a = Vec::new();
    build_inspect_command(&mut a, &c);
    assert_eq!(a, strings(&["inspect", "web"]));
    let mut a = Vec::new();
    build_ps_command(&mut a);
    assert_eq!(a, strings(&["ps", "--format", "json"]));
    let mut a = Vec::new();
    build_exists_command(&mut a, &c);
    assert_eq!(a, strings(&["container", "exists", "web"]));
    let mut a = Vec::new();
    add_health_check_run_args(&mut a, &c);
    assert_eq!(a, strings(&["healthcheck", "run", "web"]));
}

#[test]
fn seconds_are_truncated() {
    let mut c = web();
    c.health_check(HealthCheck::new("x").interval(999).timeout(1999));
    let mut args = Vec::new();
    add_health_check_args(&mut args, &c);
    assert_eq!(args, strings(&["--health-cmd", "x", "--health-interval=0s", "--health-timeout=1s"]));
}
