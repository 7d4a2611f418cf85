//! The command lines the container engines receive.
//!
//! Each builder appends arguments to a list that follows the engine's
//! program name (`docker` or `podman`).

use vstd::prelude::*;
use crate::container::{
    Container, ContainerView, EnvVarView, HealthCheckView, PortMappingView, VolumeView,
};
use crate::text::{decimal, push_char, push_decimal};

verus! {

// ------------------------------------------------------------------ specs

/// The argument `-e key=value` of one environment variable.
pub open spec fn env_var_arg(e: EnvVarView) -> Seq<Seq<char>> {
    seq!["-e"@, e.key + "="@ + e.value]
}

pub open spec fn env_arg_fn() -> spec_fn(EnvVarView) -> Seq<Seq<char>> {
    |e: EnvVarView| env_var_arg(e)
}

/// The arguments of a list of environment variables.
pub open spec fn env_args(envs: Seq<EnvVarView>) -> Seq<Seq<char>> {
    envs.flat_map(env_arg_fn())
}

/// The argument `-v source:mount_point` of one volume.
pub open spec fn volume_arg(v: VolumeView) -> Seq<Seq<char>> {
    match v {
        VolumeView::Mount { host_path, mount_point } => seq!["-v"@, host_path + ":"@ + mount_point],
        VolumeView::Named { name, mount_point } => seq!["-v"@, name + ":"@ + mount_point],
    }
}

/// The argument `-psource:target` of one port mapping.
pub open spec fn port_arg(p: PortMappingView) -> Seq<Seq<char>> {
    seq!["-p"@ + p.source + ":"@ + p.target]
}

pub open spec fn volume_arg_fn() -> spec_fn(VolumeView) -> Seq<Seq<char>> {
    |v: VolumeView| volume_arg(v)
}

/// The arguments of a list of volumes.
pub open spec fn volume_args(vs: Seq<VolumeView>) -> Seq<Seq<char>> {
    vs.flat_map(volume_arg_fn())
}

pub open spec fn port_arg_fn() -> spec_fn(PortMappingView) -> Seq<Seq<char>> {
    |p: PortMappingView| port_arg(p)
}

/// The arguments of a list of port mappings.
pub open spec fn port_args(ps: Seq<PortMappingView>) -> Seq<Seq<char>> {
    ps.flat_map(port_arg_fn())
}

/// A duration in whole seconds followed by `s`.
pub open spec fn seconds_text(millis: u64) -> Seq<char> {
    decimal((millis / 1000) as nat) + "s"@
}

/// One optional setting of a health check, written `flag` immediately
/// followed by the value.
pub open spec fn joined_setting(flag: Seq<char>, value: Option<Seq<char>>) -> Seq<Seq<char>> {
    match value {
        Some(v) => seq![flag + v],
        None => Seq::empty(),
    }
}

/// One optional setting of a health check, written as the flag and the
/// value as two arguments.
pub open spec fn split_setting(flag: Seq<char>, value: Option<Seq<char>>) -> Seq<Seq<char>> {
    match value {
        Some(v) => seq![flag, v],
        None => Seq::empty(),
    }
}

pub open spec fn seconds_of(millis: Option<u64>) -> Option<Seq<char>> {
    match millis {
        Some(m) => Some(seconds_text(m)),
        None => None,
    }
}

pub open spec fn count_of(n: Option<u32>) -> Option<Seq<char>> {
    match n {
        Some(n) => Some(decimal(n as nat)),
        None => None,
    }
}

/// The health check arguments as docker (and podman in its docker
/// compatible syntax) reads them.
pub open spec fn health_check_args(h: Option<HealthCheckView>) -> Seq<Seq<char>> {
    match h {
        None => Seq::empty(),
        Some(h) => seq!["--health-cmd"@, h.command]
            + joined_setting("--health-start-period="@, seconds_of(h.start_period))
            + joined_setting("--health-interval="@, seconds_of(h.interval))
            + joined_setting("--health-timeout="@, seconds_of(h.timeout))
            + joined_setting("--health-retries="@, count_of(h.retries)),
    }
}

/// The health check arguments in podman's own syntax. The timeout is
/// passed under the start period's flag.
pub open spec fn podman_health_check_args(h: Option<HealthCheckView>) -> Seq<Seq<char>> {
    match h {
        None => Seq::empty(),
        Some(h) => seq!["--healthcheck-command"@, "CMD-SHELL "@ + h.command]
            + split_setting("--healthcheck-start-period"@, seconds_of(h.start_period))
            + split_setting("--healthcheck-interval"@, seconds_of(h.interval))
            + split_setting("--healthcheck-start-period"@, seconds_of(h.timeout))
            + split_setting("--healthcheck-retries"@, count_of(h.retries)),
    }
}

/// All arguments of `run` for a container: detached, named, with its
/// environment, volumes, ports and health check, then the image and the
/// command.
pub open spec fn run_args(c: ContainerView) -> Seq<Seq<char>> {
    seq!["run"@, "-d"@, "--name"@, c.name]
        + env_args(c.env_vars)
        + volume_args(c.volumes)
        + port_args(c.port_mappings)
        + health_check_args(c.health_check)
        + seq![c.image.reference()]
        + c.command
}

/// The arguments of `run` in podman's own health check syntax
/// (`--healthcheck-*` flags), with neither volumes nor a command.
pub open spec fn podman_run_args(c: ContainerView) -> Seq<Seq<char>> {
    seq!["run"@, "-d"@, "--name"@, c.name]
        + env_args(c.env_vars)
        + port_args(c.port_mappings)
        + podman_health_check_args(c.health_check)
        + seq![c.image.reference()]
}

// ------------------------------------------------------------------ helpers

fn push_arg(args: &mut Vec<String>, arg: String)
    ensures
        final(args).deep_view() == old(args).deep_view().push(arg@),
{
    args.push(arg);
    assert(args.deep_view() =~= old(args).deep_view().push(arg@));
}

fn push_lit(args: &mut Vec<String>, arg: &str)
    ensures
        final(args).deep_view() == old(args).deep_view().push(arg@),
{
    push_arg(args, String::from_str(arg));
}

fn seconds_string(millis: u64) -> (r: String)
    ensures
        r@ == seconds_text(millis),
{
    let mut s = String::new();
    push_decimal(&mut s, millis / 1000);
    let s = s.concat("s");
    s
}

fn count_string(n: u32) -> (r: String)
    ensures
        r@ == decimal(n as nat),
{
    let mut s = String::new();
    push_decimal(&mut s, n as u64);
    s
}

// ------------------------------------------------------------------ builders

/// `logs -f name`: follow the log of the container.
pub fn build_log_command(args: &mut Vec<String>, container: &Container)
    ensures
        final(args).deep_view() == old(args).deep_view() + seq!["logs"@, "-f"@, container@.name],
{
    push_lit(args, "logs");
    push_lit(args, "-f");
    push_arg(args, container.name.clone());
    assert(args.deep_view() =~= old(args).deep_view() + seq!["logs"@, "-f"@, container@.name]);
}

/// `rm -f name`: remove the container, stopping it if it runs.
pub fn build_rm_command(args: &mut Vec<String>, container: &Container)
    ensures
        final(args).deep_view() == old(args).deep_view() + seq!["rm"@, "-f"@, container@.name],
{
    push_lit(args, "rm");
    push_lit(args, "-f");
    push_arg(args, container.name.clone());
    assert(args.deep_view() =~= old(args).deep_view() + seq!["rm"@, "-f"@, container@.name]);
}

/// `ps --format json`: list the containers.
pub fn build_ps_command(args: &mut Vec<String>)
    ensures
        final(args).deep_view() == old(args).deep_view() + seq!["ps"@, "--format"@, "json"@],
{
    push_lit(args, "ps");
    push_lit(args, "--format");
    push_lit(args, "json");
    assert(args.deep_view() =~= old(args).deep_view() + seq!["ps"@, "--format"@, "json"@]);
}

/// `stop name`.
pub fn build_stop_command(args: &mut Vec<String>, container: &Container)
    ensures
        final(args).deep_view() == old(args).deep_view() + seq!["stop"@, container@.name],
{
    push_lit(args, "stop");
    push_arg(args, container.name.clone());
    assert(args.deep_view() =~= old(args).deep_view() + seq!["stop"@, container@.name]);
}

/// `inspect name`.
pub fn build_inspect_command(args: &mut Vec<String>, container: &Container)
    ensures
        final(args).deep_view() == old(args).deep_view() + seq!["inspect"@, container@.name],
{
    push_lit(args, "inspect");
    push_arg(args, container.name.clone());
    assert(args.deep_view() =~= old(args).deep_view() + seq!["inspect"@, container@.name]);
}

/// `container exists name`: podman's existence check.
pub fn build_exists_command(args: &mut Vec<String>, container: &Container)
    ensures
        final(args).deep_view() == old(args).deep_view() + seq!["container"@, "exists"@, container@.name],
{
    push_lit(args, "container");
    push_lit(args, "exists");
    push_arg(args, container.name.clone());
    assert(args.deep_view() =~= old(args).deep_view() + seq!["container"@, "exists"@, container@.name]);
}

/// `healthcheck run name`: podman runs the health check once.
pub fn add_health_check_run_args(args: &mut Vec<String>, container: &Container)
    ensures
        final(args).deep_view() == old(args).deep_view() + seq!["healthcheck"@, "run"@, container@.name],
{
    push_lit(args, "healthcheck");
    push_lit(args, "run");
    push_arg(args, container.name.clone());
    assert(args.deep_view() =~= old(args).deep_view() + seq!["healthcheck"@, "run"@, container@.name]);
}

fn add_run_args(args: &mut Vec<String>)
    ensures
        final(args).deep_view() == old(args).deep_view() + seq!["run"@, "-d"@],
{
    push_lit(args, "run");
    push_lit(args, "-d");
    assert(args.deep_view() =~= old(args).deep_view() + seq!["run"@, "-d"@]);
}

fn add_name_arg(args: &mut Vec<String>, container: &Container)
    ensures
        final(args).deep_view() == old(args).deep_view() + seq!["--name"@, container@.name],
{
    push_lit(args, "--name");
    push_arg(args, container.name.clone());
    assert(args.deep_view() =~= old(args).deep_view() + seq!["--name"@, container@.name]);
}

fn add_env_var_args(args: &mut Vec<String>, container: &Container)
    ensures
        final(args).deep_view() == old(args).deep_view() + env_args(container@.env_vars),
{
    let ghost f = env_arg_fn();
    let ghost envs = container@.env_vars;
    let mut i: usize = 0;
    while i < container.env_vars.len()
        invariant
            i <= container.env_vars.len(),
            envs == container@.env_vars,
            f == env_arg_fn(),
            args.deep_view() == old(args).deep_view() + envs.take(i as int).flat_map(f),
        decreases container.env_vars.len() - i,
    {
        let env_var = &container.env_vars[i];
        let ghost before = args.deep_view();
        push_lit(args, "-e");
        let mut kv = env_var.key.clone();
        push_char(&mut kv, '=');
        let kv = kv.concat(env_var.value.as_str());
        proof {
            assert("="@ =~= seq!['=']) by { reveal_strlit("="); }
        }
        push_arg(args, kv);
        proof {
            envs.lemma_flat_map_take_append(f, i as int);
            assert(envs[i as int] == env_var@);
            assert(kv@ == env_var@.key + "="@ + env_var@.value);
            assert(f(envs[i as int]) == seq!["-e"@, kv@]);
            assert(args.deep_view() =~= before + seq!["-e"@, kv@]);
        }
        i = i + 1;
        assert(args.deep_view() =~= old(args).deep_view() + envs.take(i as int).flat_map(f));
    }
    assert(envs.take(i as int) =~= envs);
}

fn volume_source_arg(source: &String, mount_point: &String) -> (r: String)
    ensures
        r@ == source@ + ":"@ + mount_point@,
{
    let mut s = source.clone();
    push_char(&mut s, ':');
    proof {
        assert(":"@ =~= seq![':']) by { reveal_strlit(":"); }
    }
    s.concat(mount_point.as_str())
}

fn add_volume_args(args: &mut Vec<String>, container: &Container)
    ensures
        final(args).deep_view() == old(args).deep_view() + volume_args(container@.volumes),
{
    let ghost f = volume_arg_fn();
    let ghost vols = container@.volumes;
    let mut i: usize = 0;
    while i < container.volumes.len()
        invariant
            i <= container.volumes.len(),
            vols == container@.volumes,
            f == volume_arg_fn(),
            args.deep_view() == old(args).deep_view() + vols.take(i as int).flat_map(f),
        decreases container.volumes.len() - i,
    {
        let ghost before = args.deep_view();
        let arg = match &container.volumes[i] {
            crate::container::Volume::Mount { host_path, mount_point } => volume_source_arg(host_path, mount_point),
            crate::container::Volume::Named { name, mount_point } => volume_source_arg(name, mount_point),
        };
        push_lit(args, "-v");
        push_arg(args, arg);
        proof {
            vols.lemma_flat_map_take_append(f, i as int);
            assert(vols[i as int] == container.volumes[i as int]@);
            assert(f(vols[i as int]) == seq!["-v"@, arg@]);
            assert(args.deep_view() =~= before + seq!["-v"@, arg@]);
        }
        i = i + 1;
        assert(args.deep_view() =~= old(args).deep_view() + vols.take(i as int).flat_map(f));
    }
    assert(vols.take(i as int) =~= vols);
}

fn add_export_ports_args(args: &mut Vec<String>, container: &Container)
    ensures
        final(args).deep_view() == old(args).deep_view() + port_args(container@.port_mappings),
{
    let ghost f = port_arg_fn();
    let ghost ports = container@.port_mappings;
    let mut i: usize = 0;
    while i < container.port_mappings.len()
        invariant
            i <= container.port_mappings.len(),
            ports == container@.port_mappings,
            f == port_arg_fn(),
            args.deep_view() == old(args).deep_view() + ports.take(i as int).flat_map(f),
        decreases container.port_mappings.len() - i,
    {
        let ghost before = args.deep_view();
        let mapping = &container.port_mappings[i];
        let mut arg = String::from_str("-p").concat(mapping.source.number.as_str());
        push_char(&mut arg, ':');
        let arg = arg.concat(mapping.target.number.as_str());
        proof {
            assert(":"@ =~= seq![':']) by { reveal_strlit(":"); }
        }
        push_arg(args, arg);
        proof {
            ports.lemma_flat_map_take_append(f, i as int);
            assert(ports[i as int] == mapping@);
            assert(arg@ =~= "-p"@ + mapping@.source + ":"@ + mapping@.target);
            assert(f(ports[i as int]) =~= seq![arg@]);
            assert(args.deep_view() =~= before + seq![arg@]);
        }
        i = i + 1;
        assert(args.deep_view() =~= old(args).deep_view() + ports.take(i as int).flat_map(f));
    }
    assert(ports.take(i as int) =~= ports);
}

fn push_joined(args: &mut Vec<String>, flag: &str, value: Option<String>)
    ensures
        final(args).deep_view() == old(args).deep_view() + joined_setting(
            flag@,
            match value { Some(v) => Some(v@), None => None },
        ),
{
    match value {
        Some(v) => {
            let a = String::from_str(flag).concat(v.as_str());
            push_arg(args, a);
            assert(args.deep_view() =~= old(args).deep_view() + seq![flag@ + v@]);
        },
        None => {
            assert(args.deep_view() =~= old(args).deep_view() + Seq::<Seq<char>>::empty());
        },
    }
}

fn push_split(args: &mut Vec<String>, flag: &str, value: Option<String>)
    ensures
        final(args).deep_view() == old(args).deep_view() + split_setting(
            flag@,
            match value { Some(v) => Some(v@), None => None },
        ),
{
    match value {
        Some(v) => {
            push_lit(args, flag);
            push_arg(args, v);
            assert(args.deep_view() =~= old(args).deep_view() + seq![flag@, v@]);
        },
        None => {
            assert(args.deep_view() =~= old(args).deep_view() + Seq::<Seq<char>>::empty());
        },
    }
}

fn seconds_option(millis: Option<u64>) -> (r: Option<String>)
    ensures
        (match r { Some(v) => Some(v@), None => None }) == seconds_of(millis),
{
    match millis {
        Some(m) => Some(seconds_string(m)),
        None => None,
    }
}

fn count_option(n: Option<u32>) -> (r: Option<String>)
    ensures
        (match r { Some(v) => Some(v@), None => None }) == count_of(n),
{
    match n {
        Some(n) => Some(count_string(n)),
        None => None,
    }
}

/// Appends the health check of the container in docker's syntax.
pub fn add_health_check_args(args: &mut Vec<String>, container: &Container)
    ensures
        final(args).deep_view() == old(args).deep_view() + health_check_args(container@.health_check),
{
    match &container.health_check {
        None => {
            assert(args.deep_view() =~= old(args).deep_view() + Seq::<Seq<char>>::empty());
        },
        Some(check) => {
            let ghost a0 = args.deep_view();
            push_lit(args, "--health-cmd");
            push_arg(args, check.command.clone());
            let ghost a1 = args.deep_view();
            push_joined(args, "--health-start-period=", seconds_option(check.start_period));
            let ghost a2 = args.deep_view();
            push_joined(args, "--health-interval=", seconds_option(check.interval));
            let ghost a3 = args.deep_view();
            push_joined(args, "--health-timeout=", seconds_option(check.timeout));
            let ghost a4 = args.deep_view();
            push_joined(args, "--health-retries=", count_option(check.retries));
            proof {
                let h = check@;
                assert(a1 =~= a0 + seq!["--health-cmd"@, h.command]);
                assert(args.deep_view() =~= a0 + health_check_args(Some(h)));
            }
        },
    }
}

/// Appends the health check of the container in podman's own syntax.
pub fn add_podman_health_check_args(args: &mut Vec<String>, container: &Container)
    ensures
        final(args).deep_view() == old(args).deep_view() + podman_health_check_args(container@.health_check),
{
    match &container.health_check {
        None => {
            assert(args.deep_view() =~= old(args).deep_view() + Seq::<Seq<char>>::empty());
        },
        Some(check) => {
            let ghost a0 = args.deep_view();
            push_lit(args, "--healthcheck-command");
            push_arg(args, String::from_str("CMD-SHELL ").concat(check.command.as_str()));
            let ghost a1 = args.deep_view();
            push_split(args, "--healthcheck-start-period", seconds_option(check.start_period));
            push_split(args, "--healthcheck-interval", seconds_option(check.interval));
            push_split(args, "--healthcheck-start-period", seconds_option(check.timeout));
            push_split(args, "--healthcheck-retries", count_option(check.retries));
            proof {
                let h = check@;
                assert(a1 =~= a0 + seq!["--healthcheck-command"@, "CMD-SHELL "@ + h.command]);
                assert(args.deep_view() =~= a0 + podman_health_check_args(Some(h)));
            }
        },
    }
}

fn add_image_arg(args: &mut Vec<String>, container: &Container)
    ensures
        final(args).deep_view() == old(args).deep_view().push(container@.image.reference()),
{
    push_arg(args, container.image.to_string());
}

fn add_command_arg(args: &mut Vec<String>, container: &Container)
    ensures
        final(args).deep_view() == old(args).deep_view() + container@.command,
{
    let mut i: usize = 0;
    while i < container.command.len()
        invariant
            i <= container.command.len(),
            args.deep_view() == old(args).deep_view() + container@.command.take(i as int),
        decreases container.command.len() - i,
    {
        push_arg(args, container.command[i].clone());
        i = i + 1;
        assert(args.deep_view() =~= old(args).deep_view() + container@.command.take(i as int));
    }
    assert(container@.command.take(i as int) =~= container@.command);
}

/// Appends the arguments that run the container detached.
pub fn build_run_command(args: &mut Vec<String>, container: &Container)
    ensures
        final(args).deep_view() == old(args).deep_view() + run_args(container@),
{
    let ghost a0 = args.deep_view();
    add_run_args(args);
    add_name_arg(args, container);
    add_env_var_args(args, container);
    add_volume_args(args, container);
    add_export_ports_args(args, container);
    add_health_check_args(args, container);
    add_image_arg(args, container);
    add_command_arg(args, container);
    assert(args.deep_view() =~= a0 + run_args(container@));
}

/// Appends the arguments that run the container detached, in podman's own
/// syntax.
pub fn build_podman_run_command(args: &mut Vec<String>, container: &Container)
    ensures
        final(args).deep_view() == old(args).deep_view() + podman_run_args(container@),
{
    let ghost a0 = args.deep_view();
    add_run_args(args);
    add_name_arg(args, container);
    add_env_var_args(args, container);
    add_export_ports_args(args, container);
    add_podman_health_check_args(args, container);
    add_image_arg(args, container);
    assert(args.deep_view() =~= a0 + podman_run_args(container@));
}

// ------------------------------------------------------------------ laws

proof fn lemma_env_args_layout(envs: Seq<EnvVarView>)
    ensures
        env_args(envs).len() == 2 * envs.len(),
        forall|i: int| 0 <= i < envs.len() ==> env_args(envs).subrange(2 * i, 2 * i + 2)
            == env_var_arg(#[trigger] envs[i]),
    decreases envs.len(),
{
    if envs.len() == 0 {
        assert(envs.map_values(env_arg_fn()) =~= Seq::<Seq<Seq<char>>>::empty());
        assert(env_args(envs) =~= Seq::<Seq<char>>::empty());
    } else {
        let init = envs.drop_last();
        let last = envs.last();
        lemma_env_args_layout(init);
        assert(envs =~= init.push(last));
        init.lemma_flat_map_push(env_arg_fn(), last);
        let a = env_args(init);
        assert(env_args(envs) =~= a + env_var_arg(last));
        assert forall|i: int| 0 <= i < envs.len() implies env_args(envs).subrange(2 * i, 2 * i + 2)
            == env_var_arg(#[trigger] envs[i]) by {
            if i < envs.len() - 1 {
                assert(init[i] == envs[i]);
                assert(env_args(envs).subrange(2 * i, 2 * i + 2) =~= a.subrange(2 * i, 2 * i + 2));
            } else {
                assert(envs[i] == last);
                assert(env_args(envs).subrange(2 * i, 2 * i + 2) =~= env_var_arg(last));
            }
        }
    }
}

/// The `run` command line starts with `run -d --name <name>`, passes
/// the environment variables in order right after (variable `i` as the
/// two arguments at `4 + 2 i`), and ends with the image reference followed
/// by the container's command.
pub proof fn lemma_run_args_layout(c: ContainerView)
    ensures
        run_args(c).take(4) == seq!["run"@, "-d"@, "--name"@, c.name],
        forall|i: int| 0 <= i < c.env_vars.len() ==> run_args(c).subrange(4 + 2 * i, 6 + 2 * i)
            == env_var_arg(#[trigger] c.env_vars[i]),
        run_args(c).skip(run_args(c).len() - c.command.len() - 1) == seq![c.image.reference()] + c.command,
{
    let head = seq!["run"@, "-d"@, "--name"@, c.name];
    let envs = env_args(c.env_vars);
    lemma_env_args_layout(c.env_vars);
    let r = run_args(c);
    let rest = volume_args(c.volumes) + port_args(c.port_mappings) + health_check_args(c.health_check)
        + seq![c.image.reference()] + c.command;
    assert(r =~= head + envs + rest);
    assert(r.take(4) =~= head);
    assert forall|i: int| 0 <= i < c.env_vars.len() implies r.subrange(4 + 2 * i, 6 + 2 * i)
        == env_var_arg(#[trigger] c.env_vars[i]) by {
        assert(r.subrange(4 + 2 * i, 6 + 2 * i) =~= envs.subrange(2 * i, 2 * i + 2));
    }
    assert(r.skip(r.len() - c.command.len() - 1) =~= seq![c.image.reference()] + c.command);
}

proof fn lemma_layout_2<A>(s: Seq<A>, f: spec_fn(A) -> Seq<Seq<char>>)
    requires
        forall|x: A| (#[trigger] f(x)).len() == 2,
    ensures
        s.flat_map(f).len() == 2 * s.len(),
        forall|i: int| 0 <= i < s.len() ==> s.flat_map(f).subrange(2 * i, 2 * i + 2) == f(#[trigger] s[i]),
    decreases s.len(),
{
    if s.len() == 0 {
        assert(s.map_values(f) =~= Seq::<Seq<Seq<char>>>::empty());
        assert(s.flat_map(f) =~= Seq::<Seq<char>>::empty());
    } else {
        let init = s.drop_last();
        let last = s.last();
        lemma_layout_2(init, f);
        assert(s =~= init.push(last));
        init.lemma_flat_map_push(f, last);
        let a = init.flat_map(f);
        assert(s.flat_map(f) =~= a + f(last));
        assert forall|i: int| 0 <= i < s.len() implies s.flat_map(f).subrange(2 * i, 2 * i + 2) == f(#[trigger] s[i]) by {
            if i < s.len() - 1 {
                assert(init[i] == s[i]);
                assert(s.flat_map(f).subrange(2 * i, 2 * i + 2) =~= a.subrange(2 * i, 2 * i + 2));
            } else {
                assert(s[i] == last);
                assert(s.flat_map(f).subrange(2 * i, 2 * i + 2) =~= f(last));
            }
        }
    }
}

proof fn lemma_layout_1<A>(s: Seq<A>, f: spec_fn(A) -> Seq<Seq<char>>)
    requires
        forall|x: A| (#[trigger] f(x)).len() == 1,
    ensures
        s.flat_map(f).len() == s.len(),
        forall|i: int| 0 <= i < s.len() ==> s.flat_map(f)[i] == f(#[trigger] s[i])[0],
    decreases s.len(),
{
    if s.len() == 0 {
        assert(s.map_values(f) =~= Seq::<Seq<Seq<char>>>::empty());
        assert(s.flat_map(f) =~= Seq::<Seq<char>>::empty());
    } else {
        let init = s.drop_last();
        let last = s.last();
        lemma_layout_1(init, f);
        assert(s =~= init.push(last));
        init.lemma_flat_map_push(f, last);
        let a = init.flat_map(f);
        assert(s.flat_map(f) =~= a + f(last));
        assert forall|i: int| 0 <= i < s.len() implies s.flat_map(f)[i] == f(#[trigger] s[i])[0] by {
            if i < s.len() - 1 {
                assert(init[i] == s[i]);
            } else {
                assert(s[i] == last);
            }
        }
    }
}

/// The text `source:mount_point` of a volume.
pub open spec fn volume_source_text(v: VolumeView) -> Seq<char> {
    match v {
        VolumeView::Mount { host_path, mount_point } => host_path + ":"@ + mount_point,
        VolumeView::Named { name, mount_point } => name + ":"@ + mount_point,
    }
}

/// Every port mapping is published, in order, as one argument
/// `-p<source>:<target>`, and nothing else is among the port arguments.
pub proof fn lemma_port_args_publish_all(ps: Seq<PortMappingView>)
    ensures
        port_args(ps).len() == ps.len(),
        forall|i: int| 0 <= i < ps.len() ==> port_args(ps)[i] == "-p"@ + (#[trigger] ps[i]).source + ":"@ + ps[i].target,
{
    lemma_layout_1(ps, port_arg_fn());
}

proof fn lemma_env_item(c: ContainerView, i: int)
    requires
        0 <= i < c.env_vars.len(),
    ensures
        run_args(c)[4 + 2 * i] == "-e"@,
        run_args(c)[5 + 2 * i] == c.env_vars[i].key + "="@ + c.env_vars[i].value,
{
    let r = run_args(c);
    let ea = env_args(c.env_vars);
    lemma_layout_2(c.env_vars, env_arg_fn());
    assert(r =~= seq!["run"@, "-d"@, "--name"@, c.name] + ea + (volume_args(c.volumes) + port_args(c.port_mappings)
        + health_check_args(c.health_check) + seq![c.image.reference()] + c.command));
    assert(ea.subrange(2 * i, 2 * i + 2) == (env_arg_fn())(c.env_vars[i]));
    assert((env_arg_fn())(c.env_vars[i]) == env_var_arg(c.env_vars[i]));
    assert(r[4 + 2 * i] == ea[2 * i]);
    assert(r[5 + 2 * i] == ea[2 * i + 1]);
    assert(ea[2 * i] == ea.subrange(2 * i, 2 * i + 2)[0]);
    assert(ea[2 * i + 1] == ea.subrange(2 * i, 2 * i + 2)[1]);
}

proof fn lemma_volume_item(c: ContainerView, i: int)
    requires
        0 <= i < c.volumes.len(),
    ensures
        run_args(c)[4 + 2 * c.env_vars.len() + 2 * i] == "-v"@,
        run_args(c)[5 + 2 * c.env_vars.len() + 2 * i] == volume_source_text(c.volumes[i]),
{
    let r = run_args(c);
    let ea = env_args(c.env_vars);
    let va = volume_args(c.volumes);
    let e = c.env_vars.len() as int;
    lemma_layout_2(c.env_vars, env_arg_fn());
    lemma_layout_2(c.volumes, volume_arg_fn());
    assert(r =~= (seq!["run"@, "-d"@, "--name"@, c.name] + ea) + va + (port_args(c.port_mappings)
        + health_check_args(c.health_check) + seq![c.image.reference()] + c.command));
    assert(va.subrange(2 * i, 2 * i + 2) == (volume_arg_fn())(c.volumes[i]));
    assert((volume_arg_fn())(c.volumes[i]) == volume_arg(c.volumes[i]));
    assert(volume_arg(c.volumes[i])[0] == "-v"@ && volume_arg(c.volumes[i])[1] == volume_source_text(c.volumes[i]));
    assert(r[4 + 2 * e + 2 * i] == va[2 * i]);
    assert(r[5 + 2 * e + 2 * i] == va[2 * i + 1]);
    assert(va[2 * i] == va.subrange(2 * i, 2 * i + 2)[0]);
    assert(va[2 * i + 1] == va.subrange(2 * i, 2 * i + 2)[1]);
}

/// Where the port arguments of `run` start: after `run -d --name
/// <name>`, two arguments per environment variable and two per volume.
pub open spec fn run_ports_start(c: ContainerView) -> int {
    (4 + 2 * c.env_vars.len() + 2 * c.volumes.len()) as int
}

/// The `run` command line, piece by piece: `run -d --name <name>`, two
/// arguments `-e key=value` for every environment variable, two arguments
/// `-v source:mount_point` for every volume, one argument
/// `-p<source>:<target>` for every port mapping (all in order), the health
/// check arguments starting with `--health-cmd <command>` when there is a
/// health check, then the image reference and the command.
pub proof fn lemma_run_args_publish_all(c: ContainerView)
    ensures
        run_args(c).len() == run_ports_start(c) + c.port_mappings.len() + health_check_args(c.health_check).len()
            + 1 + c.command.len(),
        forall|i: int| 0 <= i < c.env_vars.len() ==> #[trigger] run_args(c)[4 + 2 * i] == "-e"@,
        forall|i: int| 0 <= i < c.env_vars.len() ==> run_args(c)[5 + 2 * i]
            == (#[trigger] c.env_vars[i]).key + "="@ + c.env_vars[i].value,
        forall|i: int| 0 <= i < c.volumes.len() ==> #[trigger] run_args(c)[4 + 2 * c.env_vars.len() + 2 * i] == "-v"@,
        forall|i: int| 0 <= i < c.volumes.len() ==> run_args(c)[5 + 2 * c.env_vars.len() + 2 * i]
            == volume_source_text(#[trigger] c.volumes[i]),
        forall|i: int| 0 <= i < c.port_mappings.len() ==> run_args(c)[run_ports_start(c) + i]
            == "-p"@ + (#[trigger] c.port_mappings[i]).source + ":"@ + c.port_mappings[i].target,
        c.health_check matches Some(hc) ==> health_check_args(c.health_check).len() >= 2
            && run_args(c)[run_ports_start(c) + c.port_mappings.len()] == "--health-cmd"@
            && run_args(c)[run_ports_start(c) + c.port_mappings.len() + 1] == hc.command,
        c.health_check is None ==> health_check_args(c.health_check).len() == 0,
        run_args(c)[run_ports_start(c) + c.port_mappings.len() + health_check_args(c.health_check).len()]
            == c.image.reference(),
{
    let r = run_args(c);
    let head = seq!["run"@, "-d"@, "--name"@, c.name];
    let ea = env_args(c.env_vars);
    let va = volume_args(c.volumes);
    let pa = port_args(c.port_mappings);
    let ha = health_check_args(c.health_check);
    lemma_layout_2(c.env_vars, env_arg_fn());
    lemma_layout_2(c.volumes, volume_arg_fn());
    lemma_layout_1(c.port_mappings, port_arg_fn());
    let e = c.env_vars.len() as int;
    let v = c.volumes.len() as int;
    let p = c.port_mappings.len() as int;
    assert(r =~= head + ea + va + pa + ha + seq![c.image.reference()] + c.command);
    assert forall|i: int| 0 <= i < e implies r[4 + 2 * i] == "-e"@
        && r[5 + 2 * i] == c.env_vars[i].key + "="@ + c.env_vars[i].value by {
        lemma_env_item(c, i);
    }
    assert forall|i: int| 0 <= i < c.env_vars.len() implies #[trigger] run_args(c)[4 + 2 * i] == "-e"@ by {
        lemma_env_item(c, i);
    }
    assert forall|i: int| 0 <= i < v implies r[4 + 2 * e + 2 * i] == "-v"@
        && r[5 + 2 * e + 2 * i] == volume_source_text(c.volumes[i]) by {
        lemma_volume_item(c, i);
    }
    assert forall|i: int| 0 <= i < c.volumes.len() implies #[trigger] run_args(c)[4 + 2 * c.env_vars.len() + 2 * i]
        == "-v"@ by {
        lemma_volume_item(c, i);
    }
    assert forall|i: int| 0 <= i < p implies r[4 + 2 * e + 2 * v + i]
        == "-p"@ + (#[trigger] c.port_mappings[i]).source + ":"@ + c.port_mappings[i].target by {
        assert(r[4 + 2 * e + 2 * v + i] == pa[i]);
    }
    let base = 4 + 2 * e + 2 * v + p;
    assert(ea.len() == 2 * e && va.len() == 2 * v && pa.len() == p);
    match c.health_check {
        Some(hc) => {
            assert(ha.len() >= 2);
            assert(ha[0] == "--health-cmd"@ && ha[1] == hc.command);
            assert(r[base] == ha[0]);
            assert(r[base + 1] == ha[1]);
        },
        None => {
            assert(ha.len() == 0);
        },
    }
    assert(r[base + ha.len()] == c.image.reference());
}

/// The health check arguments: `--health-cmd <command>`, then one
/// argument for each setting that is set, each naming its setting and
/// carrying its value (durations in whole seconds), and nothing else.
pub proof fn lemma_health_check_args_settings(h: HealthCheckView)
    ensures
        ({
            let a = health_check_args(Some(h));
            &&& a.len() == 2 + (if h.start_period is Some { 1int } else { 0 }) + (if h.interval is Some { 1int } else { 0 })
                + (if h.timeout is Some { 1int } else { 0 }) + (if h.retries is Some { 1int } else { 0 })
            &&& a[0] == "--health-cmd"@ && a[1] == h.command
            &&& (h.start_period matches Some(m) ==> a.contains("--health-start-period="@ + decimal((m / 1000) as nat) + "s"@))
            &&& (h.interval matches Some(m) ==> a.contains("--health-interval="@ + decimal((m / 1000) as nat) + "s"@))
            &&& (h.timeout matches Some(m) ==> a.contains("--health-timeout="@ + decimal((m / 1000) as nat) + "s"@))
            &&& (h.retries matches Some(n) ==> a.contains("--health-retries="@ + decimal(n as nat)))
        }),
        health_check_args(None).len() == 0,
{
    let a = health_check_args(Some(h));
    let s1 = joined_setting("--health-start-period="@, seconds_of(h.start_period));
    let s2 = joined_setting("--health-interval="@, seconds_of(h.interval));
    let s3 = joined_setting("--health-timeout="@, seconds_of(h.timeout));
    let s4 = joined_setting("--health-retries="@, count_of(h.retries));
    let head = seq!["--health-cmd"@, h.command];
    assert(a == head + s1 + s2 + s3 + s4);
    let n1 = (2 + s1.len()) as int;
    let n2 = n1 + s2.len() as int;
    let n3 = n2 + s3.len() as int;
    match h.start_period {
        Some(m) => {
            assert(s1[0] =~= "--health-start-period="@ + decimal((m / 1000) as nat) + "s"@);
            assert(a[2] == s1[0]);
        },
        None => {},
    }
    match h.interval {
        Some(m) => {
            assert(s2[0] =~= "--health-interval="@ + decimal((m / 1000) as nat) + "s"@);
            assert(a[n1] == s2[0]);
        },
        None => {},
    }
    match h.timeout {
        Some(m) => {
            assert(s3[0] =~= "--health-timeout="@ + decimal((m / 1000) as nat) + "s"@);
            assert(a[n2] == s3[0]);
        },
        None => {},
    }
    match h.retries {
        Some(n) => {
            assert(a[n3] == s4[0]);
        },
        None => {},
    }
}

/// Where the port arguments of podman's `run` start: after `run -d
/// --name <name>` and two arguments per environment variable.
pub open spec fn podman_ports_start(c: ContainerView) -> int {
    (4 + 2 * c.env_vars.len()) as int
}

/// Podman's `run` publishes every port mapping, in order, as one argument
/// `-p<source>:<target>` right after the environment, and ends with the
/// image reference.
pub proof fn lemma_podman_run_args_publish_all(c: ContainerView)
    ensures
        podman_run_args(c).len() == podman_ports_start(c) + c.port_mappings.len()
            + podman_health_check_args(c.health_check).len() + 1,
        forall|i: int| 0 <= i < c.port_mappings.len() ==> podman_run_args(c)[podman_ports_start(c) + i]
            == "-p"@ + (#[trigger] c.port_mappings[i]).source + ":"@ + c.port_mappings[i].target,
        podman_run_args(c).last() == c.image.reference(),
{
    let r = podman_run_args(c);
    let ea = env_args(c.env_vars);
    let pa = port_args(c.port_mappings);
    lemma_layout_2(c.env_vars, env_arg_fn());
    lemma_layout_1(c.port_mappings, port_arg_fn());
    assert(r =~= seq!["run"@, "-d"@, "--name"@, c.name] + ea + pa + podman_health_check_args(c.health_check)
        + seq![c.image.reference()]);
    assert forall|i: int| 0 <= i < c.port_mappings.len() implies r[podman_ports_start(c) + i]
        == "-p"@ + (#[trigger] c.port_mappings[i]).source + ":"@ + c.port_mappings[i].target by {
        assert(r[podman_ports_start(c) + i] == pa[i]);
    }
}

} // verus!
