//! The data that makes up a container: its image, ports, environment,
//! volumes, health check and the strategy used to wait for it.
//!
//! Durations are held as whole milliseconds.

use vstd::prelude::*;
use crate::error::ContainersError;
use rand::Rng;
use crate::text::{concat3, decimal, push_decimal};

verus! {

// ---------------------------------------------------------------- health check

/// A command the engine runs inside the container to judge its health.
#[derive(Debug)]
pub struct HealthCheck {
    pub command: String,
    pub retries: Option<u32>,
    /// Milliseconds between two checks.
    pub interval: Option<u64>,
    /// Milliseconds of grace after the start of the container.
    pub start_period: Option<u64>,
    /// Milliseconds after which one check counts as failed.
    pub timeout: Option<u64>,
}

pub struct HealthCheckView {
    pub command: Seq<char>,
    pub retries: Option<u32>,
    pub interval: Option<u64>,
    pub start_period: Option<u64>,
    pub timeout: Option<u64>,
}

impl View for HealthCheck {
    type V = HealthCheckView;

    open spec fn view(&self) -> HealthCheckView {
        HealthCheckView {
            command: self.command@,
            retries: self.retries,
            interval: self.interval,
            start_period: self.start_period,
            timeout: self.timeout,
        }
    }
}

impl DeepView for HealthCheck {
    type V = HealthCheckView;

    open spec fn deep_view(&self) -> HealthCheckView {
        self@
    }
}

impl HealthCheck {
    /// A health check that runs `command` with the engine's defaults for
    /// everything else.
    pub fn new(command: &str) -> (r: Self)
        ensures
            r@ == (HealthCheckView {
                command: command@,
                retries: None,
                interval: None,
                start_period: None,
                timeout: None,
            }),
    {
        HealthCheck {
            command: String::from_str(command),
            retries: None,
            interval: None,
            start_period: None,
            timeout: None,
        }
    }

    pub fn retries(self, retries: u32) -> (r: Self)
        ensures
            r@ == (HealthCheckView { retries: Some(retries), ..self@ }),
    {
        HealthCheck { retries: Some(retries), ..self }
    }

    pub fn interval(self, interval: u64) -> (r: Self)
        ensures
            r@ == (HealthCheckView { interval: Some(interval), ..self@ }),
    {
        HealthCheck { interval: Some(interval), ..self }
    }

    pub fn start_period(self, start_period: u64) -> (r: Self)
        ensures
            r@ == (HealthCheckView { start_period: Some(start_period), ..self@ }),
    {
        HealthCheck { start_period: Some(start_period), ..self }
    }

    pub fn timeout(self, timeout: u64) -> (r: Self)
        ensures
            r@ == (HealthCheckView { timeout: Some(timeout), ..self@ }),
    {
        HealthCheck { timeout: Some(timeout), ..self }
    }
}

// ---------------------------------------------------------------- wait strategy

/// How to tell that a started container is ready.
#[derive(Debug)]
pub enum WaitStrategy {
    /// Wait until a line of the container's log matches the regular
    /// expression `pattern`.
    LogMessage { pattern: String },
    /// Wait until the engine reports the container healthy.
    HealthCheck,
    /// Wait for a fixed number of milliseconds.
    WaitTime { duration: u64 },
}

pub enum WaitStrategyView {
    LogMessage { pattern: Seq<char> },
    HealthCheck,
    WaitTime { duration: u64 },
}

impl View for WaitStrategy {
    type V = WaitStrategyView;

    open spec fn view(&self) -> WaitStrategyView {
        match self {
            WaitStrategy::LogMessage { pattern } => WaitStrategyView::LogMessage { pattern: pattern@ },
            WaitStrategy::HealthCheck => WaitStrategyView::HealthCheck,
            WaitStrategy::WaitTime { duration } => WaitStrategyView::WaitTime { duration: *duration },
        }
    }
}

impl WaitStrategy {
    pub fn clone(&self) -> (r: Self)
        ensures
            r@ == self@,
    {
        match self {
            WaitStrategy::LogMessage { pattern } => WaitStrategy::LogMessage { pattern: pattern.clone() },
            WaitStrategy::HealthCheck => WaitStrategy::HealthCheck,
            WaitStrategy::WaitTime { duration } => WaitStrategy::WaitTime { duration: *duration },
        }
    }
}

// ---------------------------------------------------------------- network

/// A container network. Networks carry no settings yet.
#[derive(Debug)]
pub struct Network {}

// ---------------------------------------------------------------- ports

/// A port, as the text the engine receives.
#[derive(Debug)]
pub struct Port {
    pub number: String,
}

impl Port {
    /// The port with the given number.
    pub fn from_number(n: u32) -> (r: Self)
        ensures
            r.number@ == decimal(n as nat),
    {
        let mut s = String::new();
        push_decimal(&mut s, n as u64);
        Port { number: s }
    }

    /// The port written as `text`.
    pub fn from_text(text: &str) -> (r: Self)
        ensures
            r.number@ == text@,
    {
        Port { number: String::from_str(text) }
    }
}

/// The port written as the text.
impl From<String> for Port {
    fn from(number: String) -> (r: Self) {
        Port { number }
    }
}

impl vstd::std_specs::convert::FromSpecImpl<String> for Port {
    open spec fn obeys_from_spec() -> bool {
        true
    }

    open spec fn from_spec(number: String) -> Port {
        Port { number }
    }
}

/// A port of the host published as a port of the container.
#[derive(Debug)]
pub struct PortMapping {
    pub source: Port,
    pub target: Port,
}

pub struct PortMappingView {
    pub source: Seq<char>,
    pub target: Seq<char>,
}

impl View for PortMapping {
    type V = PortMappingView;

    open spec fn view(&self) -> PortMappingView {
        PortMappingView { source: self.source.number@, target: self.target.number@ }
    }
}

impl DeepView for PortMapping {
    type V = PortMappingView;

    open spec fn deep_view(&self) -> PortMappingView {
        self@
    }
}

// ---------------------------------------------------------------- environment

/// An environment variable of the container.
#[derive(Debug)]
pub struct EnvVar {
    pub key: String,
    pub value: String,
}

pub struct EnvVarView {
    pub key: Seq<char>,
    pub value: Seq<char>,
}

impl View for EnvVar {
    type V = EnvVarView;

    open spec fn view(&self) -> EnvVarView {
        EnvVarView { key: self.key@, value: self.value@ }
    }
}

impl DeepView for EnvVar {
    type V = EnvVarView;

    open spec fn deep_view(&self) -> EnvVarView {
        self@
    }
}

impl EnvVar {
    pub fn new(key: String, value: String) -> (r: Self)
        ensures
            r@ == (EnvVarView { key: key@, value: value@ }),
    {
        EnvVar { key, value }
    }
}

/// A key and a value, in that order.
impl From<(String, String)> for EnvVar {
    fn from(pair: (String, String)) -> (r: Self) {
        EnvVar { key: pair.0, value: pair.1 }
    }
}

impl vstd::std_specs::convert::FromSpecImpl<(String, String)> for EnvVar {
    open spec fn obeys_from_spec() -> bool {
        true
    }

    open spec fn from_spec(pair: (String, String)) -> EnvVar {
        EnvVar { key: pair.0, value: pair.1 }
    }
}

// ---------------------------------------------------------------- image

/// An image reference: a repository name and a tag.
#[derive(Debug)]
pub struct Image {
    pub name: String,
    pub tag: String,
}

pub struct ImageView {
    pub name: Seq<char>,
    pub tag: Seq<char>,
}

impl ImageView {
    /// The reference as the engines write it: `name:tag`.
    pub open spec fn reference(self) -> Seq<char> {
        self.name + seq![':'] + self.tag
    }
}

impl View for Image {
    type V = ImageView;

    open spec fn view(&self) -> ImageView {
        ImageView { name: self.name@, tag: self.tag@ }
    }
}

/// The tag that a reference without a tag stands for.
pub open spec fn latest_tag() -> Seq<char> {
    seq!['l', 'a', 't', 'e', 's', 't']
}

/// A character the repository part of a reference may hold.
pub open spec fn is_name_char(c: char) -> bool {
    ('0' <= c <= '9') || ('a' <= c <= 'z') || ('A' <= c <= 'Z') || c == '.' || c == '/'
}

/// A character the tag part of a reference may hold.
pub open spec fn is_tag_char(c: char) -> bool {
    ('0' <= c <= '9') || ('a' <= c <= 'z') || ('A' <= c <= 'Z') || c == '.'
}

/// The first position at or after `i` that holds a repository character,
/// or the length of `s` if there is none.
pub open spec fn first_name_char(s: Seq<char>, i: int) -> int
    decreases s.len() - i,
{
    if i < 0 || i >= s.len() {
        s.len() as int
    } else if is_name_char(s[i]) {
        i
    } else {
        first_name_char(s, i + 1)
    }
}

/// The end of the run of repository characters that starts at `i`.
pub open spec fn name_run_end(s: Seq<char>, i: int) -> int
    decreases s.len() - i,
{
    if 0 <= i < s.len() && is_name_char(s[i]) {
        name_run_end(s, i + 1)
    } else {
        i
    }
}

/// The end of the run of tag characters that starts at `i`.
pub open spec fn tag_run_end(s: Seq<char>, i: int) -> int
    decreases s.len() - i,
{
    if 0 <= i < s.len() && is_tag_char(s[i]) {
        tag_run_end(s, i + 1)
    } else {
        i
    }
}

/// What the pattern `([0-9a-zA-Z./]+)(:([0-9a-zA-Z.]+))?` captures in `s`
/// under leftmost-first matching: the first run of repository characters,
/// and, if a colon and at least one tag character follow it at once, the
/// run of tag characters after the colon.
pub open spec fn image_reference_captures(s: Seq<char>) -> Option<(Seq<char>, Option<Seq<char>>)> {
    let start = first_name_char(s, 0);
    if start >= s.len() {
        None
    } else {
        let end = name_run_end(s, start);
        let name = s.subrange(start, end);
        if end + 1 < s.len() && s[end] == ':' && is_tag_char(s[end + 1]) {
            Some((name, Some(s.subrange(end + 1, tag_run_end(s, end + 1)))))
        } else {
            Some((name, None))
        }
    }
}

pub open spec fn captures_view(c: Option<(String, Option<String>)>) -> Option<(Seq<char>, Option<Seq<char>>)> {
    match c {
        None => None,
        Some((name, None)) => Some((name@, None)),
        Some((name, Some(tag))) => Some((name@, Some(tag@))),
    }
}

/// The grammar of image references, as a regular expression: a run of
/// repository characters, optionally followed by a colon and a run of tag
/// characters.
pub open spec fn image_reference_pattern() -> Seq<char> {
    "([0-9a-zA-Z./]+)(:([0-9a-zA-Z.]+))?"@
}

/// `regex::Regex::new` and `regex::Regex::captures` on the image reference
/// pattern: the regex crate documents leftmost-first matching with greedy
/// repetition, under which groups 1 and 3 are what
/// `image_reference_captures` describes. The pattern compiles, so the
/// `unwrap` does not panic.
#[verifier::external_body]
fn capture_image_reference(pattern: &str, s: &str) -> (r: Option<(String, Option<String>)>)
    requires
        pattern@ == image_reference_pattern(),
    ensures
        captures_view(r) == image_reference_captures(s@),
{
    let re = regex::Regex::new(pattern).unwrap();
    re.captures(s).map(|c| (c[1].to_string(), c.get(3).map(|m| m.as_str().to_string())))
}

impl Image {
    /// The image `name` with the tag `latest`.
    pub fn from_name(name: &str) -> (r: Self)
        ensures
            r@ == (ImageView { name: name@, tag: latest_tag() }),
    {
        let tag = "latest";
        proof {
            reveal_strlit("latest");
            assert(tag@ =~= latest_tag());
        }
        Self::from_name_and_tag(name, tag)
    }

    pub fn from_name_and_tag(name: &str, tag: &str) -> (r: Self)
        ensures
            r@ == (ImageView { name: name@, tag: tag@ }),
    {
        Image { name: String::from_str(name), tag: String::from_str(tag) }
    }

    /// Reads an image reference such as `docker.io/library/nginx:1.25`.
    /// The tag defaults to `latest`; a text without any repository
    /// character is refused.
    pub fn from_str(s: &str) -> (r: Result<Self, ContainersError>)
        ensures
            match image_reference_captures(s@) {
                None => r matches Err(ContainersError::InvalidImageName { name }) && name@ == s@,
                Some((name, None)) => r matches Ok(image) && image@ == (ImageView { name, tag: latest_tag() }),
                Some((name, Some(tag))) => r matches Ok(image) && image@ == (ImageView { name, tag }),
            },
    {
        let pattern = "([0-9a-zA-Z./]+)(:([0-9a-zA-Z.]+))?";
        match capture_image_reference(pattern, s) {
            None => Err(ContainersError::InvalidImageName { name: String::from_str(s) }),
            Some((name, None)) => Ok(Self::from_name(name.as_str())),
            Some((name, Some(tag))) => Ok(Self::from_name_and_tag(name.as_str(), tag.as_str())),
        }
    }

    /// The reference as the engines write it: `name:tag`.
    pub fn to_string(&self) -> (r: String)
        ensures
            r@ == self@.reference(),
    {
        let colon = ":";
        proof {
            reveal_strlit(":");
        }
        concat3(self.name.as_str(), colon, self.tag.as_str())
    }

    pub fn clone(&self) -> (r: Self)
        ensures
            r@ == self@,
    {
        Image { name: self.name.clone(), tag: self.tag.clone() }
    }
}

// ---------------------------------------------------------------- volumes

/// A volume of the container.
#[derive(Debug)]
pub enum Volume {
    /// A directory of the host mounted into the container.
    Mount { host_path: String, mount_point: String },
    /// A named volume of the engine mounted into the container.
    Named { name: String, mount_point: String },
}

pub enum VolumeView {
    Mount { host_path: Seq<char>, mount_point: Seq<char> },
    Named { name: Seq<char>, mount_point: Seq<char> },
}

impl View for Volume {
    type V = VolumeView;

    open spec fn view(&self) -> VolumeView {
        match self {
            Volume::Mount { host_path, mount_point } => VolumeView::Mount {
                host_path: host_path@,
                mount_point: mount_point@,
            },
            Volume::Named { name, mount_point } => VolumeView::Named {
                name: name@,
                mount_point: mount_point@,
            },
        }
    }
}

impl DeepView for Volume {
    type V = VolumeView;

    open spec fn deep_view(&self) -> VolumeView {
        self@
    }
}

// ---------------------------------------------------------------- container

/// The schedulable unit: an image together with everything the engine
/// needs to run it.
#[derive(Debug)]
pub struct Container {
    pub name: String,
    pub image: Image,
    pub command: Vec<String>,
    pub network: Option<Network>,
    pub volumes: Vec<Volume>,
    pub port_mappings: Vec<PortMapping>,
    pub env_vars: Vec<EnvVar>,
    pub health_check: Option<HealthCheck>,
    pub wait_strategy: Option<WaitStrategy>,
    /// Milliseconds to wait after the wait strategy has succeeded.
    pub additional_wait_period: u64,
}

#[verifier::ext_equal]
pub struct ContainerView {
    pub name: Seq<char>,
    pub image: ImageView,
    pub command: Seq<Seq<char>>,
    pub has_network: bool,
    pub volumes: Seq<VolumeView>,
    pub port_mappings: Seq<PortMappingView>,
    pub env_vars: Seq<EnvVarView>,
    pub health_check: Option<HealthCheckView>,
    pub wait_strategy: Option<WaitStrategyView>,
    pub additional_wait_period: u64,
}

pub open spec fn health_check_view(h: Option<HealthCheck>) -> Option<HealthCheckView> {
    match h {
        Some(h) => Some(h@),
        None => None,
    }
}

pub open spec fn wait_strategy_view(w: Option<WaitStrategy>) -> Option<WaitStrategyView> {
    match w {
        Some(w) => Some(w@),
        None => None,
    }
}

impl View for Container {
    type V = ContainerView;

    open spec fn view(&self) -> ContainerView {
        ContainerView {
            name: self.name@,
            image: self.image@,
            command: self.command.deep_view(),
            has_network: self.network is Some,
            volumes: self.volumes.deep_view(),
            port_mappings: self.port_mappings.deep_view(),
            env_vars: self.env_vars.deep_view(),
            health_check: health_check_view(self.health_check),
            wait_strategy: wait_strategy_view(self.wait_strategy),
            additional_wait_period: self.additional_wait_period,
        }
    }
}

/// The prefix of the names the library gives containers.
pub open spec fn generated_name_prefix() -> Seq<char> {
    seq!['c', 'o', 'n', 't', 'a', 'i', 'n', '-', 'r', 's', '-']
}

/// An ASCII letter or digit.
pub open spec fn is_ascii_alphanumeric(c: char) -> bool {
    ('0' <= c <= '9') || ('a' <= c <= 'z') || ('A' <= c <= 'Z')
}

/// `n` characters drawn by `rand::thread_rng` from the `Alphanumeric`
/// distribution, which the rand crate documents as uniform over `A-Z`,
/// `a-z` and `0-9`. Which characters come out is left open.
#[verifier::external_body]
fn random_alphanumeric_suffix(n: usize) -> (r: String)
    ensures
        r@.len() == n,
        forall|i: int| 0 <= i < r@.len() ==> is_ascii_alphanumeric(#[trigger] r@[i]),
{
    rand::thread_rng().sample_iter(&rand::distributions::Alphanumeric).take(n).map(char::from).collect()
}

/// A fresh copy of a list of strings.
pub fn clone_strings(v: &Vec<String>) -> (r: Vec<String>)
    ensures
        r.deep_view() == v.deep_view(),
{
    let mut r: Vec<String> = Vec::new();
    let mut i: usize = 0;
    while i < v.len()
        invariant
            i <= v.len(),
            r.deep_view() =~= v.deep_view().take(i as int),
        decreases v.len() - i,
    {
        let ghost old_r = r.deep_view();
        let s = v[i].clone();
        r.push(s);
        assert(r.deep_view() =~= old_r.push(v@[i as int]@));
        i = i + 1;
        assert(r.deep_view() =~= v.deep_view().take(i as int));
    }
    assert(v.deep_view().take(v.len() as int) =~= v.deep_view());
    r
}

impl Port {
    pub fn clone(&self) -> (r: Self)
        ensures
            r.number@ == self.number@,
    {
        Port { number: self.number.clone() }
    }
}

impl PortMapping {
    pub fn clone(&self) -> (r: Self)
        ensures
            r@ == self@,
    {
        PortMapping { source: self.source.clone(), target: self.target.clone() }
    }
}

impl EnvVar {
    pub fn clone(&self) -> (r: Self)
        ensures
            r@ == self@,
    {
        EnvVar { key: self.key.clone(), value: self.value.clone() }
    }
}

impl HealthCheck {
    pub fn clone(&self) -> (r: Self)
        ensures
            r@ == self@,
    {
        HealthCheck { command: self.command.clone(), ..*self }
    }
}

impl Volume {
    pub fn clone(&self) -> (r: Self)
        ensures
            r@ == self@,
    {
        match self {
            Volume::Mount { host_path, mount_point } => Volume::Mount {
                host_path: host_path.clone(),
                mount_point: mount_point.clone(),
            },
            Volume::Named { name, mount_point } => Volume::Named {
                name: name.clone(),
                mount_point: mount_point.clone(),
            },
        }
    }
}

impl Container {
    /// A container of `image` with nothing else set, named `contain-rs-`
    /// followed by eight random letters and digits.
    pub fn from_image(image: Image) -> (r: Self)
        ensures
            r@.name.len() == 19,
            r@.name.subrange(0, 11) == generated_name_prefix(),
            forall|i: int| 11 <= i < 19 ==> is_ascii_alphanumeric(#[trigger] r@.name[i]),
            r@ == (ContainerView { name: r@.name, ..Container::spec_bare(image@, r@.name) }),
    {
        let suffix = random_alphanumeric_suffix(8);
        let r = Self::from_image_with_suffix(image, suffix.as_str());
        assert(r@.name.subrange(0, 11) =~= generated_name_prefix());
        r
    }

    /// The container `from_image` describes, with everything but image and
    /// name unset.
    pub open spec fn spec_bare(image: ImageView, name: Seq<char>) -> ContainerView {
        ContainerView {
            name,
            image,
            command: Seq::empty(),
            has_network: false,
            volumes: Seq::empty(),
            port_mappings: Seq::empty(),
            env_vars: Seq::empty(),
            health_check: None,
            wait_strategy: None,
            additional_wait_period: 0,
        }
    }

    /// A container of `image` named `contain-rs-` followed by `suffix`.
    pub fn from_image_with_suffix(image: Image, suffix: &str) -> (r: Self)
        ensures
            r@ == Container::spec_bare(image@, generated_name_prefix() + suffix@),
    {
        let prefix = "contain-rs-";
        proof {
            reveal_strlit("contain-rs-");
            assert(prefix@ =~= generated_name_prefix());
        }
        let name = String::from_str(prefix).concat(suffix);
        let r = Container {
            name,
            image,
            command: Vec::new(),
            network: None,
            volumes: Vec::new(),
            port_mappings: Vec::new(),
            env_vars: Vec::new(),
            health_check: None,
            wait_strategy: None,
            additional_wait_period: 0,
        };
        assert(r@ =~= Container::spec_bare(image@, generated_name_prefix() + suffix@));
        r
    }

    /// Names the container; the clients find it by this name.
    pub fn name(&mut self, name: &str) -> (r: &mut Self)
        ensures
            r@ == (ContainerView { name: name@, ..old(self)@ }),
            *final(self) == *final(r),
    {
        self.name = String::from_str(name);
        self
    }

    /// Sets the command the container runs.
    pub fn command(&mut self, command: Vec<String>) -> (r: &mut Self)
        ensures
            r@ == (ContainerView { command: command.deep_view(), ..old(self)@ }),
            *final(self) == *final(r),
    {
        self.command = command;
        self
    }

    /// Appends one argument to the command.
    pub fn arg(&mut self, arg: &str) -> (r: &mut Self)
        ensures
            r@ == (ContainerView { command: old(self)@.command.push(arg@), ..old(self)@ }),
            *final(self) == *final(r),
    {
        self.command.push(String::from_str(arg));
        proof {
            assert(self.command.deep_view() =~= old(self).command.deep_view().push(arg@));
        }
        self
    }

    /// Replaces the port mappings by `ports`, each pair mapping a port of
    /// the host to a port of the container.
    pub fn map_ports(&mut self, ports: &[(Port, Port)]) -> (r: &mut Self)
        ensures
            r@ == (ContainerView {
                port_mappings: ports@.map_values(
                    |p: (Port, Port)| PortMappingView { source: p.0.number@, target: p.1.number@ },
                ),
                ..old(self)@
            }),
            *final(self) == *final(r),
    {
        let mut mappings: Vec<PortMapping> = Vec::new();
        let mut i: usize = 0;
        while i < ports.len()
            invariant
                i <= ports@.len(),
                mappings.deep_view() =~= ports@.take(i as int).map_values(
                    |p: (Port, Port)| PortMappingView { source: p.0.number@, target: p.1.number@ },
                ),
            decreases ports.len() - i,
        {
            let ghost old_m = mappings.deep_view();
            let (source, target) = (&ports[i].0, &ports[i].1);
            let m = PortMapping { source: source.clone(), target: target.clone() };
            mappings.push(m);
            assert(mappings.deep_view() =~= old_m.push(m@));
            i = i + 1;
            assert(mappings.deep_view() =~= ports@.take(i as int).map_values(
                |p: (Port, Port)| PortMappingView { source: p.0.number@, target: p.1.number@ },
            ));
        }
        assert(ports@.take(ports@.len() as int) =~= ports@);
        self.port_mappings = mappings;
        self
    }

    /// Adds a named volume of the engine, mounted at `mount_point`.
    pub fn volume(&mut self, name: &str, mount_point: &str) -> (r: &mut Self)
        ensures
            r@ == (ContainerView {
                volumes: old(self)@.volumes.push(VolumeView::Named { name: name@, mount_point: mount_point@ }),
                ..old(self)@
            }),
            *final(self) == *final(r),
    {
        self.volumes.push(Volume::Named { name: String::from_str(name), mount_point: String::from_str(mount_point) });
        proof {
            assert(self.volumes.deep_view() =~= old(self).volumes.deep_view().push(
                VolumeView::Named { name: name@, mount_point: mount_point@ },
            ));
        }
        self
    }

    /// Mounts the directory `host_path` of the host at `mount_point`.
    pub fn mount(&mut self, host_path: &str, mount_point: &str) -> (r: &mut Self)
        ensures
            r@ == (ContainerView {
                volumes: old(self)@.volumes.push(
                    VolumeView::Mount { host_path: host_path@, mount_point: mount_point@ },
                ),
                ..old(self)@
            }),
            *final(self) == *final(r),
    {
        self.volumes.push(Volume::Mount { host_path: String::from_str(host_path), mount_point: String::from_str(mount_point) });
        proof {
            assert(self.volumes.deep_view() =~= old(self).volumes.deep_view().push(
                VolumeView::Mount { host_path: host_path@, mount_point: mount_point@ },
            ));
        }
        self
    }

    /// Publishes port `source` of the host as port `target` of the container.
    pub fn map_port(&mut self, source: Port, target: Port) -> (r: &mut Self)
        ensures
            r@ == (ContainerView {
                port_mappings: old(self)@.port_mappings.push(
                    PortMappingView { source: source.number@, target: target.number@ },
                ),
                ..old(self)@
            }),
            *final(self) == *final(r),
    {
        self.port_mappings.push(PortMapping { source, target });
        proof {
            assert(self.port_mappings.deep_view() =~= old(self).port_mappings.deep_view().push(
                PortMappingView { source: source.number@, target: target.number@ },
            ));
        }
        self
    }

    /// Adds the environment variable `name` with `value`.
    pub fn env_var(&mut self, name: &str, value: &str) -> (r: &mut Self)
        ensures
            r@ == (ContainerView {
                env_vars: old(self)@.env_vars.push(EnvVarView { key: name@, value: value@ }),
                ..old(self)@
            }),
            *final(self) == *final(r),
    {
        self.env_vars.push(EnvVar::new(String::from_str(name), String::from_str(value)));
        proof {
            assert(self.env_vars.deep_view() =~= old(self).env_vars.deep_view().push(
                EnvVarView { key: name@, value: value@ },
            ));
        }
        self
    }

    /// Sets how to wait for the container to be ready.
    pub fn wait_for(&mut self, strategy: WaitStrategy) -> (r: &mut Self)
        ensures
            r@ == (ContainerView { wait_strategy: Some(strategy@), ..old(self)@ }),
            *final(self) == *final(r),
    {
        self.wait_strategy = Some(strategy);
        self
    }

    /// Milliseconds to wait after the wait strategy has succeeded.
    pub fn additional_wait_period(&mut self, period: u64) -> (r: &mut Self)
        ensures
            r@ == (ContainerView { additional_wait_period: period, ..old(self)@ }),
            *final(self) == *final(r),
    {
        self.additional_wait_period = period;
        self
    }

    /// Sets the health check the engine runs, replacing one the image may
    /// define.
    pub fn health_check(&mut self, health_check: HealthCheck) -> (r: &mut Self)
        ensures
            r@ == (ContainerView { health_check: Some(health_check@), ..old(self)@ }),
            *final(self) == *final(r),
    {
        self.health_check = Some(health_check);
        self
    }
}

// ---------------------------------------------------------------- conversions

/// A description that turns into a container.
pub trait IntoContainer {
    fn into_container(self) -> Container;
}

/// A description that may turn into a container.
pub trait TryIntoContainer {
    fn try_into_container(self) -> Result<Container, ContainersError>;
}

impl IntoContainer for Container {
    fn into_container(self) -> (r: Container)
        ensures
            r == self,
    {
        self
    }
}

impl Container {
    pub fn clone(&self) -> (r: Self)
        ensures
            r@ == self@,
    {
        let mut volumes: Vec<Volume> = Vec::new();
        let mut i: usize = 0;
        while i < self.volumes.len()
            invariant
                i <= self.volumes.len(),
                volumes.deep_view() =~= self.volumes.deep_view().take(i as int),
            decreases self.volumes.len() - i,
        {
            let ghost old_v = volumes.deep_view();
            let v = self.volumes[i].clone();
            volumes.push(v);
            assert(volumes.deep_view() =~= old_v.push(self.volumes[i as int]@));
            i = i + 1;
        }
        let mut ports: Vec<PortMapping> = Vec::new();
        let mut i: usize = 0;
        while i < self.port_mappings.len()
            invariant
                i <= self.port_mappings.len(),
                ports.deep_view() =~= self.port_mappings.deep_view().take(i as int),
            decreases self.port_mappings.len() - i,
        {
            let ghost old_p = ports.deep_view();
            let p = self.port_mappings[i].clone();
            ports.push(p);
            assert(ports.deep_view() =~= old_p.push(self.port_mappings[i as int]@));
            i = i + 1;
        }
        let mut envs: Vec<EnvVar> = Vec::new();
        let mut i: usize = 0;
        while i < self.env_vars.len()
            invariant
                i <= self.env_vars.len(),
                envs.deep_view() =~= self.env_vars.deep_view().take(i as int),
            decreases self.env_vars.len() - i,
        {
            let ghost old_e = envs.deep_view();
            let e = self.env_vars[i].clone();
            envs.push(e);
            assert(envs.deep_view() =~= old_e.push(self.env_vars[i as int]@));
            i = i + 1;
        }
        assert(volumes.deep_view() =~= self.volumes.deep_view());
        assert(ports.deep_view() =~= self.port_mappings.deep_view());
        assert(envs.deep_view() =~= self.env_vars.deep_view());
        let r = Container {
            name: self.name.clone(),
            image: self.image.clone(),
            command: clone_strings(&self.command),
            network: match &self.network {
                Some(_) => Some(Network {}),
                None => None,
            },
            volumes,
            port_mappings: ports,
            env_vars: envs,
            health_check: match &self.health_check {
                Some(h) => Some(h.clone()),
                None => None,
            },
            wait_strategy: match &self.wait_strategy {
                Some(w) => Some(w.clone()),
                None => None,
            },
            additional_wait_period: self.additional_wait_period,
        };
        assert(r@ =~= self@);
        r
    }
}

// ---------------------------------------------------------------- laws

proof fn lemma_name_run(s: Seq<char>, i: int, end: int)
    requires
        0 <= i <= end <= s.len(),
        forall|k: int| i <= k < end ==> is_name_char(#[trigger] s[k]),
        end == s.len() || !is_name_char(s[end]),
    ensures
        name_run_end(s, i) == end,
    decreases end - i,
{
    if i < end {
        lemma_name_run(s, i + 1, end);
    }
}

proof fn lemma_tag_run(s: Seq<char>, i: int, end: int)
    requires
        0 <= i <= end <= s.len(),
        forall|k: int| i <= k < end ==> is_tag_char(#[trigger] s[k]),
        end == s.len() || !is_tag_char(s[end]),
    ensures
        tag_run_end(s, i) == end,
    decreases end - i,
{
    if i < end {
        lemma_tag_run(s, i + 1, end);
    }
}

/// Reading an image reference written as `name:tag` gives back the name
/// and the tag, when the name holds only repository characters and the
/// tag only tag characters, and neither is empty.
pub proof fn lemma_image_reference_roundtrip(image: ImageView)
    requires
        image.name.len() > 0,
        image.tag.len() > 0,
        forall|i: int| 0 <= i < image.name.len() ==> is_name_char(#[trigger] image.name[i]),
        forall|i: int| 0 <= i < image.tag.len() ==> is_tag_char(#[trigger] image.tag[i]),
    ensures
        image_reference_captures(image.reference()) == Some((image.name, Some(image.tag))),
{
    let s = image.reference();
    let n = image.name.len() as int;
    assert(s[0] == image.name[0]);
    assert(first_name_char(s, 0) == 0);
    assert forall|k: int| 0 <= k < n implies is_name_char(#[trigger] s[k]) by {
        assert(s[k] == image.name[k]);
    }
    assert(s[n] == ':');
    lemma_name_run(s, 0, n);
    assert forall|k: int| n + 1 <= k < s.len() implies is_tag_char(#[trigger] s[k]) by {
        assert(s[k] == image.tag[k - n - 1]);
    }
    assert(s[n + 1] == image.tag[0]);
    lemma_tag_run(s, n + 1, s.len() as int);
    assert(s.subrange(0, n) =~= image.name);
    assert(s.subrange(n + 1, s.len() as int) =~= image.tag);
}

proof fn lemma_first_name_char(s: Seq<char>, i: int)
    requires
        0 <= i <= s.len(),
    ensures
        i <= first_name_char(s, i) <= s.len(),
        first_name_char(s, i) < s.len() ==> is_name_char(s[first_name_char(s, i)]),
        forall|k: int| i <= k < first_name_char(s, i) ==> !is_name_char(#[trigger] s[k]),
    decreases s.len() - i,
{
    if i < s.len() && !is_name_char(s[i]) {
        lemma_first_name_char(s, i + 1);
    }
}

/// A text reads as an image reference exactly when it holds a repository
/// character; the name read is a non-empty run of repository characters
/// that starts at the first of them, and the tag, if any, a non-empty run
/// of tag characters right after a colon that follows the name.
pub proof fn lemma_image_reference_reads(s: Seq<char>)
    ensures
        image_reference_captures(s) is None <==> forall|k: int| 0 <= k < s.len() ==> !is_name_char(#[trigger] s[k]),
        image_reference_captures(s) matches Some((name, tag)) ==> {
            let start = first_name_char(s, 0);
            &&& name.len() > 0
            &&& (forall|k: int| 0 <= k < start ==> !is_name_char(#[trigger] s[k]))
            &&& s.subrange(start, start + name.len()) == name
            &&& (forall|k: int| 0 <= k < name.len() ==> is_name_char(#[trigger] name[k]))
            &&& (tag matches Some(t) ==> t.len() > 0 && s[start + name.len()] == ':'
                && s.subrange(start + name.len() + 1, start + name.len() + 1 + t.len()) == t
                && (forall|k: int| 0 <= k < t.len() ==> is_tag_char(#[trigger] t[k])))
        },
{
    lemma_first_name_char(s, 0);
    let start = first_name_char(s, 0);
    if start < s.len() {
        lemma_name_run_bounds(s, start);
        let end = name_run_end(s, start);
        let name = s.subrange(start, end);
        assert forall|k: int| 0 <= k < name.len() implies is_name_char(#[trigger] name[k]) by {
            assert(name[k] == s[start + k]);
        }
        if end + 1 < s.len() && s[end] == ':' && is_tag_char(s[end + 1]) {
            lemma_tag_run_bounds(s, end + 1);
            let t = s.subrange(end + 1, tag_run_end(s, end + 1));
            assert forall|k: int| 0 <= k < t.len() implies is_tag_char(#[trigger] t[k]) by {
                assert(t[k] == s[end + 1 + k]);
            }
        }
    }
}

proof fn lemma_name_run_bounds(s: Seq<char>, i: int)
    requires
        0 <= i <= s.len(),
    ensures
        i <= name_run_end(s, i) <= s.len(),
        forall|k: int| i <= k < name_run_end(s, i) ==> is_name_char(#[trigger] s[k]),
        i < s.len() && is_name_char(s[i]) ==> name_run_end(s, i) > i,
    decreases s.len() - i,
{
    if i < s.len() && is_name_char(s[i]) {
        lemma_name_run_bounds(s, i + 1);
    }
}

proof fn lemma_tag_run_bounds(s: Seq<char>, i: int)
    requires
        0 <= i <= s.len(),
    ensures
        i <= tag_run_end(s, i) <= s.len(),
        forall|k: int| i <= k < tag_run_end(s, i) ==> is_tag_char(#[trigger] s[k]),
        i < s.len() && is_tag_char(s[i]) ==> tag_run_end(s, i) > i,
    decreases s.len() - i,
{
    if i < s.len() && is_tag_char(s[i]) {
        lemma_tag_run_bounds(s, i + 1);
    }
}

} // verus!
