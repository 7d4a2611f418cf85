//! A SurrealDB database container.

use vstd::prelude::*;
use crate::container::{
    latest_tag, Container, ContainerView, Image, ImageView, IntoContainer, Port, PortMappingView,
    WaitStrategy, WaitStrategyView,
};
use crate::text::decimal;

verus! {

/// The settings of a SurrealDB container.
#[derive(Debug)]
pub struct SurrealDB {
    user: Option<String>,
    password: Option<String>,
    port: u32,
}

pub struct SurrealDBView {
    pub user: Option<Seq<char>>,
    pub password: Option<Seq<char>>,
    pub port: u32,
}

impl View for SurrealDB {
    type V = SurrealDBView;

    closed spec fn view(&self) -> SurrealDBView {
        SurrealDBView {
            user: match &self.user {
                Some(u) => Some(u@),
                None => None,
            },
            password: match &self.password {
                Some(p) => Some(p@),
                None => None,
            },
            port: self.port,
        }
    }
}

/// The flag and value arguments of an optional setting.
pub open spec fn flag_args(flag: Seq<char>, value: Option<Seq<char>>) -> Seq<Seq<char>> {
    match value {
        Some(v) => seq![flag, v],
        None => Seq::empty(),
    }
}

/// The container of a SurrealDB setting, but for its name: the server is
/// started with the user and password flags where they are set, the host
/// port is published as port 8000, and the container is ready once its log
/// reports the web server started.
pub open spec fn surrealdb_container(s: SurrealDBView, name: Seq<char>) -> ContainerView {
    ContainerView {
        command: seq!["start"@] + flag_args("--user"@, s.user) + flag_args("--pass"@, s.password),
        port_mappings: seq![PortMappingView { source: decimal(s.port as nat), target: "8000"@ }],
        wait_strategy: Some(WaitStrategyView::LogMessage { pattern: ".*Started web server on.*"@ }),
        ..Container::spec_bare(ImageView { name: "docker.io/surrealdb/surrealdb"@, tag: "latest"@ }, name)
    }
}

impl Default for SurrealDB {
    fn default() -> (r: Self)
        ensures
            r@ == (SurrealDBView { user: None, password: None, port: 0 }),
    {
        SurrealDB { user: None, password: None, port: 0 }
    }
}

impl SurrealDB {
    /// A copy of the settings.
    pub fn clone(&self) -> (r: Self)
        ensures
            r@ == self@,
    {
        SurrealDB {
            user: match &self.user {
                Some(u) => Some(u.clone()),
                None => None,
            },
            password: match &self.password {
                Some(p) => Some(p.clone()),
                None => None,
            },
            port: self.port,
        }
    }

    /// Sets the user and returns a copy of the new settings.
    pub fn user(&mut self, user: &str) -> (r: Self)
        ensures
            final(self)@ == (SurrealDBView { user: Some(user@), ..old(self)@ }),
            r@ == final(self)@,
    {
        self.user = Some(String::from_str(user));
        self.clone()
    }

    /// Sets the password and returns a copy of the new settings.
    pub fn password(&mut self, password: &str) -> (r: Self)
        ensures
            final(self)@ == (SurrealDBView { password: Some(password@), ..old(self)@ }),
            r@ == final(self)@,
    {
        self.password = Some(String::from_str(password));
        self.clone()
    }

    /// Sets the port of the host that the database is published on.
    pub fn port(&mut self, port: u32) -> (r: Self)
        ensures
            final(self)@ == (SurrealDBView { port, ..old(self)@ }),
            r@ == final(self)@,
    {
        self.port = port;
        self.clone()
    }
}

impl IntoContainer for SurrealDB {
    fn into_container(self) -> (r: Container)
        ensures
            r@ == surrealdb_container(self@, r@.name),
    {
        let ghost s = self@;
        let mut container = Container::from_image(
            Image::from_name_and_tag("docker.io/surrealdb/surrealdb", "latest"),
        );
        let mut command: Vec<String> = Vec::new();
        command.push(String::from_str("start"));
        container.command(command);
        let ghost c0 = container@;
        match &self.user {
            Some(user) => {
                container.arg("--user");
                container.arg(user.as_str());
            },
            None => {},
        }
        let ghost c1 = container@;
        match &self.password {
            Some(password) => {
                container.arg("--pass");
                container.arg(password.as_str());
            },
            None => {},
        }
        container.map_port(Port::from_number(self.port), Port::from_number(8000));
        container.wait_for(WaitStrategy::LogMessage { pattern: String::from_str(".*Started web server on.*") });
        proof {
            assert(decimal(8000) == "8000"@) by {
                reveal_strlit("8000");
                assert(decimal(8000) =~= decimal(800).push('0'));
                assert(decimal(800) =~= decimal(80).push('0'));
                assert(decimal(80) =~= decimal(8).push('0'));
                assert(decimal(8) =~= seq!['8']);
            }
            assert(c0.command =~= seq!["start"@]);
            assert(c1.command =~= seq!["start"@] + flag_args("--user"@, s.user));
            assert(container@.command =~= seq!["start"@] + flag_args("--user"@, s.user) + flag_args("--pass"@, s.password));
            assert(container@.port_mappings =~= seq![PortMappingView { source: decimal(s.port as nat), target: "8000"@ }]);
            assert(container@ =~= surrealdb_container(s, container@.name));
        }
        container
    }
}

/// A SurrealDB container runs `start`, followed by `--user <user>` when a
/// user is set and then `--pass <password>` when a password is set, and
/// nothing else; it publishes the chosen host port as port 8000.
pub proof fn lemma_surrealdb_command(s: SurrealDBView, name: Seq<char>)
    ensures
        ({
            let c = surrealdb_container(s, name).command;
            let k = if s.user is Some { 3int } else { 1int };
            &&& c.len() == k + (if s.password is Some { 2int } else { 0int })
            &&& c[0] == "start"@
            &&& (s.user matches Some(u) ==> c[1] == "--user"@ && c[2] == u)
            &&& (s.password matches Some(p) ==> c[k] == "--pass"@ && c[k + 1] == p)
        }),
        surrealdb_container(s, name).port_mappings.len() == 1,
        surrealdb_container(s, name).port_mappings[0].source == decimal(s.port as nat),
{
    let c = surrealdb_container(s, name).command;
    let k = if s.user is Some { 3int } else { 1int };
    assert(c == seq!["start"@] + flag_args("--user"@, s.user) + flag_args("--pass"@, s.password));
    match s.user {
        Some(u) => {
            assert(c[1] == "--user"@ && c[2] == u);
        },
        None => {},
    }
    match s.password {
        Some(p) => {
            assert(c[k] == "--pass"@ && c[k + 1] == p);
        },
        None => {},
    }
}

} // verus!
