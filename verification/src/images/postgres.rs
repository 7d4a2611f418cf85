//! A postgres database container.

use vstd::prelude::*;
use crate::container::{
    latest_tag, Container, ContainerView, EnvVarView, HealthCheck, HealthCheckView, Image,
    ImageView, IntoContainer, WaitStrategy, WaitStrategyView,
};

verus! {

/// The settings of a postgres container.
#[derive(Debug)]
pub struct Postgres {
    db: Option<String>,
    user: Option<String>,
    password: String,
}

pub struct PostgresView {
    pub db: Option<Seq<char>>,
    pub user: Option<Seq<char>>,
    pub password: Seq<char>,
}

impl View for Postgres {
    type V = PostgresView;

    closed spec fn view(&self) -> PostgresView {
        PostgresView {
            db: match &self.db {
                Some(d) => Some(d@),
                None => None,
            },
            user: match &self.user {
                Some(u) => Some(u@),
                None => None,
            },
            password: self.password@,
        }
    }
}

/// The repository of the postgres image.
pub open spec fn postgres_image() -> Seq<char> {
    "docker.io/library/postgres"@
}

/// The environment of a postgres container: the password, then the
/// database and the user where they are set.
pub open spec fn postgres_env(p: PostgresView) -> Seq<EnvVarView> {
    seq![EnvVarView { key: "POSTGRES_PASSWORD"@, value: p.password }]
        + match p.db {
            Some(d) => seq![EnvVarView { key: "POSTGRES_DB"@, value: d }],
            None => Seq::empty(),
        }
        + match p.user {
            Some(u) => seq![EnvVarView { key: "POSTGRES_USER"@, value: u }],
            None => Seq::empty(),
        }
}

/// The container of a postgres setting, but for its name.
pub open spec fn postgres_container(p: PostgresView, name: Seq<char>) -> ContainerView {
    ContainerView {
        health_check: Some(HealthCheckView {
            command: "pg_isready"@,
            retries: None,
            interval: None,
            start_period: None,
            timeout: None,
        }),
        additional_wait_period: 2000,
        wait_strategy: Some(WaitStrategyView::HealthCheck),
        env_vars: postgres_env(p),
        ..Container::spec_bare(ImageView { name: postgres_image(), tag: latest_tag() }, name)
    }
}

impl Postgres {
    /// The default settings: no database, no user, and the image's
    /// repository name as password.
    pub fn default() -> (r: Self)
        ensures
            r@ == (PostgresView { db: None, user: None, password: postgres_image() }),
    {
        Postgres { db: None, user: None, password: String::from_str("docker.io/library/postgres") }
    }

    pub fn with_password(self, password: &str) -> (r: Self)
        ensures
            r@ == (PostgresView { password: password@, ..self@ }),
    {
        Postgres { password: String::from_str(password), ..self }
    }

    pub fn with_user(self, user: &str) -> (r: Self)
        ensures
            r@ == (PostgresView { user: Some(user@), ..self@ }),
    {
        Postgres { user: Some(String::from_str(user)), ..self }
    }

    pub fn with_db(self, db: &str) -> (r: Self)
        ensures
            r@ == (PostgresView { db: Some(db@), ..self@ }),
    {
        Postgres { db: Some(String::from_str(db)), ..self }
    }

    /// The container: the postgres image with the `pg_isready` health
    /// check, waited for until healthy and two seconds more, with the
    /// settings as environment.
    pub fn container(self) -> (r: Container)
        ensures
            r@ == postgres_container(self@, r@.name),
    {
        let ghost p = self@;
        let mut container = Container::from_image(Image::from_name("docker.io/library/postgres"));
        container
            .health_check(HealthCheck::new("pg_isready"))
            .additional_wait_period(2000)
            .wait_for(WaitStrategy::HealthCheck)
            .env_var("POSTGRES_PASSWORD", self.password.as_str());
        let ghost c1 = container@;
        match &self.db {
            Some(db) => {
                container.env_var("POSTGRES_DB", db.as_str());
            },
            None => {},
        }
        let ghost c2 = container@;
        match &self.user {
            Some(user) => {
                container.env_var("POSTGRES_USER", user.as_str());
            },
            None => {},
        }
        proof {
            assert(c1.env_vars =~= seq![EnvVarView { key: "POSTGRES_PASSWORD"@, value: p.password }]);
            assert(container@.env_vars =~= postgres_env(p));
            assert(container@ =~= postgres_container(p, container@.name));
        }
        container
    }
}

impl IntoContainer for Postgres {
    fn into_container(self) -> (r: Container)
        ensures
            r@ == postgres_container(self@, r@.name),
    {
        self.container()
    }
}

/// The environment of a postgres container holds the password, holds
/// `POSTGRES_DB` exactly when a database is set and `POSTGRES_USER`
/// exactly when a user is set, each with its value and independently of
/// the other, and nothing else.
pub proof fn lemma_postgres_env_settings(p: PostgresView)
    ensures
        exists|i: int| 0 <= i < postgres_env(p).len()
            && postgres_env(p)[i] == (EnvVarView { key: "POSTGRES_PASSWORD"@, value: p.password }),
        forall|u: Seq<char>| (exists|i: int| 0 <= i < postgres_env(p).len()
            && #[trigger] postgres_env(p)[i] == (EnvVarView { key: "POSTGRES_USER"@, value: u })) ==> p.user == Some(u),
        p.user matches Some(u) ==> exists|i: int| 0 <= i < postgres_env(p).len()
            && postgres_env(p)[i] == (EnvVarView { key: "POSTGRES_USER"@, value: u }),
        forall|d: Seq<char>| (exists|i: int| 0 <= i < postgres_env(p).len()
            && #[trigger] postgres_env(p)[i] == (EnvVarView { key: "POSTGRES_DB"@, value: d })) ==> p.db == Some(d),
        p.db matches Some(d) ==> exists|i: int| 0 <= i < postgres_env(p).len()
            && postgres_env(p)[i] == (EnvVarView { key: "POSTGRES_DB"@, value: d }),
        postgres_env(p).len() == 1 + (if p.db is Some { 1int } else { 0 }) + (if p.user is Some { 1int } else { 0 }),
{
    let env = postgres_env(p);
    reveal_strlit("POSTGRES_PASSWORD");
    reveal_strlit("POSTGRES_USER");
    reveal_strlit("POSTGRES_DB");
    assert("POSTGRES_USER"@ != "POSTGRES_DB"@) by {
        assert("POSTGRES_USER"@.len() != "POSTGRES_DB"@.len());
    }
    assert("POSTGRES_USER"@ != "POSTGRES_PASSWORD"@) by {
        assert("POSTGRES_USER"@.len() != "POSTGRES_PASSWORD"@.len());
    }
    assert("POSTGRES_DB"@ != "POSTGRES_PASSWORD"@) by {
        assert("POSTGRES_DB"@.len() != "POSTGRES_PASSWORD"@.len());
    }
    assert(env[0] == (EnvVarView { key: "POSTGRES_PASSWORD"@, value: p.password }));
    match p.db {
        Some(d) => {
            assert(env[1] == (EnvVarView { key: "POSTGRES_DB"@, value: d }));
        },
        None => {},
    }
    match p.user {
        Some(u) => {
            assert(env[env.len() - 1] == (EnvVarView { key: "POSTGRES_USER"@, value: u }));
        },
        None => {},
    }
}

} // verus!
