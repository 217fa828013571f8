//! The configuration: where the database is, and where schema files,
//! migrations and queries lie.

use vstd::prelude::*;
use vstd::string::*;

verus! {

/// The whole configuration.
#[derive(Clone, Debug)]
pub struct Config {
    pub database: DatabaseConfig,
    pub schema: SchemaConfig,
    pub migrations: MigrationsConfig,
    pub diff: DiffConfig,
    pub queries: QueriesConfig,
}

/// How the database is reached.
#[derive(Clone, Debug)]
pub struct DatabaseConfig {
    pub url: Option<String>,
    pub host: Option<String>,
    pub port: Option<u16>,
    pub user: Option<String>,
    pub password: Option<String>,
    pub dbname: String,
}

/// What a diff shows.
#[derive(Clone, Copy, Debug, PartialEq, Eq, Structural)]
pub struct DiffConfig {
    /// Whether a diff that drops something is refused.
    pub safe: bool,
    /// Whether differences in privileges are shown.
    pub privileges: bool,
}

/// Where the schema files lie.
#[derive(Clone, Debug)]
pub struct SchemaConfig {
    pub filename: String,
}

/// Where the migration files lie.
#[derive(Clone, Debug)]
pub struct MigrationsConfig {
    pub filename: String,
}

/// Where the query files lie.
#[derive(Clone, Debug)]
pub struct QueriesConfig {
    pub filename: String,
}

/// Whether a diff that drops something is refused unless told otherwise: it is not.
pub fn default_diff_safe() -> (r: bool)
    ensures
        !r,
{
    false
}

/// Whether differences in privileges are shown unless told otherwise: they are.
pub fn default_diff_privileges() -> (r: bool)
    ensures
        r,
{
    true
}

/// The pattern of the schema files unless told otherwise.
pub fn default_schema_filename() -> (r: String)
    ensures
        r@ == "db/schema/**/*.sql"@,
{
    String::from_str("db/schema/**/*.sql")
}

/// The pattern of the migration files unless told otherwise.
pub fn default_migrations_filename() -> (r: String)
    ensures
        r@ == "db/migrations/**/*.sql"@,
{
    String::from_str("db/migrations/**/*.sql")
}

/// The pattern of the query files unless told otherwise.
pub fn default_queries_filename() -> (r: String)
    ensures
        r@ == "db/queries/**/*.sql"@,
{
    String::from_str("db/queries/**/*.sql")
}

impl Default for DiffConfig {
    fn default() -> (r: Self)
        ensures
            r == (DiffConfig { safe: false, privileges: true }),
    {
        DiffConfig { safe: default_diff_safe(), privileges: default_diff_privileges() }
    }
}

impl Default for SchemaConfig {
    fn default() -> (r: Self)
        ensures
            r.filename@ == "db/schema/**/*.sql"@,
    {
        SchemaConfig { filename: default_schema_filename() }
    }
}

impl Default for MigrationsConfig {
    fn default() -> (r: Self)
        ensures
            r.filename@ == "db/migrations/**/*.sql"@,
    {
        MigrationsConfig { filename: default_migrations_filename() }
    }
}

impl Default for QueriesConfig {
    fn default() -> (r: Self)
        ensures
            r.filename@ == "db/queries/**/*.sql"@,
    {
        QueriesConfig { filename: default_queries_filename() }
    }
}

impl Default for DatabaseConfig {
    fn default() -> (r: Self)
        ensures
            r.url is None,
            r.host is None,
            r.port is None,
            r.user is None,
            r.password is None,
            r.dbname@ == Seq::<char>::empty(),
    {
        DatabaseConfig {
            url: None,
            host: None,
            port: None,
            user: None,
            password: None,
            dbname: String::new(),
        }
    }
}

impl Default for Config {
    fn default() -> (r: Self)
        ensures
            r.database.url is None,
            r.database.host is None,
            r.database.port is None,
            r.database.user is None,
            r.database.password is None,
            r.database.dbname@ == Seq::<char>::empty(),
            r.schema.filename@ == "db/schema/**/*.sql"@,
            r.migrations.filename@ == "db/migrations/**/*.sql"@,
            r.diff == (DiffConfig { safe: false, privileges: true }),
            r.queries.filename@ == "db/queries/**/*.sql"@,
    {
        Config {
            database: DatabaseConfig::default(),
            schema: SchemaConfig::default(),
            migrations: MigrationsConfig::default(),
            diff: DiffConfig::default(),
            queries: QueriesConfig::default(),
        }
    }
}

impl Config {
    /// A configuration to start from: every setting is there, the settings
    /// of the database are empty but for the port, and the others have
    /// their defaults.
    pub fn template() -> (r: Self)
        ensures
            opt_text(r.database.url) == Some(Seq::<char>::empty()),
            opt_text(r.database.host) == Some(Seq::<char>::empty()),
            r.database.port == Some(5432u16),
            opt_text(r.database.user) == Some(Seq::<char>::empty()),
            opt_text(r.database.password) == Some(Seq::<char>::empty()),
            r.database.dbname@ == Seq::<char>::empty(),
            r.schema.filename@ == "db/schema/**/*.sql"@,
            r.migrations.filename@ == "db/migrations/**/*.sql"@,
            r.diff == (DiffConfig { safe: false, privileges: true }),
            r.queries.filename@ == "db/queries/**/*.sql"@,
    {
        Config {
            database: DatabaseConfig {
                url: Some(String::new()),
                host: Some(String::new()),
                dbname: String::new(),
                password: Some(String::new()),
                port: Some(5432),
                user: Some(String::new()),
            },
            schema: SchemaConfig { filename: default_schema_filename() },
            migrations: MigrationsConfig { filename: default_migrations_filename() },
            diff: DiffConfig { privileges: default_diff_privileges(), safe: default_diff_safe() },
            queries: QueriesConfig { filename: default_queries_filename() },
        }
    }
}

/// The host of a connection.
#[derive(Clone, Debug)]
pub enum Host {
    /// A host by name or address.
    Name(String),
    /// The directory of a Unix socket.
    SocketDir(String),
}

/// The settings of a connection to the database. Where there is a URL the
/// settings are laid over what the URL says.
#[derive(Clone, Debug)]
pub struct Connection {
    pub url: Option<String>,
    pub host: Host,
    pub port: Option<u16>,
    pub user: String,
    pub password: Option<String>,
    pub dbname: String,
}

/// No user is configured and the system gave no user name.
#[derive(Clone, Copy, Debug, PartialEq, Eq, Structural)]
pub struct MissingUser;

impl MissingUser {
    /// The message of the error.
    pub fn to_string(&self) -> (r: String)
        ensures
            r@ == "No database user specified. Fallback to system user name failed."@,
    {
        String::from_str("No database user specified. Fallback to system user name failed.")
    }
}

/// The text of an optional string.
pub open spec fn opt_text(s: Option<String>) -> Option<Seq<char>> {
    match s {
        Some(s) => Some(s@),
        None => None,
    }
}

/// A copy of an optional string.
fn copy_opt(s: &Option<String>) -> (r: Option<String>)
    ensures
        opt_text(r) == opt_text(*s),
{
    match s {
        Some(s) => Some(s.clone()),
        None => None,
    }
}

impl DatabaseConfig {
    /// Settles the settings of a connection. Without a host the connection
    /// goes through the socket in `/var/run/postgresql`. Without a user it
    /// is made as `system_user`, the name of the user of the system; where
    /// there is neither, no connection can be made.
    pub fn connection(&self, system_user: Option<&str>) -> (r: Result<Connection, MissingUser>)
        ensures
            match r {
                Ok(c) => {
                    &&& opt_text(c.url) == opt_text(self.url)
                    &&& match self.host {
                        Some(h) => c.host matches Host::Name(n) && n@ == h@,
                        None => c.host matches Host::SocketDir(d) && d@ == "/var/run/postgresql"@,
                    }
                    &&& c.port == self.port
                    &&& match (self.user, system_user) {
                        (Some(u), _) => c.user@ == u@,
                        (None, Some(u)) => c.user@ == u@,
                        (None, None) => false,
                    }
                    &&& opt_text(c.password) == opt_text(self.password)
                    &&& c.dbname@ == self.dbname@
                },
                Err(_) => self.user is None && system_user is None,
            },
    {
        let host = match &self.host {
            Some(h) => Host::Name(h.clone()),
            None => Host::SocketDir(String::from_str("/var/run/postgresql")),
        };
        let user = match (&self.user, system_user) {
            (Some(u), _) => u.clone(),
            (None, Some(u)) => String::from_str(u),
            (None, None) => {
                return Err(MissingUser);
            },
        };
        Ok(
            Connection {
                url: copy_opt(&self.url),
                host,
                port: self.port,
                user,
                password: copy_opt(&self.password),
                dbname: self.dbname.clone(),
            },
        )
    }

    /// The same settings for the database `dbname`.
    pub fn with_dbname(&self, dbname: &str) -> (r: DatabaseConfig)
        ensures
            opt_text(r.url) == opt_text(self.url),
            opt_text(r.host) == opt_text(self.host),
            r.port == self.port,
            opt_text(r.user) == opt_text(self.user),
            opt_text(r.password) == opt_text(self.password),
            r.dbname@ == dbname@,
    {
        DatabaseConfig {
            url: copy_opt(&self.url),
            host: copy_opt(&self.host),
            port: self.port,
            user: copy_opt(&self.user),
            password: copy_opt(&self.password),
            dbname: String::from_str(dbname),
        }
    }
}

/// Where a structure is read from.
#[derive(Clone, Copy, Debug, PartialEq, Eq, Structural, Hash)]
pub enum Backend {
    /// The migration files, run one after the other.
    Migrations,
    /// The schema files.
    Schema,
    /// The database itself.
    Database,
}

/// What is inspected for a backend.
#[derive(Debug)]
pub enum Source<'a> {
    /// The files that match the pattern, run against a scratch database.
    Files(&'a String),
    /// The configured database.
    Database,
}

impl Backend {
    /// The name of the backend on the command line.
    pub fn name(self) -> (r: &'static str)
        ensures
            r@ == match self {
                Backend::Migrations => "migrations"@,
                Backend::Schema => "schema"@,
                Backend::Database => "database"@,
            },
    {
        match self {
            Backend::Migrations => "migrations",
            Backend::Schema => "schema",
            Backend::Database => "database",
        }
    }
}

impl Config {
    /// What is inspected for a backend.
    pub fn source(&self, backend: Backend) -> (r: Source<'_>)
        ensures
            match backend {
                Backend::Migrations => r matches Source::Files(p) && *p == self.migrations.filename,
                Backend::Schema => r matches Source::Files(p) && *p == self.schema.filename,
                Backend::Database => r is Database,
            },
    {
        match backend {
            Backend::Migrations => Source::Files(&self.migrations.filename),
            Backend::Schema => Source::Files(&self.schema.filename),
            Backend::Database => Source::Database,
        }
    }
}

/// The two sides of a diff in the order in which they are compared: as
/// given, or exchanged where the diff is reversed.
pub fn diff_direction(from: Backend, to: Backend, reverse: bool) -> (r: (Backend, Backend))
    ensures
        r == if reverse {
            (to, from)
        } else {
            (from, to)
        },
{
    if reverse {
        (to, from)
    } else {
        (from, to)
    }
}

} // verus!
