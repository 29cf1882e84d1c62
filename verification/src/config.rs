use vstd::prelude::*;

verus! {

/// The connection settings of a script, in mathematical terms.
pub struct ConfigModel {
    pub host: Seq<char>,
    pub port: u16,
    pub user: Seq<char>,
    pub password: Seq<char>,
    pub database: Seq<char>,
}

/// The settings that hold where a script does not say otherwise:
/// a local server on the standard Bolt port.
pub open spec fn default_config() -> ConfigModel {
    ConfigModel {
        host: "localhost"@,
        port: 7687,
        user: "neo4j"@,
        password: "password"@,
        database: "neo4j"@,
    }
}

/// Where and as whom the generated queries are run.
#[derive(Debug, Clone, PartialEq, Eq)]
pub struct SetupConfig {
    pub host: String,
    pub port: u16,
    pub user: String,
    pub password: String,
    pub database: String,
}

impl View for SetupConfig {
    type V = ConfigModel;

    open spec fn view(&self) -> ConfigModel {
        ConfigModel {
            host: self.host@,
            port: self.port,
            user: self.user@,
            password: self.password@,
            database: self.database@,
        }
    }
}

impl SetupConfig {
    /// The default settings (see `default_config`).
    pub fn new() -> (c: SetupConfig)
        ensures
            c@ == default_config(),
    {
        SetupConfig {
            host: String::from_str("localhost"),
            port: 7687,
            user: String::from_str("neo4j"),
            password: String::from_str("password"),
            database: String::from_str("neo4j"),
        }
    }
}

} // verus!
