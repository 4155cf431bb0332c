//! The per-invocation execution context: the resolved configuration and
//! the database url one command will use.

use crate::config::Config;
use vstd::prelude::*;

verus! {

/// Owned exclusively by one command execution; the caller opens (and
/// later releases) the storage connection for `database_url` itself.
pub struct Context {
    config: Config,
    database_url: String,
}

impl Context {
    pub closed spec fn spec_config_url(&self) -> Seq<char> {
        self.config.spec_database_url()
    }

    pub closed spec fn spec_database_url(&self) -> Seq<char> {
        self.database_url@
    }

    /// Builds the context from the parsed configuration: the database
    /// url is the command-line override when one was given, else the
    /// configured one.
    pub fn init(config: Config, database_override: Option<String>) -> (ctx: Context)
        ensures
            ctx.spec_config_url() == config.spec_database_url(),
            ctx.spec_database_url() == match database_override {
                Some(u) => u@,
                None => config.spec_database_url(),
            },
    {
        let url = match database_override {
            Some(u) => u,
            None => config.database().url().clone(),
        };
        Context { config, database_url: url }
    }

    pub fn config(&self) -> (r: &Config)
        ensures
            r.spec_database_url() == self.spec_config_url(),
    {
        &self.config
    }

    pub fn database_url(&self) -> (r: &String)
        ensures
            r@ == self.spec_database_url(),
    {
        &self.database_url
    }
}

} // verus!
