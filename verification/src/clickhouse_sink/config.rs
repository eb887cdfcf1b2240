//! How the sink is configured.

use vstd::prelude::*;

verus! {

/// Where the database is, who writes to it, and what is added to every event.
#[derive(Debug, Clone)]
pub struct ClickhouseConfig {
    pub url: String,
    pub user: String,
    pub password: String,
    pub database: String,
    pub env: Option<String>,
    pub host: Option<String>,
}

/// The user where none is given.
pub fn default_user() -> (user: String)
    ensures
        user@ == "default"@,
{
    "default".to_owned()
}

/// The database where none is given.
pub fn default_database() -> (database: String)
    ensures
        database@ == "default"@,
{
    "default".to_owned()
}

impl ClickhouseConfig {
    /// The settings that the client of the database is made with: events hold json, and it is
    /// sent as text.
    pub fn client_options(&self) -> (options: Vec<(&'static str, &'static str)>)
        ensures
            options@.len() == 2,
            options@[0].0@ == "allow_experimental_json_type"@,
            options@[0].1@ == "1"@,
            options@[1].0@ == "input_format_binary_read_json_as_string"@,
            options@[1].1@ == "1"@,
    {
        let mut options: Vec<(&'static str, &'static str)> = Vec::new();
        options.push(("allow_experimental_json_type", "1"));
        options.push(("input_format_binary_read_json_as_string", "1"));
        options
    }
}

} // verus!
