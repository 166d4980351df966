//! Settings of a run: the mailbox connection, the filter scripts, and the
//! command-line options that may override the connection.
use vstd::prelude::*;

verus! {

#[derive(Debug)]
pub struct Config {
    pub connection: Connection,
    pub imap_options: Option<ImapOptions>,
    pub scripts: Option<Vec<Script>>,
}

#[derive(Debug)]
pub struct Connection {
    pub hostname: String,
    pub port: u16,
    pub username: String,
    pub password: String,
}

/// Which part of a message a filter script receives as its argument.
#[allow(non_camel_case_types, clippy::upper_case_acronyms)]
#[derive(Debug, Clone, Copy, PartialEq, Eq, Structural)]
pub enum EmailField {
    SUBJECT,
    BODY,
    UID,
}

/// A filter program of the pipeline.
#[derive(Debug)]
pub struct Script {
    /// Program that runs `location`, when it is not run directly.
    pub interpreter: Option<String>,
    pub location: String,
    /// Place in the pipeline: ascending keys first, unkeyed scripts after.
    pub sortkey: Option<i32>,
    /// The argument handed over; the whole message as JSON when absent.
    pub email_field: Option<EmailField>,
}

#[derive(Debug)]
pub struct ImapOptions {
    pub sections: Vec<Sections>,
}

#[allow(non_camel_case_types, clippy::upper_case_acronyms)]
#[derive(Debug, Clone, Copy, PartialEq, Eq, Structural)]
pub enum Sections {
    FLAGS,
    INTERNALDATE,
    RFC822,
    ENVELOPE,
}

/// Command-line options of the mail tools.
#[derive(Debug)]
pub struct Args {
    /// Fetch and process all messages since the last run.
    pub catch_up: bool,
    /// Never write the checkpoint.
    pub no_catch_up_write: bool,
    /// Location of the configuration file.
    pub config: Option<String>,
    /// Do not enter the live loop.
    pub no_idle: bool,
    pub hostname: Option<String>,
    pub port: Option<u16>,
    pub username: Option<String>,
    pub password: Option<String>,
    /// Keep reading input after the first line.
    pub forever: Option<bool>,
}

pub open spec fn or_else<T>(o: Option<T>, d: T) -> T {
    match o {
        Some(v) => v,
        None => d,
    }
}

fn string_or(o: &Option<String>, d: String) -> (r: String)
    ensures
        r == or_else(*o, d),
{
    match o {
        Some(v) => v.clone(),
        None => d,
    }
}

impl Args {
    /// The configuration with each connection setting given on the command
    /// line put in place of the file's; everything else is kept.
    pub fn overwrite_config(&self, config: Config) -> (r: Config)
        ensures
            r.connection.hostname == or_else(self.hostname, config.connection.hostname),
            r.connection.port == or_else(self.port, config.connection.port),
            r.connection.username == or_else(self.username, config.connection.username),
            r.connection.password == or_else(self.password, config.connection.password),
            r.imap_options == config.imap_options,
            r.scripts == config.scripts,
    {
        let Config { connection, imap_options, scripts } = config;
        let Connection { hostname, port, username, password } = connection;
        let port = match self.port {
            Some(p) => p,
            None => port,
        };
        Config {
            connection: Connection {
                hostname: string_or(&self.hostname, hostname),
                port,
                username: string_or(&self.username, username),
                password: string_or(&self.password, password),
            },
            imap_options,
            scripts,
        }
    }
}

} // verus!
