//! The command line's arguments, as plain values: the global options and the
//! commands with their options.

use vstd::prelude::*;

verus! {

/// The global options and the command.
#[derive(Debug)]
pub struct Cli {
    /// Namecheap API user (else `NAMECHEAP_API_USER`).
    pub api_user: Option<String>,
    /// Namecheap API key (else `NAMECHEAP_API_KEY`).
    pub api_key: Option<String>,
    /// Whitelisted client IP address (else `NAMECHEAP_CLIENT_IP`).
    pub client_ip: Option<String>,
    /// Use the sandbox API.
    pub sandbox: bool,
    /// Print JSON.
    pub json: bool,
    pub command: Commands,
}

#[derive(Debug)]
pub enum Commands {
    /// Domain management commands (check, list, info).
    Domains(DomainsArgs),
    /// DNS record management commands (list, add, delete, nameservers).
    Dns(DnsArgs),
    /// View or configure API credentials and defaults.
    Config(ConfigArgs),
    /// Log in and store Namecheap API credentials.
    Login(LoginArgs),
    /// Look up the current public IP address.
    Ip,
}

/// The options of `login`.
#[derive(Debug, Clone)]
pub struct LoginArgs {
    pub api_user: Option<String>,
    pub api_key: Option<String>,
    /// Read the API key from standard input.
    pub api_key_stdin: bool,
    pub client_ip: Option<String>,
    /// Make the sandbox the default.
    pub sandbox: bool,
}

#[derive(Debug)]
pub struct DomainsArgs {
    pub command: DomainCommands,
}

#[derive(Debug)]
pub enum DomainCommands {
    /// Check the availability of one or more domain names.
    Check { domains: Vec<String> },
    /// List the account's registered domains.
    List { page: u32, page_size: u32, search: Option<String>, sort_by: Option<String> },
    /// Get the details of a registered domain.
    Info { domain: String },
}

#[derive(Debug)]
pub struct DnsArgs {
    pub command: DnsCommands,
}

#[derive(Debug)]
pub enum DnsCommands {
    /// List all DNS host records of a domain.
    List { domain: String },
    /// Add a DNS host record.
    Add {
        domain: String,
        name: String,
        record_type: String,
        address: String,
        mx_pref: Option<u32>,
        ttl: u32,
    },
    /// Delete the DNS host records with a host name (and a type, if given).
    Delete { domain: String, name: String, record_type: Option<String> },
    /// Point the domain at custom name servers.
    SetCustom { domain: String, nameservers: Vec<String> },
    /// Point the domain back at Namecheap's default DNS.
    SetDefault { domain: String },
}

#[derive(Debug)]
pub struct ConfigArgs {
    pub command: ConfigCommands,
}

#[derive(Debug)]
pub enum ConfigCommands {
    /// Show the stored configuration.
    Show,
    /// Store configuration values.
    SetValues { api_user: Option<String>, api_key: Option<String>, client_ip: Option<String>, sandbox: Option<bool> },
    /// Print the path of the configuration file.
    Path,
}

} // verus!
