//! API credentials: the stored configuration file's contents, how flags,
//! environment and file combine into the credentials a request uses, and how
//! the `config set` and `login` commands change the stored values.

use vstd::prelude::*;
use crate::text::{eq_ic, eq_ignore_ascii_case, opt_view, str_eq, trim, trim_str};

verus! {

/// The stored configuration; each value may be missing.
#[derive(Debug, Clone, PartialEq)]
pub struct ConfigFile {
    pub api_user: Option<String>,
    pub api_key: Option<String>,
    pub client_ip: Option<String>,
    pub sandbox: Option<bool>,
}

pub struct ConfigFileView {
    pub api_user: Option<Seq<char>>,
    pub api_key: Option<Seq<char>>,
    pub client_ip: Option<Seq<char>>,
    pub sandbox: Option<bool>,
}

impl View for ConfigFile {
    type V = ConfigFileView;

    open spec fn view(&self) -> ConfigFileView {
        ConfigFileView {
            api_user: opt_view(self.api_user),
            api_key: opt_view(self.api_key),
            client_ip: opt_view(self.client_ip),
            sandbox: self.sandbox,
        }
    }
}

impl Default for ConfigFile {
    /// A configuration with nothing stored.
    fn default() -> (c: ConfigFile)
        ensures
            c@ == (ConfigFileView { api_user: None, api_key: None, client_ip: None, sandbox: None }),
    {
        ConfigFile { api_user: None, api_key: None, client_ip: None, sandbox: None }
    }
}

/// The credentials and endpoint a request is sent with.
#[derive(Debug, Clone, PartialEq)]
pub struct NamecheapConfig {
    pub api_user: String,
    pub api_key: String,
    pub client_ip: String,
    pub sandbox: bool,
}

pub struct NamecheapConfigView {
    pub api_user: Seq<char>,
    pub api_key: Seq<char>,
    pub client_ip: Seq<char>,
    pub sandbox: bool,
}

impl View for NamecheapConfig {
    type V = NamecheapConfigView;

    open spec fn view(&self) -> NamecheapConfigView {
        NamecheapConfigView {
            api_user: self.api_user@,
            api_key: self.api_key@,
            client_ip: self.client_ip@,
            sandbox: self.sandbox,
        }
    }
}

/// The credential values the environment holds (`NAMECHEAP_API_USER`,
/// `NAMECHEAP_API_KEY`, `NAMECHEAP_CLIENT_IP`, `NAMECHEAP_SANDBOX`); a variable
/// that is unset or not valid Unicode is `None`.
#[derive(Debug, Clone)]
pub struct EnvCredentials {
    pub api_user: Option<String>,
    pub api_key: Option<String>,
    pub client_ip: Option<String>,
    pub sandbox: Option<String>,
}

/// A credential that is missing or blank.
#[derive(Debug)]
pub enum ConfigError {
    MissingApiUser,
    MissingApiKey,
    MissingClientIp,
}

pub open spec fn sandbox_url() -> Seq<char> {
    "https://api.sandbox.namecheap.com/xml.response"@
}

pub open spec fn production_url() -> Seq<char> {
    "https://api.namecheap.com/xml.response"@
}

/// The first value present among flag, environment and file, else empty.
pub open spec fn pick(flag: Option<Seq<char>>, env: Option<Seq<char>>, file: Option<Seq<char>>) -> Seq<char> {
    match flag {
        Some(v) => v,
        None => match env {
            Some(v) => v,
            None => match file {
                Some(v) => v,
                None => Seq::empty(),
            },
        },
    }
}

/// `NAMECHEAP_SANDBOX` turns the sandbox on with `1` or `true` (any ASCII
/// case).
pub open spec fn env_sandbox_on(v: Option<Seq<char>>) -> bool {
    match v {
        Some(v) => v == "1"@ || eq_ic(v, "true"@),
        None => false,
    }
}

/// What resolving the credentials gives: the first value present among flag,
/// environment and file for each credential, trimmed; an error for the first
/// credential (user, key, client IP) that is missing or blank; the sandbox when
/// the flag, the environment or the file asks for it.
pub open spec fn resolved(
    flag_user: Option<Seq<char>>,
    flag_key: Option<Seq<char>>,
    flag_ip: Option<Seq<char>>,
    flag_sandbox: bool,
    env: EnvView,
    file: ConfigFileView,
) -> Result<NamecheapConfigView, ConfigError> {
    let user = pick(flag_user, env.api_user, file.api_user);
    let key = pick(flag_key, env.api_key, file.api_key);
    let ip = pick(flag_ip, env.client_ip, file.client_ip);
    if trim(user).len() == 0 {
        Err(ConfigError::MissingApiUser)
    } else if trim(key).len() == 0 {
        Err(ConfigError::MissingApiKey)
    } else if trim(ip).len() == 0 {
        Err(ConfigError::MissingClientIp)
    } else {
        Ok(NamecheapConfigView {
            api_user: trim(user),
            api_key: trim(key),
            client_ip: trim(ip),
            sandbox: flag_sandbox || env_sandbox_on(env.sandbox) || file.sandbox == Some(true),
        })
    }
}

pub struct EnvView {
    pub api_user: Option<Seq<char>>,
    pub api_key: Option<Seq<char>>,
    pub client_ip: Option<Seq<char>>,
    pub sandbox: Option<Seq<char>>,
}

impl View for EnvCredentials {
    type V = EnvView;

    open spec fn view(&self) -> EnvView {
        EnvView {
            api_user: opt_view(self.api_user),
            api_key: opt_view(self.api_key),
            client_ip: opt_view(self.client_ip),
            sandbox: opt_view(self.sandbox),
        }
    }
}

pub open spec fn config_result_view(r: Result<NamecheapConfig, ConfigError>) -> Result<NamecheapConfigView, ConfigError> {
    match r {
        Ok(c) => Ok(c@),
        Err(e) => Err(e),
    }
}

fn pick_value(flag: Option<String>, env: Option<String>, file: Option<String>) -> (r: String)
    ensures
        r@ == pick(opt_view(flag), opt_view(env), opt_view(file)),
{
    match flag {
        Some(v) => v,
        None => match env {
            Some(v) => v,
            None => match file {
                Some(v) => v,
                None => String::new(),
            },
        },
    }
}

impl ConfigError {
    pub open spec fn spec_message(&self) -> Seq<char> {
        match self {
            ConfigError::MissingApiUser => "Namecheap API User is required. Specify with --api-user, NAMECHEAP_API_USER env var, or run 'namecheap-cli config set --api-user <user>'"@,
            ConfigError::MissingApiKey => "Namecheap API Key is required. Specify with --api-key, NAMECHEAP_API_KEY env var, or run 'namecheap-cli config set --api-key <key>'"@,
            ConfigError::MissingClientIp => "Client IP is required. Specify with --client-ip, NAMECHEAP_CLIENT_IP env var, or run 'namecheap-cli config set --client-ip <ip>' (Hint: run 'namecheap-cli ip' to view your current public IP)"@,
        }
    }

    /// The message the command line prints for this error.
    pub fn message(&self) -> (m: String)
        ensures
            m@ == self.spec_message(),
    {
        match self {
            ConfigError::MissingApiUser => String::from_str("Namecheap API User is required. Specify with --api-user, NAMECHEAP_API_USER env var, or run 'namecheap-cli config set --api-user <user>'"),
            ConfigError::MissingApiKey => String::from_str("Namecheap API Key is required. Specify with --api-key, NAMECHEAP_API_KEY env var, or run 'namecheap-cli config set --api-key <key>'"),
            ConfigError::MissingClientIp => String::from_str("Client IP is required. Specify with --client-ip, NAMECHEAP_CLIENT_IP env var, or run 'namecheap-cli config set --client-ip <ip>' (Hint: run 'namecheap-cli ip' to view your current public IP)"),
        }
    }
}

impl NamecheapConfig {
    /// The API endpoint: the sandbox one or the production one.
    pub fn base_url(&self) -> (url: &'static str)
        ensures
            url@ == if self.sandbox { sandbox_url() } else { production_url() },
    {
        if self.sandbox {
            "https://api.sandbox.namecheap.com/xml.response"
        } else {
            "https://api.namecheap.com/xml.response"
        }
    }

    /// The credentials a request is sent with (`NamecheapConfig::resolve`):
    /// for each one, the flag, else the environment, else the stored file
    /// (see [`resolved`]).
    pub fn resolve(
        flag_user: Option<String>,
        flag_key: Option<String>,
        flag_ip: Option<String>,
        flag_sandbox: bool,
        env: EnvCredentials,
        file_config: ConfigFile,
    ) -> (r: Result<NamecheapConfig, ConfigError>)
        ensures
            config_result_view(r) == resolved(
                opt_view(flag_user),
                opt_view(flag_key),
                opt_view(flag_ip),
                flag_sandbox,
                env@,
                file_config@,
            ),
    {
        let ghost env_v = env@;
        let ghost file_v = file_config@;
        let env_sandbox = match &env.sandbox {
            Some(v) => str_eq(v.as_str(), "1") || eq_ignore_ascii_case(v.as_str(), "true"),
            None => false,
        };
        let file_sandbox = match file_config.sandbox {
            Some(b) => b,
            None => false,
        };
        let sandbox = flag_sandbox || env_sandbox || file_sandbox;
        let api_user = trim_str(pick_value(flag_user, env.api_user, file_config.api_user).as_str());
        let api_key = trim_str(pick_value(flag_key, env.api_key, file_config.api_key).as_str());
        let client_ip = trim_str(pick_value(flag_ip, env.client_ip, file_config.client_ip).as_str());
        if api_user.as_str().unicode_len() == 0 {
            return Err(ConfigError::MissingApiUser);
        }
        if api_key.as_str().unicode_len() == 0 {
            return Err(ConfigError::MissingApiKey);
        }
        if client_ip.as_str().unicode_len() == 0 {
            return Err(ConfigError::MissingClientIp);
        }
        Ok(NamecheapConfig { api_user, api_key, client_ip, sandbox })
    }
}

} // verus!

verus! {

pub open spec fn replace_if_given<T>(given: Option<T>, stored: Option<T>) -> Option<T> {
    match given {
        Some(v) => Some(v),
        None => stored,
    }
}

/// The stored configuration after `config set`: each value given replaces the
/// stored one; the others stay.
pub open spec fn after_set(
    file: ConfigFileView,
    api_user: Option<Seq<char>>,
    api_key: Option<Seq<char>>,
    client_ip: Option<Seq<char>>,
    sandbox: Option<bool>,
) -> ConfigFileView {
    ConfigFileView {
        api_user: replace_if_given(api_user, file.api_user),
        api_key: replace_if_given(api_key, file.api_key),
        client_ip: replace_if_given(client_ip, file.client_ip),
        sandbox: replace_if_given(sandbox, file.sandbox),
    }
}

/// The stored configuration after `login`: as `config set`, but the sandbox
/// is only ever switched on.
pub open spec fn after_login(
    file: ConfigFileView,
    api_user: Option<Seq<char>>,
    api_key: Option<Seq<char>>,
    client_ip: Option<Seq<char>>,
    sandbox: bool,
) -> ConfigFileView {
    after_set(file, api_user, api_key, client_ip, if sandbox { Some(true) } else { None })
}

fn replace_text(given: Option<String>, stored: Option<String>) -> (r: Option<String>)
    ensures
        opt_view(r) == replace_if_given(opt_view(given), opt_view(stored)),
{
    match given {
        Some(v) => Some(v),
        None => stored,
    }
}

impl ConfigFile {
    /// `config set`: each value given replaces the stored one.
    pub fn apply_set(
        &mut self,
        api_user: Option<String>,
        api_key: Option<String>,
        client_ip: Option<String>,
        sandbox: Option<bool>,
    )
        ensures
            final(self)@ == after_set(old(self)@, opt_view(api_user), opt_view(api_key), opt_view(client_ip), sandbox),
    {
        let old_user = self.api_user.take();
        self.api_user = replace_text(api_user, old_user);
        let old_key = self.api_key.take();
        self.api_key = replace_text(api_key, old_key);
        let old_ip = self.client_ip.take();
        self.client_ip = replace_text(client_ip, old_ip);
        match sandbox {
            Some(b) => {
                self.sandbox = Some(b);
            },
            None => {},
        }
    }

    /// `login`: the credentials given replace the stored ones, and asking for
    /// the sandbox stores it as the default.
    pub fn apply_login(
        &mut self,
        api_user: Option<String>,
        api_key: Option<String>,
        client_ip: Option<String>,
        sandbox: bool,
    )
        ensures
            final(self)@ == after_login(old(self)@, opt_view(api_user), opt_view(api_key), opt_view(client_ip), sandbox),
    {
        self.apply_set(api_user, api_key, client_ip, if sandbox { Some(true) } else { None });
    }
}

/// The API key read from standard input: the input trimmed, or `None` when
/// nothing but whitespace was read.
pub fn stdin_api_key(input: &str) -> (key: Option<String>)
    ensures
        key matches Some(k) ==> k@ == trim(input@) && k@.len() > 0,
        key is None ==> trim(input@).len() == 0,
{
    let t = trim_str(input);
    if t.as_str().unicode_len() == 0 {
        None
    } else {
        Some(t)
    }
}

/// A value stored by `config set` is the one the next command uses when no
/// flag or environment variable gives it: the stored user, trimmed, and never
/// a missing-user error while it is not blank.
pub proof fn lemma_set_user_then_resolve(
    file: ConfigFileView,
    user: Seq<char>,
    key: Option<Seq<char>>,
    ip: Option<Seq<char>>,
    sandbox: Option<bool>,
    flag_key: Option<Seq<char>>,
    flag_ip: Option<Seq<char>>,
    flag_sandbox: bool,
    env: EnvView,
)
    requires
        env.api_user is None,
        trim(user).len() > 0,
    ensures
        ({
            let r = resolved(None, flag_key, flag_ip, flag_sandbox, env, after_set(file, Some(user), key, ip, sandbox));
            &&& !(r matches Err(ConfigError::MissingApiUser))
            &&& r matches Ok(c) ==> c.api_user == trim(user)
        }),
{
}

/// After `login --sandbox`, every command that resolves its credentials talks
/// to the sandbox.
pub proof fn lemma_login_sandbox_sticks(
    file: ConfigFileView,
    user: Option<Seq<char>>,
    key: Option<Seq<char>>,
    ip: Option<Seq<char>>,
    flag_user: Option<Seq<char>>,
    flag_key: Option<Seq<char>>,
    flag_ip: Option<Seq<char>>,
    flag_sandbox: bool,
    env: EnvView,
)
    ensures
        resolved(flag_user, flag_key, flag_ip, flag_sandbox, env, after_login(file, user, key, ip, true)) matches Ok(c)
            ==> c.sandbox,
{
}

/// The flag wins: a credential given on the command line is the one used,
/// trimmed, whatever the environment and the file hold.
pub proof fn lemma_flag_wins(
    user: Seq<char>,
    flag_key: Option<Seq<char>>,
    flag_ip: Option<Seq<char>>,
    flag_sandbox: bool,
    env: EnvView,
    file: ConfigFileView,
)
    requires
        trim(user).len() > 0,
    ensures
        resolved(Some(user), flag_key, flag_ip, flag_sandbox, env, file) matches Ok(c) ==> c.api_user == trim(user),
        !(resolved(Some(user), flag_key, flag_ip, flag_sandbox, env, file) matches Err(ConfigError::MissingApiUser)),
{
}

} // verus!
