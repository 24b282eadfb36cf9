//! Connection parameters and the rules a configuration record must satisfy.

use vstd::prelude::*;

verus! {

/// Connection parameters for the remote host, supplied by the configuration
/// file: all four fields must be present for a run to start.
#[derive(Debug)]
pub struct Config {
    pub username: String,
    pub password: String,
    pub host: String,
    pub port: u16,
}

/// Command-line options: one flag selecting compact (status-bar) output over
/// the verbose (prompt) form.
#[derive(Debug)]
pub struct Opt {
    pub tmux: bool,
}

/// The four fields a configuration record must provide.
#[derive(Clone, Copy, PartialEq, Eq, Structural, Debug)]
pub enum ConfigField {
    Username,
    Password,
    Host,
    Port,
}

/// Why a configuration record was rejected.
#[derive(Clone, Copy, PartialEq, Eq, Structural, Debug)]
pub enum ConfigError {
    /// The field is absent, or holds a value of the wrong type.
    MissingField(ConfigField),
    /// The port is present but does not fit a 16-bit unsigned integer.
    PortOutOfRange,
}

/// Builds the connection parameters from the four fields of a configuration
/// record, each `None` where the record lacks the field (or gives it the
/// wrong type). Every field must be present and the port must fit a 16-bit
/// unsigned integer; the first missing field, in the order username,
/// password, host, port, names the error.
pub fn config_from_fields(
    username: Option<String>,
    password: Option<String>,
    host: Option<String>,
    port: Option<i64>,
) -> (r: Result<Config, ConfigError>)
    ensures
        username is None ==> r == Err::<Config, ConfigError>(
            ConfigError::MissingField(ConfigField::Username),
        ),
        username is Some && password is None ==> r == Err::<Config, ConfigError>(
            ConfigError::MissingField(ConfigField::Password),
        ),
        username is Some && password is Some && host is None ==> r == Err::<Config, ConfigError>(
            ConfigError::MissingField(ConfigField::Host),
        ),
        username is Some && password is Some && host is Some && port is None ==> r == Err::<
            Config,
            ConfigError,
        >(ConfigError::MissingField(ConfigField::Port)),
        username is Some && password is Some && host is Some && port is Some && !(0 <= port->0
            <= u16::MAX) ==> r == Err::<Config, ConfigError>(ConfigError::PortOutOfRange),
        username is Some && password is Some && host is Some && port is Some && 0 <= port->0
            <= u16::MAX ==> {
            &&& r is Ok
            &&& r->Ok_0.username == username->0
            &&& r->Ok_0.password == password->0
            &&& r->Ok_0.host == host->0
            &&& r->Ok_0.port == port->0 as u16
        },
{
    let username = match username {
        Some(u) => u,
        None => {
            return Err(ConfigError::MissingField(ConfigField::Username));
        },
    };
    let password = match password {
        Some(p) => p,
        None => {
            return Err(ConfigError::MissingField(ConfigField::Password));
        },
    };
    let host = match host {
        Some(h) => h,
        None => {
            return Err(ConfigError::MissingField(ConfigField::Host));
        },
    };
    let port = match port {
        Some(p) => p,
        None => {
            return Err(ConfigError::MissingField(ConfigField::Port));
        },
    };
    if port < 0 || port > 65535 {
        return Err(ConfigError::PortOutOfRange);
    }
    Ok(Config { username, password, host, port: port as u16 })
}

} // verus!
