//! Configuration.
use vstd::prelude::*;

use crate::text::{optional_text, parse_u64, unsigned_number};

verus! {

/// The configuration of the service.
#[derive(Clone, Debug)]
pub struct Config {
    pub database_url: String,
    pub port: u16,
    pub psp_url: String,
    pub psp_timeout_secs: u64,
}

/// The value of a [`Config`].
pub struct ConfigView {
    pub database_url: Seq<char>,
    pub port: u16,
    pub psp_url: Seq<char>,
    pub psp_timeout_secs: u64,
}

impl View for Config {
    type V = ConfigView;

    open spec fn view(&self) -> ConfigView {
        ConfigView {
            database_url: self.database_url@,
            port: self.port,
            psp_url: self.psp_url@,
            psp_timeout_secs: self.psp_timeout_secs,
        }
    }
}

/// The environment variables that the service reads, where they are set.
pub struct EnvVars {
    pub database_url: Option<String>,
    pub port: Option<String>,
    pub psp_url: Option<String>,
    pub psp_timeout_secs: Option<String>,
}

/// A setting, or its default where it is not set.
pub open spec fn setting(value: Option<Seq<char>>, default: Seq<char>) -> Seq<char> {
    match value {
        Some(text) => text,
        None => default,
    }
}

/// The number that a setting writes down, if it is one and not over `limit`.
pub open spec fn number_setting(text: Seq<char>, limit: int) -> Option<nat> {
    match unsigned_number(text) {
        Some(n) => if n <= limit {
            Some(n)
        } else {
            None
        },
        None => None,
    }
}

/// What the environment variables come to. The first that is missing or is not a number is
/// what is wrong with them.
pub open spec fn configuration(vars: EnvVars) -> Result<ConfigView, Seq<char>> {
    let port = number_setting(setting(optional_text(vars.port), "3000"@), u16::MAX as int);
    let timeout = number_setting(
        setting(optional_text(vars.psp_timeout_secs), "10"@),
        u64::MAX as int,
    );
    match optional_text(vars.database_url) {
        None => Err("DATABASE_URL must be set"@),
        Some(database_url) => match port {
            None => Err("PORT must be a valid u16"@),
            Some(port) => match timeout {
                None => Err("PSP_TIMEOUT_SECS must be a number"@),
                Some(timeout) => Ok(
                    ConfigView {
                        database_url,
                        port: port as u16,
                        psp_url: setting(optional_text(vars.psp_url), "http://localhost:4000"@),
                        psp_timeout_secs: timeout as u64,
                    },
                ),
            },
        },
    }
}

fn setting_or(value: Option<String>, default: &str) -> (res: String)
    ensures
        res@ == setting(optional_text(value), default@),
{
    match value {
        Some(text) => text,
        None => default.to_string(),
    }
}

/// The TCP port that a setting writes down, if it does.
pub fn parse_port(text: &str) -> (res: Option<u16>)
    ensures
        res == (match number_setting(text@, u16::MAX as int) {
            Some(n) => Some(n as u16),
            None => None,
        }),
{
    match parse_u64(text) {
        Some(n) => if n <= u16::MAX as u64 {
            Some(n as u16)
        } else {
            None
        },
        None => None,
    }
}

impl Config {
    /// The configuration that the environment variables come to.
    pub fn from_env(vars: EnvVars) -> (res: Result<Self, String>)
        ensures
            (match res {
                Ok(config) => Ok(config@),
                Err(message) => Err(message@),
            }) == configuration(vars),
    {
        let database_url = match vars.database_url {
            Some(text) => text,
            None => {
                return Err("DATABASE_URL must be set".to_string());
            },
        };
        let port_text = setting_or(vars.port, "3000");
        let port: u16 = match parse_port(port_text.as_str()) {
            Some(n) => n,
            None => {
                return Err("PORT must be a valid u16".to_string());
            },
        };
        let psp_url = setting_or(vars.psp_url, "http://localhost:4000");
        let timeout_text = setting_or(vars.psp_timeout_secs, "10");
        let psp_timeout_secs: u64 = match parse_u64(timeout_text.as_str()) {
            Some(n) => n,
            None => {
                return Err("PSP_TIMEOUT_SECS must be a number".to_string());
            },
        };
        Ok(Config { database_url, port, psp_url, psp_timeout_secs })
    }
}

/// A configuration takes the settings as they are, and the defaults where they are not set;
/// the URL of the database has none.
pub proof fn settings_are_taken_as_they_are(vars: EnvVars, config: ConfigView)
    requires
        configuration(vars) == Ok::<ConfigView, Seq<char>>(config),
    ensures
        vars.database_url matches Some(url) && config.database_url == url@,
        vars.port matches Some(text) ==> unsigned_number(text@) == Some(config.port as nat),
        vars.port is None ==> unsigned_number("3000"@) == Some(config.port as nat),
        vars.psp_url matches Some(url) ==> config.psp_url == url@,
        vars.psp_url is None ==> config.psp_url == "http://localhost:4000"@,
        vars.psp_timeout_secs matches Some(text) ==> unsigned_number(text@) == Some(
            config.psp_timeout_secs as nat,
        ),
        vars.psp_timeout_secs is None ==> unsigned_number("10"@) == Some(
            config.psp_timeout_secs as nat,
        ),
{
}

/// A configuration is refused for the first of these that is wrong with it: there is no URL of
/// the database, the port is no number up to 65535, or the timeout is no number that fits in
/// 64 bits.
pub proof fn wrong_settings_are_told(vars: EnvVars)
    ensures
        ({
            let port = unsigned_number(
                match vars.port {
                    Some(text) => text@,
                    None => "3000"@,
                },
            );
            let timeout = unsigned_number(
                match vars.psp_timeout_secs {
                    Some(text) => text@,
                    None => "10"@,
                },
            );
            let good_port = port matches Some(n) && n <= 65535;
            let good_timeout = timeout matches Some(n) && n <= 18446744073709551615;
            &&& configuration(vars) is Ok <==> vars.database_url is Some && good_port
                && good_timeout
            &&& vars.database_url is None ==> configuration(vars) == Err::<ConfigView, Seq<char>>(
                "DATABASE_URL must be set"@,
            )
            &&& vars.database_url is Some && !good_port ==> configuration(vars) == Err::<
                ConfigView,
                Seq<char>,
            >("PORT must be a valid u16"@)
            &&& vars.database_url is Some && good_port && !good_timeout ==> configuration(vars)
                == Err::<ConfigView, Seq<char>>("PSP_TIMEOUT_SECS must be a number"@)
        }),
{
}

/// A number in a setting is the one that it writes down, if that is not over the limit.
pub proof fn settings_are_numbers(text: Seq<char>, limit: int)
    ensures
        number_setting(text, limit) matches Some(n) ==> unsigned_number(text) == Some(n) && n
            <= limit,
        number_setting(text, limit) is None ==> (unsigned_number(text) matches Some(n) ==> n
            > limit),
        setting(Some(text), "4000"@) == text,
        setting(None, text) == text,
{
}

/// Nothing of a configuration is lost in its value.
pub proof fn configurations_are_shown_whole(config: Config)
    ensures
        config@.database_url == config.database_url@,
        config@.port == config.port,
        config@.psp_url == config.psp_url@,
        config@.psp_timeout_secs == config.psp_timeout_secs,
{
}

} // verus!
