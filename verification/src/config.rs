//! The configuration that the service runs on: where its store is and which
//! port it listens on.
//!
//! Reading the environment is the caller's part. This module decides what the
//! values found there amount to.

use vstd::prelude::*;
use vstd::string::StringExecFns;

verus! {

/// The port to listen on where the environment names none.
pub const DEFAULT_PORT: u16 = 8000;

/// The settings of a running service.
#[derive(Debug)]
pub struct EnvironmentVariables {
    pub database_url: String,
    pub port: u16,
}

/// What an [`EnvironmentVariables`] holds, as mathematical values.
pub struct EnvironmentVariablesView {
    pub database_url: Seq<char>,
    pub port: u16,
}

impl View for EnvironmentVariables {
    type V = EnvironmentVariablesView;

    open spec fn view(&self) -> EnvironmentVariablesView {
        EnvironmentVariablesView { database_url: self.database_url@, port: self.port }
    }
}

impl Clone for EnvironmentVariables {
    fn clone(&self) -> (copy: EnvironmentVariables)
        ensures
            copy@ == self@,
    {
        EnvironmentVariables { database_url: self.database_url.clone(), port: self.port }
    }
}

/// Why the environment does not amount to a configuration.
#[derive(Debug)]
pub enum ConfigError {
    /// `DATABASE_URL` could not be had, with the reason.
    MissingDatabaseUrl(String),
    /// `PORT` holds text that is no port number, with the text.
    InvalidPort(String),
}

/// What a [`ConfigError`] holds, as mathematical values.
pub enum ConfigErrorView {
    MissingDatabaseUrl(Seq<char>),
    InvalidPort(Seq<char>),
}

impl View for ConfigError {
    type V = ConfigErrorView;

    open spec fn view(&self) -> ConfigErrorView {
        match *self {
            ConfigError::MissingDatabaseUrl(reason) => ConfigErrorView::MissingDatabaseUrl(reason@),
            ConfigError::InvalidPort(text) => ConfigErrorView::InvalidPort(text@),
        }
    }
}

impl ConfigError {
    /// The error in words.
    pub fn message(&self) -> (message: String)
        ensures
            message@ == match self@ {
                ConfigErrorView::MissingDatabaseUrl(reason) => "missing DATABASE_URL: "@ + reason,
                ConfigErrorView::InvalidPort(text) => "invalid PORT: "@ + text,
            },
    {
        match self {
            ConfigError::MissingDatabaseUrl(reason) => "missing DATABASE_URL: ".to_owned().concat(
                reason.as_str(),
            ),
            ConfigError::InvalidPort(text) => "invalid PORT: ".to_owned().concat(text.as_str()),
        }
    }
}

/// `c` is one of the ten decimal digits.
pub open spec fn is_digit(c: char) -> bool {
    '0' <= c <= '9'
}

/// Every character of `digits` is a decimal digit.
pub open spec fn all_digits(digits: Seq<char>) -> bool {
    forall|i: int| 0 <= i < digits.len() ==> is_digit(#[trigger] digits[i])
}

/// The number that a sequence of decimal digits writes, leading zeros
/// allowed.
pub open spec fn value_of(digits: Seq<char>) -> nat
    decreases digits.len(),
{
    if digits.len() == 0 {
        0
    } else {
        (10 * value_of(digits.drop_last()) + (digits.last() as nat - '0' as nat)) as nat
    }
}

/// `text` without the one plus sign that may lead it.
pub open spec fn unsigned(text: Seq<char>) -> Seq<char> {
    if text.len() > 0 && text[0] == '+' {
        text.subrange(1, text.len() as int)
    } else {
        text
    }
}

/// The port that `text` writes: decimal digits, at least one, after at most
/// one leading plus sign, which write a number of at most 65535. Any other
/// text, with a blank or a minus sign in it, writes no port.
pub open spec fn port_number(text: Seq<char>) -> Option<u16> {
    let digits = unsigned(text);
    if digits.len() > 0 && all_digits(digits) && value_of(digits) <= u16::MAX {
        Some(value_of(digits) as u16)
    } else {
        None
    }
}

/// Reads a port number.
pub fn parse_port(text: &str) -> (port: Option<u16>)
    ensures
        port == port_number(text@),
{
    let ghost digits = unsigned(text@);
    if !text.is_ascii() {
        proof {
            let i = choose|i: int| 0 <= i < text@.len() && !('\0' <= #[trigger] text@[i] <= '\u{7f}');
            if text@[0] == '+' {
                assert(!is_digit(digits[i - 1]));
            } else {
                assert(!is_digit(digits[i]));
            }
        }
        return None;
    }
    let len = text.unicode_len();
    let start: usize = if len > 0 && text.get_ascii(0) == 43u8 {
        1
    } else {
        0
    };
    if start == len {
        return None;
    }
    let mut value: u32 = 0;
    let mut at: usize = start;
    while at < len
        invariant
            text.is_ascii(),
            len == text@.len(),
            digits == unsigned(text@),
            digits.len() == len - start,
            forall|i: int| 0 <= i < digits.len() ==> digits[i] == text@[i + start],
            start <= at <= len,
            all_digits(digits.take(at - start)),
            value == if value_of(digits.take(at - start)) <= u16::MAX {
                value_of(digits.take(at - start))
            } else {
                65536
            },
        decreases len - at,
    {
        let byte = text.get_ascii(at);
        if byte < 48u8 || byte > 57u8 {
            assert(!is_digit(digits[at - start]));
            return None;
        }
        proof {
            let longer = digits.take(at - start + 1);
            assert(longer.drop_last() =~= digits.take(at - start));
            assert(longer.last() == digits[at - start]);
            assert(longer.last() as nat - '0' as nat == byte - 48);
        }
        value = value * 10 + (byte - 48u8) as u32;
        if value > 65535 {
            value = 65536;
        }
        at += 1;
    }
    assert(digits.take(at - start) =~= digits);
    if value > 65535 {
        None
    } else {
        Some(value as u16)
    }
}

/// What the values found in the environment amount to.
///
/// `database_url` is what the environment gave for `DATABASE_URL`, or the
/// reason why it gave nothing. `port` is the text of `PORT` where it is set.
/// The store's address is needed; the port falls back to [`DEFAULT_PORT`]
/// where it is not set, and is an error where it is set to something else
/// than a port number.
pub open spec fn loaded(
    database_url: Result<Seq<char>, Seq<char>>,
    port: Option<Seq<char>>,
) -> Result<EnvironmentVariablesView, ConfigErrorView> {
    match database_url {
        Err(reason) => Err(ConfigErrorView::MissingDatabaseUrl(reason)),
        Ok(url) => match port {
            None => Ok(EnvironmentVariablesView { database_url: url, port: DEFAULT_PORT }),
            Some(text) => match port_number(text) {
                Some(number) => Ok(EnvironmentVariablesView { database_url: url, port: number }),
                None => Err(ConfigErrorView::InvalidPort(text)),
            },
        },
    }
}

impl EnvironmentVariables {
    /// Builds the configuration from what the environment holds for
    /// `DATABASE_URL` and for `PORT`.
    pub fn from_env(database_url: Result<String, String>, port: Option<String>) -> (outcome: Result<
        EnvironmentVariables,
        ConfigError,
    >)
        ensures
            match outcome {
                Ok(env) => Ok::<EnvironmentVariablesView, ConfigErrorView>(env@),
                Err(err) => Err(err@),
            } == loaded(
                match database_url {
                    Ok(url) => Ok(url@),
                    Err(reason) => Err(reason@),
                },
                match port {
                    Some(text) => Some(text@),
                    None => None,
                },
            ),
    {
        let database_url = match database_url {
            Ok(url) => url,
            Err(reason) => {
                return Err(ConfigError::MissingDatabaseUrl(reason));
            },
        };
        let port = match port {
            None => DEFAULT_PORT,
            Some(text) => match parse_port(text.as_str()) {
                Some(number) => number,
                None => {
                    return Err(ConfigError::InvalidPort(text));
                },
            },
        };
        Ok(EnvironmentVariables { database_url, port })
    }
}

} // verus!
