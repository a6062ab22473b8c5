//! The configuration that the service starts with: where the store is and
//! which port to listen on.

use vstd::prelude::*;
use vstd::string::*;

verus! {

/// The port that the service listens on where none is configured.
pub const DEFAULT_PORT: u16 = 8080;

/// Why the configuration cannot be used. Either one stops the start.
#[derive(Clone, Copy, Debug, PartialEq, Eq, Structural)]
pub enum ConfigError {
    /// No address of the store was given.
    MissingDatabaseUrl,
    /// A port was given, but it is no unsigned 16-bit number in decimal.
    InvalidPort,
}

/// What the service is started with.
#[derive(Clone, Debug, PartialEq, Eq)]
pub struct Config {
    pub database_url: String,
    pub port: u16,
}

/// Whether `c` is a decimal digit.
pub open spec fn is_digit(c: char) -> bool {
    '0' <= c && c <= '9'
}

/// The value of a decimal digit.
pub open spec fn digit_value(c: char) -> int {
    c as int - '0' as int
}

/// The number that a sequence of decimal digits writes; zero for none.
pub open spec fn number(digits: Seq<char>) -> int
    decreases digits.len(),
{
    if digits.len() == 0 {
        0
    } else {
        number(digits.drop_last()) * 10 + digit_value(digits.last())
    }
}

/// The text without one leading plus sign.
pub open spec fn unsigned_part(text: Seq<char>) -> Seq<char> {
    if text.len() > 0 && text[0] == '+' {
        text.drop_first()
    } else {
        text
    }
}

/// Whether every character is a decimal digit.
pub open spec fn all_digits(text: Seq<char>) -> bool {
    forall|i: int| 0 <= i < text.len() ==> is_digit(#[trigger] text[i])
}

/// The port that a text writes: an optional plus sign, then one or more
/// decimal digits and nothing else, with a value of at most 65535. Leading
/// zeros are accepted. Any other text writes no port.
pub open spec fn parsed_port(text: Seq<char>) -> Option<u16> {
    let digits = unsigned_part(text);
    if digits.len() > 0 && all_digits(digits) && number(digits) <= u16::MAX {
        Some(number(digits) as u16)
    } else {
        None
    }
}

/// The port to listen on, given the configured text if there is one: the
/// default where there is none, the port that the text writes, or an error
/// where it writes none.
pub open spec fn chosen_port(value: Option<Seq<char>>) -> Result<u16, ConfigError> {
    match value {
        None => Ok(DEFAULT_PORT),
        Some(text) => match parsed_port(text) {
            Some(port) => Ok(port),
            None => Err(ConfigError::InvalidPort),
        },
    }
}

/// A prefix of a sequence of digits writes a number that is no larger.
proof fn lemma_number_grows(digits: Seq<char>, k: int)
    requires
        all_digits(digits),
        0 <= k <= digits.len(),
    ensures
        0 <= number(digits.take(k)) <= number(digits),
    decreases digits.len() - k,
{
    if k == digits.len() {
        assert(digits.take(k) =~= digits);
        lemma_number_nonnegative(digits);
    } else {
        lemma_number_grows(digits, k + 1);
        let longer = digits.take(k + 1);
        assert(longer.drop_last() =~= digits.take(k));
        assert(is_digit(digits[k]));
        assert(longer.last() == digits[k]);
        lemma_number_nonnegative(digits.take(k));
    }
}

proof fn lemma_number_nonnegative(digits: Seq<char>)
    requires
        all_digits(digits),
    ensures
        0 <= number(digits),
    decreases digits.len(),
{
    if digits.len() > 0 {
        assert(is_digit(digits.last()));
        lemma_number_nonnegative(digits.drop_last());
    }
}

/// Reads a port from its text.
pub fn parse_port(text: &str) -> (port: Option<u16>)
    ensures
        port == parsed_port(text@),
{
    let ghost digits = unsigned_part(text@);
    if !text.is_ascii() {
        proof {
            let i = choose|i: int|
                0 <= i < text@.len() && !('\0' <= #[trigger] text@[i] && text@[i] <= '\u{7f}');
            if text@[0] == '+' {
                assert(digits[i - 1] == text@[i]);
                assert(!is_digit(digits[i - 1]));
            } else {
                assert(!is_digit(digits[i]));
            }
        }
        return None;
    }
    let bytes = text.as_bytes();
    let length = bytes.len();
    proof {
        is_ascii_spec_bytes(text);
        assert(length == text@.len());
        assert forall|k: int| 0 <= k < length implies (#[trigger] text@[k]) as int
            == bytes@[k] by {
            let c = text@[k];
            assert('\0' <= c && c <= '\u{7f}');
            assert(bytes@[k] == c as u8);
        }
    }
    let start: usize = if length > 0 && bytes[0] == 43 {
        1
    } else {
        0
    };
    assert(digits =~= text@.skip(start as int));
    if start == length {
        return None;
    }
    let mut value: u32 = 0;
    let mut i: usize = start;
    assert(digits.take(0) =~= Seq::<char>::empty());
    while i < length
        invariant
            start <= i <= length,
            length == bytes@.len(),
            length == text@.len(),
            digits == unsigned_part(text@),
            digits == text@.skip(start as int),
            forall|k: int| 0 <= k < length ==> (#[trigger] text@[k]) as int == bytes@[k],
            all_digits(digits.take(i - start)),
            value == number(digits.take(i - start)),
            value <= u16::MAX,
        decreases length - i,
    {
        let byte = bytes[i];
        let ghost seen = digits.take(i - start);
        let ghost next = digits.take(i - start + 1);
        assert(digits[i - start] == text@[i as int]);
        if byte < 48 || byte > 57 {
            assert(!is_digit(digits[i - start]));
            return None;
        }
        proof {
            assert(is_digit(digits[i - start]));
            assert(next.drop_last() =~= seen);
            assert(next.last() == digits[i - start]);
            assert forall|k: int| 0 <= k < next.len() implies is_digit(#[trigger] next[k]) by {
                if k < seen.len() {
                    assert(next[k] == seen[k]);
                }
            }
        }
        value = value * 10 + (byte - 48) as u32;
        assert(value == number(next));
        if value > 65535 {
            proof {
                if all_digits(digits) {
                    lemma_number_grows(digits, i - start + 1);
                }
            }
            return None;
        }
        i += 1;
    }
    assert(digits.take(i - start) =~= digits);
    Some(value as u16)
}

/// Chooses the port to listen on. `value` is the configured text, `None`
/// where none is set.
pub fn listen_port(value: Option<&str>) -> (port: Result<u16, ConfigError>)
    ensures
        port == chosen_port(
            match value {
                Some(text) => Some(text@),
                None => None,
            },
        ),
{
    match value {
        None => Ok(DEFAULT_PORT),
        Some(text) => match parse_port(text) {
            Some(port) => Ok(port),
            None => Err(ConfigError::InvalidPort),
        },
    }
}

impl Config {
    /// Builds the configuration from the two settings as the environment
    /// holds them, each `None` where it is not set.
    ///
    /// The address of the store is required; it is taken as it is. The port
    /// is chosen as [`listen_port`] chooses it. Where both are at fault, the
    /// missing address is reported.
    pub fn load(database_url: Option<String>, port: Option<&str>) -> (config: Result<
        Config,
        ConfigError,
    >)
        ensures
            match (database_url, chosen_port(
                match port {
                    Some(text) => Some(text@),
                    None => None,
                },
            )) {
                (None, _) => config == Err::<Config, ConfigError>(ConfigError::MissingDatabaseUrl),
                (Some(_), Err(error)) => config == Err::<Config, ConfigError>(error),
                (Some(url), Ok(number)) => config == Ok::<Config, ConfigError>(
                    Config { database_url: url, port: number },
                ),
            },
    {
        match database_url {
            None => Err(ConfigError::MissingDatabaseUrl),
            Some(url) => match listen_port(port) {
                Ok(number) => Ok(Config { database_url: url, port: number }),
                Err(error) => Err(error),
            },
        }
    }
}

} // verus!
