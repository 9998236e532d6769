//! The configuration of the server: where the files are, and under which
//! protocol and port the server is reached.
//!
//! A configuration is valid by construction: its protocol is `http` or
//! `https` and its port is a number between 1 and 65535. Values that are not
//! are refused when the configuration is put together, so that no URL is ever
//! built on them.

use crate::text::chars_of;
use vstd::prelude::*;
use vstd::string::*;

verus! {

/// Why a configuration was refused.
#[derive(Clone, Copy, Debug, PartialEq, Eq, Structural)]
pub enum ConfigError {
    /// The protocol is neither `http` nor `https`.
    UnknownProtocol,
    /// The port is no number between 1 and 65535.
    InvalidPort,
}

impl ConfigError {
    /// The text of the message that belongs to each refusal.
    pub open spec fn spec_message(self) -> Seq<char> {
        match self {
            ConfigError::UnknownProtocol => "the protocol is neither http nor https"@,
            ConfigError::InvalidPort => "the port is no number between 1 and 65535"@,
        }
    }

    /// A message for the person who runs the server.
    pub fn message(&self) -> (text: String)
        ensures
            text@ == self.spec_message(),
    {
        match self {
            ConfigError::UnknownProtocol => String::from_str(
                "the protocol is neither http nor https",
            ),
            ConfigError::InvalidPort => String::from_str(
                "the port is no number between 1 and 65535",
            ),
        }
    }
}

/// The protocol that is used where none is configured.
pub open spec fn default_protocol() -> Seq<char> {
    seq!['h', 't', 't', 'p']
}

/// The port that is used where none is configured.
pub open spec fn default_port() -> Seq<char> {
    seq!['8', '0', '0', '0']
}

/// The text of a configured value, or `fallback` where there is none.
pub open spec fn value_or(configured: Option<String>, fallback: Seq<char>) -> Seq<char> {
    match configured {
        Some(text) => text@,
        None => fallback,
    }
}

/// Whether `c` is one of the ten decimal digits.
pub open spec fn is_digit(c: char) -> bool {
    '0' <= c <= '9'
}

/// Whether every character of `text` is a decimal digit.
pub open spec fn all_digits(text: Seq<char>) -> bool {
    forall|i: int| 0 <= i < text.len() ==> is_digit(#[trigger] text[i])
}

/// The number that a text of decimal digits stands for; the empty text
/// stands for 0.
pub open spec fn decimal_value(text: Seq<char>) -> nat
    decreases text.len(),
{
    if text.len() == 0 {
        0
    } else {
        (10 * decimal_value(text.drop_last()) + (text.last() as u32 - '0' as u32)) as nat
    }
}

/// The digits of a port: the text without a plus sign at its beginning.
pub open spec fn port_digits(text: Seq<char>) -> Seq<char> {
    if text.len() > 0 && text[0] == '+' {
        text.skip(1)
    } else {
        text
    }
}

/// The port that a text denotes: after a plus sign, which may be left out,
/// the text is made of decimal digits alone, has at least one, and its value
/// lies between 1 and 65535. Zeros at the beginning do not count.
pub open spec fn spec_port_number(text: Seq<char>) -> Option<u16> {
    let digits = port_digits(text);
    if digits.len() > 0 && all_digits(digits) && 1 <= decimal_value(digits) <= 65535 {
        Some(decimal_value(digits) as u16)
    } else {
        None
    }
}

/// Whether a protocol is one that the server speaks: `http` or `https`.
pub open spec fn spec_known_protocol(text: Seq<char>) -> bool {
    text == default_protocol() || text == seq!['h', 't', 't', 'p', 's']
}

/// A text of digits stands for at least as much as each of its beginnings.
pub proof fn lemma_decimal_value_grows(text: Seq<char>, n: int)
    requires
        0 <= n <= text.len(),
        all_digits(text),
    ensures
        decimal_value(text.take(n)) <= decimal_value(text),
    decreases text.len(),
{
    if n == text.len() {
        assert(text.take(n) =~= text);
    } else {
        let shorter = text.drop_last();
        assert(shorter.take(n) =~= text.take(n));
        lemma_decimal_value_grows(shorter, n);
        assert(is_digit(text[text.len() - 1]));
    }
}

/// Whether a protocol is `http` or `https`.
pub fn known_protocol(text: &str) -> (known: bool)
    ensures
        known == spec_known_protocol(text@),
{
    proof {
        reveal_strlit("http");
        reveal_strlit("https");
        assert("http"@ =~= default_protocol());
        assert("https"@ =~= seq!['h', 't', 't', 'p', 's']);
    }
    let given = String::from_str(text);
    let http = String::from_str("http");
    let https = String::from_str("https");
    given == http || given == https
}

/// The port that a text denotes, or `None` where the text is no port: it has
/// a character that is no digit, it has no digit, or its value is 0 or above
/// 65535.
pub fn parse_port(text: &str) -> (port: Option<u16>)
    ensures
        port == spec_port_number(text@),
{
    let chars = chars_of(text);
    let n = chars.len();
    let start: usize = if n > 0 && chars[0] == '+' {
        1
    } else {
        0
    };
    let ghost digits = port_digits(text@);
    proof {
        assert(digits =~= chars@.skip(start as int));
    }
    let mut value: u32 = 0;
    let mut i: usize = start;
    while i < n
        invariant
            start <= i <= n,
            n == chars.len(),
            chars@ == text@,
            digits == chars@.skip(start as int),
            digits == port_digits(text@),
            forall|j: int| 0 <= j < i - start ==> is_digit(#[trigger] digits[j]),
            value == decimal_value(digits.take(i - start)),
            value <= 65535,
        decreases n - i,
    {
        let c = chars[i];
        proof {
            assert(digits[i - start] == c);
        }
        if !('0' <= c && c <= '9') {
            return None;
        }
        let digit = c as u32 - '0' as u32;
        proof {
            let longer = digits.take(i - start + 1);
            assert(longer.drop_last() =~= digits.take(i - start));
            assert(longer.last() == c);
        }
        value = 10 * value + digit;
        if value > 65535 {
            proof {
                if all_digits(digits) {
                    lemma_decimal_value_grows(digits, i - start + 1);
                }
            }
            return None;
        }
        i += 1;
    }
    proof {
        assert(digits.take(i - start) =~= digits);
    }
    if i == start || value == 0 {
        None
    } else {
        Some(value as u16)
    }
}

/// A configuration by its texts.
pub ghost struct ConfigView {
    pub working_dir: Seq<char>,
    pub protocol: Seq<char>,
    pub port: Seq<char>,
}

impl ConfigView {
    /// Whether the server can run on these values: the protocol is one that
    /// it speaks and the port is a port number.
    pub open spec fn is_valid(self) -> bool {
        spec_known_protocol(self.protocol) && spec_port_number(self.port) is Some
    }
}

/// The configuration that the values of the environment make: each absent
/// value gets its default, and then the protocol is tested first, the port
/// second.
pub open spec fn spec_from_env(
    working_dir: Option<String>,
    protocol: Option<String>,
    port: Option<String>,
    current_dir: Seq<char>,
) -> Result<ConfigView, ConfigError> {
    let values = ConfigView {
        working_dir: value_or(working_dir, current_dir),
        protocol: value_or(protocol, default_protocol()),
        port: value_or(port, default_port()),
    };
    if !spec_known_protocol(values.protocol) {
        Err(ConfigError::UnknownProtocol)
    } else if spec_port_number(values.port) is None {
        Err(ConfigError::InvalidPort)
    } else {
        Ok(values)
    }
}

/// The working directory, the protocol and the port. Every configuration is
/// valid: there is no way to make one with another protocol than `http` or
/// `https`, or with a port outside 1 to 65535.
#[derive(Debug, PartialEq, Eq)]
pub struct MyConfig {
    working_dir: String,
    protocol: String,
    port: String,
    number: u16,
}

impl View for MyConfig {
    type V = ConfigView;

    closed spec fn view(&self) -> ConfigView {
        ConfigView { working_dir: self.working_dir@, protocol: self.protocol@, port: self.port@ }
    }
}

/// What making a configuration gave, with the configuration by its view.
pub open spec fn spec_config_result(r: Result<MyConfig, ConfigError>) -> Result<
    ConfigView,
    ConfigError,
> {
    match r {
        Ok(config) => Ok(config@),
        Err(e) => Err(e),
    }
}

impl MyConfig {
    #[verifier::type_invariant]
    spec fn holds_valid_values(self) -> bool {
        spec_known_protocol(self.protocol@) && spec_port_number(self.port@) == Some(self.number)
    }

    /// Puts a configuration together from the three values of the
    /// environment, each of which may be absent. An absent working directory
    /// is the current directory, an absent protocol is `http`, an absent port
    /// is `8000`. A protocol other than `http` and `https` is refused, and so
    /// is a port that is no number between 1 and 65535.
    pub fn from_env(
        working_dir: Option<String>,
        protocol: Option<String>,
        port: Option<String>,
        current_dir: String,
    ) -> (made: Result<MyConfig, ConfigError>)
        ensures
            spec_config_result(made) == spec_from_env(working_dir, protocol, port, current_dir@),
            made is Ok ==> made->Ok_0@.is_valid(),
    {
        proof {
            reveal_strlit("http");
            reveal_strlit("8000");
            assert("http"@ =~= default_protocol());
            assert("8000"@ =~= default_port());
        }
        let working_dir = match working_dir {
            Some(text) => text,
            None => current_dir,
        };
        let protocol = match protocol {
            Some(text) => text,
            None => String::from_str("http"),
        };
        let port = match port {
            Some(text) => text,
            None => String::from_str("8000"),
        };
        if !known_protocol(protocol.as_str()) {
            return Err(ConfigError::UnknownProtocol);
        }
        match parse_port(port.as_str()) {
            None => Err(ConfigError::InvalidPort),
            Some(number) => Ok(MyConfig { working_dir, protocol, port, number }),
        }
    }

    /// The directory whose files are shared.
    pub fn working_dir(&self) -> (text: &str)
        ensures
            text@ == self@.working_dir,
    {
        self.working_dir.as_str()
    }

    /// The protocol, which is `http` or `https`.
    pub fn protocol(&self) -> (text: &str)
        ensures
            text@ == self@.protocol,
            spec_known_protocol(text@),
    {
        proof {
            use_type_invariant(self);
        }
        self.protocol.as_str()
    }

    /// The port as it was configured, which denotes a port number.
    pub fn port(&self) -> (text: &str)
        ensures
            text@ == self@.port,
            spec_port_number(text@) is Some,
    {
        proof {
            use_type_invariant(self);
        }
        self.port.as_str()
    }

    /// The port as a number between 1 and 65535.
    pub fn port_number(&self) -> (number: u16)
        ensures
            spec_port_number(self@.port) == Some(number),
            1 <= number,
    {
        proof {
            use_type_invariant(self);
        }
        self.number
    }
}

} // verus!
