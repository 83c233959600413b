//! Start-up configuration: the values that the process environment gives
//! (or leaves unset), the defaults that stand in for unset ones, and the
//! decimal parsing of the two port numbers.

use vstd::prelude::*;
use vstd::string::*;

verus! {

/// Why a port number was refused; the same reasons, in the same order of
/// precedence, as the standard library's parse of a `u16`.
#[derive(Debug, Clone, Copy, PartialEq, Eq, Structural)]
pub enum PortError {
    /// The text is empty.
    Empty,
    /// The text holds a character other than a decimal digit (after an
    /// optional leading `+`), or is a lone sign.
    InvalidDigit,
    /// The number exceeds 65535.
    PosOverflow,
}

pub open spec fn is_digit(c: char) -> bool {
    '0' <= c && c <= '9'
}

pub open spec fn digit_value(c: char) -> nat {
    (c as int - '0' as int) as nat
}

/// The number that a string of decimal digits denotes.
pub open spec fn digits_value(s: Seq<char>) -> nat
    decreases s.len(),
{
    if s.len() == 0 {
        0
    } else {
        digits_value(s.drop_last()) * 10 + digit_value(s.last())
    }
}

/// The length of the run of decimal digits at the start of `s`.
pub open spec fn digit_run_len(s: Seq<char>) -> nat
    decreases s.len(),
{
    if s.len() == 0 || !is_digit(s[0]) {
        0
    } else {
        1 + digit_run_len(s.drop_first())
    }
}

/// What parsing `s` as a port number gives: an optional `+`, then decimal
/// digits only, denoting at most 65535. Where both a non-digit and an
/// excess occur, the excess is reported if the digits before the first
/// non-digit already exceed 65535.
pub open spec fn parse_port_spec(s: Seq<char>) -> Result<u16, PortError> {
    if s.len() == 0 {
        Err(PortError::Empty)
    } else {
        let body = if s[0] == '+' { s.drop_first() } else { s };
        let run = body.take(digit_run_len(body) as int);
        if body.len() == 0 {
            Err(PortError::InvalidDigit)
        } else if digits_value(run) > 65535 {
            Err(PortError::PosOverflow)
        } else if run.len() < body.len() {
            Err(PortError::InvalidDigit)
        } else {
            Ok(digits_value(run) as u16)
        }
    }
}

proof fn lemma_digit_run_len(s: Seq<char>, i: int)
    requires
        0 <= i <= s.len(),
        forall|k: int| 0 <= k < i ==> is_digit(#[trigger] s[k]),
        i == s.len() || !is_digit(s[i]),
    ensures
        digit_run_len(s) == i,
        digit_run_len(s) <= s.len(),
    decreases i,
{
    if i > 0 {
        let t = s.drop_first();
        assert forall|k: int| 0 <= k < i - 1 implies is_digit(#[trigger] t[k]) by {
            assert(t[k] == s[k + 1]);
        }
        if i - 1 < t.len() {
            assert(t[i - 1] == s[i]);
        }
        lemma_digit_run_len(t, i - 1);
    }
}

/// A longer prefix of a digit string denotes at least as much.
proof fn lemma_digits_value_prefix(s: Seq<char>, k: int)
    requires
        0 <= k <= s.len(),
    ensures
        digits_value(s.take(k)) <= digits_value(s),
    decreases s.len() - k,
{
    if k < s.len() {
        let t = s.take(k + 1);
        assert(t.drop_last() =~= s.take(k));
        lemma_digits_value_prefix(s, k + 1);
    } else {
        assert(s.take(k) =~= s);
    }
}

/// Parses a port number as the standard library parses a `u16`.
pub fn parse_port(s: &str) -> (r: Result<u16, PortError>)
    ensures
        r == parse_port_spec(s@),
{
    let n = s.unicode_len();
    if n == 0 {
        return Err(PortError::Empty);
    }
    let start: usize = if s.get_char(0) == '+' { 1 } else { 0 };
    let ghost body = if s@[0] == '+' { s@.drop_first() } else { s@ };
    assert(body =~= s@.skip(start as int));
    if start == n {
        return Err(PortError::InvalidDigit);
    }
    let mut acc: u32 = 0;
    let mut i: usize = start;
    while i < n
        invariant
            n == s@.len(),
            body == s@.skip(start as int),
            body == (if s@[0] == '+' { s@.drop_first() } else { s@ }),
            start <= i <= n,
            start < n,
            acc as int == digits_value(body.take(i - start)),
            acc <= 65535,
            forall|k: int| 0 <= k < i - start ==> is_digit(#[trigger] body[k]),
        decreases n - i,
    {
        let c = s.get_char(i);
        let ghost j: int = i - start;
        assert(body[j] == c);
        if !('0' <= c && c <= '9') {
            proof {
                lemma_digit_run_len(body, j);
                assert(body.len() > 0);
                assert(digits_value(body.take(digit_run_len(body) as int)) <= 65535);
            }
            return Err(PortError::InvalidDigit);
        }
        let d: u32 = (c as u32) - ('0' as u32);
        assert(body.take(j + 1).drop_last() =~= body.take(j));
        assert(body.take(j + 1).last() == c);
        acc = acc * 10 + d;
        if acc > 65535 {
            proof {
                // the run of digits is at least as long as what was read
                lemma_digit_run_at_least(body, j + 1);
                let run_len = digit_run_len(body);
                let run = body.take(run_len as int);
                assert(run.take(j + 1) =~= body.take(j + 1));
                lemma_digits_value_prefix(run, j + 1);
            }
            return Err(PortError::PosOverflow);
        }
        i = i + 1;
    }
    proof {
        lemma_digit_run_len(body, (n - start) as int);
        assert(body.take((n - start) as int) =~= body);
    }
    Ok(acc as u16)
}

proof fn lemma_digit_run_at_least(s: Seq<char>, i: int)
    requires
        0 <= i <= s.len(),
        forall|k: int| 0 <= k < i ==> is_digit(#[trigger] s[k]),
    ensures
        digit_run_len(s) >= i,
        digit_run_len(s) <= s.len(),
    decreases i,
{
    if i > 0 {
        let t = s.drop_first();
        assert forall|k: int| 0 <= k < i - 1 implies is_digit(#[trigger] t[k]) by {
            assert(t[k] == s[k + 1]);
        }
        lemma_digit_run_at_least(t, i - 1);
    } else {
        lemma_run_len_bounded(s);
    }
}

proof fn lemma_run_len_bounded(s: Seq<char>)
    ensures
        digit_run_len(s) <= s.len(),
    decreases s.len(),
{
    if s.len() > 0 {
        lemma_run_len_bounded(s.drop_first());
    }
}

/// The decimal digit for `d` (taken as 9 from 9 on).
pub open spec fn digit_char(d: nat) -> char {
    if d == 0 {
        '0'
    } else if d == 1 {
        '1'
    } else if d == 2 {
        '2'
    } else if d == 3 {
        '3'
    } else if d == 4 {
        '4'
    } else if d == 5 {
        '5'
    } else if d == 6 {
        '6'
    } else if d == 7 {
        '7'
    } else if d == 8 {
        '8'
    } else {
        '9'
    }
}

/// The decimal notation of `n`, without sign or leading zeros.
pub open spec fn decimal(n: nat) -> Seq<char>
    decreases n,
{
    if n < 10 {
        seq![digit_char(n)]
    } else {
        decimal(n / 10).push(digit_char(n % 10))
    }
}

proof fn lemma_digit_char(d: nat)
    requires
        d < 10,
    ensures
        is_digit(digit_char(d)),
        digit_value(digit_char(d)) == d,
{
}

proof fn lemma_decimal_digits(n: nat)
    ensures
        decimal(n).len() > 0,
        forall|k: int| 0 <= k < decimal(n).len() ==> is_digit(#[trigger] decimal(n)[k]),
        digits_value(decimal(n)) == n,
    decreases n,
{
    if n < 10 {
        assert(seq![digit_char(n)].drop_last() =~= Seq::<char>::empty());
        lemma_digit_char(n);
        assert(digits_value(seq![digit_char(n)]) == digits_value(Seq::<char>::empty()) * 10 + digit_value(digit_char(n)));
    } else {
        lemma_decimal_digits(n / 10);
        lemma_digit_char(n % 10);
        let d = decimal(n);
        assert(d.drop_last() =~= decimal(n / 10));
        assert(d.last() == digit_char(n % 10));
        assert(digits_value(d) == digits_value(decimal(n / 10)) * 10 + digit_value(digit_char(n % 10)));
        assert(n == (n / 10) * 10 + n % 10);
        assert forall|k: int| 0 <= k < d.len() implies is_digit(#[trigger] d[k]) by {
            if k < d.len() - 1 {
                assert(d[k] == decimal(n / 10)[k]);
            }
        }
    }
}

/// Every port number, written in decimal, parses back to itself.
pub proof fn lemma_port_round_trip(n: u16)
    ensures
        parse_port_spec(decimal(n as nat)) == Ok::<u16, PortError>(n),
{
    let s = decimal(n as nat);
    lemma_decimal_digits(n as nat);
    assert(is_digit(s[0]));
    lemma_digit_run_len(s, s.len() as int);
    assert(s.take(s.len() as int) =~= s);
}

/// The configuration variables as the environment gives them (`None` where
/// a variable is unset or not valid Unicode).
pub struct EnvValues {
    pub clickhouse_url: Option<String>,
    pub clickhouse_db: Option<String>,
    pub mqtt_broker: Option<String>,
    pub mqtt_port: Option<String>,
    pub mqtt_topic: Option<String>,
    pub api_port: Option<String>,
}

/// The configuration that the backend starts with.
pub struct Config {
    pub clickhouse_url: String,
    pub clickhouse_db: String,
    pub mqtt_broker: String,
    pub mqtt_port: u16,
    pub mqtt_topic: String,
    pub api_port: u16,
}

/// A port variable that could not be parsed, with the reason.
#[derive(Debug, Clone, Copy, PartialEq, Eq, Structural)]
pub enum ConfigError {
    MqttPort(PortError),
    ApiPort(PortError),
}

/// The capacity of the channel on which alerts are broadcast.
pub const ALERT_CHANNEL_CAPACITY: usize = 100;

/// A variable's value, or `default` where it is unset.
pub open spec fn value_or(v: Option<String>, default: Seq<char>) -> Seq<char> {
    match v {
        Some(s) => s@,
        None => default,
    }
}

fn text_or(v: Option<String>, default: &str) -> (r: String)
    ensures
        r@ == value_or(v, default@),
{
    match v {
        Some(s) => s,
        None => default.to_owned(),
    }
}

/// Resolves the configuration: each unset variable takes its default
/// (`http://localhost:8123`, `shuidui`, `localhost`, `1883`,
/// `shuidui/sensor/#`, `8080`); the MQTT port is parsed first, then the API
/// port, and the first that fails to parse is reported.
pub fn resolve_config(env: EnvValues) -> (r: Result<Config, ConfigError>)
    ensures
        match (parse_port_spec(value_or(env.mqtt_port, "1883"@)),
            parse_port_spec(value_or(env.api_port, "8080"@))) {
            (Err(e), _) => r == Err::<Config, ConfigError>(ConfigError::MqttPort(e)),
            (Ok(_), Err(e)) => r == Err::<Config, ConfigError>(ConfigError::ApiPort(e)),
            (Ok(mqtt_port), Ok(api_port)) => r matches Ok(c) && {
                &&& c.clickhouse_url@ == value_or(env.clickhouse_url, "http://localhost:8123"@)
                &&& c.clickhouse_db@ == value_or(env.clickhouse_db, "shuidui"@)
                &&& c.mqtt_broker@ == value_or(env.mqtt_broker, "localhost"@)
                &&& c.mqtt_port == mqtt_port
                &&& c.mqtt_topic@ == value_or(env.mqtt_topic, "shuidui/sensor/#"@)
                &&& c.api_port == api_port
            },
        },
{
    let EnvValues { clickhouse_url, clickhouse_db, mqtt_broker, mqtt_port, mqtt_topic, api_port } =
        env;
    let clickhouse_url = text_or(clickhouse_url, "http://localhost:8123");
    let clickhouse_db = text_or(clickhouse_db, "shuidui");
    let mqtt_broker = text_or(mqtt_broker, "localhost");
    let mqtt_port_text = text_or(mqtt_port, "1883");
    let mqtt_port = match parse_port(mqtt_port_text.as_str()) {
        Ok(p) => p,
        Err(e) => return Err(ConfigError::MqttPort(e)),
    };
    let mqtt_topic = text_or(mqtt_topic, "shuidui/sensor/#");
    let api_port_text = text_or(api_port, "8080");
    let api_port = match parse_port(api_port_text.as_str()) {
        Ok(p) => p,
        Err(e) => return Err(ConfigError::ApiPort(e)),
    };
    Ok(Config { clickhouse_url, clickhouse_db, mqtt_broker, mqtt_port, mqtt_topic, api_port })
}

} // verus!
