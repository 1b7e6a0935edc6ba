//! Configuration from environment variables, with the documented defaults.

use vstd::prelude::*;
use vstd::string::*;

use crate::vcs::version_control::{decimal_spec, digit_char};

verus! {

/// The value of an environment variable as the environment gives it.
#[derive(Debug)]
pub enum EnvVar {
    /// The variable is set to this text.
    Present(String),
    /// The variable is not set.
    NotPresent,
    /// The variable is set but is not valid Unicode.
    NotUnicode,
}

/// Why the configuration could not be built.
#[derive(Clone, Copy, Debug, PartialEq, Eq, Structural)]
pub enum ConfigError {
    /// `BLOCK_SIZE` is set but is not valid Unicode.
    BlockSizeNotUnicode,
}

/// Struct for storing the configuration from environment variables.
pub struct Config {
    pub database_url: String,
    pub block_size: u32,
    pub pipe_path: String,
}

/// Whether every character of `d` is an ASCII digit.
pub open spec fn all_digits(d: Seq<char>) -> bool {
    forall|i: int| 0 <= i < d.len() ==> '0' <= #[trigger] d[i] <= '9'
}

/// The number that a string of decimal digits denotes.
pub open spec fn digits_value(d: Seq<char>) -> int
    decreases d.len(),
{
    if d.len() == 0 {
        0
    } else {
        digits_value(d.drop_last()) * 10 + (d.last() as int - '0' as int)
    }
}

/// The digits of a number text: the text without one leading `+`.
pub open spec fn unsigned_digits(s: Seq<char>) -> Seq<char> {
    if s.len() > 0 && s[0] == '+' {
        s.drop_first()
    } else {
        s
    }
}

/// What `u32::from_str` gives for a text: an optional `+` followed by at
/// least one digit, with a value that fits.
pub open spec fn parse_u32_spec(s: Seq<char>) -> Option<u32> {
    let d = unsigned_digits(s);
    if d.len() == 0 || !all_digits(d) || digits_value(d) > u32::MAX {
        None
    } else {
        Some(digits_value(d) as u32)
    }
}

proof fn lemma_digits_value_step(d: Seq<char>, c: char)
    requires
        all_digits(d.push(c)),
    ensures
        digits_value(d.push(c)) == digits_value(d) * 10 + (c as int - '0' as int),
        digits_value(d.push(c)) >= digits_value(d),
        digits_value(d) >= 0,
    decreases d.len(),
{
    assert(d.push(c).drop_last() =~= d);
    lemma_digits_value_nonneg(d);
}

proof fn lemma_digits_value_nonneg(d: Seq<char>)
    requires
        forall|i: int| 0 <= i < d.len() ==> '0' <= #[trigger] d[i] <= '9',
    ensures
        digits_value(d) >= 0,
    decreases d.len(),
{
    if d.len() > 0 {
        lemma_digits_value_nonneg(d.drop_last());
    }
}

/// Parses a decimal `u32` as `str::parse::<u32>` does.
pub fn parse_u32(s: &str) -> (r: Option<u32>)
    ensures
        r == parse_u32_spec(s@),
{
    let n = s.unicode_len();
    let mut start: usize = 0;
    if n > 0 && s.get_char(0) == '+' {
        start = 1;
    }
    let ghost d = unsigned_digits(s@);
    assert(d =~= s@.subrange(start as int, n as int));
    if start == n {
        return None;
    }
    let mut value: u64 = 0;
    let mut overflow = false;
    let mut i = start;
    while i < n
        invariant
            start <= i <= n,
            n == s@.len(),
            d == s@.subrange(start as int, n as int),
            d == unsigned_digits(s@),
            all_digits(d.take(i - start)),
            !overflow ==> value == digits_value(d.take(i - start)),
            overflow ==> digits_value(d.take(i - start)) > u32::MAX,
            value <= u32::MAX,
        decreases n - i,
    {
        let c = s.get_char(i);
        if c < '0' || c > '9' {
            assert(d[i - start] == c);
            assert(!('0' <= d[i - start] <= '9'));
            assert(!all_digits(d)) by {
                assert(0 <= i - start < d.len());
            }
            return None;
        }
        proof {
            assert(d.take(i - start + 1) =~= d.take(i - start).push(c));
            lemma_digits_value_step(d.take(i - start), c);
        }
        if !overflow {
            let digit = (c as u32 - 48) as u64;
            let next = value * 10 + digit;
            if next > 4294967295 {
                overflow = true;
            } else {
                value = next;
            }
        }
        i = i + 1;
    }
    assert(d.take(n - start) =~= d);
    if overflow {
        None
    } else {
        Some(value as u32)
    }
}

/// The text of a variable, or `default` when it is not set or not Unicode.
pub open spec fn text_or(var: EnvVar, default: Seq<char>) -> Seq<char> {
    match var {
        EnvVar::Present(s) => s@,
        _ => default,
    }
}

/// The block size that `BLOCK_SIZE` gives: its number, or 1024 when it is
/// not set or not a number.
pub open spec fn block_size_from(var: EnvVar) -> Result<u32, ConfigError> {
    match var {
        EnvVar::Present(s) => match parse_u32_spec(s@) {
            Some(n) => Ok(n),
            None => Ok(1024u32),
        },
        EnvVar::NotPresent => Ok(1024u32),
        EnvVar::NotUnicode => Err(ConfigError::BlockSizeNotUnicode),
    }
}

impl Config {
    /// The configuration from the values of `DATABASE_URL`, `BLOCK_SIZE` and
    /// `PIPE_PATH`; every value that is missing takes its default.
    pub fn from_env_values(database_url: EnvVar, block_size: EnvVar, pipe_path: EnvVar) -> (r: Result<
        Config,
        ConfigError,
    >)
        ensures
            match r {
                Ok(c) => {
                    &&& block_size_from(block_size) == Ok::<u32, ConfigError>(c.block_size)
                    &&& c.database_url@ == text_or(database_url, "sqlite://warthog.db"@)
                    &&& c.pipe_path@ == text_or(pipe_path, "/tmp/warthog.sock"@)
                },
                Err(e) => block_size_from(block_size) == Err::<u32, ConfigError>(e),
            },
    {
        let database_url = match database_url {
            EnvVar::Present(s) => s,
            _ => String::from_str("sqlite://warthog.db"),
        };
        let block_size = match block_size {
            EnvVar::Present(s) => match parse_u32(s.as_str()) {
                Some(n) => n,
                None => 1024,
            },
            EnvVar::NotPresent => 1024,
            EnvVar::NotUnicode => return Err(ConfigError::BlockSizeNotUnicode),
        };
        let pipe_path = match pipe_path {
            EnvVar::Present(s) => s,
            _ => String::from_str("/tmp/warthog.sock"),
        };
        Ok(Config { database_url, block_size, pipe_path })
    }
}

proof fn lemma_digit_char(d: int)
    requires
        0 <= d < 10,
    ensures
        '0' <= digit_char(d) <= '9',
        digit_char(d) as int - '0' as int == d,
{
    let digits = seq!['0', '1', '2', '3', '4', '5', '6', '7', '8', '9'];
    assert(digit_char(d) == digits[d]);
    if d == 0 {
    } else if d == 1 {
    } else if d == 2 {
    } else if d == 3 {
    } else if d == 4 {
    } else if d == 5 {
    } else if d == 6 {
    } else if d == 7 {
    } else if d == 8 {
    } else {
    }
}

/// The decimal text of a number is a string of digits, without a sign,
/// that denotes that number.
proof fn lemma_decimal_digits(n: nat)
    ensures
        decimal_spec(n).len() > 0,
        decimal_spec(n)[0] != '+',
        all_digits(decimal_spec(n)),
        digits_value(decimal_spec(n)) == n,
    decreases n,
{
    if n < 10 {
        lemma_digit_char(n as int);
        let d = decimal_spec(n);
        assert(d.drop_last() =~= Seq::<char>::empty());
        assert(d.last() == digit_char(n as int));
        assert(digits_value(d) == digits_value(d.drop_last()) * 10 + (d.last() as int - '0' as int));
        assert(digits_value(Seq::<char>::empty()) == 0);
    } else {
        let high = decimal_spec(n / 10);
        let c = digit_char((n % 10) as int);
        lemma_decimal_digits(n / 10);
        lemma_digit_char((n % 10) as int);
        let d = decimal_spec(n);
        assert(d =~= high.push(c));
        assert(d.drop_last() =~= high);
        assert(d[0] == high[0]);
        assert(all_digits(d)) by {
            assert forall|i: int| 0 <= i < d.len() implies '0' <= #[trigger] d[i] <= '9' by {
                if i < high.len() {
                    assert(d[i] == high[i]);
                }
            }
        }
        assert(d.last() == c);
        assert(digits_value(d) == digits_value(d.drop_last()) * 10 + (d.last() as int - '0' as int));
        assert(digits_value(d) == (n / 10) * 10 + n % 10);
        assert((n / 10) * 10 + n % 10 == n) by (nonlinear_arith);
    }
}

/// A present `BLOCK_SIZE` that parses as a number gives that number as the
/// block size, whatever the number.
pub proof fn law_block_size_is_parsed_value(s: String, n: u32)
    requires
        parse_u32_spec(s@) == Some(n),
    ensures
        block_size_from(EnvVar::Present(s)) == Ok::<u32, ConfigError>(n),
{
}

/// `BLOCK_SIZE` set to the decimal text of any `u32` gives that number as the
/// block size.
pub proof fn law_block_size_of_decimal(s: String, n: u32)
    requires
        s@ == decimal_spec(n as nat),
    ensures
        parse_u32_spec(s@) == Some(n),
        block_size_from(EnvVar::Present(s)) == Ok::<u32, ConfigError>(n),
{
    lemma_decimal_digits(n as nat);
    assert(unsigned_digits(s@) == s@);
}

} // verus!
