//! The settings a running process is configured with: listen address,
//! admission limit, buffer size and the two timeout durations. Loading
//! them from files and the environment happens outside this library; here
//! the resolved values are plain data, read-only for the process lifetime.

use vstd::prelude::*;

use vstd::string::StringExecFns;

verus! {

/// The listener's own settings: where to bind, how many sessions to admit
/// at once, the per-session buffer size, and the timeout values.
#[derive(Debug)]
pub struct ServerConfig {
    pub host: String,
    pub port: u16,
    pub max_connections: usize,
    pub buffer_size: usize,
    pub timeouts: TimeoutConfig,
}

/// The two configured delays: the idle timeout of a connection, in
/// seconds, and the accept loop's retry delay, in milliseconds.
#[derive(Debug)]
pub struct TimeoutConfig {
    pub connection: u64,
    pub retry_delay: u64,
}

/// Where and how the process logs.
#[derive(Debug)]
pub struct LoggingConfig {
    pub level: String,
    pub file: String,
    pub rotation: String,
}

/// The resolved, immutable settings value shared by every session.
#[derive(Debug)]
pub struct Settings {
    pub server: ServerConfig,
    pub logging: LoggingConfig,
}

/// The number of milliseconds an opaque `Duration` value stands for.
pub uninterp spec fn duration_millis(d: core::time::Duration) -> int;

/// Relies on `core::time::Duration::from_secs`: a duration of exactly the
/// given number of seconds.
pub assume_specification[ core::time::Duration::from_secs ](secs: u64) -> (d:
    core::time::Duration)
    ensures
        duration_millis(d) == secs * 1000,
;

/// Relies on `core::time::Duration::from_millis`: a duration of exactly
/// the given number of milliseconds.
pub assume_specification[ core::time::Duration::from_millis ](millis: u64) -> (d:
    core::time::Duration)
    ensures
        duration_millis(d) == millis,
;

/// The decimal digit characters of `n`, most significant first.
pub open spec fn spec_dec_digits(n: int) -> Seq<char>
    recommends
        n >= 0,
    decreases n,
{
    if n < 10 {
        seq![spec_digit_char(n)]
    } else {
        spec_dec_digits(n / 10) + seq![spec_digit_char(n % 10)]
    }
}

/// The character of one decimal digit.
pub open spec fn spec_digit_char(d: int) -> char
    recommends
        0 <= d < 10,
{
    if d == 0 {
        '0'
    } else if d == 1 {
        '1'
    } else if d == 2 {
        '2'
    } else if d == 3 {
        '3'
    } else if d == 4 {
        '4'
    } else if d == 5 {
        '5'
    } else if d == 6 {
        '6'
    } else if d == 7 {
        '7'
    } else if d == 8 {
        '8'
    } else {
        '9'
    }
}

/// Appends the character of one decimal digit.
fn push_digit(s: &mut String, d: u16)
    requires
        d < 10,
    ensures
        final(s)@ == old(s)@ + seq![spec_digit_char(d as int)],
{
    if d == 0 {
        s.append("0");
        proof {
            reveal_strlit("0");
            assert("0"@ =~= seq![spec_digit_char(d as int)]);
        }
    } else if d == 1 {
        s.append("1");
        proof {
            reveal_strlit("1");
            assert("1"@ =~= seq![spec_digit_char(d as int)]);
        }
    } else if d == 2 {
        s.append("2");
        proof {
            reveal_strlit("2");
            assert("2"@ =~= seq![spec_digit_char(d as int)]);
        }
    } else if d == 3 {
        s.append("3");
        proof {
            reveal_strlit("3");
            assert("3"@ =~= seq![spec_digit_char(d as int)]);
        }
    } else if d == 4 {
        s.append("4");
        proof {
            reveal_strlit("4");
            assert("4"@ =~= seq![spec_digit_char(d as int)]);
        }
    } else if d == 5 {
        s.append("5");
        proof {
            reveal_strlit("5");
            assert("5"@ =~= seq![spec_digit_char(d as int)]);
        }
    } else if d == 6 {
        s.append("6");
        proof {
            reveal_strlit("6");
            assert("6"@ =~= seq![spec_digit_char(d as int)]);
        }
    } else if d == 7 {
        s.append("7");
        proof {
            reveal_strlit("7");
            assert("7"@ =~= seq![spec_digit_char(d as int)]);
        }
    } else if d == 8 {
        s.append("8");
        proof {
            reveal_strlit("8");
            assert("8"@ =~= seq![spec_digit_char(d as int)]);
        }
    } else {
        s.append("9");
        proof {
            reveal_strlit("9");
            assert("9"@ =~= seq![spec_digit_char(d as int)]);
        }
    }
}

/// Appends the decimal digits of `n`, most significant first.
fn push_decimal(s: &mut String, n: u16)
    ensures
        final(s)@ == old(s)@ + spec_dec_digits(n as int),
    decreases n,
{
    if n < 10 {
        push_digit(s, n);
    } else {
        push_decimal(s, n / 10);
        push_digit(s, n % 10);
    }
}

impl Settings {
    /// The idle timeout of a connection, as a duration.
    pub fn connection_timeout(&self) -> (r: core::time::Duration)
        ensures
            duration_millis(r) == self.server.timeouts.connection * 1000,
    {
        core::time::Duration::from_secs(self.server.timeouts.connection)
    }

    /// The accept loop's retry delay, as a duration.
    pub fn retry_delay(&self) -> (r: core::time::Duration)
        ensures
            duration_millis(r) == self.server.timeouts.retry_delay,
    {
        core::time::Duration::from_millis(self.server.timeouts.retry_delay)
    }

    /// The listen address: the host, a colon, and the port in decimal.
    pub fn server_addr(&self) -> (r: String)
        ensures
            r@ == self.server.host@ + seq![':'] + spec_dec_digits(self.server.port as int),
    {
        let mut s = self.server.host.clone();
        s.append(":");
        proof {
            reveal_strlit(":");
            assert(":"@ =~= seq![':']);
        }
        push_decimal(&mut s, self.server.port);
        proof {
            assert(s@ =~= self.server.host@ + seq![':'] + spec_dec_digits(
                self.server.port as int,
            ));
        }
        s
    }
}

} // verus!
