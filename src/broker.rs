use vstd::prelude::*;
use vstd::string::StringExecFns;

use crate::text::{decimal, decimal_string};

verus! {

/// Default broker host.
pub const DEFAULT_HOST: &'static str = "127.0.0.1";

/// Largest port number.
pub const MAX_PORT: u64 = 65535;

/// Value of the decimal digit `c`, if it is one.
pub open spec fn digit_value(c: char) -> Option<nat> {
    if '0' <= c && c <= '9' {
        Some((c as u32 - '0' as u32) as nat)
    } else {
        None
    }
}

/// All characters of `s` are decimal digits.
pub open spec fn all_digits(s: Seq<char>) -> bool {
    forall|i: int| 0 <= i < s.len() ==> (#[trigger] digit_value(s[i])) is Some
}

/// The number that the digits `s` write.
pub open spec fn digits_value(s: Seq<char>) -> nat
    decreases s.len(),
{
    if s.len() == 0 {
        0
    } else {
        digits_value(s.drop_last()) * 10 + digit_value(s.last())->Some_0
    }
}

/// The digits of an unsigned number in text: an optional `+`, then at least one digit.
pub open spec fn number_digits(s: Seq<char>) -> Seq<char> {
    if s.len() > 0 && s[0] == '+' {
        s.drop_first()
    } else {
        s
    }
}

/// The value of `s` read as an unsigned decimal number, as integer parsing in std reads it.
pub open spec fn decimal_value(s: Seq<char>) -> Option<nat> {
    let d = number_digits(s);
    if d.len() > 0 && all_digits(d) {
        Some(digits_value(d))
    } else {
        None
    }
}

/// Reads an unsigned decimal number: an optional `+`, then digits. `None` for
/// anything else, and for a value above `u64::MAX`.
pub fn parse_u64(s: &str) -> (r: Option<u64>)
    ensures
        r is Some <==> (decimal_value(s@) matches Some(v) && v <= u64::MAX),
        r matches Some(v) ==> decimal_value(s@) == Some(v as nat),
{
    let n = s.unicode_len();
    let mut i: usize = 0;
    if n > 0 && s.get_char(0) == '+' {
        i = 1;
    }
    let ghost d = number_digits(s@);
    assert(d =~= s@.subrange(i as int, n as int));
    if i == n {
        return None;
    }
    let start = i;
    let mut value: u64 = 0;
    let mut overflow = false;
    while i < n
        invariant
            n == s@.len(),
            start <= i <= n,
            d == s@.subrange(start as int, n as int),
            d == number_digits(s@),
            all_digits(s@.subrange(start as int, i as int)),
            !overflow ==> value as nat == digits_value(s@.subrange(start as int, i as int)),
            overflow ==> digits_value(s@.subrange(start as int, i as int)) > u64::MAX,
        decreases n - i,
    {
        let c = s.get_char(i);
        let ghost pre = s@.subrange(start as int, i as int);
        let ghost next = s@.subrange(start as int, i + 1);
        assert(next.drop_last() =~= pre);
        assert(next.last() == c);
        if c < '0' || c > '9' {
            assert(!all_digits(d)) by {
                assert(d[i - start] == c);
                assert(digit_value(d[i - start]) is None);
            }
            return None;
        }
        let v = (c as u32 - '0' as u32) as u64;
        assert(all_digits(next)) by {
            assert forall|j: int| 0 <= j < next.len() implies (#[trigger] digit_value(next[j])) is Some by {
                if j < pre.len() {
                    assert(next[j] == pre[j]);
                }
            }
        }
        if !overflow {
            if value > (u64::MAX - v) / 10 {
                overflow = true;
                assert(digits_value(next) > u64::MAX) by (nonlinear_arith)
                    requires
                        digits_value(next) == value * 10 + v,
                        value > (u64::MAX - v) / 10,
                        v <= 9,
                ;
            } else {
                assert(value * 10 + v <= u64::MAX) by (nonlinear_arith)
                    requires
                        value <= (u64::MAX - v) / 10,
                        v <= 9,
                ;
                value = value * 10 + v;
            }
        } else {
            assert(digits_value(next) > u64::MAX) by (nonlinear_arith)
                requires
                    digits_value(next) == digits_value(pre) * 10 + v,
                    digits_value(pre) > u64::MAX,
            ;
        }
        i = i + 1;
    }
    assert(s@.subrange(start as int, n as int) == d);
    if overflow {
        None
    } else {
        Some(value)
    }
}

/// Reads a port number: as `parse_u64`, and at most `MAX_PORT`.
pub fn parse_port(s: &str) -> (r: Option<u16>)
    ensures
        r is Some <==> (decimal_value(s@) matches Some(v) && v <= MAX_PORT),
        r matches Some(p) ==> decimal_value(s@) == Some(p as nat),
{
    match parse_u64(s) {
        Some(v) => {
            if v <= MAX_PORT {
                Some(v as u16)
            } else {
                None
            }
        },
        None => None,
    }
}

/// How to reach the message broker.
#[derive(Debug)]
pub struct BrokerConfig {
    pub host: String,
    pub port: u16,
    /// Name of the virtual host, without the leading `/`.
    pub virtual_host: String,
    pub user: String,
    pub password: String,
    pub tls: bool,
}

/// The URL of the broker: `amqp` or `amqps`, credentials, host, port, virtual host.
pub open spec fn server_url(c: BrokerConfig) -> Seq<char> {
    (if c.tls { "amqps"@ } else { "amqp"@ }) + "://"@ + c.user@ + ":"@ + c.password@ + "@"@ + c.host@
        + ":"@ + decimal(c.port as nat) + "/"@ + c.virtual_host@
}

impl BrokerConfig {
    /// Path of the virtual host as the broker names it: `/` then the name.
    pub fn vhost_path(&self) -> (r: String)
        ensures
            r@ == "/"@ + self.virtual_host@,
    {
        let mut s = String::from_str("/");
        s.append(self.virtual_host.as_str());
        s
    }
}

/// The URL of the broker described by `config`.
pub fn get_amqp_server_url(config: &BrokerConfig) -> (r: String)
    ensures
        r@ == server_url(*config),
{
    let mut s = if config.tls {
        String::from_str("amqps")
    } else {
        String::from_str("amqp")
    };
    s.append("://");
    s.append(config.user.as_str());
    s.append(":");
    s.append(config.password.as_str());
    s.append("@");
    s.append(config.host.as_str());
    s.append(":");
    s.append(decimal_string(config.port as u64).as_str());
    s.append("/");
    s.append(config.virtual_host.as_str());
    s
}

} // verus!
