//! Bootstrap-server addresses and the broker port range derived from
//! them.
//!
//! Client traffic to individual brokers is carried over the hundred
//! ports right above the bootstrap server's own, clamped to the top of
//! the port space.

use vstd::prelude::*;
use vstd::string::StrSliceExecFns;
use vstd::string::StringExecFns;

use crate::address::all_dec_digits;
use crate::address::dec_value;
use crate::address::is_dec_digit;
use crate::address::lemma_dec_value_grows;

verus! {

/// A range of ports, never empty.
#[derive(Clone, Copy, Debug, PartialEq, Eq, Structural)]
pub struct PortRange {
    start: u16,
    end: u16,
}

/// The bounds given for a port range were out of order.
#[derive(Clone, Copy, Debug, PartialEq, Eq, Structural)]
pub struct InvalidPortRange;

impl PortRange {
    /// The first port of the range.
    pub closed spec fn spec_start(&self) -> u16 {
        self.start
    }

    /// The last port of the range.
    pub closed spec fn spec_end(&self) -> u16 {
        self.end
    }

    /// A range from `start` to `end`, both inclusive; the bounds must be
    /// in order.
    pub fn new(start: u16, end: u16) -> (r: Result<PortRange, InvalidPortRange>)
        ensures
            start <= end ==> (r matches Ok(range) && range.spec_start() == start && range.spec_end() == end),
            start > end ==> r == Result::<PortRange, InvalidPortRange>::Err(InvalidPortRange),
    {
        if start <= end {
            Ok(PortRange { start, end })
        } else {
            Err(InvalidPortRange)
        }
    }

    /// The first port of the range.
    pub fn start(&self) -> (r: u16)
        ensures
            r == self.spec_start(),
    {
        self.start
    }

    /// The last port of the range.
    pub fn end(&self) -> (r: u16)
        ensures
            r == self.spec_end(),
    {
        self.end
    }
}

/// The index just after the first `"://"` in `s`, if any.
pub open spec fn find_scheme_end(s: Seq<char>) -> Option<int>
    decreases s.len(),
{
    if s.len() < 3 {
        None
    } else if s[0] == ':' && s[1] == '/' && s[2] == '/' {
        Some(3)
    } else {
        match find_scheme_end(s.subrange(1, s.len() as int)) {
            Some(j) => Some(j + 1),
            None => None,
        }
    }
}

/// The position of the last occurrence of `c` in `s`, if any.
pub open spec fn find_char_last(s: Seq<char>, c: char) -> Option<int>
    decreases s.len(),
{
    if s.len() == 0 {
        None
    } else if s.last() == c {
        Some(s.len() - 1)
    } else {
        find_char_last(s.drop_last(), c)
    }
}

proof fn lemma_find_scheme_end_at(s: Seq<char>, j: int)
    requires
        0 <= j,
        j + 3 <= s.len(),
        s[j] == ':' && s[j + 1] == '/' && s[j + 2] == '/',
        forall|k: int| 0 <= k < j ==> !((#[trigger] s[k]) == ':' && s[k + 1] == '/' && s[k + 2] == '/'),
    ensures
        find_scheme_end(s) == Some(j + 3),
    decreases s.len(),
{
    if j == 0 {
    } else {
        assert(!(s[0] == ':' && s[1] == '/' && s[2] == '/'));
        let t = s.subrange(1, s.len() as int);
        assert(forall|k: int| 0 <= k < j - 1 ==> (#[trigger] t[k]) == s[k + 1] && t[k + 1] == s[k + 2] && t[k + 2] == s[k + 3]);
        lemma_find_scheme_end_at(t, j - 1);
    }
}

proof fn lemma_find_scheme_end_none(s: Seq<char>)
    requires
        forall|k: int| 0 <= k && k + 2 < s.len() ==> !((#[trigger] s[k]) == ':' && s[k + 1] == '/' && s[k + 2] == '/'),
    ensures
        find_scheme_end(s) is None,
    decreases s.len(),
{
    if s.len() >= 3 {
        assert(!(s[0] == ':' && s[1] == '/' && s[2] == '/'));
        let t = s.subrange(1, s.len() as int);
        assert(forall|k: int| 0 <= k && k + 2 < t.len() ==> (#[trigger] t[k]) == s[k + 1] && t[k + 1] == s[k + 2] && t[k + 2] == s[k + 3]);
        lemma_find_scheme_end_none(t);
    }
}

proof fn lemma_find_char_last_at(s: Seq<char>, c: char, j: int)
    requires
        0 <= j < s.len(),
        s[j] == c,
        forall|k: int| j < k < s.len() ==> s[k] != c,
    ensures
        find_char_last(s, c) == Some(j),
    decreases s.len(),
{
    if j < s.len() - 1 {
        assert(s.last() != c);
        let t = s.drop_last();
        assert(t[j] == s[j]);
        assert(forall|k: int| j < k < t.len() ==> t[k] == s[k] && s[k] != c);
        lemma_find_char_last_at(t, c, j);
    }
}

proof fn lemma_find_char_last_none(s: Seq<char>, c: char)
    requires
        forall|k: int| 0 <= k < s.len() ==> s[k] != c,
    ensures
        find_char_last(s, c) is None,
    decreases s.len(),
{
    if s.len() > 0 {
        let t = s.drop_last();
        assert(forall|k: int| 0 <= k < t.len() ==> t[k] == s[k] && s[k] != c);
        lemma_find_char_last_none(t, c);
    }
}

/// What [`HostnamePort::from_str`] reads out of a piece of text: an
/// optional scheme before `"://"` is dropped; the digits after the last
/// `:` are the port, everything before it the hostname.
pub open spec fn parsed_hostname_port(s: Seq<char>) -> Option<(Seq<char>, u16)> {
    let rest = match find_scheme_end(s) {
        Some(j) => s.subrange(j, s.len() as int),
        None => s,
    };
    match find_char_last(rest, ':') {
        None => None,
        Some(j) => {
            let host = rest.subrange(0, j);
            let digits = rest.subrange(j + 1, rest.len() as int);
            if digits.len() > 0 && all_dec_digits(digits) && dec_value(digits) <= 65535 {
                Some((host, dec_value(digits) as u16))
            } else {
                None
            }
        },
    }
}

/// A hostname and the port to reach it on.
pub struct HostnamePort {
    hostname: String,
    port: u16,
}

impl HostnamePort {
    /// The hostname.
    pub closed spec fn spec_hostname(&self) -> Seq<char> {
        self.hostname@
    }

    /// The port.
    pub closed spec fn spec_port(&self) -> u16 {
        self.port
    }

    /// Pair a hostname with a port.
    pub fn new(hostname: &str, port: u16) -> (r: Self)
        ensures
            r.spec_hostname() == hostname@,
            r.spec_port() == port,
    {
        HostnamePort { hostname: String::from_str(hostname), port }
    }

    /// The hostname.
    pub fn hostname(&self) -> (r: &str)
        ensures
            r@ == self.spec_hostname(),
    {
        self.hostname.as_str()
    }

    /// The port.
    pub fn port(&self) -> (r: u16)
        ensures
            r == self.spec_port(),
    {
        self.port
    }

    /// Read a `host:port` pair from text, dropping any leading
    /// `scheme://`.
    pub fn from_str(s: &str) -> (r: Option<HostnamePort>)
        ensures
            match parsed_hostname_port(s@) {
                Some(hp) => r matches Some(out) && out.spec_hostname() == hp.0 && out.spec_port() == hp.1,
                None => r is None,
            },
    {
        let n = s.unicode_len();
        // Skip a scheme marker if one is present.
        let mut i: usize = 0;
        let mut scheme_end: Option<usize> = None;
        if n >= 3 {
            while i < n - 2
                invariant_except_break
                    scheme_end is None,
                invariant
                    0 <= i <= n,
                    3 <= n == s@.len(),
                    forall|k: int| 0 <= k < i ==> !((#[trigger] s@[k]) == ':' && s@[k + 1] == '/' && s@[k + 2] == '/'),
                ensures
                    match scheme_end {
                        Some(j) => 3 <= j <= n && s@[j - 3] == ':' && s@[j - 2] == '/' && s@[j - 1] == '/'
                            && forall|k: int| 0 <= k < j - 3 ==> !((#[trigger] s@[k]) == ':' && s@[k + 1] == '/' && s@[k + 2] == '/'),
                        None => forall|k: int| 0 <= k && k + 2 < n ==> !((#[trigger] s@[k]) == ':' && s@[k + 1] == '/' && s@[k + 2] == '/'),
                    },
                decreases n - i,
            {
                if s.get_char(i) == ':' && s.get_char(i + 1) == '/' && s.get_char(i + 2) == '/' {
                    scheme_end = Some(i + 3);
                    break;
                }
                i += 1;
            }
        } else {
            proof {
                assert(forall|k: int| 0 <= k && k + 2 < n ==> !((#[trigger] s@[k]) == ':' && s@[k + 1] == '/' && s@[k + 2] == '/'));
            }
        }
        let start: usize = match scheme_end {
            Some(j) => {
                proof {
                    lemma_find_scheme_end_at(s@, (j - 3) as int);
                }
                j
            },
            None => {
                proof {
                    lemma_find_scheme_end_none(s@);
                }
                0
            },
        };
        let ghost rest = if start > 0 { s@.subrange(start as int, n as int) } else { s@ };
        proof {
            if start > 0 {
                assert(forall|k: int| 0 <= k < rest.len() ==> rest[k] == s@[k + start]);
            }
        }
        // Last ':' in [start, n).
        let mut j: usize = n;
        let mut colon: Option<usize> = None;
        while j > start
            invariant_except_break
                colon is None,
            invariant
                start <= j <= n,
                n == s@.len(),
                forall|k: int| j <= k < n ==> s@[k] != ':',
            ensures
                match colon {
                    Some(p) => start <= p < n && s@[p as int] == ':' && forall|k: int| p < k < n ==> s@[k] != ':',
                    None => forall|k: int| start <= k < n ==> s@[k] != ':',
                },
            decreases j,
        {
            if s.get_char(j - 1) == ':' {
                colon = Some(j - 1);
                break;
            }
            j -= 1;
        }
        let p = match colon {
            Some(p) => {
                proof {
                    assert(rest[(p - start) as int] == s@[p as int]);
                    assert(forall|k: int| (p - start) < k < rest.len() ==> rest[k] == s@[k + start] && s@[k + start] != ':');
                    lemma_find_char_last_at(rest, ':', (p - start) as int);
                }
                p
            },
            None => {
                proof {
                    assert(forall|k: int| 0 <= k < rest.len() ==> rest[k] == s@[k + start] && s@[k + start] != ':');
                    lemma_find_char_last_none(rest, ':');
                }
                return None;
            },
        };
        // The digits after the colon.
        if p + 1 >= n {
            proof {
                assert(rest.subrange(p - start + 1, rest.len() as int).len() == 0);
            }
            return None;
        }
        let ghost digits = rest.subrange(p - start + 1, rest.len() as int);
        proof {
            assert(forall|k: int| 0 <= k < digits.len() ==> digits[k] == s@[k + p + 1]);
        }
        let mut value: u32 = 0;
        let mut k: usize = p + 1;
        while k < n
            invariant
                p + 1 <= k <= n,
                n == s@.len(),
                start <= p,
                match find_scheme_end(s@) {
                    Some(j) => j == start,
                    None => start == 0,
                },
                find_char_last(rest, ':') == Some(p - start),
                digits == rest.subrange(p - start + 1, rest.len() as int),
                rest == (if start > 0 { s@.subrange(start as int, n as int) } else { s@ }),
                digits.len() == n - p - 1,
                forall|q: int| 0 <= q < digits.len() ==> digits[q] == s@[q + p + 1],
                all_dec_digits(digits.subrange(0, k - p - 1)),
                value == dec_value(digits.subrange(0, k - p - 1)),
                value <= 65535,
            decreases n - k,
        {
            let c = s.get_char(k);
            if !('0' <= c && c <= '9') {
                proof {
                    assert(digits[(k - p - 1) as int] == s@[k as int]);
                    assert(!is_dec_digit(digits[(k - p - 1) as int]));
                    assert(!all_dec_digits(digits));
                    let spec_rest = match find_scheme_end(s@) {
                        Some(j) => s@.subrange(j, s@.len() as int),
                        None => s@,
                    };
                    assert(spec_rest == rest);
                    assert(find_char_last(spec_rest, ':') == Some(p - start));
                    let spec_digits = spec_rest.subrange(p - start + 1, spec_rest.len() as int);
                    assert(spec_digits == digits);
                    assert(parsed_hostname_port(s@) is None);
                }
                return None;
            }
            let d: u32 = (c as u32) - 48;
            proof {
                assert(digits.subrange(0, k - p - 1 + 1).drop_last() =~= digits.subrange(0, k - p - 1));
                assert(digits.subrange(0, k - p - 1 + 1).last() == digits[(k - p - 1) as int]);
                assert(digits[(k - p - 1) as int] == s@[k as int]);
            }
            value = value * 10 + d;
            k += 1;
            if value > 65535 {
                proof {
                    if all_dec_digits(digits) {
                        lemma_dec_value_grows(digits, k - p - 1, 65535);
                        assert(dec_value(digits) > 65535);
                    }
                    assert(parsed_hostname_port(s@) is None);
                }
                return None;
            }
        }
        proof {
            assert(digits.subrange(0, k - p - 1) =~= digits);
        }
        let host = s.substring_char(start, p);
        proof {
            assert(rest.subrange(0, p - start) =~= s@.subrange(start as int, p as int));
        }
        Some(HostnamePort { hostname: String::from_str(host), port: value as u16 })
    }
}

/// The smaller of two ports.
fn port_min(a: u32, b: u32) -> (r: u32)
    ensures
        r == if a <= b { a } else { b },
{
    if a <= b {
        a
    } else {
        b
    }
}

/// The range of broker ports derived from a bootstrap server: the
/// hundred ports right above its own, clamped to the top of the port
/// space.
pub fn make_brokers_port_range(bootstrap_server: &HostnamePort) -> (r: PortRange)
    ensures
        r.spec_start() == if bootstrap_server.spec_port() + 1 <= u16::MAX { bootstrap_server.spec_port() + 1 } else { u16::MAX as int },
        r.spec_end() == if bootstrap_server.spec_port() + 100 <= u16::MAX { bootstrap_server.spec_port() + 100 } else { u16::MAX as int },
{
    let port = bootstrap_server.port() as u32;
    let start = port_min(port + 1, u16::MAX as u32) as u16;
    let end = port_min(port + 100, u16::MAX as u32) as u16;
    match PortRange::new(start, end) {
        Ok(range) => range,
        Err(_) => {
            proof {
                assert(false);
            }
            PortRange { start: 0, end: 0 }
        },
    }
}

/// The default address of a kafka outlet service.
pub fn kafka_default_outlet_addr() -> (r: String)
    ensures
        r@ == "kafka_outlet"@,
{
    String::from_str("kafka_outlet")
}

/// The default address of a kafka inlet service.
pub fn kafka_inlet_default_addr() -> (r: String)
    ensures
        r@ == "kafka_inlet"@,
{
    String::from_str("kafka_inlet")
}

} // verus!
