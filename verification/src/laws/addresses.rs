//! Server addresses and the numbers in them.
use vstd::arithmetic::power::pow;
use vstd::prelude::*;

use crate::config::{address, parse_addr, ClientBuilder, ClientConfig};
use crate::text::{all_digits, decimal, decimal_string, digits_value, is_digit, number_upto, parse_number};
use crate::transport::server_address;

verus! {

/// The first digit of a number is the most significant one.
pub proof fn law_first_digit_counts_most(c: char, rest: Seq<char>)
    requires
        '0' <= c <= '9',
        forall|i: int| 0 <= i < rest.len() ==> '0' <= #[trigger] rest[i] <= '9',
    ensures
        digits_value(Seq::empty()) == 0,
        digits_value(seq![c] + rest) == (c as int - 48) * pow(10, rest.len()) + digits_value(rest),
    decreases rest.len(),
{
    let s = seq![c] + rest;
    reveal(pow);
    assert(s.last() == if rest.len() == 0 {
        c
    } else {
        rest.last()
    });
    if rest.len() == 0 {
        assert(s.drop_last() =~= Seq::empty());
    } else {
        let n = (rest.len() - 1) as nat;
        law_first_digit_counts_most(c, rest.drop_last());
        assert(s.drop_last() =~= seq![c] + rest.drop_last());
        let p = pow(10, n);
        let d = c as int - 48;
        assert(pow(10, rest.len()) == 10 * p);
        assert((d * p) * 10 == d * (10 * p)) by (nonlinear_arith);
        vstd::arithmetic::power::lemma_pow_positive(10, n);
        assert(d * p >= 0) by (nonlinear_arith)
            requires
                d >= 0,
                p >= 0,
        ;
    }
}

/// A number in decimal consists of digits and spells the number.
pub(crate) proof fn lemma_decimal_spells(n: nat)
    ensures
        decimal(n).len() >= 1,
        all_digits(decimal(n)),
        digits_value(decimal(n)) == n,
        n >= 10 ==> decimal(n)[0] != '0',
        decimal(n).len() > 1 ==> decimal(n)[0] != '0',
    decreases n,
{
    reveal_with_fuel(digits_value, 2);
    if n >= 10 {
        lemma_decimal_spells(n / 10);
        assert(decimal(n).drop_last() =~= decimal(n / 10));
    } else {
        assert(decimal(n).drop_last() =~= Seq::empty());
        assert(decimal(n).last() as int == 48 + n);
    }
}

/// Numbers are written in digits, without leading zeros, and their digits spell them.
pub proof fn law_decimals_spell_their_number(n: u64, r: String)
    requires
        call_ensures(decimal_string, (n,), r),
    ensures
        r@.len() >= 1,
        forall|i: int| 0 <= i < r@.len() ==> '0' <= #[trigger] r@[i] <= '9',
        r@.len() > 1 ==> r@[0] != '0',
        digits_value(r@) == n,
{
    lemma_decimal_spells(n as nat);
    assert forall|i: int| 0 <= i < r@.len() implies '0' <= #[trigger] r@[i] <= '9' by {
        assert(is_digit(r@[i]));
    }
}

/// `s` consists of digits, at least one.
pub open spec fn numeral(s: Seq<char>) -> bool {
    s.len() > 0 && forall|i: int| 0 <= i < s.len() ==> '0' <= #[trigger] s[i] <= '9'
}

/// `s` without a plus sign in front of something else.
pub open spec fn magnitude(s: Seq<char>) -> Seq<char> {
    if s.len() > 1 && s[0] == '+' {
        s.skip(1)
    } else {
        s
    }
}

/// Numerals are what consists of digits.
proof fn lemma_numeral(s: Seq<char>)
    ensures
        numeral(s) <==> s.len() > 0 && all_digits(s),
{
    if all_digits(s) {
        assert forall|i: int| 0 <= i < s.len() implies '0' <= #[trigger] s[i] <= '9' by {
            assert(is_digit(s[i]));
        }
    }
}

/// A text is read as a number exactly where it consists of digits, at least one, behind a plus
/// sign or not, that spell no more than allowed; then it is that number.
pub proof fn law_digits_are_read(chars: &Vec<char>, from: usize, max: u64, r: Option<u64>)
    requires
        from <= chars@.len(),
        call_ensures(parse_number, (chars, from, max), r),
    ensures
        ({
            let digits = magnitude(chars@.skip(from as int));
            &&& r is Some <==> numeral(digits) && digits_value(digits) <= max
            &&& r is Some ==> r->0 == digits_value(digits)
        }),
{
    lemma_numeral(magnitude(chars@.skip(from as int)));
}

/// `port` consists of digits, behind a plus sign or not, that spell `n`.
pub open spec fn spells_port(port: Seq<char>, n: u16) -> bool {
    numeral(magnitude(port)) && digits_value(magnitude(port)) == n
}

/// A text of digits is a number.
pub(crate) proof fn lemma_spelled(port: Seq<char>, n: u16)
    requires
        spells_port(port, n),
    ensures
        number_upto(port, 65535) == Some(n as nat),
        !port.contains(':'),
{
    let digits = magnitude(port);
    lemma_numeral(digits);
    assert forall|i: int| 0 <= i < port.len() implies port[i] != ':' by {
        if digits.len() == port.len() {
            assert('0' <= digits[i] <= '9');
        } else if i > 0 {
            assert('0' <= digits[i - 1] <= '9');
        }
    }
}

/// A text that spells no port is read as none.
proof fn lemma_not_spelled(port: Seq<char>)
    requires
        forall|n: u16| !spells_port(port, n),
    ensures
        number_upto(port, 65535) is None,
{
    let digits = magnitude(port);
    lemma_numeral(digits);
    if number_upto(port, 65535) is Some {
        assert(spells_port(port, digits_value(digits) as u16));
    }
}

/// The closing bracket of a bracketed address comes behind its host.
pub(crate) proof fn lemma_bracket(host: Seq<char>, tail: Seq<char>)
    requires
        !host.contains(']'),
    ensures
        ({
            let raw = seq!['['] + host + seq![']'] + tail;
            &&& raw[0] == '['
            &&& raw.index_of_first(']') == Some((host.len() + 1) as int)
            &&& raw.take(host.len() as int + 2) == seq!['['] + host + seq![']']
            &&& raw.skip(host.len() as int + 2) == tail
        }),
{
    let raw = seq!['['] + host + seq![']'] + tail;
    let at = host.len() + 1;
    raw.index_of_first_ensures(']');
    assert(raw[at as int] == ']');
    assert(raw.contains(']'));
    assert forall|j: int| 0 <= j < at implies raw[j] != ']' by {
        if j > 0 {
            assert(raw[j] == host[j - 1]);
            assert(host.contains(host[j - 1]));
        }
    }
    assert(raw.take(host.len() as int + 2) =~= seq!['['] + host + seq![']']);
    assert(raw.skip(host.len() as int + 2) =~= tail);
}

/// A bracketed host with a port behind it names that host, brackets included, and that port: for
/// every host without a closing bracket and every number up to 65535. A new connection is set up
/// for both, with the host as TLS server name.
pub proof fn law_bracketed_hosts_keep_their_port(
    host: Seq<char>,
    port: Seq<char>,
    n: u16,
    raw: &str,
    r: (String, u16),
    b: ClientBuilder,
)
    requires
        !host.contains(']'),
        spells_port(port, n),
        raw@ == seq!['['] + host + seq![']'] + (seq![':'] + port),
        call_ensures(parse_addr, (raw,), r),
        call_ensures(ClientBuilder::new, (raw,), b),
    ensures
        r.0@ == seq!['['] + host + seq![']'],
        r.1 == n,
        b.cfg.host@ == seq!['['] + host + seq![']'],
        b.cfg.sni@ == b.cfg.host@,
        b.cfg.port == n,
{
    lemma_bracket(host, seq![':'] + port);
    lemma_spelled(port, n);
    assert((seq![':'] + port).skip(1) =~= port);
}

/// A bracketed host without a usable port behind it names that host and the default port.
pub proof fn law_bracketed_hosts_without_a_port(
    host: Seq<char>,
    tail: Seq<char>,
    raw: &str,
    r: (String, u16),
)
    requires
        !host.contains(']'),
        raw@ == seq!['['] + host + seq![']'] + tail,
        tail.len() > 0 && tail[0] == ':' ==> forall|n: u16| !spells_port(tail.skip(1), n),
        call_ensures(parse_addr, (raw,), r),
    ensures
        r.0@ == seq!['['] + host + seq![']'],
        r.1 == 4433,
{
    lemma_bracket(host, tail);
    if tail.len() > 0 && tail[0] == ':' {
        lemma_not_spelled(tail.skip(1));
    }
}

/// The last colon of a plain address comes behind its host.
pub(crate) proof fn lemma_last_colon(host: Seq<char>, port: Seq<char>)
    requires
        !port.contains(':'),
    ensures
        ({
            let raw = host + seq![':'] + port;
            &&& raw.index_of_last(':') == Some(host.len() as int)
            &&& raw.take(host.len() as int) == host
            &&& raw.skip(host.len() as int + 1) == port
        }),
{
    let raw = host + seq![':'] + port;
    raw.index_of_last_ensures(':');
    assert(raw[host.len() as int] == ':');
    assert(raw.contains(':'));
    assert forall|j: int| host.len() < j < raw.len() implies raw[j] != ':' by {
        assert(raw[j] == port[j - host.len() - 1]);
        assert(port.contains(port[j - host.len() - 1]));
    }
    assert(raw.take(host.len() as int) =~= host);
    assert(raw.skip(host.len() as int + 1) =~= port);
}

/// A host and a port behind a colon name that host and that port, for every host that is not in
/// brackets, colons within it or not. A new connection is set up for both, with the host
/// as TLS server name.
pub proof fn law_plain_hosts_keep_their_port(
    host: Seq<char>,
    port: Seq<char>,
    n: u16,
    raw: &str,
    r: (String, u16),
    b: ClientBuilder,
)
    requires
        host.len() == 0 || host[0] != '[' || !host.contains(']'),
        spells_port(port, n),
        raw@ == host + seq![':'] + port,
        call_ensures(parse_addr, (raw,), r),
        call_ensures(ClientBuilder::new, (raw,), b),
    ensures
        r.0@ == host,
        r.1 == n,
        b.cfg.host@ == host,
        b.cfg.sni@ == host,
        b.cfg.port == n,
{
    lemma_spelled(port, n);
    lemma_last_colon(host, port);
    lemma_no_bracket(host, port, n);
    raw@.index_of_first_ensures(']');
    assert(raw@.len() > 0);
    assert(raw@[0] == if host.len() == 0 {
        ':'
    } else {
        host[0]
    });
}

/// Neither colons nor ports hold a bracket.
proof fn lemma_no_bracket(host: Seq<char>, port: Seq<char>, n: u16)
    requires
        spells_port(port, n),
    ensures
        (host + seq![':'] + port).contains(']') ==> host.contains(']'),
{
    let raw = host + seq![':'] + port;
    let digits = magnitude(port);
    if raw.contains(']') {
        let i = choose|i: int| 0 <= i < raw.len() && raw[i] == ']';
        if i < host.len() {
            assert(host[i] == ']');
        } else if i > host.len() {
            let k = i - host.len() - 1;
            assert(port[k] == ']');
            if digits.len() == port.len() {
                assert('0' <= digits[k] <= '9');
            } else if k > 0 {
                assert('0' <= digits[k - 1] <= '9');
            }
        }
    }
}

/// An address that names no port leaves the default port, and all of it is the host: one without
/// a colon, and one whose last colon has no number behind it. An empty address is the local host.
pub proof fn law_hosts_without_a_port(raw: &str, r: (String, u16))
    requires
        raw@.len() == 0 || raw@[0] != '[' || !raw@.contains(']'),
        call_ensures(parse_addr, (raw,), r),
        raw@.contains(':') ==> exists|host: Seq<char>, port: Seq<char>|
            {
                &&& raw@ == #[trigger] (host + seq![':'] + port)
                &&& !port.contains(':')
                &&& forall|n: u16| !spells_port(port, n)
            },
    ensures
        r.1 == 4433,
        raw@.len() > 0 ==> r.0@ == raw@,
        raw@.len() == 0 ==> r.0@ == "127.0.0.1"@,
{
    raw@.index_of_last_ensures(':');
    raw@.index_of_first_ensures(']');
    if raw@.contains(':') {
        let (host, port) = choose|host: Seq<char>, port: Seq<char>|
            {
                &&& raw@ == #[trigger] (host + seq![':'] + port)
                &&& !port.contains(':')
                &&& forall|n: u16| !spells_port(port, n)
            };
        lemma_last_colon(host, port);
        lemma_not_spelled(port);
    }
}

/// The address that is resolved names the configured host and port again.
pub proof fn law_resolved_addresses_name_host_and_port(
    cfg: &ClientConfig,
    a: String,
    raw: &str,
    r: (String, u16),
)
    requires
        cfg.host@.len() == 0 || cfg.host@[0] != '[',
        call_ensures(server_address, (cfg,), a),
        raw@ == a@,
        call_ensures(parse_addr, (raw,), r),
    ensures
        r.0@ == cfg.host@,
        r.1 == cfg.port,
{
    let port = decimal(cfg.port as nat);
    lemma_decimal_spells(cfg.port as nat);
    lemma_numeral(port);
    assert(is_digit(port[0]));
    assert(spells_port(port, cfg.port));
    lemma_spelled(port, cfg.port);
    lemma_last_colon(cfg.host@, port);
    assert(raw@[0] == if cfg.host@.len() == 0 {
        ':'
    } else {
        cfg.host@[0]
    });
}

} // verus!
