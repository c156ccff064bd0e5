//! Endpoints as they are written in settings and messages: `host:port`, a host
//! alone, and IP addresses with or without a port. An IPv6 address with a port
//! stands in brackets, and one without a port may.

use vstd::prelude::*;

use crate::text;
use crate::text::{is_number_from, is_number_up_to, parse_i32, split};

verus! {

/// A part of an IPv4 address: one to three digits, at most 255.
pub open spec fn is_octet(s: Seq<char>) -> bool {
    &&& s.len() <= 3
    &&& text::is_number(s)
    &&& text::number_value(s) <= 255
}

/// An IPv4 address: four octets with dots between them.
pub open spec fn is_dotted_quad(s: Seq<char>) -> bool {
    let parts = text::fields(s, '.');
    parts.len() == 4 && forall|i: int| 0 <= i < 4 ==> is_octet(#[trigger] parts[i])
}

/// An IPv4 address, alone or with a port behind a colon.
pub open spec fn is_ipv4(s: Seq<char>) -> bool {
    let parts = text::fields(s, ':');
    &&& is_dotted_quad(parts[0])
    &&& parts.len() == 1 || (parts.len() == 2 && text::is_number(parts[1]))
}

/// An ASCII hexadecimal digit, of either case.
pub open spec fn is_hex_digit(c: char) -> bool {
    '0' <= c <= '9' || 'a' <= c <= 'f' || 'A' <= c <= 'F'
}

/// A part of an IPv6 address: one to four hexadecimal digits.
pub open spec fn is_hex_group(s: Seq<char>) -> bool {
    1 <= s.len() <= 4 && forall|i: int| 0 <= i < s.len() ==> is_hex_digit(#[trigger] s[i])
}

/// What stands between two colons of an IPv6 address: a group, or nothing where
/// groups of zeros are left out.
pub open spec fn is_group_or_nothing(s: Seq<char>) -> bool {
    s.len() == 0 || is_hex_group(s)
}

/// An IPv6 address: groups with one or two colons between neighbours, two colons
/// or none in front and behind, and two colons or more in all. An IPv4 address
/// may stand in the place of the last group. Two colons in a row leave an empty
/// piece between them, and one more at an end.
pub open spec fn is_ipv6_groups(s: Seq<char>) -> bool {
    let parts = text::fields(s, ':');
    let last = parts.len() - 1;
    &&& parts.len() >= 3
    &&& forall|i: int| 0 <= i < last ==> is_group_or_nothing(#[trigger] parts[i])
    &&& is_group_or_nothing(parts[last]) || is_dotted_quad(parts[last])
    &&& parts[0].len() == 0 ==> parts[1].len() == 0
    &&& parts[last].len() == 0 ==> parts[last - 1].len() == 0
    &&& forall|i: int, j: int|
        1 <= i && j == i + 1 && j < last ==> (#[trigger] parts[i]).len() > 0 || (
        #[trigger] parts[j]).len() > 0
}

/// An opening bracket with an IPv6 address behind it.
pub open spec fn is_bracketed_head(s: Seq<char>) -> bool {
    s.len() > 0 && s[0] == '[' && is_ipv6_groups(s.skip(1))
}

/// An IPv6 address in brackets, with a port behind a colon.
pub open spec fn is_bracketed_ipv6(s: Seq<char>) -> bool {
    let parts = text::fields(s, ']');
    &&& parts.len() == 2
    &&& is_bracketed_head(parts[0])
    &&& parts[1].len() > 0
    &&& parts[1][0] == ':'
    &&& text::is_number(parts[1].skip(1))
}

/// An IPv6 address in brackets, with nothing behind them.
pub open spec fn is_bracketed_address(s: Seq<char>) -> bool {
    let parts = text::fields(s, ']');
    parts.len() == 2 && is_bracketed_head(parts[0]) && parts[1].len() == 0
}

/// An IPv6 address, alone, in brackets, or in brackets with a port.
pub open spec fn is_ipv6(s: Seq<char>) -> bool {
    is_ipv6_groups(s) || is_bracketed_address(s) || is_bracketed_ipv6(s)
}

/// An IP address of either kind, with or without a port.
pub open spec fn is_ip(s: Seq<char>) -> bool {
    is_ipv4(s) || is_ipv6(s)
}

/// The port that `s` denotes: its decimal value, and zero where `s` is no
/// decimal number or one that an `i32` does not hold.
pub open spec fn port_value(s: Seq<char>) -> int {
    match text::integer_value(s) {
        Some(v) => if i32::MIN <= v <= i32::MAX {
            v
        } else {
            0
        },
        None => 0,
    }
}

/// The host and the port of an endpoint. It has them where it is an IPv6 address
/// in brackets with a port, or where it has exactly one colon: the host stands
/// before the colon and the port behind it, and what is no number there counts
/// as port zero. The brackets round an IPv6 address belong to the host.
pub open spec fn host_and_port(s: Seq<char>) -> Option<(Seq<char>, int)> {
    if is_bracketed_ipv6(s) {
        let parts = text::fields(s, ']');
        Some((parts[0].push(']'), port_value(parts[1].skip(1))))
    } else {
        let parts = text::fields(s, ':');
        if parts.len() == 2 {
            Some((parts[0], port_value(parts[1])))
        } else {
            None
        }
    }
}

/// The host that an endpoint without a port consists of: an IPv6 address, which
/// is put in brackets where it has none, or text without a colon, which is an
/// IPv4 address or a domain.
pub open spec fn lone_host(s: Seq<char>) -> Option<Seq<char>> {
    if is_ipv6_groups(s) {
        Some(seq!['['] + s.push(']'))
    } else if is_bracketed_address(s) || text::fields(s, ':').len() == 1 {
        Some(s)
    } else {
        None
    }
}

/// Whether an endpoint names a host, with or without a port.
pub open spec fn names_host(s: Seq<char>) -> bool {
    host_and_port(s) is Some || lone_host(s) is Some
}

/// The host that an endpoint names.
pub open spec fn host_of(s: Seq<char>) -> Seq<char>
    recommends
        names_host(s),
{
    match (host_and_port(s), lone_host(s)) {
        (Some((host, _)), _) => host,
        (None, Some(host)) => host,
        (None, None) => s,
    }
}

/// The port of an endpoint, or `default` where it has none.
pub open spec fn port_or(s: Seq<char>, default: int) -> int {
    match host_and_port(s) {
        Some((_, port)) => port,
        None => default,
    }
}

fn is_octet_str(s: &str) -> (r: bool)
    ensures
        r == is_octet(s@),
{
    s.unicode_len() <= 3 && is_number_up_to(s, 255)
}

fn is_dotted_quad_str(s: &str) -> (r: bool)
    ensures
        r == is_dotted_quad(s@),
{
    let parts: Vec<String> = split(s, '.');
    let ghost spec_parts = text::fields(s@, '.');
    assert(text::views(parts@) == spec_parts);
    if parts.len() != 4 {
        return false;
    }
    let mut i: usize = 0;
    while i < 4
        invariant
            i <= 4,
            parts@.len() == 4,
            spec_parts == text::fields(s@, '.'),
            spec_parts == text::views(parts@),
            forall|j: int| 0 <= j < i ==> is_octet(#[trigger] spec_parts[j]),
        decreases 4 - i,
    {
        if !is_octet_str(parts[i].as_str()) {
            assert(!is_octet(spec_parts[i as int]));
            return false;
        }
        i = i + 1;
    }
    true
}

/// Whether `id` is an IPv4 address, alone or with a port.
pub fn is_ipv4_str(id: &str) -> (r: bool)
    ensures
        r == is_ipv4(id@),
{
    let parts: Vec<String> = split(id, ':');
    assert(text::views(parts@)[0] == parts@[0]@);
    if !is_dotted_quad_str(parts[0].as_str()) {
        return false;
    }
    if parts.len() == 2 {
        assert(text::views(parts@)[1] == parts@[1]@);
        assert(parts@[1]@.skip(0) =~= parts@[1]@);
        is_number_from(parts[1].as_str(), 0)
    } else {
        parts.len() == 1
    }
}

fn is_hex_group_str(s: &str) -> (r: bool)
    ensures
        r == is_hex_group(s@),
{
    let n: usize = s.unicode_len();
    if n < 1 || n > 4 {
        return false;
    }
    let mut i: usize = 0;
    while i < n
        invariant
            i <= n,
            n == s@.len(),
            forall|j: int| 0 <= j < i ==> is_hex_digit(#[trigger] s@[j]),
        decreases n - i,
    {
        let c: char = s.get_char(i);
        if !(('0' <= c && c <= '9') || ('a' <= c && c <= 'f') || ('A' <= c && c <= 'F')) {
            assert(!is_hex_digit(s@[i as int]));
            return false;
        }
        i = i + 1;
    }
    true
}

fn is_group_or_nothing_str(s: &str) -> (r: bool)
    ensures
        r == is_group_or_nothing(s@),
{
    s.is_empty() || is_hex_group_str(s)
}

fn is_ipv6_groups_str(s: &str) -> (r: bool)
    ensures
        r == is_ipv6_groups(s@),
{
    let parts: Vec<String> = split(s, ':');
    let n: usize = parts.len();
    let ghost spec_parts = text::fields(s@, ':');
    assert(text::views(parts@) == spec_parts);
    assert(spec_parts.len() == n);
    if n < 3 {
        return false;
    }
    let last: usize = n - 1;
    assert(spec_parts[0] == parts@[0]@);
    assert(spec_parts[1] == parts@[1]@);
    assert(spec_parts[last - 1] == parts@[last - 1]@);
    assert(spec_parts[last as int] == parts@[last as int]@);
    if !is_group_or_nothing_str(parts[last].as_str()) && !is_dotted_quad_str(
        parts[last].as_str(),
    ) {
        return false;
    }
    if parts[0].as_str().is_empty() && !parts[1].as_str().is_empty() {
        return false;
    }
    if parts[last].as_str().is_empty() && !parts[last - 1].as_str().is_empty() {
        return false;
    }
    let mut i: usize = 0;
    while i < last
        invariant
            i <= last,
            last + 1 == parts@.len(),
            last >= 2,
            spec_parts == text::fields(s@, ':'),
            spec_parts == text::views(parts@),
            forall|k: int| 0 <= k < i ==> is_group_or_nothing(#[trigger] spec_parts[k]),
            forall|k: int, j: int|
                1 <= k && j == k + 1 && j < i ==> (#[trigger] spec_parts[k]).len() > 0 || (
                #[trigger] spec_parts[j]).len() > 0,
        decreases last - i,
    {
        assert(spec_parts[i as int] == parts@[i as int]@);
        if !is_group_or_nothing_str(parts[i].as_str()) {
            return false;
        }
        if i >= 2 {
            assert(spec_parts[i - 1] == parts@[i - 1]@);
            if parts[i].as_str().is_empty() && parts[i - 1].as_str().is_empty() {
                return false;
            }
        }
        i = i + 1;
    }
    true
}

/// The parts before and behind the closing bracket of an IPv6 address.
fn bracketed_parts(s: &str) -> (r: Option<(String, String)>)
    ensures
        match r {
            Some((head, tail)) => {
                &&& text::fields(s@, ']').len() == 2
                &&& head@ == text::fields(s@, ']')[0]
                &&& tail@ == text::fields(s@, ']')[1]
                &&& is_bracketed_head(head@)
            },
            None => !is_bracketed_ipv6(s@) && !is_bracketed_address(s@),
        },
{
    let mut parts: Vec<String> = split(s, ']');
    assert(text::views(parts@) == text::fields(s@, ']'));
    if parts.len() != 2 {
        return None;
    }
    assert(text::views(parts@)[0] == parts@[0]@);
    assert(text::views(parts@)[1] == parts@[1]@);
    let tail: String = parts.swap_remove(1);
    let head: String = parts.swap_remove(0);
    let n: usize = head.as_str().unicode_len();
    if n == 0 || head.as_str().get_char(0) != '[' {
        return None;
    }
    let address: &str = head.as_str().substring_char(1, n);
    assert(address@ =~= head@.skip(1));
    if !is_ipv6_groups_str(address) {
        return None;
    }
    Some((head, tail))
}

/// Whether `tail` is a colon with a number behind it.
fn is_port_part(tail: &str) -> (r: bool)
    ensures
        r == (tail@.len() > 0 && tail@[0] == ':' && text::is_number(tail@.skip(1))),
{
    !tail.is_empty() && tail.get_char(0) == ':' && is_number_from(tail, 1)
}

/// Whether `id` is an IPv6 address, alone, in brackets, or in brackets with a
/// port.
pub fn is_ipv6_str(id: &str) -> (r: bool)
    ensures
        r == is_ipv6(id@),
{
    if is_ipv6_groups_str(id) {
        return true;
    }
    match bracketed_parts(id) {
        Some((_, tail)) => tail.as_str().is_empty() || is_port_part(tail.as_str()),
        None => false,
    }
}

/// Whether `id` is an IP address, with or without a port.
pub fn is_ip_str(id: &str) -> (r: bool)
    ensures
        r == is_ip(id@),
{
    is_ipv4_str(id) || is_ipv6_str(id)
}

fn parse_port(s: &str) -> (port: i32)
    ensures
        port == port_value(s@),
{
    match parse_i32(s) {
        Some(port) => port,
        None => 0,
    }
}

/// Takes an endpoint apart into host and port. `None` where it is neither an
/// IPv6 address in brackets with a port nor text with exactly one colon; what
/// stands behind that colon and is no number counts as port zero.
pub fn split_host_port(host: &str) -> (r: Option<(String, i32)>)
    ensures
        match r {
            Some((name, port)) => host_and_port(host@) == Some((name@, port as int)),
            None => host_and_port(host@) is None,
        },
{
    if let Some((head, tail)) = bracketed_parts(host) {
        if is_port_part(tail.as_str()) {
            proof {
                reveal_strlit("]");
            }
            let n: usize = tail.as_str().unicode_len();
            let port: &str = tail.as_str().substring_char(1, n);
            assert(port@ =~= tail@.skip(1));
            let mut name: String = head.as_str().to_owned();
            name.append("]");
            assert(name@ =~= head@.push(']'));
            return Some((name, parse_port(port)));
        }
    }
    let mut parts: Vec<String> = split(host, ':');
    assert(text::views(parts@) == text::fields(host@, ':'));
    if parts.len() != 2 {
        return None;
    }
    assert(text::views(parts@)[0] == parts@[0]@);
    assert(text::views(parts@)[1] == parts@[1]@);
    let port: i32 = parse_port(parts[1].as_str());
    Some((parts.swap_remove(0), port))
}

/// The host that an endpoint without a port consists of.
pub fn host_alone(host: &str) -> (r: Option<String>)
    ensures
        match r {
            Some(name) => lone_host(host@) == Some(name@),
            None => lone_host(host@) is None,
        },
{
    if is_ipv6_groups_str(host) {
        proof {
            reveal_strlit("[");
            reveal_strlit("]");
        }
        let mut name: String = "[".to_owned();
        name.append(host);
        name.append("]");
        assert(name@ =~= seq!['['] + host@.push(']'));
        return Some(name);
    }
    if let Some((_, tail)) = bracketed_parts(host) {
        if tail.as_str().is_empty() {
            return Some(host.to_owned());
        }
    }
    let parts: Vec<String> = split(host, ':');
    assert(text::views(parts@) == text::fields(host@, ':'));
    if parts.len() == 1 {
        Some(host.to_owned())
    } else {
        None
    }
}

/// A port that is written as a bare number is not negative.
pub proof fn lemma_number_port(s: Seq<char>)
    requires
        text::is_number(s),
    ensures
        0 <= port_value(s) <= i32::MAX,
{
    text::lemma_number_is_not_negative(s);
}

/// A number that an `i32` holds is the port that its digits denote.
proof fn lemma_port_digits(n: nat)
    requires
        n <= i32::MAX,
    ensures
        text::is_number(text::digits(n)),
        port_value(text::digits(n)) == n,
{
    text::lemma_digits_denote(n);
}

/// An IPv4 address is made of digits and dots.
pub proof fn lemma_dotted_quad_chars(s: Seq<char>)
    requires
        is_dotted_quad(s),
    ensures
        forall|i: int| 0 <= i < s.len() ==> text::is_digit(#[trigger] s[i]) || s[i] == '.',
{
    let parts = text::fields(s, '.');
    assert forall|i: int| 0 <= i < s.len() implies text::is_digit(#[trigger] s[i]) || s[i]
        == '.' by {
        if s[i] != '.' {
            text::lemma_char_in_some_field(s, '.', i);
            let (k, j): (int, int) = choose|k: int, j: int|
                0 <= k < parts.len() && 0 <= j < parts[k].len() && #[trigger] parts[k][j] == s[i];
            assert(is_octet(parts[k]));
            assert(text::is_digit(parts[k][j]));
        }
    }
}

/// An IPv6 address is made of hexadecimal digits, colons and dots.
proof fn lemma_groups_chars(s: Seq<char>)
    requires
        is_ipv6_groups(s),
    ensures
        forall|i: int|
            0 <= i < s.len() ==> is_hex_digit(#[trigger] s[i]) || s[i] == ':' || s[i] == '.',
{
    let parts = text::fields(s, ':');
    assert forall|i: int| 0 <= i < s.len() implies is_hex_digit(#[trigger] s[i]) || s[i] == ':'
        || s[i] == '.' by {
        if s[i] != ':' {
            text::lemma_char_in_some_field(s, ':', i);
            let (k, j): (int, int) = choose|k: int, j: int|
                0 <= k < parts.len() && 0 <= j < parts[k].len() && #[trigger] parts[k][j] == s[i];
            if is_group_or_nothing(parts[k]) {
                assert(is_hex_digit(parts[k][j]));
            } else {
                lemma_dotted_quad_chars(parts[k]);
            }
        }
    }
}

/// An IPv6 address holds no bracket.
proof fn lemma_groups_hold_no_bracket(s: Seq<char>)
    requires
        is_ipv6_groups(s),
    ensures
        forall|i: int| 0 <= i < s.len() ==> #[trigger] s[i] != ']',
{
    lemma_groups_chars(s);
}

/// An IPv4 address is the host of an IPv4 endpoint with any port.
pub proof fn lemma_dotted_quad_with_port(host: Seq<char>, port: nat)
    requires
        is_dotted_quad(host),
        port <= i32::MAX,
    ensures
        is_ipv4(host.push(':') + text::digits(port)),
        host_and_port(host.push(':') + text::digits(port)) == Some((host, port as int)),
{
    let number = text::digits(port);
    let whole = host.push(':') + number;
    lemma_port_digits(port);
    lemma_dotted_quad_chars(host);
    assert forall|i: int| 0 <= i < number.len() implies #[trigger] number[i] != ':' by {
        assert(text::is_digit(number[i]));
    }
    text::lemma_fields_without(host, ':');
    text::lemma_fields_without(number, ':');
    text::lemma_fields_joined(host, number, ':');
    assert(text::fields(whole, ':') =~= seq![host, number]);
    // It holds no bracket, which a bracketed address does.
    assert forall|i: int| 0 <= i < whole.len() implies #[trigger] whole[i] != ']' by {
        if i < host.len() {
            assert(whole[i] == host[i]);
        } else if i > host.len() {
            assert(whole[i] == number[i - host.len() - 1]);
            assert(text::is_digit(number[i - host.len() - 1]));
        }
    }
    text::lemma_fields_without(whole, ']');
}

/// An IPv6 address in brackets is the host of an IPv6 endpoint with any number
/// behind the colon.
pub proof fn lemma_bracketed_with_number(head: Seq<char>, number: Seq<char>)
    requires
        is_bracketed_head(head),
        text::is_number(number),
    ensures
        is_bracketed_ipv6(head.push(']') + (seq![':'] + number)),
        host_and_port(head.push(']') + (seq![':'] + number)) == Some(
            (head.push(']'), port_value(number)),
        ),
{
    let tail = seq![':'] + number;
    lemma_groups_hold_no_bracket(head.skip(1));
    assert forall|i: int| 0 <= i < head.len() implies #[trigger] head[i] != ']' by {
        if i > 0 {
            assert(head[i] == head.skip(1)[i - 1]);
        }
    }
    assert forall|i: int| 0 <= i < tail.len() implies #[trigger] tail[i] != ']' by {
        if i > 0 {
            assert(text::is_digit(number[i - 1]));
        }
    }
    text::lemma_fields_without(head, ']');
    text::lemma_fields_without(tail, ']');
    text::lemma_fields_joined(head, tail, ']');
    assert(text::fields(head.push(']') + tail, ']') =~= seq![head, tail]);
    assert(tail.skip(1) =~= number);
}

/// An IPv6 address in brackets is the host of an IPv6 endpoint with any port.
pub proof fn lemma_bracketed(head: Seq<char>, port: nat)
    requires
        is_bracketed_head(head),
        port <= i32::MAX,
    ensures
        is_ipv6(head.push(']') + (seq![':'] + text::digits(port))),
        host_and_port(head.push(']') + (seq![':'] + text::digits(port))) == Some(
            (head.push(']'), port as int),
        ),
{
    lemma_port_digits(port);
    lemma_bracketed_with_number(head, text::digits(port));
}

/// An IPv6 address in brackets alone has no port.
pub proof fn lemma_bracketed_address_has_no_port(s: Seq<char>)
    requires
        is_bracketed_address(s),
    ensures
        host_and_port(s) is None,
{
    let head = text::fields(s, ']')[0];
    text::lemma_empty_second_field(s, ']');
    text::lemma_fields_behind('[', head.skip(1), ':');
    text::lemma_fields_nonempty(head, ':');
    assert(head =~= seq!['['] + head.skip(1));
    assert(s.drop_last() =~= head);
}

/// The host of an IP address without a port is the address itself, or an IPv6
/// address in brackets.
pub proof fn lemma_lone_ip_host(s: Seq<char>)
    requires
        is_ip(s),
        host_and_port(s) is None,
    ensures
        lone_host(s) == Some(host_of(s)),
        is_dotted_quad(host_of(s)) || (exists|head: Seq<char>|
            is_bracketed_head(head) && #[trigger] head.push(']') == host_of(s)),
{
    if is_ipv6_groups(s) {
        let head = seq!['['] + s;
        assert(head.skip(1) =~= s);
        assert(is_bracketed_head(head));
        assert(head.push(']') =~= host_of(s));
    } else if is_bracketed_address(s) {
        let head = text::fields(s, ']')[0];
        text::lemma_empty_second_field(s, ']');
        assert(is_bracketed_head(head));
        assert(head.push(']') == host_of(s));
    } else {
        text::lemma_single_field(s, ':');
    }
}

/// Whether a character does not occur in a text.
pub open spec fn holds_no(s: Seq<char>, c: char) -> bool {
    forall|i: int| 0 <= i < s.len() ==> #[trigger] s[i] != c
}

/// Text with at most one colon is no IPv6 address of any form.
proof fn lemma_one_colon_is_no_ipv6(s: Seq<char>, at: int)
    requires
        forall|i: int| 0 <= i < s.len() && i != at ==> #[trigger] s[i] != ':',
    ensures
        !is_ipv6(s),
{
    text::lemma_fields_around(s, ':', at);
    let parts = text::fields(s, ']');
    if parts.len() == 2 && is_bracketed_head(parts[0]) {
        let address = parts[0].skip(1);
        text::lemma_two_fields(s, ']');
        assert forall|i: int| 0 <= i < address.len() && i != at - 1 implies #[trigger] address[i]
            != ':' by {
            assert(address[i] == s[i + 1]);
        }
        text::lemma_fields_around(address, ':', at - 1);
    }
}

/// A number is digits and nothing else.
pub proof fn lemma_number_is_digits(s: Seq<char>)
    ensures
        text::is_number(s) <==> s.len() > 0 && (forall|i: int|
            0 <= i < s.len() ==> '0' <= #[trigger] s[i] <= '9'),
{
    if s.len() > 0 && forall|i: int| 0 <= i < s.len() ==> '0' <= #[trigger] s[i] <= '9' {
        text::law_signs_are_read(s);
    } else if text::is_number(s) {
        assert forall|i: int| 0 <= i < s.len() implies '0' <= #[trigger] s[i] <= '9' by {
            assert(text::is_digit(s[i]));
        }
    }
}

/// An IPv6 address begins with a hexadecimal digit or a colon.
pub proof fn lemma_address_is_no_url(s: Seq<char>)
    requires
        is_ipv6_groups(s),
    ensures
        s.len() > 0,
        s[0] != 'w',
{
    lemma_groups_chars(s);
    if s.len() == 0 {
        text::lemma_fields_without(s, ':');
    }
}

/// Law: text with one colon has what stands before the colon for its host and
/// what stands behind it for its port. It is an IP address exactly where an IPv4
/// address stands before the colon and nothing but digits behind it.
pub proof fn law_one_colon_parts_host_and_port(host: Seq<char>, port: Seq<char>)
    requires
        holds_no(host, ':'),
        holds_no(port, ':'),
    ensures
        host_and_port(host.push(':') + port) == Some((host, port_value(port))),
        lone_host(host.push(':') + port) is None,
        is_ip(host.push(':') + port) <==> is_dotted_quad(host) && port.len() > 0 && (forall|i: int|
            0 <= i < port.len() ==> '0' <= #[trigger] port[i] <= '9'),
{
    let s = host.push(':') + port;
    let at: int = host.len() as int;
    assert forall|i: int| 0 <= i < s.len() && i != at implies #[trigger] s[i] != ':' by {
        if i < at {
            assert(s[i] == host[i]);
        } else {
            assert(s[i] == port[i - at - 1]);
        }
    }
    lemma_one_colon_is_no_ipv6(s, at);
    text::lemma_fields_around(s, ':', at);
    assert(s.take(at) =~= host);
    assert(s.skip(at + 1) =~= port);
    assert(text::fields(s, ':')[0] == host);
    assert(text::fields(s, ':')[1] == port);
    lemma_number_is_digits(port);
}

/// Law: text without a colon has no port and is its own host. It is an IP
/// address exactly where it is an IPv4 address.
pub proof fn law_no_colon_is_a_host_alone(s: Seq<char>)
    requires
        holds_no(s, ':'),
    ensures
        host_and_port(s) is None,
        lone_host(s) == Some(s),
        is_ip(s) <==> is_dotted_quad(s),
{
    lemma_one_colon_is_no_ipv6(s, -1);
    text::lemma_fields_without(s, ':');
}

/// An IPv6 address in brackets.
pub open spec fn in_brackets(address: Seq<char>) -> Seq<char> {
    seq!['['] + address + seq![']']
}

/// Law: an IPv6 address is an IP address alone, in brackets, and in brackets
/// with a colon and digits behind them. Only the last has a port, and the host is
/// the address in brackets each time.
pub proof fn law_ipv6_address_in_each_form(address: Seq<char>, port: Seq<char>)
    requires
        is_ipv6_groups(address),
        port.len() > 0,
        forall|i: int| 0 <= i < port.len() ==> '0' <= #[trigger] port[i] <= '9',
    ensures
        is_ip(address),
        host_and_port(address) is None,
        lone_host(address) == Some(in_brackets(address)),
        is_ip(in_brackets(address)),
        host_and_port(in_brackets(address)) is None,
        lone_host(in_brackets(address)) == Some(in_brackets(address)),
        is_ip(in_brackets(address) + (seq![':'] + port)),
        host_and_port(in_brackets(address) + (seq![':'] + port)) == Some(
            (in_brackets(address), port_value(port)),
        ),
{
    let head = seq!['['] + address;
    let boxed = in_brackets(address);
    assert(head.skip(1) =~= address);
    assert(boxed =~= head.push(']'));
    assert(seq!['['] + address.push(']') =~= boxed);
    text::law_signs_are_read(port);
    lemma_bracketed_with_number(head, port);
    lemma_groups_hold_no_bracket(address);
    // A bracketed address is no bare one.
    if is_ipv6_groups(boxed) {
        lemma_groups_hold_no_bracket(boxed);
        assert(boxed[boxed.len() - 1] == ']');
    }
    text::lemma_fields_without(address, ']');
    assert forall|i: int| 0 <= i < head.len() implies #[trigger] head[i] != ']' by {
        if i > 0 {
            assert(head[i] == address[i - 1]);
        }
    }
    text::lemma_fields_without(head, ']');
    text::lemma_fields_joined(head, Seq::empty(), ']');
    assert(head.push(']') + Seq::<char>::empty() =~= boxed);
    assert(text::fields(boxed, ']') =~= seq![head, Seq::<char>::empty()]);
    assert(is_bracketed_address(boxed));
    lemma_bracketed_address_has_no_port(boxed);
}

/// Law: text with two colons or more names a host only where it is one of the
/// three forms of an IPv6 address.
pub proof fn law_more_colons_are_ipv6_or_nothing(s: Seq<char>, i: int, j: int)
    requires
        0 <= i < j < s.len(),
        s[i] == ':',
        s[j] == ':',
    ensures
        is_ip(s) <==> names_host(s),
        names_host(s) ==> {
            ||| is_ipv6_groups(s)
            ||| exists|address: Seq<char>|
                is_ipv6_groups(address) && s == #[trigger] in_brackets(address)
            ||| exists|address: Seq<char>, port: Seq<char>|
                {
                    &&& is_ipv6_groups(address)
                    &&& port.len() > 0
                    &&& forall|k: int| 0 <= k < port.len() ==> '0' <= #[trigger] port[k] <= '9'
                    &&& s == #[trigger] (in_brackets(address) + (seq![':'] + port))
                }
        },
{
    text::lemma_fields_of_two(s, ':', i, j);
    let parts = text::fields(s, ']');
    if is_bracketed_address(s) {
        let address = parts[0].skip(1);
        text::lemma_empty_second_field(s, ']');
        assert(s =~= in_brackets(address));
    } else if is_bracketed_ipv6(s) {
        let address = parts[0].skip(1);
        let port = parts[1].skip(1);
        text::lemma_two_fields(s, ']');
        assert(s =~= in_brackets(address) + (seq![':'] + port));
        assert forall|k: int| 0 <= k < port.len() implies '0' <= #[trigger] port[k] <= '9' by {
            assert(text::is_digit(port[k]));
        }
    }
}

/// Law: text with two colons or more names no host where it holds anything but
/// what IPv6 addresses are made of.
pub proof fn law_strange_text_names_no_host(s: Seq<char>, i: int, j: int, k: int)
    requires
        0 <= i < j < s.len(),
        s[i] == ':',
        s[j] == ':',
        0 <= k < s.len(),
        !('0' <= s[k] <= '9' || 'a' <= s[k] <= 'f' || 'A' <= s[k] <= 'F'),
        s[k] != ':' && s[k] != '.' && s[k] != '[' && s[k] != ']',
    ensures
        !is_ip(s),
        !names_host(s),
{
    law_more_colons_are_ipv6_or_nothing(s, i, j);
    if names_host(s) {
        if is_ipv6_groups(s) {
            lemma_groups_chars(s);
        } else if exists|address: Seq<char>|
            is_ipv6_groups(address) && s == #[trigger] in_brackets(address) {
            let address = choose|address: Seq<char>|
                is_ipv6_groups(address) && s == #[trigger] in_brackets(address);
            lemma_groups_chars(address);
            if 0 < k < s.len() - 1 {
                assert(s[k] == address[k - 1]);
            }
        } else {
            let (address, port) = choose|address: Seq<char>, port: Seq<char>|
                {
                    &&& is_ipv6_groups(address)
                    &&& port.len() > 0
                    &&& forall|k: int| 0 <= k < port.len() ==> '0' <= #[trigger] port[k] <= '9'
                    &&& s == #[trigger] (in_brackets(address) + (seq![':'] + port))
                };
            lemma_groups_chars(address);
            let n: int = address.len() as int;
            if 0 < k <= n {
                assert(s[k] == address[k - 1]);
            } else if k > n + 2 {
                assert(s[k] == port[k - n - 3]);
            }
        }
    }
}

/// Law: a port is the number that its text denotes, as far as that is at least
/// -2147483648 and at most 2147483647, and zero otherwise.
pub proof fn law_port_is_the_number(s: Seq<char>, p: int)
    ensures
        text::integer_value(s) == Some(p) && -2147483648 <= p <= 2147483647 ==> port_value(s) == p,
        text::integer_value(s) == Some(p) && !(-2147483648 <= p <= 2147483647) ==> port_value(s)
            == 0,
        text::integer_value(s) is None ==> port_value(s) == 0,
        -2147483648 <= p <= 2147483647 ==> port_value(text::decimal(p)) == p,
{
    text::law_decimal_reads_back(p);
}

/// Law: an IPv4 address is exactly four pieces with dots between them, each of
/// one to three digits, and those of three digits at most 255.
pub proof fn law_ipv4_is_four_octets(parts: Seq<Seq<char>>)
    requires
        parts.len() >= 1,
        forall|i: int| 0 <= i < parts.len() ==> holds_no(#[trigger] parts[i], '.'),
    ensures
        is_dotted_quad(text::joined(parts, '.')) <==> parts.len() == 4 && (forall|i: int|
            #![trigger parts[i]]
            0 <= i < 4 ==> {
                &&& 1 <= parts[i].len() <= 3
                &&& forall|j: int| 0 <= j < parts[i].len() ==> '0' <= #[trigger] parts[i][j] <= '9'
                &&& parts[i].len() == 3 ==> 100 * (parts[i][0] as int - 48) + 10 * (
                parts[i][1] as int - 48) + (parts[i][2] as int - 48) <= 255
            }),
{
    assert forall|i: int, j: int|
        0 <= i < parts.len() && 0 <= j < parts[i].len() implies #[trigger] parts[i][j] != '.' by {
        assert(holds_no(parts[i], '.'));
    }
    text::law_joined_pieces_are_the_fields(parts, '.');
    assert forall|i: int| 0 <= i < parts.len() implies (is_octet(#[trigger] parts[i]) <==> {
        &&& 1 <= parts[i].len() <= 3
        &&& forall|j: int| 0 <= j < parts[i].len() ==> '0' <= #[trigger] parts[i][j] <= '9'
        &&& parts[i].len() == 3 ==> 100 * (parts[i][0] as int - 48) + 10 * (parts[i][1] as int - 48)
            + (parts[i][2] as int - 48) <= 255
    }) by {
        let s = parts[i];
        reveal_with_fuel(text::number_value, 4);
        if text::is_number(s) {
            assert forall|j: int| 0 <= j < s.len() implies '0' <= #[trigger] s[j] <= '9' by {
                assert(text::is_digit(s[j]));
            }
            if s.len() == 3 {
                assert(s.drop_last().last() == s[1]);
                assert(s.drop_last().drop_last().last() == s[0]);
            } else if s.len() == 2 {
                assert(s.drop_last().last() == s[0]);
            }
        } else if s.len() > 0 {
            let j: int = choose|j: int| 0 <= j < s.len() && !text::is_digit(#[trigger] s[j]);
            assert(!('0' <= s[j] <= '9'));
        }
    }
}

/// Law: a group of an IPv6 address is one to four hexadecimal digits, of either
/// case.
pub proof fn law_a_group_is_hexadecimal(s: Seq<char>)
    ensures
        is_hex_group(s) <==> 1 <= s.len() <= 4 && (forall|j: int|
            0 <= j < s.len() ==> ('0' <= #[trigger] s[j] <= '9' || 'a' <= s[j] <= 'f' || 'A' <= s[j]
                <= 'F')),
{
    if forall|j: int|
        0 <= j < s.len() ==> ('0' <= #[trigger] s[j] <= '9' || 'a' <= s[j] <= 'f' || 'A' <= s[j]
            <= 'F') {
        assert(forall|j: int| 0 <= j < s.len() ==> is_hex_digit(#[trigger] s[j]));
    } else {
        let j: int = choose|j: int|
            0 <= j < s.len() && !('0' <= #[trigger] s[j] <= '9' || 'a' <= s[j] <= 'f' || 'A' <= s[j]
                <= 'F');
        assert(!is_hex_digit(s[j]));
    }
}

/// Law: an IPv6 address is exactly three pieces or more with colons between them.
/// Each is empty or one to four hexadecimal digits, the last may be an IPv4
/// address, no two neighbours within are empty, and an empty one at an end has an
/// empty one beside it.
pub proof fn law_ipv6_is_groups(parts: Seq<Seq<char>>)
    requires
        parts.len() >= 1,
        forall|i: int| 0 <= i < parts.len() ==> holds_no(#[trigger] parts[i], ':'),
    ensures
        is_ipv6_groups(text::joined(parts, ':')) <==> {
            let last = parts.len() - 1;
            &&& parts.len() >= 3
            &&& forall|i: int|
                #![trigger parts[i]]
                0 <= i <= last ==> {
                    ||| parts[i].len() == 0
                    ||| 1 <= parts[i].len() <= 4 && (forall|j: int|
                        0 <= j < parts[i].len() ==> ('0' <= #[trigger] parts[i][j] <= '9' || 'a'
                            <= parts[i][j] <= 'f' || 'A' <= parts[i][j] <= 'F'))
                    ||| i == last && is_dotted_quad(parts[i])
                }
            &&& parts[0].len() == 0 ==> parts[1].len() == 0
            &&& parts[last].len() == 0 ==> parts[last - 1].len() == 0
            &&& forall|i: int, j: int|
                1 <= i && j == i + 1 && j < last ==> (#[trigger] parts[i]).len() > 0 || (
                #[trigger] parts[j]).len() > 0
        },
{
    assert forall|i: int, j: int|
        0 <= i < parts.len() && 0 <= j < parts[i].len() implies #[trigger] parts[i][j] != ':' by {
        assert(holds_no(parts[i], ':'));
    }
    text::law_joined_pieces_are_the_fields(parts, ':');
    assert forall|i: int| 0 <= i < parts.len() implies (is_group_or_nothing(#[trigger] parts[i])
        <==> {
        ||| parts[i].len() == 0
        ||| 1 <= parts[i].len() <= 4 && (forall|j: int|
            0 <= j < parts[i].len() ==> ('0' <= #[trigger] parts[i][j] <= '9' || 'a' <= parts[i][j]
                <= 'f' || 'A' <= parts[i][j] <= 'F'))
    }) by {
        law_a_group_is_hexadecimal(parts[i]);
    }
}

} // verus!
