//! Hardware and IPv4 addresses as plain values.

use crate::text::chars_of;
use vstd::prelude::*;
use vstd::string::StringExecFns;

verus! {

/// A six-byte hardware address, first byte first.
#[derive(Clone, Copy, Debug, PartialEq, Eq, Hash, Structural)]
pub struct MacAddress(pub u8, pub u8, pub u8, pub u8, pub u8, pub u8);

/// The upper-case hexadecimal digit of a value below sixteen.
pub open spec fn hex_digit(value: int) -> char {
    if value < 10 {
        (value + 48) as u8 as char
    } else {
        (value + 55) as u8 as char
    }
}

/// The two upper-case hexadecimal digits of a byte.
pub open spec fn hex_pair(byte: u8) -> Seq<char> {
    seq![hex_digit(byte as int / 16), hex_digit(byte as int % 16)]
}

/// The bytes in upper-case hexadecimal, two digits each, with a colon
/// between neighbours.
pub open spec fn colon_hex(bytes: Seq<u8>) -> Seq<char>
    decreases bytes.len(),
{
    if bytes.len() == 0 {
        Seq::empty()
    } else if bytes.len() == 1 {
        hex_pair(bytes[0])
    } else {
        colon_hex(bytes.drop_last()) + seq![':'] + hex_pair(bytes.last())
    }
}

/// `macaddr::MacAddr6` shown with `{}`: the six bytes in upper-case
/// hexadecimal, two digits each, separated by colons.
#[verifier::external_body]
fn mac_text(bytes: [u8; 6]) -> (r: String)
    ensures
        r@ == colon_hex(bytes@),
{
    macaddr::MacAddr6::from(bytes).to_string()
}

impl MacAddress {
    /// The bytes of the address, first byte first.
    pub open spec fn bytes(self) -> Seq<u8> {
        seq![self.0, self.1, self.2, self.3, self.4, self.5]
    }

    /// The address in colon-separated hexadecimal, such as `01:02:03:0A:0B:0C`.
    pub fn text(&self) -> (r: String)
        ensures
            r@ == colon_hex(self.bytes()),
    {
        let bytes: [u8; 6] = [self.0, self.1, self.2, self.3, self.4, self.5];
        assert(bytes@ =~= self.bytes());
        mac_text(bytes)
    }
}

/// An IPv4 address, first octet first.
#[derive(Clone, Copy, Debug, PartialEq, Eq, Hash, Structural)]
pub struct Ipv4Address(pub u8, pub u8, pub u8, pub u8);

/// Whether a character is a decimal digit.
pub open spec fn is_digit(c: char) -> bool {
    '0' <= c && c <= '9'
}

/// The decimal digit of a value below ten.
pub open spec fn digit(value: int) -> char {
    (value + 48) as u8 as char
}

/// A byte in decimal, without leading zeros.
pub open spec fn decimal(n: u8) -> Seq<char> {
    if n < 10 {
        seq![digit(n as int)]
    } else if n < 100 {
        seq![digit(n as int / 10), digit(n as int % 10)]
    } else {
        seq![digit(n as int / 100), digit(n as int / 10 % 10), digit(n as int % 10)]
    }
}

/// An address in dotted-quad notation: its four octets in decimal with a
/// dot between neighbours.
pub open spec fn dotted_quad(ip: Ipv4Address) -> Seq<char> {
    decimal(ip.0) + seq!['.'] + decimal(ip.1) + seq!['.'] + decimal(ip.2) + seq!['.'] + decimal(
        ip.3,
    )
}

/// The address that a text denotes in dotted-quad notation, where it
/// denotes one.
pub open spec fn ipv4_of(text: Seq<char>) -> Option<Ipv4Address> {
    if exists|ip: Ipv4Address| #[trigger] dotted_quad(ip) == text {
        Some(choose|ip: Ipv4Address| #[trigger] dotted_quad(ip) == text)
    } else {
        None
    }
}

/// The characters from `start` up to `end` are the decimal form of `n`, and
/// no digit follows them.
pub open spec fn octet_ends(chars: Seq<char>, start: int, end: int, n: u8) -> bool {
    &&& 0 <= start <= end <= chars.len()
    &&& chars.subrange(start, end) == decimal(n)
    &&& end < chars.len() ==> !is_digit(chars[end])
}

/// The decimal form of a byte has one to three digits, starts with a zero
/// only where it is the single digit zero, and two bytes with the same
/// decimal form are equal.
pub proof fn lemma_decimal(n: u8)
    ensures
        1 <= decimal(n).len() <= 3,
        forall|i: int| 0 <= i < decimal(n).len() ==> is_digit(#[trigger] decimal(n)[i]),
        decimal(n).len() == 1 ==> n == decimal(n)[0] as int - 48,
        decimal(n).len() == 2 ==> n == (decimal(n)[0] as int - 48) * 10 + (decimal(n)[1] as int
            - 48) && decimal(n)[0] != '0',
        decimal(n).len() == 3 ==> n == (decimal(n)[0] as int - 48) * 100 + (decimal(n)[1] as int
            - 48) * 10 + (decimal(n)[2] as int - 48) && decimal(n)[0] != '0',
{
}

fn digit_text(value: u8) -> (r: &'static str)
    requires
        value < 10,
    ensures
        r@ == seq![digit(value as int)],
{
    proof {
        reveal_strlit("0");
        reveal_strlit("1");
        reveal_strlit("2");
        reveal_strlit("3");
        reveal_strlit("4");
        reveal_strlit("5");
        reveal_strlit("6");
        reveal_strlit("7");
        reveal_strlit("8");
        reveal_strlit("9");
    }
    let r = if value == 0 {
        "0"
    } else if value == 1 {
        "1"
    } else if value == 2 {
        "2"
    } else if value == 3 {
        "3"
    } else if value == 4 {
        "4"
    } else if value == 5 {
        "5"
    } else if value == 6 {
        "6"
    } else if value == 7 {
        "7"
    } else if value == 8 {
        "8"
    } else {
        "9"
    };
    assert(r@ =~= seq![digit(value as int)]);
    r
}

/// Appends a byte in decimal to a text.
pub fn push_decimal(text: &mut String, n: u8)
    ensures
        final(text)@ == old(text)@ + decimal(n),
{
    if n >= 100 {
        text.append(digit_text(n / 100));
    }
    if n >= 10 {
        text.append(digit_text(n / 10 % 10));
    }
    text.append(digit_text(n % 10));
    assert(text@ =~= old(text)@ + decimal(n));
}

/// Reads the decimal byte that starts at `start`: the digits up to the
/// first character that is no digit.
#[verifier::rlimit(40)]
fn read_octet(chars: &Vec<char>, start: usize) -> (r: Option<(u8, usize)>)
    requires
        start <= chars.len(),
    ensures
        r matches Some((n, end)) ==> start < end && octet_ends(
            chars@,
            start as int,
            end as int,
            n,
        ),
        forall|n: u8, end: int| #[trigger]
            octet_ends(chars@, start as int, end, n) ==> r == Some((n, end as usize)),
{
    let len = chars.len();
    let mut end: usize = start;
    while end < len && end - start < 4 && '0' <= chars[end] && chars[end] <= '9'
        invariant
            start <= end <= len,
            len == chars.len(),
            end - start <= 4,
            forall|i: int| start <= i < end ==> is_digit(#[trigger] chars@[i]),
        decreases len - end,
    {
        end += 1;
    }
    let count = end - start;
    proof {
        // Any decimal form that starts here covers exactly the digits read.
        assert forall|n: u8, e: int| #[trigger]
            octet_ends(chars@, start as int, e, n) implies e == end && 1 <= count <= 3 by {
            lemma_decimal(n);
            let d = decimal(n);
            assert(d.len() == e - start);
            assert forall|i: int| start <= i < e implies is_digit(chars@[i]) by {
                assert(chars@[i] == d[i - start]);
            }
            if e < end {
                assert(is_digit(chars@[e]));
            }
            if end < e {
                assert(is_digit(chars@[end as int]));
            }
        }
    }
    if count == 0 || count > 3 {
        return None;
    }
    let first = chars[start];
    if count > 1 && first == '0' {
        proof {
            assert forall|n: u8, e: int| #[trigger]
                octet_ends(chars@, start as int, e, n) implies false by {
                lemma_decimal(n);
                assert(decimal(n)[0] == chars@[start as int]);
            }
        }
        return None;
    }
    let mut value: u16 = 0;
    let mut i: usize = start;
    while i < end
        invariant
            start <= i <= end <= chars.len(),
            count == end - start,
            1 <= count <= 3,
            forall|j: int| start <= j < end ==> is_digit(#[trigger] chars@[j]),
            i == start ==> value == 0,
            i == start + 1 ==> value == chars@[start as int] as int - 48,
            i == start + 2 ==> value == (chars@[start as int] as int - 48) * 10 + (chars@[start
                + 1] as int - 48),
            i == start + 3 ==> value == (chars@[start as int] as int - 48) * 100 + (chars@[start
                + 1] as int - 48) * 10 + (chars@[start + 2] as int - 48),
        decreases end - i,
    {
        assert(is_digit(chars@[i as int]));
        let d = (chars[i] as u8 - 48) as u16;
        value = value * 10 + d;
        i += 1;
    }
    proof {
        assert forall|n: u8, e: int| #[trigger]
            octet_ends(chars@, start as int, e, n) implies n == value by {
            lemma_decimal(n);
            let d = decimal(n);
            assert(d.len() == count);
            assert(d[0] == chars@[start as int]);
            if count >= 2 {
                assert(d[1] == chars@[start + 1]);
            }
            if count >= 3 {
                assert(d[2] == chars@[start + 2]);
            }
        }
    }
    if value > 255 {
        return None;
    }
    let n = value as u8;
    proof {
        lemma_decimal(n);
        assert(is_digit(chars@[start as int]));
        if count >= 2 {
            assert(is_digit(chars@[start + 1]));
        }
        if count >= 3 {
            assert(is_digit(chars@[start + 2]));
        }
        assert(chars@.subrange(start as int, end as int) =~= decimal(n));
    }
    Some((n, end))
}

/// Where the octets and dots of a dotted quad stand.
proof fn lemma_dotted_layout(ip: Ipv4Address)
    ensures
        ({
            let t = dotted_quad(ip);
            let e1 = decimal(ip.0).len() as int;
            let e2 = e1 + 1 + decimal(ip.1).len();
            let e3 = e2 + 1 + decimal(ip.2).len();
            let e4 = e3 + 1 + decimal(ip.3).len();
            &&& t.len() == e4
            &&& octet_ends(t, 0, e1, ip.0)
            &&& t[e1] == '.'
            &&& octet_ends(t, e1 + 1, e2, ip.1)
            &&& t[e2] == '.'
            &&& octet_ends(t, e2 + 1, e3, ip.2)
            &&& t[e3] == '.'
            &&& octet_ends(t, e3 + 1, e4, ip.3)
        }),
{
    let t = dotted_quad(ip);
    let e1 = decimal(ip.0).len() as int;
    let e2 = e1 + 1 + decimal(ip.1).len();
    let e3 = e2 + 1 + decimal(ip.2).len();
    let e4 = e3 + 1 + decimal(ip.3).len();
    assert(t.subrange(0, e1) =~= decimal(ip.0));
    assert(t.subrange(e1 + 1, e2) =~= decimal(ip.1));
    assert(t.subrange(e2 + 1, e3) =~= decimal(ip.2));
    assert(t.subrange(e3 + 1, e4) =~= decimal(ip.3));
}

impl Ipv4Address {
    /// The address `0.0.0.0`.
    pub fn unspecified() -> (r: Ipv4Address)
        ensures
            r == Ipv4Address(0, 0, 0, 0),
    {
        Ipv4Address(0, 0, 0, 0)
    }

    /// The address in dotted-quad notation.
    pub fn text(&self) -> (r: String)
        ensures
            r@ == dotted_quad(*self),
    {
        proof {
            reveal_strlit(".");
        }
        let mut out = String::new();
        push_decimal(&mut out, self.0);
        out.append(".");
        push_decimal(&mut out, self.1);
        out.append(".");
        push_decimal(&mut out, self.2);
        out.append(".");
        push_decimal(&mut out, self.3);
        assert("."@ =~= seq!['.']);
        assert(out@ =~= dotted_quad(*self));
        out
    }

    /// Reads an address in dotted-quad notation: four decimal octets without
    /// leading zeros, separated by dots. Any other text gives `None`.
    pub fn parse(text: &str) -> (r: Option<Ipv4Address>)
        ensures
            r == ipv4_of(text@),
            match r {
                Some(ip) => dotted_quad(ip) == text@,
                None => forall|ip: Ipv4Address| dotted_quad(ip) != text@,
            },
    {
        let r = Self::read(text);
        proof {
            if r is Some {
                lemma_dotted_quad_injective(ipv4_of(text@)->0, r->0);
            }
        }
        r
    }

    #[verifier::rlimit(40)]
    fn read(text: &str) -> (r: Option<Ipv4Address>)
        ensures
            match r {
                Some(ip) => dotted_quad(ip) == text@,
                None => forall|ip: Ipv4Address| dotted_quad(ip) != text@,
            },
    {
        let chars = chars_of(text);
        let len = chars.len();
        let (a, e1) = match read_octet(&chars, 0) {
            Some(found) => found,
            None => {
                proof {
                    assert forall|ip: Ipv4Address| dotted_quad(ip) != text@ by {
                        lemma_dotted_layout(ip);
                    }
                }
                return None;
            },
        };
        if e1 >= len || chars[e1] != '.' {
            proof {
                assert forall|ip: Ipv4Address| dotted_quad(ip) != text@ by {
                    lemma_dotted_layout(ip);
                }
            }
            return None;
        }
        let (b, e2) = match read_octet(&chars, e1 + 1) {
            Some(found) => found,
            None => {
                proof {
                    assert forall|ip: Ipv4Address| dotted_quad(ip) != text@ by {
                        lemma_dotted_layout(ip);
                    }
                }
                return None;
            },
        };
        if e2 >= len || chars[e2] != '.' {
            proof {
                assert forall|ip: Ipv4Address| dotted_quad(ip) != text@ by {
                    lemma_dotted_layout(ip);
                }
            }
            return None;
        }
        let (c, e3) = match read_octet(&chars, e2 + 1) {
            Some(found) => found,
            None => {
                proof {
                    assert forall|ip: Ipv4Address| dotted_quad(ip) != text@ by {
                        lemma_dotted_layout(ip);
                    }
                }
                return None;
            },
        };
        if e3 >= len || chars[e3] != '.' {
            proof {
                assert forall|ip: Ipv4Address| dotted_quad(ip) != text@ by {
                    lemma_dotted_layout(ip);
                }
            }
            return None;
        }
        let (d, e4) = match read_octet(&chars, e3 + 1) {
            Some(found) => found,
            None => {
                proof {
                    assert forall|ip: Ipv4Address| dotted_quad(ip) != text@ by {
                        lemma_dotted_layout(ip);
                    }
                }
                return None;
            },
        };
        if e4 != len {
            proof {
                assert forall|ip: Ipv4Address| dotted_quad(ip) != text@ by {
                    lemma_dotted_layout(ip);
                }
            }
            return None;
        }
        let ip = Ipv4Address(a, b, c, d);
        proof {
            let t = chars@;
            assert(t =~= t.subrange(0, e1 as int) + seq!['.'] + t.subrange(e1 + 1, e2 as int)
                + seq!['.'] + t.subrange(e2 + 1, e3 as int) + seq!['.'] + t.subrange(
                e3 + 1,
                e4 as int,
            ));
        }
        Some(ip)
    }
}

/// The text of an address denotes that address, and no other.
pub proof fn lemma_ipv4_of_dotted_quad(ip: Ipv4Address)
    ensures
        ipv4_of(dotted_quad(ip)) == Some(ip),
{
    lemma_dotted_quad_injective(ipv4_of(dotted_quad(ip))->0, ip);
}

/// Reading the dotted-quad form of an address gives the address back.
pub proof fn lemma_dotted_quad_injective(a: Ipv4Address, b: Ipv4Address)
    requires
        dotted_quad(a) == dotted_quad(b),
    ensures
        a == b,
{
    lemma_dotted_layout(a);
    lemma_dotted_layout(b);
    let t = dotted_quad(a);
    lemma_octet_unique(t, 0, decimal(a.0).len() as int, a.0, decimal(b.0).len() as int, b.0);
    let e1 = decimal(a.0).len() as int;
    lemma_octet_unique(
        t,
        e1 + 1,
        e1 + 1 + decimal(a.1).len(),
        a.1,
        e1 + 1 + decimal(b.1).len(),
        b.1,
    );
    let e2 = e1 + 1 + decimal(a.1).len();
    lemma_octet_unique(
        t,
        e2 + 1,
        e2 + 1 + decimal(a.2).len(),
        a.2,
        e2 + 1 + decimal(b.2).len(),
        b.2,
    );
    let e3 = e2 + 1 + decimal(a.2).len();
    lemma_octet_unique(
        t,
        e3 + 1,
        e3 + 1 + decimal(a.3).len(),
        a.3,
        e3 + 1 + decimal(b.3).len(),
        b.3,
    );
}

/// At most one decimal byte ends at a character that is no digit.
proof fn lemma_octet_unique(chars: Seq<char>, start: int, e1: int, n1: u8, e2: int, n2: u8)
    requires
        octet_ends(chars, start, e1, n1),
        octet_ends(chars, start, e2, n2),
    ensures
        e1 == e2,
        n1 == n2,
{
    lemma_decimal(n1);
    lemma_decimal(n2);
    let d1 = decimal(n1);
    let d2 = decimal(n2);
    if e1 < e2 {
        assert(chars[e1] == d2[e1 - start]);
    }
    if e2 < e1 {
        assert(chars[e2] == d1[e2 - start]);
    }
    assert(d1 == d2);
}

/// An IPv4 address of this host together with the length of its network prefix.
#[derive(Clone, Copy, Debug, PartialEq, Eq, Structural)]
pub struct Ipv4Network {
    pub address: Ipv4Address,
    pub prefix: u8,
}

/// The bits of an octet that belong to the host part, set: the octet holds
/// `network_bits` leading bits of the network prefix.
pub open spec fn host_bits(network_bits: int) -> u8 {
    if network_bits <= 0 {
        0xffu8
    } else if network_bits >= 8 {
        0u8
    } else {
        0xffu8 >> (network_bits as u8)
    }
}

/// The directed broadcast address of a network: the address with every
/// host bit set.
pub open spec fn broadcast_of(net: Ipv4Network) -> Ipv4Address {
    Ipv4Address(
        net.address.0 | host_bits(net.prefix as int),
        net.address.1 | host_bits(net.prefix as int - 8),
        net.address.2 | host_bits(net.prefix as int - 16),
        net.address.3 | host_bits(net.prefix as int - 24),
    )
}

fn octet_host_bits(prefix: u8, octet: u8) -> (r: u8)
    requires
        octet < 4,
    ensures
        r == host_bits(prefix as int - 8 * octet),
{
    let skipped: u8 = 8 * octet;
    if prefix <= skipped {
        0xff
    } else if prefix - skipped >= 8 {
        0
    } else {
        0xffu8 >> (prefix - skipped)
    }
}

impl Ipv4Network {
    /// The address of this host in the network.
    pub fn ip(&self) -> (r: Ipv4Address)
        ensures
            r == self.address,
    {
        self.address
    }

    /// The directed broadcast address of the network.
    pub fn broadcast(&self) -> (r: Ipv4Address)
        ensures
            r == broadcast_of(*self),
    {
        Ipv4Address(
            self.address.0 | octet_host_bits(self.prefix, 0),
            self.address.1 | octet_host_bits(self.prefix, 1),
            self.address.2 | octet_host_bits(self.prefix, 2),
            self.address.3 | octet_host_bits(self.prefix, 3),
        )
    }
}

} // verus!
