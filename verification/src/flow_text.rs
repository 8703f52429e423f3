//! The textual form of flow identifiers, which serves as the stable
//! external name of a flow, and its parser.
//!
//! The forms are
//! `MACsec { sci: 0x0123456789abcdef }`,
//! `IPsec { spi: 0x89abcdef, dst: 10.0.0.1 }` and
//! `TCP { 192.168.1.10:12345 -> 10.0.0.1:80 }` (or `UDP`), where the
//! arrow is the single character U+2192.

use crate::ip_text::{
    ip_text, is_first_at, lemma_decimal_text_plain, lemma_first_in_range, lemma_first_separator,
    lemma_ip_text_injective, lemma_ip_text_plain, parse_ip, push_ip,
};
use crate::text::{
    chars_of, decimal_text, find_char, find_last_char, has_text_at, hex_text,
    lemma_decimal_text_injective, lemma_hex_text_injective, lemma_hex_text_shape,
    lemma_pow16_values, parse_decimal, parse_hex, push_decimal, push_hex,
};
use crate::types::{FlowId, IpAddress};
use vstd::prelude::*;
use vstd::string::StringExecFns;

verus! {

/// The arrow between the two endpoints of a 5-tuple.
pub const ARROW: char = '\u{2192}';

/// Text of an endpoint: address, colon, port.
pub open spec fn endpoint_text(ip: IpAddress, port: u16) -> Seq<char> {
    ip_text(ip) + seq![':'] + decimal_text(port as nat)
}

/// Whether `at` is where the last `c` of `s` stands (the length of `s` if
/// there is none).
pub open spec fn is_last_at(s: Seq<char>, c: char, at: int) -> bool {
    &&& 0 <= at <= s.len()
    &&& at < s.len() ==> s[at] == c
    &&& forall|k: int| at < k < s.len() ==> s[k] != c
    &&& at == s.len() ==> forall|k: int| 0 <= k < s.len() ==> s[k] != c
}

/// In `head + [c] + tail`, where `tail` is free of `c`, the last `c`
/// stands right behind `head`.
pub proof fn lemma_last_separator(s: Seq<char>, head: Seq<char>, tail: Seq<char>, c: char, at: int)
    requires
        s == head + seq![c] + tail,
        forall|k: int| 0 <= k < tail.len() ==> tail[k] != c,
        is_last_at(s, c, at),
    ensures
        at == head.len(),
        s.subrange(0, at) == head,
        s.subrange(at + 1, s.len() as int) == tail,
{
    assert(s[head.len() as int] == c);
    if at > head.len() && at < s.len() {
        assert(s[at] == tail[at - head.len() - 1]);
    }
    assert(s.subrange(0, at) =~= head);
    assert(s.subrange(at + 1, s.len() as int) =~= tail);
}

/// An endpoint text holds neither blank nor arrow.
pub proof fn lemma_endpoint_text_plain(ip: IpAddress, port: u16)
    ensures
        forall|k: int|
            0 <= k < endpoint_text(ip, port).len() ==> (#[trigger] endpoint_text(ip, port)[k])
                != ' ' && endpoint_text(ip, port)[k] != '\u{2192}',
{
    let t = endpoint_text(ip, port);
    let a = ip_text(ip);
    let d = decimal_text(port as nat);
    lemma_ip_text_plain(ip);
    lemma_decimal_text_plain(port as nat);
    crate::text::lemma_decimal_text_shape(port as nat);
    assert forall|k: int| 0 <= k < t.len() implies (#[trigger] t[k]) != ' ' && t[k]
        != '\u{2192}' by {
        if k < a.len() {
            assert(t[k] == a[k]);
        } else if k > a.len() {
            assert(t[k] == d[k - a.len() - 1]);
            assert(crate::text::is_digit(d[k - a.len() - 1]));
        }
    }
}

/// Different endpoints have different texts.
pub proof fn lemma_endpoint_text_injective(a: IpAddress, p: u16, b: IpAddress, q: u16)
    requires
        endpoint_text(a, p) == endpoint_text(b, q),
    ensures
        a == b,
        p == q,
{
    let s = endpoint_text(a, p);
    let at = ip_text(a).len() as int;
    lemma_decimal_text_plain(p as nat);
    lemma_decimal_text_plain(q as nat);
    assert(s[at] == ':');
    assert(is_last_at(s, ':', at)) by {
        assert forall|k: int| at < k < s.len() implies s[k] != ':' by {
            assert(s[k] == decimal_text(p as nat)[k - at - 1]);
        }
    }
    lemma_last_separator(s, ip_text(a), decimal_text(p as nat), ':', at);
    lemma_last_separator(s, ip_text(b), decimal_text(q as nat), ':', at);
    lemma_ip_text_injective(a, b);
    lemma_decimal_text_injective(p as nat, q as nat);
}

/// Appends the text of an endpoint.
pub fn push_endpoint(out: &mut String, ip: &IpAddress, port: u16)
    ensures
        final(out)@ == old(out)@ + endpoint_text(*ip, port),
{
    push_ip(out, ip);
    out.push(':');
    push_decimal(out, port as u64);
    assert(out@ =~= old(out)@ + endpoint_text(*ip, port));
}

/// Reads the endpoint whose text fills `chars[start..end]`.
pub fn parse_endpoint(chars: &Vec<char>, start: usize, end: usize) -> (r: Option<(IpAddress, u16)>)
    requires
        start <= end <= chars@.len(),
    ensures
        match r {
            Some((ip, port)) => chars@.subrange(start as int, end as int) == endpoint_text(
                ip,
                port,
            ),
            None => forall|ip: IpAddress, port: u16|
                chars@.subrange(start as int, end as int) != #[trigger] endpoint_text(ip, port),
        },
{
    let ghost s = chars@.subrange(start as int, end as int);
    let colon = find_last_char(chars, start, end, ':');
    proof {
        assert(is_last_at(s, ':', colon - start)) by {
            assert forall|k: int| colon - start < k < s.len() implies s[k] != ':' by {
                assert(s[k] == chars@[start + k]);
            }
            if colon == end {
                assert forall|k: int| 0 <= k < s.len() implies s[k] != ':' by {
                    assert(s[k] == chars@[start + k]);
                }
            }
        }
        assert(s.subrange(0, colon - start) =~= chars@.subrange(start as int, colon as int));
        if colon < end {
            assert(s.subrange(colon - start + 1, s.len() as int) =~= chars@.subrange(
                colon + 1,
                end as int,
            ));
        }
    }
    if colon < end {
        let ip = parse_ip(chars, start, colon);
        let port = parse_decimal(chars, colon + 1, end, 65535);
        if let (Some(ip), Some(port)) = (ip, port) {
            proof {
                assert(s =~= endpoint_text(ip, port as u16));
            }
            return Some((ip, port as u16));
        }
    }
    proof {
        assert forall|ip: IpAddress, port: u16| s != #[trigger] endpoint_text(ip, port) by {
            if s == endpoint_text(ip, port) {
                lemma_decimal_text_plain(port as nat);
                lemma_last_separator(
                    s,
                    ip_text(ip),
                    decimal_text(port as nat),
                    ':',
                    colon - start,
                );
            }
        }
    }
    None
}


/// How the text of a 5-tuple begins: the protocol's name and an opening
/// brace.
pub open spec fn l3_prefix(protocol: u8) -> Seq<char> {
    if protocol == 6 {
        "TCP { "@
    } else if protocol == 17 {
        "UDP { "@
    } else {
        "Unknown { "@
    }
}

/// Text of a MACsec flow.
pub open spec fn macsec_text(sci: u64) -> Seq<char> {
    "MACsec { sci: 0x"@ + hex_text(sci as nat, 16, false) + " }"@
}

/// Text of an IPsec flow.
pub open spec fn ipsec_text(spi: u32, dst_ip: IpAddress) -> Seq<char> {
    "IPsec { spi: 0x"@ + hex_text(spi as nat, 8, false) + ", dst: "@ + ip_text(dst_ip) + " }"@
}

/// Text of a 5-tuple flow.
pub open spec fn l3_text(
    src_ip: IpAddress,
    dst_ip: IpAddress,
    src_port: u16,
    dst_port: u16,
    protocol: u8,
) -> Seq<char> {
    l3_prefix(protocol) + endpoint_text(src_ip, src_port) + seq![' ', '\u{2192}', ' ']
        + endpoint_text(dst_ip, dst_port) + " }"@
}

/// What is known of the literal pieces of the texts.
pub proof fn lemma_text_pieces()
    ensures
        "MACsec { sci: 0x"@.len() == 16,
        "MACsec { sci: 0x"@[0] == 'M',
        "IPsec { spi: 0x"@.len() == 15,
        "IPsec { spi: 0x"@[0] == 'I',
        ", dst: "@.len() == 7,
        " }"@.len() == 2,
        " }"@[0] == ' ',
        "TCP { "@.len() == 6,
        "TCP { "@[0] == 'T',
        "UDP { "@.len() == 6,
        "UDP { "@[0] == 'U',
        "Unknown { "@.len() == 10,
{
    reveal_strlit("MACsec { sci: 0x");
    reveal_strlit("IPsec { spi: 0x");
    reveal_strlit(", dst: ");
    reveal_strlit(" }");
    reveal_strlit("TCP { ");
    reveal_strlit("UDP { ");
    reveal_strlit("Unknown { ");
}

impl FlowId {
    /// The textual form of the flow identifier.
    pub open spec fn spec_text(self) -> Seq<char> {
        match self {
            FlowId::MACsec { sci } => macsec_text(sci),
            FlowId::IPsec { spi, dst_ip } => ipsec_text(spi, dst_ip),
            FlowId::GenericL3 { src_ip, dst_ip, src_port, dst_port, protocol } => l3_text(
                src_ip,
                dst_ip,
                src_port,
                dst_port,
                protocol,
            ),
        }
    }

    /// Whether the identifier is one that a parser produces: a 5-tuple
    /// names TCP or UDP.
    pub open spec fn spec_is_canonical(self) -> bool {
        match self {
            FlowId::GenericL3 { protocol, .. } => protocol == 6 || protocol == 17,
            _ => true,
        }
    }

    /// The identifier that a text denotes: the canonical identifier whose
    /// textual form the text is, if there is one.
    pub open spec fn spec_parse(text: Seq<char>) -> Option<FlowId> {
        if exists|f: FlowId| f.spec_is_canonical() && f.spec_text() == text {
            Some(choose|f: FlowId| f.spec_is_canonical() && f.spec_text() == text)
        } else {
            None
        }
    }

    /// Whether the identifier is one that a parser produces.
    pub fn is_canonical(&self) -> (b: bool)
        ensures
            b == self.spec_is_canonical(),
    {
        match self {
            FlowId::GenericL3 { protocol, .. } => *protocol == 6 || *protocol == 17,
            _ => true,
        }
    }

    /// The textual form of the flow identifier.
    pub fn to_string(&self) -> (text: String)
        ensures
            text@ == self.spec_text(),
    {
        match self {
            FlowId::MACsec { sci } => {
                let mut out = String::from_str("MACsec { sci: 0x");
                push_hex(&mut out, *sci, 16, false);
                out.append(" }");
                out
            },
            FlowId::IPsec { spi, dst_ip } => {
                let mut out = String::from_str("IPsec { spi: 0x");
                push_hex(&mut out, *spi as u64, 8, false);
                out.append(", dst: ");
                push_ip(&mut out, dst_ip);
                out.append(" }");
                out
            },
            FlowId::GenericL3 { src_ip, dst_ip, src_port, dst_port, protocol } => {
                let mut out = if *protocol == 6 {
                    String::from_str("TCP { ")
                } else if *protocol == 17 {
                    String::from_str("UDP { ")
                } else {
                    String::from_str("Unknown { ")
                };
                push_endpoint(&mut out, src_ip, *src_port);
                out.push(' ');
                out.push(ARROW);
                out.push(' ');
                push_endpoint(&mut out, dst_ip, *dst_port);
                out.append(" }");
                assert(out@ =~= self.spec_text());
                out
            },
        }
    }
}

/// Different secure channels have different texts.
pub proof fn lemma_macsec_text_injective(a: u64, b: u64)
    requires
        macsec_text(a) == macsec_text(b),
    ensures
        a == b,
{
    lemma_text_pieces();
    lemma_pow16_values();
    lemma_hex_text_shape(a as nat, 16, false);
    lemma_hex_text_shape(b as nat, 16, false);
    let s = macsec_text(a);
    assert(s.subrange(16, 32) =~= hex_text(a as nat, 16, false));
    assert(s.subrange(16, 32) =~= hex_text(b as nat, 16, false));
    lemma_hex_text_injective(a as nat, b as nat, 16, false);
}

/// Different security associations have different texts.
pub proof fn lemma_ipsec_text_injective(a: u32, x: IpAddress, b: u32, y: IpAddress)
    requires
        ipsec_text(a, x) == ipsec_text(b, y),
    ensures
        a == b,
        x == y,
{
    lemma_text_pieces();
    lemma_pow16_values();
    lemma_hex_text_shape(a as nat, 8, false);
    lemma_hex_text_shape(b as nat, 8, false);
    let s = ipsec_text(a, x);
    assert(s.subrange(15, 23) =~= hex_text(a as nat, 8, false));
    assert(s.subrange(15, 23) =~= hex_text(b as nat, 8, false));
    lemma_hex_text_injective(a as nat, b as nat, 8, false);
    assert(s.subrange(30, s.len() - 2) =~= ip_text(x));
    assert(s.subrange(30, s.len() - 2) =~= ip_text(y));
    lemma_ip_text_injective(x, y);
}

/// The two endpoints between which the arrow of a text stands.
pub proof fn lemma_arrow_splits(
    body: Seq<char>,
    ip1: IpAddress,
    port1: u16,
    ip2: IpAddress,
    port2: u16,
    at: int,
)
    requires
        body == endpoint_text(ip1, port1) + seq![' ', '\u{2192}', ' '] + endpoint_text(ip2, port2),
        is_first_at(body, '\u{2192}', 0, at),
    ensures
        at == endpoint_text(ip1, port1).len() + 1,
        at + 2 <= body.len(),
        body[at - 1] == ' ',
        body[at + 1] == ' ',
        body.subrange(0, at - 1) == endpoint_text(ip1, port1),
        body.subrange(at + 2, body.len() as int) == endpoint_text(ip2, port2),
{
    let e1 = endpoint_text(ip1, port1);
    let e2 = endpoint_text(ip2, port2);
    lemma_endpoint_text_plain(ip1, port1);
    let head = e1 + seq![' '];
    let tail = seq![' '] + e2;
    assert(body =~= head + seq!['\u{2192}'] + tail);
    assert forall|k: int| 0 <= k < head.len() implies head[k] != '\u{2192}' by {
        if k < e1.len() {
            assert(head[k] == e1[k]);
        }
    }
    lemma_first_separator(body, head, tail, '\u{2192}', 0, at);
    assert(body.subrange(0, at - 1) =~= e1);
    assert(body.subrange(at + 2, body.len() as int) =~= e2);
}

/// Different 5-tuples of the same protocol have different texts.
pub proof fn lemma_l3_text_injective(
    a1: IpAddress,
    a2: IpAddress,
    port_a: u16,
    port_b: u16,
    b1: IpAddress,
    b2: IpAddress,
    port_c: u16,
    port_d: u16,
    protocol: u8,
)
    requires
        l3_text(a1, a2, port_a, port_b, protocol) == l3_text(b1, b2, port_c, port_d, protocol),
    ensures
        a1 == b1,
        a2 == b2,
        port_a == port_c,
        port_b == port_d,
{
    lemma_text_pieces();
    let s = l3_text(a1, a2, port_a, port_b, protocol);
    let n = l3_prefix(protocol).len() as int;
    let body = s.subrange(n, s.len() - 2);
    let arrow = seq![' ', '\u{2192}', ' '];
    assert(body =~= endpoint_text(a1, port_a) + arrow + endpoint_text(a2, port_b));
    assert(body =~= endpoint_text(b1, port_c) + arrow + endpoint_text(b2, port_d));
    let at = endpoint_text(a1, port_a).len() as int + 1;
    lemma_endpoint_text_plain(a1, port_a);
    assert(is_first_at(body, '\u{2192}', 0, at)) by {
        assert(body[at] == '\u{2192}');
        assert forall|k: int| 0 <= k < at implies body[k] != '\u{2192}' by {
            if k < at - 1 {
                assert(body[k] == endpoint_text(a1, port_a)[k]);
            }
        }
    }
    lemma_arrow_splits(body, a1, port_a, a2, port_b, at);
    lemma_arrow_splits(body, b1, port_c, b2, port_d, at);
    lemma_endpoint_text_injective(a1, port_a, b1, port_c);
    lemma_endpoint_text_injective(a2, port_b, b2, port_d);
}

/// Different canonical flow identifiers have different texts.
pub proof fn lemma_flow_text_injective(a: FlowId, b: FlowId)
    requires
        a.spec_is_canonical(),
        b.spec_is_canonical(),
        a.spec_text() == b.spec_text(),
    ensures
        a == b,
{
    lemma_text_pieces();
    let s = a.spec_text();
    assert(a.spec_text()[0] == match a {
        FlowId::MACsec { .. } => 'M',
        FlowId::IPsec { .. } => 'I',
        FlowId::GenericL3 { protocol, .. } => if protocol == 6 {
            'T'
        } else {
            'U'
        },
    });
    assert(b.spec_text()[0] == match b {
        FlowId::MACsec { .. } => 'M',
        FlowId::IPsec { .. } => 'I',
        FlowId::GenericL3 { protocol, .. } => if protocol == 6 {
            'T'
        } else {
            'U'
        },
    });
    match (a, b) {
        (FlowId::MACsec { sci: x }, FlowId::MACsec { sci: y }) => {
            lemma_macsec_text_injective(x, y);
        },
        (FlowId::IPsec { spi: x, dst_ip: d }, FlowId::IPsec { spi: y, dst_ip: e }) => {
            lemma_ipsec_text_injective(x, d, y, e);
        },
        (
            FlowId::GenericL3 { src_ip: a1, dst_ip: a2, src_port: port_a, dst_port: port_b, protocol: pa },
            FlowId::GenericL3 { src_ip: b1, dst_ip: b2, src_port: port_c, dst_port: port_d, protocol: pb },
        ) => {
            assert(pa == pb);
            lemma_l3_text_injective(a1, a2, port_a, port_b, b1, b2, port_c, port_d, pa);
        },
        _ => {},
    }
}

/// Round trip: reading the text of a canonical flow identifier gives the
/// identifier back.
pub proof fn law_text_round_trip(f: FlowId)
    requires
        f.spec_is_canonical(),
    ensures
        FlowId::spec_parse(f.spec_text()) == Some(f),
{
    let g = choose|g: FlowId| g.spec_is_canonical() && g.spec_text() == f.spec_text();
    lemma_flow_text_injective(f, g);
}


/// Reads the text of a MACsec flow.
fn parse_macsec_text(chars: &Vec<char>) -> (r: Option<FlowId>)
    ensures
        match r {
            Some(f) => f is MACsec && f.spec_text() == chars@,
            None => forall|sci: u64| chars@ != #[trigger] macsec_text(sci),
        },
{
    proof {
        lemma_text_pieces();
    }
    if chars.len() != 34 || !has_text_at(chars, 0, "MACsec { sci: 0x") || !has_text_at(
        chars,
        32,
        " }",
    ) {
        proof {
            assert forall|sci: u64| chars@ != #[trigger] macsec_text(sci) by {
                lemma_hex_text_shape(sci as nat, 16, false);
                let t = macsec_text(sci);
                assert(t.subrange(0, 16) =~= "MACsec { sci: 0x"@);
                assert(t.subrange(32, 34) =~= " }"@);
            }
        }
        return None;
    }
    match parse_hex(chars, 16, 16) {
        Some(sci) => {
            proof {
                assert(chars@ =~= chars@.subrange(0, 16) + chars@.subrange(16, 32)
                    + chars@.subrange(32, 34));
            }
            Some(FlowId::MACsec { sci })
        },
        None => {
            proof {
                assert forall|sci: u64| chars@ != #[trigger] macsec_text(sci) by {
                    lemma_hex_text_shape(sci as nat, 16, false);
                    let t = macsec_text(sci);
                    assert(t.subrange(16, 32) =~= hex_text(sci as nat, 16, false));
                }
            }
            None
        },
    }
}

/// Reads the text of an IPsec flow.
fn parse_ipsec_text(chars: &Vec<char>) -> (r: Option<FlowId>)
    ensures
        match r {
            Some(f) => f is IPsec && f.spec_text() == chars@,
            None => forall|spi: u32, dst_ip: IpAddress|
                chars@ != #[trigger] ipsec_text(spi, dst_ip),
        },
{
    proof {
        lemma_text_pieces();
        lemma_pow16_values();
    }
    let length = chars.len();
    if length < 32 || !has_text_at(chars, 0, "IPsec { spi: 0x") || !has_text_at(
        chars,
        23,
        ", dst: ",
    ) || !has_text_at(chars, length - 2, " }") {
        proof {
            assert forall|spi: u32, dst_ip: IpAddress| chars@ != #[trigger] ipsec_text(
                spi,
                dst_ip,
            ) by {
                lemma_hex_text_shape(spi as nat, 8, false);
                let t = ipsec_text(spi, dst_ip);
                assert(t.subrange(0, 15) =~= "IPsec { spi: 0x"@);
                assert(t.subrange(23, 30) =~= ", dst: "@);
                assert(t.subrange(t.len() - 2, t.len() as int) =~= " }"@);
            }
        }
        return None;
    }
    let spi = parse_hex(chars, 15, 8);
    let dst_ip = parse_ip(chars, 30, length - 2);
    if let (Some(spi), Some(dst_ip)) = (spi, dst_ip) {
        proof {
            assert(chars@ =~= chars@.subrange(0, 15) + chars@.subrange(15, 23) + chars@.subrange(
                23,
                30,
            ) + chars@.subrange(30, length - 2) + chars@.subrange(length - 2, length as int));
        }
        return Some(FlowId::IPsec { spi: spi as u32, dst_ip });
    }
    proof {
        assert forall|spi: u32, dst_ip: IpAddress| chars@ != #[trigger] ipsec_text(
            spi,
            dst_ip,
        ) by {
            lemma_hex_text_shape(spi as nat, 8, false);
            let t = ipsec_text(spi, dst_ip);
            assert(t.subrange(15, 23) =~= hex_text(spi as nat, 8, false));
            assert(t.subrange(30, t.len() - 2) =~= ip_text(dst_ip));
        }
    }
    None
}

/// Reads the text of a TCP or UDP flow.
fn parse_l3_text(chars: &Vec<char>, protocol: u8) -> (r: Option<FlowId>)
    requires
        protocol == 6 || protocol == 17,
    ensures
        match r {
            Some(f) => f is GenericL3 && f->GenericL3_protocol == protocol && f.spec_text()
                == chars@,
            None => forall|a1: IpAddress, a2: IpAddress, port_a: u16, port_b: u16|
                chars@ != #[trigger] l3_text(a1, a2, port_a, port_b, protocol),
        },
{
    proof {
        lemma_text_pieces();
    }
    let length = chars.len();
    let prefix_found = if protocol == 6 {
        has_text_at(chars, 0, "TCP { ")
    } else {
        has_text_at(chars, 0, "UDP { ")
    };
    if length < 8 || !prefix_found || !has_text_at(chars, length - 2, " }") {
        proof {
            assert forall|a1: IpAddress, a2: IpAddress, port_a: u16, port_b: u16|
                chars@ != #[trigger] l3_text(a1, a2, port_a, port_b, protocol) by {
                let t = l3_text(a1, a2, port_a, port_b, protocol);
                assert(t.subrange(0, 6) =~= l3_prefix(protocol));
                assert(t.subrange(t.len() - 2, t.len() as int) =~= " }"@);
            }
        }
        return None;
    }
    let ghost body = chars@.subrange(6, length - 2);
    let arrow = find_char(chars, 6, length - 2, ARROW);
    proof {
        lemma_first_in_range(chars@, 6, length - 2, ARROW, 6, arrow as int);
    }
    if arrow > 6 && arrow + 1 < length - 2 && chars[arrow - 1] == ' ' && chars[arrow + 1] == ' ' {
        let from = parse_endpoint(chars, 6, arrow - 1);
        let to = parse_endpoint(chars, arrow + 2, length - 2);
        proof {
            assert(body.subrange(0, arrow - 7) =~= chars@.subrange(6, arrow - 1));
            assert(body.subrange(arrow - 4, body.len() as int) =~= chars@.subrange(
                arrow + 2,
                length - 2,
            ));
        }
        if let (Some((src_ip, src_port)), Some((dst_ip, dst_port))) = (from, to) {
            proof {
                assert(chars@ =~= chars@.subrange(0, 6) + chars@.subrange(6, arrow - 1) + seq![
                    ' ',
                    '\u{2192}',
                    ' ',
                ] + chars@.subrange(arrow + 2, length - 2) + chars@.subrange(
                    length - 2,
                    length as int,
                ));
            }
            return Some(FlowId::GenericL3 { src_ip, dst_ip, src_port, dst_port, protocol });
        }
    }
    proof {
        assert forall|a1: IpAddress, a2: IpAddress, port_a: u16, port_b: u16|
            chars@ != #[trigger] l3_text(a1, a2, port_a, port_b, protocol) by {
            let t = l3_text(a1, a2, port_a, port_b, protocol);
            if chars@ == t {
                assert(body =~= endpoint_text(a1, port_a) + seq![' ', '\u{2192}', ' ']
                    + endpoint_text(a2, port_b));
                lemma_arrow_splits(body, a1, port_a, a2, port_b, arrow - 6);
                assert(body[arrow - 7] == chars@[arrow - 1]);
                assert(body[arrow - 5] == chars@[arrow + 1]);
                assert(body.subrange(0, arrow - 7) =~= chars@.subrange(6, arrow - 1));
                assert(body.subrange(arrow - 4, body.len() as int) =~= chars@.subrange(
                    arrow + 2,
                    length - 2,
                ));
            }
        }
    }
    None
}

/// The identifier that `FlowId::new` gives for a text that is no textual
/// form: chosen by how the text begins.
pub open spec fn fallback_flow_id(text: Seq<char>) -> FlowId {
    if "IPsec"@.is_prefix_of(text) {
        FlowId::IPsec { spi: 0, dst_ip: IpAddress::V4(0) }
    } else if "TCP"@.is_prefix_of(text) || "UDP"@.is_prefix_of(text) {
        FlowId::GenericL3 {
            src_ip: IpAddress::V4(0),
            dst_ip: IpAddress::V4(0),
            src_port: 0,
            dst_port: 0,
            protocol: 6,
        }
    } else {
        FlowId::MACsec { sci: 0 }
    }
}

impl FlowId {
    /// Reads a flow identifier from its textual form; `None` for every
    /// other text.
    pub fn parse(text: &str) -> (r: Option<FlowId>)
        ensures
            r == FlowId::spec_parse(text@),
    {
        let chars = chars_of(text);
        let is_macsec = has_text_at(&chars, 0, "MACsec { sci: 0x");
        let is_ipsec = has_text_at(&chars, 0, "IPsec { spi: 0x");
        let is_tcp = has_text_at(&chars, 0, "TCP { ");
        let is_udp = has_text_at(&chars, 0, "UDP { ");
        let r = if is_macsec {
            parse_macsec_text(&chars)
        } else if is_ipsec {
            parse_ipsec_text(&chars)
        } else if is_tcp {
            parse_l3_text(&chars, 6)
        } else if is_udp {
            parse_l3_text(&chars, 17)
        } else {
            None
        };
        proof {
            lemma_text_pieces();
            match r {
                Some(f) => {
                    let g = choose|g: FlowId| g.spec_is_canonical() && g.spec_text() == chars@;
                    lemma_flow_text_injective(f, g);
                },
                None => {
                    assert forall|f: FlowId| f.spec_is_canonical() implies f.spec_text()
                        != chars@ by {
                        let t = f.spec_text();
                        if t == chars@ {
                            match f {
                                FlowId::MACsec { sci } => {
                                    assert(t.subrange(0, 16) =~= "MACsec { sci: 0x"@);
                                },
                                FlowId::IPsec { spi, dst_ip } => {
                                    assert(t.subrange(0, 15) =~= "IPsec { spi: 0x"@);
                                    assert(t[0] == 'I');
                                    if is_macsec {
                                        assert(chars@.subrange(0, 16)[0] == 'M');
                                    }
                                },
                                FlowId::GenericL3 { protocol, .. } => {
                                    assert(t.subrange(0, 6) =~= l3_prefix(protocol));
                                    assert(t[0] == l3_prefix(protocol)[0]);
                                    if is_macsec {
                                        assert(chars@.subrange(0, 16)[0] == 'M');
                                    }
                                    if is_ipsec {
                                        assert(chars@.subrange(0, 15)[0] == 'I');
                                    }
                                    if is_tcp {
                                        assert(chars@.subrange(0, 6)[0] == 'T');
                                    }
                                },
                            }
                        }
                    }
                },
            }
        }
        r
    }

    /// The flow identifier that a text names. A textual form gives its
    /// identifier; any other text gives a zero identifier of the kind
    /// that its first word names, and of MACsec where it names none.
    pub fn new(text: &str) -> (f: FlowId)
        ensures
            f == match FlowId::spec_parse(text@) {
                Some(parsed) => parsed,
                None => fallback_flow_id(text@),
            },
    {
        match FlowId::parse(text) {
            Some(parsed) => parsed,
            None => {
                let chars = chars_of(text);
                proof {
                    reveal_strlit("IPsec");
                    reveal_strlit("TCP");
                    reveal_strlit("UDP");
                    if chars@.len() >= 5 {
                        assert("IPsec"@.is_prefix_of(chars@) == (chars@.subrange(0, 5)
                            == "IPsec"@));
                    }
                    if chars@.len() >= 3 {
                        assert("TCP"@.is_prefix_of(chars@) == (chars@.subrange(0, 3) == "TCP"@));
                        assert("UDP"@.is_prefix_of(chars@) == (chars@.subrange(0, 3) == "UDP"@));
                    }
                }
                if has_text_at(&chars, 0, "IPsec") {
                    FlowId::IPsec { spi: 0, dst_ip: IpAddress::V4(0) }
                } else if has_text_at(&chars, 0, "TCP") || has_text_at(&chars, 0, "UDP") {
                    FlowId::GenericL3 {
                        src_ip: IpAddress::V4(0),
                        dst_ip: IpAddress::V4(0),
                        src_port: 0,
                        dst_port: 0,
                        protocol: 6,
                    }
                } else {
                    FlowId::MACsec { sci: 0 }
                }
            },
        }
    }
}

} // verus!
