//! The textual form of IP addresses: dotted decimal for IPv4, eight groups
//! of four hexadecimal digits for IPv6.

use crate::text::{
    decimal_text, find_char, hex_text, is_digit, lemma_decimal_text_injective,
    lemma_decimal_text_shape, lemma_hex_text_injective, lemma_hex_text_shape, lemma_pow16_values,
    parse_decimal, parse_hex, push_decimal, push_hex,
};
use crate::types::{spec_ipv4_bits, IpAddress};
use vstd::prelude::*;

verus! {

/// Dotted-decimal form of an IPv4 address.
pub open spec fn ipv4_text(bits: u32) -> Seq<char> {
    let o = IpAddress::spec_octets(bits);
    decimal_text(o.0 as nat) + seq!['.'] + decimal_text(o.1 as nat) + seq!['.'] + decimal_text(
        o.2 as nat,
    ) + seq!['.'] + decimal_text(o.3 as nat)
}

/// The last `groups` 16-bit groups of `bits`, each as four lower-case
/// hexadecimal digits, separated by colons.
pub open spec fn hex_groups_text(bits: nat, groups: nat) -> Seq<char>
    decreases groups,
{
    if groups == 0 {
        Seq::empty()
    } else if groups == 1 {
        hex_text(bits % 0x1_0000, 4, false)
    } else {
        hex_groups_text(bits / 0x1_0000, (groups - 1) as nat) + seq![':'] + hex_text(
            bits % 0x1_0000,
            4,
            false,
        )
    }
}

/// Form of an IPv6 address: all eight groups, without abbreviation.
pub open spec fn ipv6_text(bits: u128) -> Seq<char> {
    hex_groups_text(bits as nat, 8)
}

/// Textual form of an address.
pub open spec fn ip_text(ip: IpAddress) -> Seq<char> {
    match ip {
        IpAddress::V4(bits) => ipv4_text(bits),
        IpAddress::V6(bits) => ipv6_text(bits),
    }
}

/// Whether `at` is where the first `c` at or after `from` stands in `s`
/// (the length of `s` if there is none).
pub open spec fn is_first_at(s: Seq<char>, c: char, from: int, at: int) -> bool {
    &&& from <= at <= s.len()
    &&& at < s.len() ==> s[at] == c
    &&& forall|k: int| from <= k < at ==> s[k] != c
}

/// In `head + [c] + tail`, where `head` is free of `c`, the first `c` at
/// or after any position inside `head` stands right behind `head`.
pub proof fn lemma_first_separator(
    s: Seq<char>,
    head: Seq<char>,
    tail: Seq<char>,
    c: char,
    from: int,
    at: int,
)
    requires
        s == head + seq![c] + tail,
        forall|k: int| from <= k < head.len() ==> head[k] != c,
        0 <= from <= head.len(),
        is_first_at(s, c, from, at),
    ensures
        at == head.len(),
        s.subrange(0, at) == head,
        s.subrange(at + 1, s.len() as int) == tail,
{
    assert(s[head.len() as int] == c);
    if at < head.len() {
        assert(s[at] == head[at]);
    }
    assert(s.subrange(0, at) =~= head);
    assert(s.subrange(at + 1, s.len() as int) =~= tail);
}

/// A decimal numeral holds no dot and no colon.
pub proof fn lemma_decimal_text_plain(n: nat)
    ensures
        forall|k: int|
            0 <= k < decimal_text(n).len() ==> (#[trigger] decimal_text(n)[k]) != '.'
                && decimal_text(n)[k] != ':' && decimal_text(n)[k] != ' ',
{
    lemma_decimal_text_shape(n);
    assert forall|k: int| 0 <= k < decimal_text(n).len() implies (#[trigger] decimal_text(n)[k])
        != '.' && decimal_text(n)[k] != ':' && decimal_text(n)[k] != ' ' by {
        assert(is_digit(decimal_text(n)[k]));
    }
}

/// What is first in a text is first in its tail too, seen from there.
pub proof fn lemma_first_in_tail(s: Seq<char>, offset: int, c: char, from: int, at: int)
    requires
        0 <= offset <= from,
        is_first_at(s, c, from, at),
    ensures
        is_first_at(s.subrange(offset, s.len() as int), c, from - offset, at - offset),
{
    let tail = s.subrange(offset, s.len() as int);
    assert forall|k: int| from - offset <= k < at - offset implies tail[k] != c by {
        assert(tail[k] == s[offset + k]);
    }
}

/// A numeral followed by a dot and more: the first dot ends the numeral.
pub proof fn lemma_numeral_then_dot(s: Seq<char>, n: nat, rest: Seq<char>, at: int)
    requires
        s == decimal_text(n) + seq!['.'] + rest,
        is_first_at(s, '.', 0, at),
    ensures
        at == decimal_text(n).len(),
        at < s.len(),
        s.subrange(0, at) == decimal_text(n),
        s.subrange(at + 1, s.len() as int) == rest,
{
    lemma_decimal_text_plain(n);
    lemma_first_separator(s, decimal_text(n), rest, '.', 0, at);
}

/// Where the three dots of a dotted-decimal address stand, and what
/// stands between them.
pub proof fn lemma_ipv4_text_parts(s: Seq<char>, bits: u32, first_dot: int, second_dot: int, third_dot: int)
    requires
        s == ipv4_text(bits),
        is_first_at(s, '.', 0, first_dot),
        first_dot < s.len() ==> is_first_at(s, '.', first_dot + 1, second_dot),
        first_dot < s.len() && second_dot < s.len() ==> is_first_at(s, '.', second_dot + 1, third_dot),
    ensures
        first_dot < second_dot < third_dot < s.len(),
        s.subrange(0, first_dot) == decimal_text(IpAddress::spec_octets(bits).0 as nat),
        s.subrange(first_dot + 1, second_dot) == decimal_text(IpAddress::spec_octets(bits).1 as nat),
        s.subrange(second_dot + 1, third_dot) == decimal_text(IpAddress::spec_octets(bits).2 as nat),
        s.subrange(third_dot + 1, s.len() as int) == decimal_text(
            IpAddress::spec_octets(bits).3 as nat,
        ),
{
    let o = IpAddress::spec_octets(bits);
    let dot = seq!['.'];
    let c = decimal_text(o.2 as nat);
    let d = decimal_text(o.3 as nat);
    let tail2 = c + dot + d;
    let tail1 = decimal_text(o.1 as nat) + dot + tail2;
    assert(s =~= decimal_text(o.0 as nat) + dot + tail1);
    lemma_numeral_then_dot(s, o.0 as nat, tail1, first_dot);
    // the second dot, seen from behind the first
    lemma_first_in_tail(s, first_dot + 1, '.', first_dot + 1, second_dot);
    lemma_numeral_then_dot(tail1, o.1 as nat, tail2, second_dot - first_dot - 1);
    assert(s.subrange(first_dot + 1, second_dot) =~= tail1.subrange(0, second_dot - first_dot - 1));
    // the third dot, seen from behind the second
    lemma_first_in_tail(s, second_dot + 1, '.', second_dot + 1, third_dot);
    assert(s.subrange(second_dot + 1, s.len() as int) =~= tail2);
    lemma_numeral_then_dot(tail2, o.2 as nat, d, third_dot - second_dot - 1);
    assert(s.subrange(second_dot + 1, third_dot) =~= tail2.subrange(0, third_dot - second_dot - 1));
    assert(s.subrange(third_dot + 1, s.len() as int) =~= tail2.subrange(
        third_dot - second_dot,
        tail2.len() as int,
    ));
}

/// Where the three dots of the text of an address stand.
pub proof fn lemma_ipv4_dot_positions(bits: u32) -> (p: (int, int, int))
    ensures
        is_first_at(ipv4_text(bits), '.', 0, p.0),
        p.0 < ipv4_text(bits).len(),
        is_first_at(ipv4_text(bits), '.', p.0 + 1, p.1),
        p.1 < ipv4_text(bits).len(),
        is_first_at(ipv4_text(bits), '.', p.1 + 1, p.2),
{
    let s = ipv4_text(bits);
    let o = IpAddress::spec_octets(bits);
    let a = decimal_text(o.0 as nat);
    let b = decimal_text(o.1 as nat);
    let c = decimal_text(o.2 as nat);
    lemma_decimal_text_plain(o.0 as nat);
    lemma_decimal_text_plain(o.1 as nat);
    lemma_decimal_text_plain(o.2 as nat);
    let first_dot = a.len() as int;
    let second_dot = first_dot + 1 + b.len() as int;
    let third_dot = second_dot + 1 + c.len() as int;
    assert(s[first_dot] == '.');
    assert(s[second_dot] == '.');
    assert(s[third_dot] == '.');
    assert forall|k: int| 0 <= k < first_dot implies s[k] != '.' by {
        assert(s[k] == a[k]);
    }
    assert forall|k: int| first_dot + 1 <= k < second_dot implies s[k] != '.' by {
        assert(s[k] == b[k - first_dot - 1]);
    }
    assert forall|k: int| second_dot + 1 <= k < third_dot implies s[k] != '.' by {
        assert(s[k] == c[k - second_dot - 1]);
    }
    (first_dot, second_dot, third_dot)
}

/// An address is determined by its four octets.
pub proof fn lemma_octets_determine(a: u32, b: u32)
    requires
        IpAddress::spec_octets(a) == IpAddress::spec_octets(b),
    ensures
        a == b,
{
    assert(a / 0x100_0000 == b / 0x100_0000);
    assert((a / 0x1_0000) % 0x100 == (b / 0x1_0000) % 0x100);
    assert((a / 0x100) % 0x100 == (b / 0x100) % 0x100);
    assert(a % 0x100 == b % 0x100);
    assert(a == b) by (bit_vector)
        requires
            a / 0x100_0000 == b / 0x100_0000,
            (a / 0x1_0000) % 0x100 == (b / 0x1_0000) % 0x100,
            (a / 0x100) % 0x100 == (b / 0x100) % 0x100,
            a % 0x100 == b % 0x100,
    ;
}

/// Different IPv4 addresses have different texts.
pub proof fn lemma_ipv4_text_injective(a: u32, b: u32)
    requires
        ipv4_text(a) == ipv4_text(b),
    ensures
        a == b,
{
    let s = ipv4_text(a);
    let oa = IpAddress::spec_octets(a);
    let ob = IpAddress::spec_octets(b);
    let p = lemma_ipv4_dot_positions(a);
    lemma_ipv4_text_parts(s, a, p.0, p.1, p.2);
    lemma_ipv4_text_parts(s, b, p.0, p.1, p.2);
    lemma_decimal_text_injective(oa.0 as nat, ob.0 as nat);
    lemma_decimal_text_injective(oa.1 as nat, ob.1 as nat);
    lemma_decimal_text_injective(oa.2 as nat, ob.2 as nat);
    lemma_decimal_text_injective(oa.3 as nat, ob.3 as nat);
    lemma_octets_determine(a, b);
}

/// Appends the dotted-decimal form of an IPv4 address.
pub fn push_ipv4(out: &mut String, bits: u32)
    ensures
        final(out)@ == old(out)@ + ipv4_text(bits),
{
    let o = IpAddress::octets(bits);
    push_decimal(out, o.0 as u64);
    out.push('.');
    push_decimal(out, o.1 as u64);
    out.push('.');
    push_decimal(out, o.2 as u64);
    out.push('.');
    push_decimal(out, o.3 as u64);
    assert(out@ =~= old(out)@ + ipv4_text(bits));
}

/// A text with three dots and four numerals between them is the text of
/// the address with these octets.
pub proof fn lemma_ipv4_text_built(
    s: Seq<char>,
    bits: u32,
    first_dot: int,
    second_dot: int,
    third_dot: int,
)
    requires
        0 <= first_dot < second_dot < third_dot < s.len(),
        s[first_dot] == '.',
        s[second_dot] == '.',
        s[third_dot] == '.',
        s.subrange(0, first_dot) == decimal_text(IpAddress::spec_octets(bits).0 as nat),
        s.subrange(first_dot + 1, second_dot) == decimal_text(IpAddress::spec_octets(bits).1 as nat),
        s.subrange(second_dot + 1, third_dot) == decimal_text(IpAddress::spec_octets(bits).2 as nat),
        s.subrange(third_dot + 1, s.len() as int) == decimal_text(
            IpAddress::spec_octets(bits).3 as nat,
        ),
    ensures
        s == ipv4_text(bits),
{
    let dot = seq!['.'];
    assert(s =~= s.subrange(0, first_dot) + dot + s.subrange(first_dot + 1, second_dot) + dot + s.subrange(second_dot + 1, third_dot)
        + dot + s.subrange(third_dot + 1, s.len() as int));
}

/// The first `c` of a range of `chars`, seen from the range.
pub proof fn lemma_first_in_range(
    chars: Seq<char>,
    start: int,
    end: int,
    c: char,
    from: int,
    at: int,
)
    requires
        0 <= start <= from <= at <= end <= chars.len(),
        at < end ==> chars[at] == c,
        forall|k: int| from <= k < at ==> chars[k] != c,
    ensures
        is_first_at(chars.subrange(start, end), c, from - start, at - start),
        chars.subrange(start, end).subrange(from - start, at - start) == chars.subrange(from, at),
{
    let s = chars.subrange(start, end);
    assert forall|k: int| from - start <= k < at - start implies s[k] != c by {
        assert(s[k] == chars[start + k]);
    }
    assert(s.subrange(from - start, at - start) =~= chars.subrange(from, at));
}

/// Reads the dotted-decimal address that fills `chars[start..end]`.
pub fn parse_ipv4(chars: &Vec<char>, start: usize, end: usize) -> (r: Option<u32>)
    requires
        start <= end <= chars@.len(),
    ensures
        match r {
            Some(bits) => chars@.subrange(start as int, end as int) == ipv4_text(bits),
            None => forall|bits: u32|
                chars@.subrange(start as int, end as int) != #[trigger] ipv4_text(bits),
        },
{
    let ghost s = chars@.subrange(start as int, end as int);
    let first_dot = find_char(chars, start, end, '.');
    let second_dot = if first_dot < end {
        find_char(chars, first_dot + 1, end, '.')
    } else {
        end
    };
    let third_dot = if second_dot < end {
        find_char(chars, second_dot + 1, end, '.')
    } else {
        end
    };
    proof {
        lemma_first_in_range(chars@, start as int, end as int, '.', start as int, first_dot as int);
        if first_dot < end {
            lemma_first_in_range(chars@, start as int, end as int, '.', first_dot + 1, second_dot as int);
        }
        if first_dot < end && second_dot < end {
            lemma_first_in_range(chars@, start as int, end as int, '.', second_dot + 1, third_dot as int);
        }
    }
    if first_dot < end && second_dot < end && third_dot < end {
        proof {
            assert(s.subrange(third_dot - start + 1, s.len() as int) =~= chars@.subrange(
                third_dot + 1,
                end as int,
            ));
        }
        let a = parse_decimal(chars, start, first_dot, 255);
        let b = parse_decimal(chars, first_dot + 1, second_dot, 255);
        let c = parse_decimal(chars, second_dot + 1, third_dot, 255);
        let d = parse_decimal(chars, third_dot + 1, end, 255);
        if let (Some(a), Some(b), Some(c), Some(d)) = (a, b, c, d) {
            let bits = ipv4_from_octets(a as u8, b as u8, c as u8, d as u8);
            proof {
                lemma_ipv4_text_built(s, bits, first_dot - start, second_dot - start, third_dot - start);
            }
            return Some(bits);
        }
    }
    proof {
        assert forall|bits: u32| s != #[trigger] ipv4_text(bits) by {
            if s == ipv4_text(bits) {
                lemma_ipv4_text_parts(s, bits, first_dot - start, second_dot - start, third_dot - start);
            }
        }
    }
    None
}

/// The number of the address with the octets `a.b.c.d`.
pub fn ipv4_from_octets(a: u8, b: u8, c: u8, d: u8) -> (bits: u32)
    ensures
        bits == spec_ipv4_bits(a, b, c, d),
        IpAddress::spec_octets(bits) == (a, b, c, d),
{
    let bits: u32 = a as u32 * 0x100_0000 + b as u32 * 0x1_0000 + c as u32 * 0x100 + d as u32;
    assert(bits / 0x100_0000 == a as u32 && (bits / 0x1_0000) % 0x100 == b as u32 && (bits
        / 0x100) % 0x100 == c as u32 && bits % 0x100 == d as u32) by (bit_vector)
        requires
            bits == (a as u32) * 0x100_0000 + (b as u32) * 0x1_0000 + (c as u32) * 0x100 + (
            d as u32),
    ;
    bits
}


/// 65536 to the power `groups`: the numbers that fit in so many groups.
pub open spec fn groups_bound(groups: nat) -> nat
    decreases groups,
{
    if groups == 0 {
        1
    } else {
        0x1_0000 * groups_bound((groups - 1) as nat)
    }
}

/// Eight groups hold a 128-bit number.
pub proof fn lemma_groups_bound_eight()
    ensures
        groups_bound(8) == 0x1_0000_0000_0000_0000_0000_0000_0000_0000,
{
    reveal_with_fuel(groups_bound, 9);
}

/// More groups hold more numbers.
pub proof fn lemma_groups_bound_monotone(a: nat, b: nat)
    requires
        a <= b,
    ensures
        1 <= groups_bound(a) <= groups_bound(b),
    decreases b,
{
    if b > 0 {
        if a < b {
            lemma_groups_bound_monotone(a, (b - 1) as nat);
        } else {
            lemma_groups_bound_monotone((a - 1) as nat, (b - 1) as nat);
        }
    }
}

/// A text of `groups` groups has four characters per group and one colon
/// between neighbours; each group is a four-digit hexadecimal numeral.
pub proof fn lemma_hex_groups_shape(bits: nat, groups: nat)
    requires
        groups >= 1,
    ensures
        hex_groups_text(bits, groups).len() == 5 * groups - 1,
        forall|g: int|
            0 <= g < groups ==> exists|v: nat| #[trigger]
                hex_groups_text(bits, groups).subrange(5 * g, 5 * g + 4) == hex_text(v, 4, false),
        forall|g: int| 0 <= g < groups - 1 ==> #[trigger] hex_groups_text(bits, groups)[5 * g + 4] == ':',
    decreases groups,
{
    let t = hex_groups_text(bits, groups);
    let last = hex_text(bits % 0x1_0000, 4, false);
    lemma_hex_text_shape(bits % 0x1_0000, 4, false);
    if groups == 1 {
        assert(t.subrange(0, 4) =~= last);
    } else {
        let head = hex_groups_text(bits / 0x1_0000, (groups - 1) as nat);
        lemma_hex_groups_shape(bits / 0x1_0000, (groups - 1) as nat);
        assert(t == head + seq![':'] + last);
        assert forall|g: int| 0 <= g < groups implies exists|v: nat| #[trigger]
            t.subrange(5 * g, 5 * g + 4) == hex_text(v, 4, false) by {
            if g == groups - 1 {
                assert(t.subrange(5 * g, 5 * g + 4) =~= last);
            } else {
                let v = choose|v: nat| head.subrange(5 * g, 5 * g + 4) == hex_text(v, 4, false);
                assert(t.subrange(5 * g, 5 * g + 4) =~= head.subrange(5 * g, 5 * g + 4));
            }
        }
        assert forall|g: int| 0 <= g < groups - 1 implies #[trigger] t[5 * g + 4] == ':' by {
            if g < groups - 2 {
                assert(t[5 * g + 4] == head[5 * g + 4]);
            }
        }
    }
}

/// Different numbers that fit in `groups` groups have different texts.
pub proof fn lemma_hex_groups_injective(a: nat, b: nat, groups: nat)
    requires
        groups >= 1,
        a < groups_bound(groups),
        b < groups_bound(groups),
        hex_groups_text(a, groups) == hex_groups_text(b, groups),
    ensures
        a == b,
    decreases groups,
{
    lemma_pow16_values();
    let la = hex_text(a % 0x1_0000, 4, false);
    let lb = hex_text(b % 0x1_0000, 4, false);
    lemma_hex_text_shape(a % 0x1_0000, 4, false);
    lemma_hex_text_shape(b % 0x1_0000, 4, false);
    if groups == 1 {
        lemma_hex_text_injective(a % 0x1_0000, b % 0x1_0000, 4, false);
        assert(groups_bound(1) == 0x1_0000) by {
            reveal_with_fuel(groups_bound, 2);
        }
    } else {
        let t = hex_groups_text(a, groups);
        let ha = hex_groups_text(a / 0x1_0000, (groups - 1) as nat);
        let hb = hex_groups_text(b / 0x1_0000, (groups - 1) as nat);
        lemma_hex_groups_shape(a / 0x1_0000, (groups - 1) as nat);
        lemma_hex_groups_shape(b / 0x1_0000, (groups - 1) as nat);
        assert(t == ha + seq![':'] + la);
        assert(t == hb + seq![':'] + lb);
        assert(t.subrange(0, ha.len() as int) =~= ha);
        assert(t.subrange(0, hb.len() as int) =~= hb);
        assert(t.subrange(ha.len() as int + 1, t.len() as int) =~= la);
        assert(t.subrange(hb.len() as int + 1, t.len() as int) =~= lb);
        lemma_hex_text_injective(a % 0x1_0000, b % 0x1_0000, 4, false);
        lemma_hex_groups_injective(a / 0x1_0000, b / 0x1_0000, (groups - 1) as nat);
    }
}

/// Different IPv6 addresses have different texts.
pub proof fn lemma_ipv6_text_injective(a: u128, b: u128)
    requires
        ipv6_text(a) == ipv6_text(b),
    ensures
        a == b,
{
    lemma_groups_bound_eight();
    lemma_hex_groups_injective(a as nat, b as nat, 8);
}

/// Appends `groups` colon-separated groups of four hexadecimal digits.
pub fn push_hex_groups(out: &mut String, bits: u128, groups: usize)
    ensures
        final(out)@ == old(out)@ + hex_groups_text(bits as nat, groups as nat),
    decreases groups,
{
    if groups == 0 {
        assert(out@ =~= old(out)@ + hex_groups_text(bits as nat, 0));
    } else if groups == 1 {
        push_hex(out, (bits % 0x1_0000) as u64, 4, false);
    } else {
        push_hex_groups(out, bits / 0x1_0000, groups - 1);
        out.push(':');
        push_hex(out, (bits % 0x1_0000) as u64, 4, false);
        assert(out@ =~= old(out)@ + hex_groups_text(bits as nat, groups as nat));
    }
}

/// Reads the eight hexadecimal groups that fill `chars[start..end]`.
pub fn parse_ipv6(chars: &Vec<char>, start: usize, end: usize) -> (r: Option<u128>)
    requires
        start <= end <= chars@.len(),
    ensures
        match r {
            Some(bits) => chars@.subrange(start as int, end as int) == ipv6_text(bits),
            None => forall|bits: u128|
                chars@.subrange(start as int, end as int) != #[trigger] ipv6_text(bits),
        },
{
    let ghost s = chars@.subrange(start as int, end as int);
    if end - start != 39 {
        proof {
            assert forall|bits: u128| s != #[trigger] ipv6_text(bits) by {
                lemma_hex_groups_shape(bits as nat, 8);
            }
        }
        return None;
    }
    let mut acc: u128 = 0;
    let mut g: usize = 0;
    while g < 8
        invariant
            g <= 8,
            end - start == 39,
            start <= end <= chars@.len(),
            s == chars@.subrange(start as int, end as int),
            acc < groups_bound(g as nat),
            g >= 1 ==> s.subrange(0, 5 * g - 1) == hex_groups_text(acc as nat, g as nat),
            g == 0 ==> acc == 0,
        decreases 8 - g,
    {
        let at = start + 5 * g;
        let ghost group = s.subrange(5 * g, 5 * g + 4);
        assert(group =~= chars@.subrange(at as int, at + 4));
        if g > 0 && chars[at - 1] != ':' {
            proof {
                assert forall|bits: u128| s != #[trigger] ipv6_text(bits) by {
                    lemma_hex_groups_shape(bits as nat, 8);
                    if s == ipv6_text(bits) {
                        assert(hex_groups_text(bits as nat, 8)[5 * (g - 1) + 4] == ':');
                        assert(s[5 * (g - 1) + 4] == chars@[at - 1]);
                    }
                }
            }
            return None;
        }
        let v = match parse_hex(chars, at, 4) {
            Some(v) => v,
            None => {
                proof {
                    assert forall|bits: u128| s != #[trigger] ipv6_text(bits) by {
                        lemma_hex_groups_shape(bits as nat, 8);
                        if s == ipv6_text(bits) {
                            let w = choose|w: nat|
                                hex_groups_text(bits as nat, 8).subrange(5 * g, 5 * g + 4)
                                    == hex_text(w, 4, false);
                            assert(group == hex_text(w, 4, false));
                        }
                    }
                }
                return None;
            },
        };
        proof {
            lemma_pow16_values();
            lemma_groups_bound_monotone((g + 1) as nat, 8);
            lemma_groups_bound_eight();
            assert(groups_bound((g + 1) as nat) == 0x1_0000 * groups_bound(g as nat));
        }
        let next: u128 = acc * 0x1_0000 + v as u128;
        proof {
            assert(next / 0x1_0000 == acc && next % 0x1_0000 == v);
            if g == 0 {
                assert(s.subrange(0, 4) =~= group);
                assert(hex_groups_text(next as nat, 1) == hex_text(v as nat, 4, false));
            } else {
                assert(s[5 * g - 1] == chars@[at - 1]);
                assert(s.subrange(0, 5 * (g + 1) - 1) =~= s.subrange(0, 5 * g - 1) + seq![':']
                    + group);
                assert(hex_groups_text(next as nat, (g + 1) as nat) == hex_groups_text(
                    acc as nat,
                    g as nat,
                ) + seq![':'] + hex_text(v as nat, 4, false));
            }
        }
        acc = next;
        g = g + 1;
    }
    assert(s.subrange(0, 39) =~= s);
    Some(acc)
}

/// An address text holds neither blank nor arrow, and the text of an
/// IPv4 address holds no colon.
pub proof fn lemma_ip_text_plain(ip: IpAddress)
    ensures
        forall|k: int|
            0 <= k < ip_text(ip).len() ==> (#[trigger] ip_text(ip)[k]) != ' ' && ip_text(ip)[k]
                != '\u{2192}',
        ip is V4 ==> forall|k: int|
            0 <= k < ip_text(ip).len() ==> (#[trigger] ip_text(ip)[k]) != ':',
        ip is V6 ==> ip_text(ip).len() == 39 && ip_text(ip)[4] == ':',
        ip is V4 ==> ip_text(ip).len() >= 7,
{
    match ip {
        IpAddress::V4(bits) => {
            let o = IpAddress::spec_octets(bits);
            let t = ipv4_text(bits);
            let a = decimal_text(o.0 as nat);
            let b = decimal_text(o.1 as nat);
            let c = decimal_text(o.2 as nat);
            let d = decimal_text(o.3 as nat);
            lemma_decimal_text_shape(o.0 as nat);
            lemma_decimal_text_shape(o.1 as nat);
            lemma_decimal_text_shape(o.2 as nat);
            lemma_decimal_text_shape(o.3 as nat);
            assert forall|k: int| 0 <= k < t.len() implies (#[trigger] t[k]) != ' ' && t[k]
                != '\u{2192}' && t[k] != ':' by {
                if k < a.len() {
                    assert(t[k] == a[k]);
                    assert(is_digit(a[k]));
                } else if k == a.len() {
                } else if k < a.len() + 1 + b.len() {
                    assert(t[k] == b[k - a.len() - 1]);
                    assert(is_digit(b[k - a.len() - 1]));
                } else if k == a.len() + 1 + b.len() {
                } else if k < a.len() + 1 + b.len() + 1 + c.len() {
                    assert(t[k] == c[k - a.len() - b.len() - 2]);
                    assert(is_digit(c[k - a.len() - b.len() - 2]));
                } else if k == a.len() + 1 + b.len() + 1 + c.len() {
                } else {
                    assert(t[k] == d[k - a.len() - b.len() - c.len() - 3]);
                    assert(is_digit(d[k - a.len() - b.len() - c.len() - 3]));
                }
            }
        },
        IpAddress::V6(bits) => {
            let t = ipv6_text(bits);
            lemma_hex_groups_shape(bits as nat, 8);
            assert(t[5 * 0int + 4] == ':');
            assert forall|k: int| 0 <= k < t.len() implies (#[trigger] t[k]) != ' ' && t[k]
                != '\u{2192}' by {
                let g = k / 5;
                if k % 5 == 4 {
                    assert(t[5 * g + 4] == ':');
                } else {
                    let v = choose|v: nat| t.subrange(5 * g, 5 * g + 4) == hex_text(v, 4, false);
                    lemma_hex_text_shape(v, 4, false);
                    let i = k - 5 * g;
                    assert(t[k] == t.subrange(5 * g, 5 * g + 4)[i]);
                    let d = choose|d: int|
                        0 <= d < 16 && hex_text(v, 4, false)[i] == crate::text::hex_char(d, false);
                }
            }
        },
    }
}

/// Different addresses have different texts.
pub proof fn lemma_ip_text_injective(a: IpAddress, b: IpAddress)
    requires
        ip_text(a) == ip_text(b),
    ensures
        a == b,
{
    lemma_ip_text_plain(a);
    lemma_ip_text_plain(b);
    match (a, b) {
        (IpAddress::V4(x), IpAddress::V4(y)) => {
            lemma_ipv4_text_injective(x, y);
        },
        (IpAddress::V6(x), IpAddress::V6(y)) => {
            lemma_ipv6_text_injective(x, y);
        },
        _ => {},
    }
}

/// Appends the text of an address.
pub fn push_ip(out: &mut String, ip: &IpAddress)
    ensures
        final(out)@ == old(out)@ + ip_text(*ip),
{
    match ip {
        IpAddress::V4(bits) => push_ipv4(out, *bits),
        IpAddress::V6(bits) => push_hex_groups(out, *bits, 8),
    }
}

/// Reads the address whose text fills `chars[start..end]`.
pub fn parse_ip(chars: &Vec<char>, start: usize, end: usize) -> (r: Option<IpAddress>)
    requires
        start <= end <= chars@.len(),
    ensures
        match r {
            Some(ip) => chars@.subrange(start as int, end as int) == ip_text(ip),
            None => forall|ip: IpAddress|
                chars@.subrange(start as int, end as int) != #[trigger] ip_text(ip),
        },
{
    let ghost s = chars@.subrange(start as int, end as int);
    if end - start == 39 {
        match parse_ipv6(chars, start, end) {
            Some(bits) => Some(IpAddress::V6(bits)),
            None => {
                proof {
                    assert forall|ip: IpAddress| s != #[trigger] ip_text(ip) by {
                        lemma_ip_text_plain(ip);
                        if s == ip_text(ip) && ip is V4 {
                            lemma_ipv4_text_short(ip->V4_0);
                        }
                    }
                }
                None
            },
        }
    } else {
        match parse_ipv4(chars, start, end) {
            Some(bits) => Some(IpAddress::V4(bits)),
            None => {
                proof {
                    assert forall|ip: IpAddress| s != #[trigger] ip_text(ip) by {
                        lemma_ip_text_plain(ip);
                    }
                }
                None
            },
        }
    }
}

/// The text of an IPv4 address has at most fifteen characters.
pub proof fn lemma_ipv4_text_short(bits: u32)
    ensures
        ipv4_text(bits).len() <= 15,
{
    let o = IpAddress::spec_octets(bits);
    lemma_decimal_at_most_three(o.0 as nat);
    lemma_decimal_at_most_three(o.1 as nat);
    lemma_decimal_at_most_three(o.2 as nat);
    lemma_decimal_at_most_three(o.3 as nat);
}

/// The numeral of a number below 1000 has at most three digits.
pub proof fn lemma_decimal_at_most_three(n: nat)
    requires
        n < 1000,
    ensures
        decimal_text(n).len() <= 3,
{
    reveal_with_fuel(decimal_text, 4);
}

} // verus!
