//! Numbers as text: decimal and fixed-width hexadecimal, written and read
//! back.

use vstd::prelude::*;

verus! {

/// `String::push` appends one character.
pub assume_specification[ String::push ](s: &mut String, ch: char)
    ensures
        final(s)@ == old(s)@.push(ch),
;

/// The character of a decimal digit.
pub open spec fn digit_char(d: int) -> char {
    if d == 0 {
        '0'
    } else if d == 1 {
        '1'
    } else if d == 2 {
        '2'
    } else if d == 3 {
        '3'
    } else if d == 4 {
        '4'
    } else if d == 5 {
        '5'
    } else if d == 6 {
        '6'
    } else if d == 7 {
        '7'
    } else if d == 8 {
        '8'
    } else {
        '9'
    }
}

/// The character of a hexadecimal digit, in upper or lower case.
pub open spec fn hex_char(d: int, upper: bool) -> char {
    if d < 10 {
        digit_char(d)
    } else if d == 10 {
        if upper {
            'A'
        } else {
            'a'
        }
    } else if d == 11 {
        if upper {
            'B'
        } else {
            'b'
        }
    } else if d == 12 {
        if upper {
            'C'
        } else {
            'c'
        }
    } else if d == 13 {
        if upper {
            'D'
        } else {
            'd'
        }
    } else if d == 14 {
        if upper {
            'E'
        } else {
            'e'
        }
    } else {
        if upper {
            'F'
        } else {
            'f'
        }
    }
}

/// Whether `c` is one of `0` to `9`.
pub open spec fn is_digit(c: char) -> bool {
    c == '0' || c == '1' || c == '2' || c == '3' || c == '4' || c == '5' || c == '6' || c == '7'
        || c == '8' || c == '9'
}

/// The character of the decimal digit `d`.
pub fn digit_to_char(d: u8) -> (c: char)
    requires
        d < 10,
    ensures
        c == digit_char(d as int),
{
    if d == 0 {
        '0'
    } else if d == 1 {
        '1'
    } else if d == 2 {
        '2'
    } else if d == 3 {
        '3'
    } else if d == 4 {
        '4'
    } else if d == 5 {
        '5'
    } else if d == 6 {
        '6'
    } else if d == 7 {
        '7'
    } else if d == 8 {
        '8'
    } else {
        '9'
    }
}

/// The value of a decimal digit character.
pub fn digit_value(c: char) -> (d: Option<u8>)
    ensures
        d is Some <==> is_digit(c),
        d is Some ==> d.unwrap() < 10 && c == digit_char(d.unwrap() as int),
{
    if c == '0' {
        Some(0)
    } else if c == '1' {
        Some(1)
    } else if c == '2' {
        Some(2)
    } else if c == '3' {
        Some(3)
    } else if c == '4' {
        Some(4)
    } else if c == '5' {
        Some(5)
    } else if c == '6' {
        Some(6)
    } else if c == '7' {
        Some(7)
    } else if c == '8' {
        Some(8)
    } else if c == '9' {
        Some(9)
    } else {
        None
    }
}

/// The character of the hexadecimal digit `d`.
pub fn hex_digit_to_char(d: u8, upper: bool) -> (c: char)
    requires
        d < 16,
    ensures
        c == hex_char(d as int, upper),
{
    if d < 10 {
        digit_to_char(d)
    } else if d == 10 {
        if upper {
            'A'
        } else {
            'a'
        }
    } else if d == 11 {
        if upper {
            'B'
        } else {
            'b'
        }
    } else if d == 12 {
        if upper {
            'C'
        } else {
            'c'
        }
    } else if d == 13 {
        if upper {
            'D'
        } else {
            'd'
        }
    } else if d == 14 {
        if upper {
            'E'
        } else {
            'e'
        }
    } else {
        if upper {
            'F'
        } else {
            'f'
        }
    }
}

/// The value of a lower-case hexadecimal digit character.
pub fn hex_digit_value(c: char) -> (d: Option<u8>)
    ensures
        d is Some <==> exists|v: int| 0 <= v < 16 && c == hex_char(v, false),
        d is Some ==> d.unwrap() < 16 && c == hex_char(d.unwrap() as int, false),
{
    let r = match digit_value(c) {
        Some(v) => Some(v),
        None => if c == 'a' {
            Some(10u8)
        } else if c == 'b' {
            Some(11u8)
        } else if c == 'c' {
            Some(12u8)
        } else if c == 'd' {
            Some(13u8)
        } else if c == 'e' {
            Some(14u8)
        } else if c == 'f' {
            Some(15u8)
        } else {
            None
        },
    };
    proof {
        if r is Some {
            assert(c == hex_char(r.unwrap() as int, false));
        } else {
            assert forall|v: int| 0 <= v < 16 implies c != hex_char(v, false) by {}
        }
    }
    r
}

/// The decimal numeral of `n`, without leading zeros.
pub open spec fn decimal_text(n: nat) -> Seq<char>
    decreases n,
{
    if n < 10 {
        seq![digit_char(n as int)]
    } else {
        decimal_text(n / 10).push(digit_char((n % 10) as int))
    }
}

/// The last `width` hexadecimal digits of `n`, padded with zeros.
pub open spec fn hex_text(n: nat, width: nat, upper: bool) -> Seq<char>
    decreases width,
{
    if width == 0 {
        Seq::empty()
    } else {
        hex_text(n / 16, (width - 1) as nat, upper).push(hex_char((n % 16) as int, upper))
    }
}

/// 16 to the power `width`.
pub open spec fn pow16(width: nat) -> nat
    decreases width,
{
    if width == 0 {
        1
    } else {
        16 * pow16((width - 1) as nat)
    }
}

/// A decimal numeral is not empty, consists of digits, and starts with
/// zero only if it is the numeral of zero.
pub proof fn lemma_decimal_text_shape(n: nat)
    ensures
        decimal_text(n).len() >= 1,
        n < 10 <==> decimal_text(n).len() == 1,
        forall|i: int| 0 <= i < decimal_text(n).len() ==> is_digit(#[trigger] decimal_text(n)[i]),
        decimal_text(n)[0] == '0' ==> n == 0,
    decreases n,
{
    if n >= 10 {
        lemma_decimal_text_shape(n / 10);
    }
}

/// Different numbers have different decimal numerals.
pub proof fn lemma_decimal_text_injective(a: nat, b: nat)
    requires
        decimal_text(a) == decimal_text(b),
    ensures
        a == b,
    decreases a,
{
    lemma_decimal_text_shape(a);
    lemma_decimal_text_shape(b);
    if a >= 10 {
        assert(decimal_text(a).drop_last() =~= decimal_text(a / 10));
        assert(decimal_text(b).drop_last() =~= decimal_text(b / 10));
        assert(decimal_text(a).last() == digit_char((a % 10) as int));
        assert(decimal_text(b).last() == digit_char((b % 10) as int));
        lemma_decimal_text_injective(a / 10, b / 10);
    } else {
        assert(decimal_text(a)[0] == digit_char(a as int));
        assert(decimal_text(b)[0] == digit_char(b as int));
    }
}

/// A hexadecimal numeral has the width asked for and consists of
/// hexadecimal digits of the case asked for.
pub proof fn lemma_hex_text_shape(n: nat, width: nat, upper: bool)
    ensures
        hex_text(n, width, upper).len() == width,
        forall|i: int|
            0 <= i < width ==> exists|d: int|
                0 <= d < 16 && #[trigger] hex_text(n, width, upper)[i] == hex_char(d, upper),
    decreases width,
{
    if width > 0 {
        lemma_hex_text_shape(n / 16, (width - 1) as nat, upper);
        let t = hex_text(n, width, upper);
        assert forall|i: int| 0 <= i < width implies exists|d: int|
            0 <= d < 16 && #[trigger] t[i] == hex_char(d, upper) by {
            if i == width - 1 {
                assert(t[i] == hex_char((n % 16) as int, upper));
            } else {
                assert(t[i] == hex_text(n / 16, (width - 1) as nat, upper)[i]);
            }
        }
    }
}

/// Different numbers below 16^width have different numerals of that width.
pub proof fn lemma_hex_text_injective(a: nat, b: nat, width: nat, upper: bool)
    requires
        a < pow16(width),
        b < pow16(width),
        hex_text(a, width, upper) == hex_text(b, width, upper),
    ensures
        a == b,
    decreases width,
{
    if width > 0 {
        let rest = (width - 1) as nat;
        assert(hex_text(a, width, upper).drop_last() =~= hex_text(a / 16, rest, upper));
        assert(hex_text(b, width, upper).drop_last() =~= hex_text(b / 16, rest, upper));
        assert(hex_text(a, width, upper).last() == hex_char((a % 16) as int, upper));
        assert(hex_text(b, width, upper).last() == hex_char((b % 16) as int, upper));
        lemma_hex_text_injective(a / 16, b / 16, rest, upper);
    }
}

/// Appends the decimal numeral of `n`.
pub fn push_decimal(out: &mut String, n: u64)
    ensures
        final(out)@ == old(out)@ + decimal_text(n as nat),
    decreases n,
{
    if n >= 10 {
        push_decimal(out, n / 10);
    }
    out.push(digit_to_char((n % 10) as u8));
    proof {
        if n >= 10 {
            assert(out@ =~= old(out)@ + decimal_text(n as nat));
        } else {
            assert(out@ =~= old(out)@ + decimal_text(n as nat));
        }
    }
}

/// Appends the last `width` hexadecimal digits of `n`.
pub fn push_hex(out: &mut String, n: u64, width: usize, upper: bool)
    ensures
        final(out)@ == old(out)@ + hex_text(n as nat, width as nat, upper),
    decreases width,
{
    if width > 0 {
        push_hex(out, n / 16, width - 1, upper);
        out.push(hex_digit_to_char((n % 16) as u8, upper));
        proof {
            assert(out@ =~= old(out)@ + hex_text(n as nat, width as nat, upper));
        }
    } else {
        proof {
            assert(out@ =~= old(out)@ + hex_text(n as nat, width as nat, upper));
        }
    }
}


/// The characters of a string.
pub fn chars_of(s: &str) -> (v: Vec<char>)
    ensures
        v@ == s@,
{
    broadcast use vstd::string::group_string_axioms;

    let mut v: Vec<char> = Vec::new();
    for c in iter: s.chars()
        invariant
            iter.seq() == s@,
            v@ == s@.take(iter.index() as int),
    {
        v.push(c);
        assert(s@.take(iter.index() + 1) =~= s@.take(iter.index() as int).push(c));
    }
    assert(s@.take(s@.len() as int) =~= s@);
    v
}


/// A numeral's proper beginnings are numerals of smaller numbers.
pub proof fn lemma_decimal_prefix(v: nat, w: nat, k: int)
    requires
        1 <= k <= decimal_text(v).len(),
        decimal_text(v).subrange(0, k) == decimal_text(w),
    ensures
        w <= v,
    decreases v,
{
    lemma_decimal_text_shape(v);
    if k == decimal_text(v).len() {
        assert(decimal_text(v).subrange(0, k) =~= decimal_text(v));
        lemma_decimal_text_injective(v, w);
    } else {
        assert(decimal_text(v).drop_last() =~= decimal_text(v / 10));
        assert(decimal_text(v / 10).subrange(0, k) =~= decimal_text(v).subrange(0, k));
        lemma_decimal_prefix(v / 10, w, k);
    }
}

/// Reads the decimal numeral of a number up to `max` that fills
/// `chars[start..end]` exactly; leading zeros and signs are not accepted.
pub fn parse_decimal(chars: &Vec<char>, start: usize, end: usize, max: u64) -> (r: Option<u64>)
    requires
        start <= end <= chars@.len(),
    ensures
        match r {
            Some(v) => v <= max && chars@.subrange(start as int, end as int) == decimal_text(
                v as nat,
            ),
            None => forall|v: nat|
                v <= max ==> chars@.subrange(start as int, end as int) != #[trigger] decimal_text(
                    v,
                ),
        },
{
    let ghost whole = chars@.subrange(start as int, end as int);
    if start == end {
        proof {
            assert forall|v: nat| v <= max implies whole != #[trigger] decimal_text(v) by {
                lemma_decimal_text_shape(v);
            }
        }
        return None;
    }
    let first = chars[start];
    assert(whole[0] == first);
    assert(whole.len() == end - start);
    let first_digit = match digit_value(first) {
        Some(d) => d,
        None => {
            proof {
                assert forall|v: nat| v <= max implies whole != #[trigger] decimal_text(v) by {
                    lemma_decimal_text_shape(v);
                    if whole == decimal_text(v) {
                        assert(is_digit(decimal_text(v)[0]));
                    }
                }
            }
            return None;
        },
    };
    if first_digit == 0 && end - start > 1 {
        proof {
            assert forall|v: nat| v <= max implies whole != #[trigger] decimal_text(v) by {
                lemma_decimal_text_shape(v);
            }
        }
        return None;
    }
    let mut acc: u64 = first_digit as u64;
    if acc > max {
        proof {
            assert forall|v: nat| v <= max implies whole != #[trigger] decimal_text(v) by {
                if whole == decimal_text(v) {
                    assert(whole.subrange(0, 1) =~= decimal_text(acc as nat));
                    lemma_decimal_prefix(v, acc as nat, 1);
                }
            }
        }
        return None;
    }
    let mut i: usize = start + 1;
    assert(chars@.subrange(start as int, i as int) =~= decimal_text(acc as nat));
    while i < end
        invariant
            start < i <= end <= chars@.len(),
            whole == chars@.subrange(start as int, end as int),
            chars@.subrange(start as int, i as int) == decimal_text(acc as nat),
            acc <= max,
            end - start > 1 ==> acc >= 1,
        decreases end - i,
    {
        let c = chars[i];
        assert(whole[i - start] == c);
        let d: u64 = match digit_value(c) {
            Some(d) => d as u64,
            None => {
                proof {
                    assert forall|v: nat| v <= max implies whole != #[trigger] decimal_text(
                        v,
                    ) by {
                        lemma_decimal_text_shape(v);
                        if whole == decimal_text(v) {
                            assert(is_digit(decimal_text(v)[i - start]));
                        }
                    }
                }
                return None;
            },
        };
        let next: u128 = acc as u128 * 10 + d as u128;
        proof {
            assert(decimal_text(next as nat) =~= decimal_text(acc as nat).push(c));
            assert(chars@.subrange(start as int, i + 1) =~= chars@.subrange(
                start as int,
                i as int,
            ).push(c));
        }
        if next > max as u128 {
            proof {
                assert forall|v: nat| v <= max implies whole != #[trigger] decimal_text(v) by {
                    if whole == decimal_text(v) {
                        assert(whole.subrange(0, i + 1 - start) =~= chars@.subrange(
                            start as int,
                            i + 1,
                        ));
                        lemma_decimal_prefix(v, next as nat, i + 1 - start);
                    }
                }
            }
            return None;
        }
        acc = next as u64;
        i = i + 1;
    }
    Some(acc)
}

/// Powers of 16 that bound the integer types.
pub proof fn lemma_pow16_values()
    ensures
        pow16(2) == 0x100,
        pow16(4) == 0x1_0000,
        pow16(8) == 0x1_0000_0000,
        pow16(16) == 0x1_0000_0000_0000_0000,
{
    reveal_with_fuel(pow16, 17);
}

/// Powers of 16 grow with the exponent.
pub proof fn lemma_pow16_monotone(a: nat, b: nat)
    requires
        a <= b,
    ensures
        1 <= pow16(a) <= pow16(b),
    decreases b,
{
    if b > 0 {
        if a < b {
            lemma_pow16_monotone(a, (b - 1) as nat);
        } else {
            lemma_pow16_monotone((a - 1) as nat, (b - 1) as nat);
        }
    }
}

/// Reads `width` lower-case hexadecimal digits at `chars[start..]`.
pub fn parse_hex(chars: &Vec<char>, start: usize, width: usize) -> (r: Option<u64>)
    requires
        start + width <= chars@.len(),
        width <= 16,
    ensures
        match r {
            Some(v) => v < pow16(width as nat) && chars@.subrange(
                start as int,
                start + width,
            ) == hex_text(v as nat, width as nat, false),
            None => forall|v: nat|
                chars@.subrange(start as int, start + width) != #[trigger] hex_text(
                    v,
                    width as nat,
                    false,
                ),
        },
{
    let ghost whole = chars@.subrange(start as int, start + width);
    let length = chars.len();
    let mut acc: u64 = 0;
    let mut i: usize = 0;
    assert(chars@.subrange(start as int, start + 0) =~= hex_text(0, 0, false));
    while i < width
        invariant
            i <= width <= 16,
            start + width <= chars@.len() == length,
            whole == chars@.subrange(start as int, start + width),
            acc < pow16(i as nat),
            chars@.subrange(start as int, start + i) == hex_text(acc as nat, i as nat, false),
        decreases width - i,
    {
        let c = chars[start + i];
        match hex_digit_value(c) {
            None => {
                proof {
                    assert forall|v: nat| whole != #[trigger] hex_text(
                        v,
                        width as nat,
                        false,
                    ) by {
                        lemma_hex_text_shape(v, width as nat, false);
                        if whole == hex_text(v, width as nat, false) {
                            assert(whole[i as int] == c);
                            let d = choose|d: int|
                                0 <= d < 16 && hex_text(v, width as nat, false)[i as int]
                                    == hex_char(d, false);
                            assert(c == hex_char(d, false));
                        }
                    }
                }
                return None;
            },
            Some(digit) => {
                let d = digit as u64;
                proof {
                    lemma_pow16_monotone((i + 1) as nat, 16);
                    lemma_pow16_values();
                    assert(pow16((i + 1) as nat) == 16 * pow16(i as nat));
                    assert(hex_text((acc * 16 + d) as nat, (i + 1) as nat, false) =~= hex_text(
                        acc as nat,
                        i as nat,
                        false,
                    ).push(c));
                    assert(chars@.subrange(start as int, start + i + 1) =~= chars@.subrange(
                        start as int,
                        start + i,
                    ).push(c));
                }
                acc = acc * 16 + d;
                i = i + 1;
            },
        }
    }
    Some(acc)
}

/// Position of the first `c` in `chars[start..end]`, or `end` if there is
/// none.
pub fn find_char(chars: &Vec<char>, start: usize, end: usize, c: char) -> (at: usize)
    requires
        start <= end <= chars@.len(),
    ensures
        start <= at <= end,
        at < end ==> chars@[at as int] == c,
        forall|k: int| start <= k < at ==> chars@[k] != c,
{
    let mut at: usize = start;
    while at < end && chars[at] != c
        invariant
            start <= at <= end <= chars@.len(),
            forall|k: int| start <= k < at ==> chars@[k] != c,
        decreases end - at,
    {
        at = at + 1;
    }
    at
}

/// Position of the last `c` in `chars[start..end]`, or `end` if there is
/// none.
pub fn find_last_char(chars: &Vec<char>, start: usize, end: usize, c: char) -> (at: usize)
    requires
        start <= end <= chars@.len(),
    ensures
        start <= at <= end,
        at < end ==> chars@[at as int] == c,
        forall|k: int| at < k < end ==> chars@[k] != c,
        at == end ==> forall|k: int| start <= k < end ==> chars@[k] != c,
{
    let mut i: usize = end;
    while i > start
        invariant
            start <= i <= end <= chars@.len(),
            forall|k: int| i <= k < end ==> chars@[k] != c,
        decreases i,
    {
        if chars[i - 1] == c {
            return i - 1;
        }
        i = i - 1;
    }
    end
}

/// Whether `chars` holds the text `expected` at position `at`.
pub fn has_text_at(chars: &Vec<char>, at: usize, expected: &str) -> (found: bool)
    ensures
        found == (at + expected@.len() <= chars@.len() && chars@.subrange(
            at as int,
            at + expected@.len(),
        ) == expected@),
{
    let wanted = chars_of(expected);
    let length = chars.len();
    if wanted.len() > length || at > length - wanted.len() {
        return false;
    }
    let mut i: usize = 0;
    while i < wanted.len()
        invariant
            i <= wanted@.len(),
            wanted@ == expected@,
            at + wanted@.len() <= chars@.len() == length,
            forall|k: int| 0 <= k < i ==> chars@[at + k] == wanted@[k],
        decreases wanted@.len() - i,
    {
        if chars[at + i] != wanted[i] {
            assert(chars@.subrange(at as int, at + expected@.len())[i as int] != expected@[i as int]);
            return false;
        }
        i = i + 1;
    }
    assert(chars@.subrange(at as int, at + expected@.len()) =~= expected@);
    true
}


/// The decimal numeral of an integer, with a minus sign if it is
/// negative.
pub open spec fn signed_decimal_text(n: int) -> Seq<char> {
    if n < 0 {
        seq!['-'] + decimal_text((-n) as nat)
    } else {
        decimal_text(n as nat)
    }
}

/// Appends the decimal numeral of a signed number.
pub fn push_signed_decimal(out: &mut String, n: i64)
    ensures
        final(out)@ == old(out)@ + signed_decimal_text(n as int),
{
    if n < 0 {
        out.push('-');
        let magnitude: u64 = if n == i64::MIN {
            0x8000_0000_0000_0000u64
        } else {
            (-n) as u64
        };
        push_decimal(out, magnitude);
        assert(out@ =~= old(out)@ + signed_decimal_text(n as int));
    } else {
        push_decimal(out, n as u64);
    }
}


/// Whether two texts are the same.
pub fn same_text(a: &str, b: &str) -> (same: bool)
    ensures
        same == (a@ == b@),
{
    let left = chars_of(a);
    let right = chars_of(b);
    let found = has_text_at(&left, 0, b);
    proof {
        if left@.len() == right@.len() {
            assert(left@.subrange(0, 0 + b@.len() as int) =~= left@);
        }
    }
    found && left.len() == right.len()
}

} // verus!
