//! Numbers as text: decimal integers, IPv4 addresses and sizes in GiB.
use vstd::prelude::*;

use crate::text::{
    chars_of, joined, lemma_first_piece, pieces, pieces_join_to_the_text, split,
};

verus! {

// ---------------------------------------------------------------------------------------------
// Decimal integers.
pub open spec fn is_digit(c: char) -> bool {
    '0' <= c && c <= '9'
}

/// The decimal digit for a number below ten.
pub open spec fn digit_char(d: int) -> char {
    ('0' as int + d) as char
}

/// The number that a decimal digit stands for.
pub open spec fn digit_value(c: char) -> int {
    c as int - '0' as int
}

/// A number in decimal, without leading zeros.
pub open spec fn decimal(n: nat) -> Seq<char>
    decreases n,
{
    if n < 10 {
        seq![digit_char(n as int)]
    } else {
        decimal(n / 10).push(digit_char((n % 10) as int))
    }
}

pub open spec fn all_digits(s: Seq<char>) -> bool {
    forall|i: int| 0 <= i < s.len() ==> is_digit(#[trigger] s[i])
}

/// The number that a sequence of decimal digits stands for.
pub open spec fn decimal_value(s: Seq<char>) -> int
    decreases s.len(),
{
    if s.len() == 0 {
        0
    } else {
        decimal_value(s.drop_last()) * 10 + digit_value(s.last())
    }
}

/// Reads a decimal number of at most `max`: digits, with an optional plus sign before them.
pub open spec fn read_uint(s: Seq<char>, max: int) -> Option<int> {
    let body = if s.len() > 0 && s[0] == '+' {
        s.skip(1)
    } else {
        s
    };
    if body.len() > 0 && all_digits(body) && decimal_value(body) <= max {
        Some(decimal_value(body))
    } else {
        None
    }
}

pub proof fn lemma_decimal(n: nat)
    ensures
        decimal(n).len() > 0,
        all_digits(decimal(n)),
        decimal_value(decimal(n)) == n,
    decreases n,
{
    if n < 10 {
        assert(decimal(n).drop_last() =~= Seq::<char>::empty());
        assert(decimal_value(decimal(n).drop_last()) == 0);
    } else {
        lemma_decimal(n / 10);
        assert(decimal(n).drop_last() =~= decimal(n / 10));
        assert forall|i: int| 0 <= i < decimal(n).len() implies is_digit(
            #[trigger] decimal(n)[i],
        ) by {
            if i < decimal(n / 10).len() {
                assert(decimal(n)[i] == decimal(n / 10)[i]);
            }
        }
    }
}

/// A number that is written in decimal is read back as that number.
pub proof fn numbers_read_back(n: nat, max: int)
    ensures
        read_uint(decimal(n), max) == if n <= max {
            Some(n as int)
        } else {
            None
        },
{
    lemma_decimal(n);
    assert(is_digit(decimal(n)[0]));
}

proof fn lemma_value_grows(s: Seq<char>, k: int)
    requires
        all_digits(s),
        0 <= k <= s.len(),
    ensures
        0 <= decimal_value(s.take(k)) <= decimal_value(s),
    decreases s.len(),
{
    if k == s.len() {
        assert(s.take(k) =~= s);
        if s.len() > 0 {
            let t = s.drop_last();
            assert forall|i: int| 0 <= i < t.len() implies is_digit(#[trigger] t[i]) by {
                assert(t[i] == s[i]);
            }
            lemma_value_grows(t, t.len() as int);
            assert(t.take(t.len() as int) =~= t);
            assert(is_digit(s[s.len() - 1]));
        }
    } else {
        let t = s.drop_last();
        assert forall|i: int| 0 <= i < t.len() implies is_digit(#[trigger] t[i]) by {
            assert(t[i] == s[i]);
        }
        lemma_value_grows(t, k);
        assert(t.take(k) =~= s.take(k));
        assert(is_digit(s[s.len() - 1]));
    }
}

/// A number that is read is none below zero and none above the limit.
pub proof fn read_numbers_are_in_range(s: Seq<char>, max: int)
    ensures
        read_uint(s, max) matches Some(n) ==> 0 <= n <= max,
{
    let body = if s.len() > 0 && s[0] == '+' {
        s.skip(1)
    } else {
        s
    };
    if all_digits(body) {
        lemma_value_grows(body, 0);
        assert(body.take(0) =~= Seq::<char>::empty());
    }
}

/// Writes a number in decimal.
pub fn uint_text(n: u64) -> (r: String)
    ensures
        r@ == decimal(n as nat),
    decreases n,
{
    let mut out: String = if n < 10 {
        String::new()
    } else {
        uint_text(n / 10)
    };
    let d: u8 = (n % 10) as u8;
    let c: char = (48u8 + d) as char;
    assert(c == digit_char(d as int));
    out.push(c);
    if n < 10 {
        assert(out@ =~= seq![digit_char(n as int)]);
    }
    out
}

/// Reads a decimal number of at most `max`.
pub fn parse_uint(s: &str, max: u64) -> (r: Option<u64>)
    ensures
        match r {
            Some(n) => read_uint(s@, max as int) == Some(n as int),
            None => read_uint(s@, max as int) is None,
        },
{
    let cs: Vec<char> = chars_of(s);
    let start: usize = if cs.len() > 0 && cs[0] == '+' {
        1
    } else {
        0
    };
    let ghost body = if s@.len() > 0 && s@[0] == '+' {
        s@.skip(1)
    } else {
        s@
    };
    if start == cs.len() {
        return None;
    }
    let mut n: u64 = 0;
    let mut i: usize = start;
    assert(body.take(0) =~= Seq::<char>::empty());
    while i < cs.len()
        invariant
            start <= i <= cs@.len(),
            body.len() == cs@.len() - start,
            forall|j: int| 0 <= j < body.len() ==> body[j] == cs@[j + start],
            forall|j: int| 0 <= j < i - start ==> is_digit(#[trigger] body[j]),
            n == decimal_value(body.take(i - start)),
            n <= max,
            read_uint(s@, max as int) == if body.len() > 0 && all_digits(body) && decimal_value(
                body,
            ) <= max {
                Some(decimal_value(body))
            } else {
                None
            },
        decreases cs@.len() - i,
    {
        let c: char = cs[i];
        assert(body[i - start] == c);
        if c < '0' || '9' < c {
            assert(!is_digit(body[i - start]));
            return None;
        }
        let d: u64 = (c as u32 - 48) as u64;
        assert(body.take(i - start + 1).drop_last() =~= body.take(i - start));
        assert(decimal_value(body.take(i - start + 1)) == n * 10 + d);
        if d > max || n > (max - d) / 10 {
            proof {
                if all_digits(body) {
                    lemma_value_grows(body, i - start + 1);
                }
            }
            return None;
        }
        n = n * 10 + d;
        i = i + 1;
    }
    assert(body.take(i - start) =~= body);
    Some(n)
}

/// Reads a decimal number of 32 bits.
pub fn parse_u32(s: &str) -> (r: Option<u32>)
    ensures
        match r {
            Some(n) => read_uint(s@, u32::MAX as int) == Some(n as int),
            None => read_uint(s@, u32::MAX as int) is None,
        },
{
    match parse_uint(s, u32::MAX as u64) {
        Some(n) => Some(n as u32),
        None => None,
    }
}

/// Reads a decimal number of 16 bits.
pub fn parse_u16(s: &str) -> (r: Option<u16>)
    ensures
        match r {
            Some(n) => read_uint(s@, u16::MAX as int) == Some(n as int),
            None => read_uint(s@, u16::MAX as int) is None,
        },
{
    match parse_uint(s, u16::MAX as u64) {
        Some(n) => Some(n as u16),
        None => None,
    }
}

// ---------------------------------------------------------------------------------------------
// IPv4 addresses.
/// The number of an octet in dotted decimal: one to three digits, no leading zero, below 256.
pub open spec fn read_octet(s: Seq<char>) -> Option<u8> {
    if 1 <= s.len() <= 3 && all_digits(s) && (s.len() > 1 ==> s[0] != '0') && decimal_value(s)
        <= 255 {
        Some(decimal_value(s) as u8)
    } else {
        None
    }
}

/// An IPv4 address in dotted decimal: four octets with a dot between each two.
pub open spec fn read_ipv4(s: Seq<char>) -> Option<(u8, u8, u8, u8)> {
    let p = pieces(s, '.');
    if p.len() == 4 && read_octet(p[0]) is Some && read_octet(p[1]) is Some && read_octet(p[2])
        is Some && read_octet(p[3]) is Some {
        Some(
            (
                read_octet(p[0])->0,
                read_octet(p[1])->0,
                read_octet(p[2])->0,
                read_octet(p[3])->0,
            ),
        )
    } else {
        None
    }
}

/// An IPv4 address in dotted decimal.
pub open spec fn dotted(a: u8, b: u8, c: u8, d: u8) -> Seq<char> {
    decimal(a as nat) + "."@ + decimal(b as nat) + "."@ + decimal(c as nat) + "."@ + decimal(
        d as nat,
    )
}

proof fn lemma_no_dot(n: nat)
    ensures
        forall|i: int| 0 <= i < decimal(n).len() ==> decimal(n)[i] != '.',
{
    lemma_decimal(n);
    assert forall|i: int| 0 <= i < decimal(n).len() implies decimal(n)[i] != '.' by {
        assert(is_digit(decimal(n)[i]));
    }
}

/// The octet of a number below 256 is read back.
proof fn lemma_octet(n: u8)
    ensures
        read_octet(decimal(n as nat)) == Some(n),
{
    let m = n as nat;
    lemma_decimal(m);
    if m >= 10 {
        lemma_decimal(m / 10);
        assert(decimal(m)[0] == decimal(m / 10)[0]);
        if m >= 100 {
            assert(m / 10 >= 10);
            assert(decimal(m / 10)[0] == decimal(m / 10 / 10)[0]);
            assert(decimal(m / 10 / 10) =~= seq![digit_char((m / 10 / 10) as int)]);
            assert(1 <= m / 10 / 10 <= 2);
            assert(decimal(m).len() == 3);
        } else {
            assert(decimal(m / 10) =~= seq![digit_char((m / 10) as int)]);
            assert(decimal(m).len() == 2);
        }
        assert(decimal(m)[0] != '0');
    }
}

/// The pieces of an address in dotted decimal are its four numbers.
pub proof fn lemma_dotted_pieces(a: u8, b: u8, c: u8, d: u8)
    ensures
        pieces(dotted(a, b, c, d), '.') == seq![
            decimal(a as nat),
            decimal(b as nat),
            decimal(c as nat),
            decimal(d as nat),
        ],
        forall|i: int| 0 <= i < dotted(a, b, c, d).len() ==> dotted(a, b, c, d)[i] != '/',
{
    reveal_strlit(".");
    assert("."@ =~= seq!['.']);
    let (sa, sb, sc, sd) = (
        decimal(a as nat),
        decimal(b as nat),
        decimal(c as nat),
        decimal(d as nat),
    );
    lemma_no_dot(a as nat);
    lemma_no_dot(b as nat);
    lemma_no_dot(c as nat);
    lemma_no_dot(d as nat);
    let r2 = sc.push('.') + sd;
    let r1 = sb.push('.') + r2;
    lemma_first_piece(sd, Seq::empty(), '.');
    lemma_first_piece(sc, sd, '.');
    lemma_first_piece(sb, r2, '.');
    lemma_first_piece(sa, r1, '.');
    assert(dotted(a, b, c, d) =~= sa.push('.') + r1);
    assert(pieces(dotted(a, b, c, d), '.') =~= seq![sa, sb, sc, sd]);
    lemma_decimal(a as nat);
    lemma_decimal(b as nat);
    lemma_decimal(c as nat);
    lemma_decimal(d as nat);
    let t = dotted(a, b, c, d);
    let (la, lb, lc) = (sa.len() as int, sb.len() as int, sc.len() as int);
    assert forall|i: int| 0 <= i < t.len() implies t[i] != '/' by {
        if i < la {
            assert(t[i] == sa[i] && is_digit(sa[i]));
        } else if i == la {
            assert(t[i] == '.');
        } else if i < la + 1 + lb {
            assert(t[i] == sb[i - la - 1] && is_digit(sb[i - la - 1]));
        } else if i == la + 1 + lb {
            assert(t[i] == '.');
        } else if i < la + lb + 2 + lc {
            assert(t[i] == sc[i - la - lb - 2] && is_digit(sc[i - la - lb - 2]));
        } else if i == la + lb + 2 + lc {
            assert(t[i] == '.');
        } else {
            assert(t[i] == sd[i - la - lb - lc - 3] && is_digit(sd[i - la - lb - lc - 3]));
        }
    }
}

/// An address that is written in dotted decimal is read back as that address.
pub proof fn addresses_read_back(a: u8, b: u8, c: u8, d: u8)
    ensures
        read_ipv4(dotted(a, b, c, d)) == Some((a, b, c, d)),
{
    lemma_dotted_pieces(a, b, c, d);
    lemma_octet(a);
    lemma_octet(b);
    lemma_octet(c);
    lemma_octet(d);
}

fn parse_octet(s: &str) -> (r: Option<u8>)
    ensures
        r == read_octet(s@),
{
    let n: usize = s.unicode_len();
    if n < 1 || n > 3 {
        return None;
    }
    let first: char = s.get_char(0);
    if first == '+' {
        assert(!is_digit(s@[0]));
        return None;
    }
    if n > 1 && first == '0' {
        return None;
    }
    match parse_uint(s, 255) {
        Some(v) => Some(v as u8),
        None => None,
    }
}

/// Reads an IPv4 address: four octets, with dots between them.
pub fn parse_ipv4(s: &str) -> (r: Option<(u8, u8, u8, u8)>)
    ensures
        r == read_ipv4(s@),
{
    let p: Vec<&str> = split(s, '.');
    assert(p.deep_view().len() == p@.len());
    if p.len() != 4 {
        return None;
    }
    match (parse_octet(p[0]), parse_octet(p[1]), parse_octet(p[2]), parse_octet(p[3])) {
        (Some(a), Some(b), Some(c), Some(d)) => Some((a, b, c, d)),
        _ => None,
    }
}

// ---------------------------------------------------------------------------------------------
// Sizes in GiB.
/// `n` divided by `unit`, to the nearest whole number, and to the even one of two that are
/// equally near.
pub open spec fn nearest(n: nat, unit: nat) -> nat {
    let q = n / unit;
    let r = n % unit;
    if 2 * r > unit || (2 * r == unit && q % 2 == 1) {
        q + 1
    } else {
        q
    }
}

/// The distance between two neighbouring double-precision numbers around the integer `n`: their
/// significand has 53 bits.
pub open spec fn double_spacing(n: nat) -> nat
    decreases n,
{
    if n < 0x20_0000_0000_0000 {
        1
    } else {
        2 * double_spacing(n / 2)
    }
}

/// The double-precision number nearest to the integer `n`.
pub open spec fn as_double(n: nat) -> nat {
    nearest(n, double_spacing(n)) * double_spacing(n)
}

/// A size in tenths of a GiB, rounded from its double-precision value.
pub open spec fn gib_tenths(bytes: nat) -> nat {
    nearest(as_double(bytes) * 10, 0x4000_0000)
}

/// A size in GiB with one decimal, or a dash for zero.
pub open spec fn gib_text(bytes: nat) -> Seq<char> {
    if bytes == 0 {
        "—"@
    } else {
        decimal(gib_tenths(bytes) / 10) + "."@ + decimal(gib_tenths(bytes) % 10) + " GiB"@
    }
}

fn nearest_of(n: u128, unit: u128) -> (r: u128)
    requires
        unit > 0,
        2 * unit <= u128::MAX,
        n < u128::MAX,
    ensures
        r == nearest(n as nat, unit as nat),
        r <= n / unit + 1,
{
    let q: u128 = n / unit;
    let r: u128 = n % unit;
    assert(q <= n) by (nonlinear_arith)
        requires
            q == n / unit,
            unit > 0,
    ;
    if 2 * r > unit || (2 * r == unit && q % 2 == 1) {
        q + 1
    } else {
        q
    }
}

fn spacing_of(n: u64) -> (r: u64)
    ensures
        r == double_spacing(n as nat),
        1 <= r <= 4096,
{
    let mut u: u64 = 1;
    let mut m: u64 = n;
    while m >= 0x20_0000_0000_0000
        invariant
            double_spacing(n as nat) == u * double_spacing(m as nat),
            1 <= u,
            u * m <= n,
            u <= 4096,
        decreases m,
    {
        let ghost half = double_spacing((m / 2) as nat);
        assert(u * (2 * half) == (2 * u) * half) by (nonlinear_arith);
        assert(u <= 2047) by (nonlinear_arith)
            requires
                u * m <= n,
                m >= 0x20_0000_0000_0000,
                n <= 0xffff_ffff_ffff_ffffu64,
        ;
        assert((2 * u) * (m / 2) <= n) by (nonlinear_arith)
            requires
                u * m <= n,
                1 <= u,
        ;
        u = 2 * u;
        m = m / 2;
    }
    assert(double_spacing(m as nat) == 1);
    assert(u * 1 == u);
    u
}

/// A byte count in GiB with one decimal, or a dash for zero.
pub fn bytes_gib(bytes: u64) -> (r: String)
    ensures
        r@ == gib_text(bytes as nat),
{
    if bytes == 0 {
        return "—".to_owned();
    }
    let unit: u64 = spacing_of(bytes);
    let count: u128 = nearest_of(bytes as u128, unit as u128);
    assert(count * unit <= 0x1_0000_0000_0000_1000u128) by (nonlinear_arith)
        requires
            count <= bytes / unit + 1,
            1 <= unit <= 4096,
            bytes <= 0xffff_ffff_ffff_ffffu64,
    ;
    let value: u128 = count * (unit as u128);
    let tenths: u128 = nearest_of(value * 10, 0x4000_0000);
    let whole: u64 = (tenths / 10) as u64;
    let rest: u64 = (tenths % 10) as u64;
    let mut out: String = uint_text(whole);
    out.append(".");
    out.append(uint_text(rest).as_str());
    out.append(" GiB");
    out
}

// ---------------------------------------------------------------------------------------------
// Laws.
/// A size of whole GiB is told as that many, with a zero behind the point.
pub proof fn whole_sizes_are_told_exactly(n: nat)
    requires
        0 < n < 0x80_0000,
    ensures
        gib_text(n * 0x4000_0000) == decimal(n) + "."@ + decimal(0) + " GiB"@,
        gib_text(0) == "—"@,
{
    let b = n * 0x4000_0000;
    assert(b < 0x20_0000_0000_0000);
    assert(double_spacing(b) == 1);
    assert(b / 1 == b && b % 1 == 0);
    assert(nearest(b, 1) == b);
    assert(as_double(b) == b);
    let t = b * 10;
    assert(t == (10 * n) * 0x4000_0000);
    assert(t / 0x4000_0000 == 10 * n && t % 0x4000_0000 == 0);
    assert(gib_tenths(b) == 10 * n);
}

/// A size is told to the nearest tenth of a GiB: it is off by half a tenth at most.
pub proof fn sizes_are_told_to_the_nearest_tenth(bytes: nat)
    requires
        bytes < 0x20_0000_0000_0000,
    ensures
        2 * (gib_tenths(bytes) * 0x4000_0000) <= 2 * (10 * bytes) + 0x4000_0000,
        2 * (10 * bytes) <= 2 * (gib_tenths(bytes) * 0x4000_0000) + 0x4000_0000,
        bytes > 0 ==> gib_text(bytes) == decimal(gib_tenths(bytes) / 10) + "."@ + decimal(
            gib_tenths(bytes) % 10,
        ) + " GiB"@,
{
    assert(double_spacing(bytes) == 1);
    assert(bytes / 1 == bytes && bytes % 1 == 0);
    assert(as_double(bytes) == bytes);
}

proof fn lemma_octet_text(s: Seq<char>)
    requires
        read_octet(s) is Some,
    ensures
        s == decimal((read_octet(s)->0) as nat),
{
    let n = decimal_value(s);
    assert forall|i: int| 0 <= i < s.len() implies is_digit(#[trigger] s[i]) by {}
    assert(is_digit(s[0]));
    let a = digit_value(s[0]);
    assert(decimal_value(Seq::<char>::empty()) == 0);
    if s.len() == 1 {
        assert(s.drop_last() =~= Seq::<char>::empty());
        assert(n == a);
        assert(s =~= decimal(n as nat));
    } else if s.len() == 2 {
        assert(is_digit(s[1]));
        let t = s.drop_last();
        assert(t.drop_last() =~= Seq::<char>::empty());
        assert(decimal_value(t) == a);
        assert(n == a * 10 + digit_value(s[1]));
        assert(decimal(n as nat / 10) =~= seq![s[0]]);
        assert(s =~= decimal(n as nat));
    } else {
        assert(is_digit(s[1]) && is_digit(s[2]));
        let t = s.drop_last();
        let u = t.drop_last();
        assert(u.drop_last() =~= Seq::<char>::empty());
        assert(decimal_value(u) == a);
        assert(decimal_value(t) == a * 10 + digit_value(s[1]));
        assert(n == (a * 10 + digit_value(s[1])) * 10 + digit_value(s[2]));
        let m = n as nat / 10;
        assert(m == a * 10 + digit_value(s[1]));
        assert(m / 10 == a);
        assert(decimal(m / 10) =~= seq![s[0]]);
        assert(decimal(m) =~= seq![s[0], s[1]]);
        assert(s =~= decimal(n as nat));
    }
}

/// Each address has one text alone, in dotted decimal: nothing else is read as it, with leading
/// zeros, signs or spaces, or with more or fewer numbers.
pub proof fn an_address_has_one_text(s: Seq<char>)
    ensures
        read_ipv4(s) matches Some(ip) ==> s == dotted(ip.0, ip.1, ip.2, ip.3),
{
    if let Some(ip) = read_ipv4(s) {
        let p = pieces(s, '.');
        pieces_join_to_the_text(s, '.');
        lemma_octet_text(p[0]);
        lemma_octet_text(p[1]);
        lemma_octet_text(p[2]);
        lemma_octet_text(p[3]);
        reveal_strlit(".");
        let dot = seq!['.'];
        assert("."@ =~= dot);
        let p3 = p.drop_last();
        let p2 = p3.drop_last();
        let p1 = p2.drop_last();
        assert(joined(p1, dot) == p[0]);
        assert(joined(p2, dot) == p[0] + dot + p[1]);
        assert(joined(p3, dot) == p[0] + dot + p[1] + dot + p[2]);
        assert(joined(p, dot) == p[0] + dot + p[1] + dot + p[2] + dot + p[3]);
    }
}

/// A number may have a plus sign before it and zeros in front, and nothing else: what holds any
/// other character, or no digit, is no number.
pub proof fn a_number_is_digits_alone(n: nat, s: Seq<char>, i: int, max: int)
    requires
        n <= max,
    ensures
        read_uint(seq!['+'] + decimal(n), max) == Some(n as int),
        read_uint(seq!['0'] + decimal(n), max) == Some(n as int),
        read_uint(Seq::empty(), max) is None,
        read_uint(seq!['+'], max) is None,
        1 <= i < s.len() && !('0' <= s[i] && s[i] <= '9') ==> read_uint(s, max) is None,
        s.len() > 0 && s[0] != '+' && !('0' <= s[0] && s[0] <= '9') ==> read_uint(s, max) is None,
{
    let d = decimal(n);
    lemma_decimal(n);
    let p = seq!['+'] + d;
    assert(p.skip(1) =~= d);
    assert(seq!['+'].skip(1) =~= Seq::<char>::empty());
    let z = seq!['0'] + d;
    lemma_leading_zero(d);
    assert forall|k: int| 0 <= k < z.len() implies is_digit(#[trigger] z[k]) by {
        if k > 0 {
            assert(z[k] == d[k - 1]);
            assert(is_digit(d[k - 1]));
        }
    }
    if 1 <= i < s.len() && !is_digit(s[i]) {
        if s[0] == '+' {
            assert(!is_digit(s.skip(1)[i - 1]));
        }
    }
}

proof fn lemma_leading_zero(s: Seq<char>)
    ensures
        decimal_value(seq!['0'] + s) == decimal_value(s),
    decreases s.len(),
{
    let z = seq!['0'] + s;
    if s.len() == 0 {
        assert(z.drop_last() =~= Seq::<char>::empty());
        assert(decimal_value(z.drop_last()) == 0);
    } else {
        lemma_leading_zero(s.drop_last());
        assert(z.drop_last() =~= seq!['0'] + s.drop_last());
    }
}

/// A number is written without leading zeros.
pub proof fn a_number_starts_with_no_zero(n: nat)
    ensures
        n > 0 ==> decimal(n)[0] != '0',
        decimal(0) == seq!['0'],
    decreases n,
{
    if n >= 10 {
        a_number_starts_with_no_zero(n / 10);
        lemma_decimal(n / 10);
        assert(decimal(n)[0] == decimal(n / 10)[0]);
    }
}

} // verus!
