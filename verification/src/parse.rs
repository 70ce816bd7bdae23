//! The literal-address grammar and the host/port split.
//!
//! A host specification may itself be a complete literal socket address, in
//! which case resolution short-circuits.  The literal grammar accepted here
//! has two forms.  A version-4 literal is a dotted-quad address followed by
//! `:` and a decimal port: each octet is one to three decimal digits
//! without a leading zero and at most 255.  A version-6 literal is a
//! bracketed address `[` .. `]` followed by `:` and a decimal port: inside
//! the brackets stand eight `:`-separated groups of one to four hexadecimal
//! digits, or fewer groups with a single `::` standing for the missing zero
//! groups, and the last group position may hold an embedded dotted-quad
//! address worth two groups.  In both forms the port is one or more decimal
//! digits (leading zeros allowed) valued at most 65535.
//!
//! A specification that is not a literal is split on its first `:` into a
//! host part and a trailing port text; the port text is read as a decimal
//! number with an optional leading `+`, and when it does not parse, the
//! caller's fallback port is used silently.

use vstd::prelude::*;

use crate::addr::IpAddress;
use crate::addr::SocketAddress;

verus! {

/// Whether `c` is a decimal digit.
pub open spec fn is_dec_digit(c: char) -> bool {
    48 <= (c as int) && (c as int) <= 57
}

/// The numeric value of a decimal digit; 0 for any other character.
pub open spec fn digit_val(c: char) -> nat {
    if is_dec_digit(c) {
        ((c as int) - 48) as nat
    } else {
        0
    }
}

/// Whether every character of `s` is a decimal digit.
pub open spec fn all_digits(s: Seq<char>) -> bool {
    forall|i: int| 0 <= i < s.len() ==> is_dec_digit(#[trigger] s[i])
}

/// The value of `s` read as a decimal numeral.
pub open spec fn dec_value(s: Seq<char>) -> nat
    decreases s.len(),
{
    if s.len() == 0 {
        0
    } else {
        dec_value(s.drop_last()) * 10 + digit_val(s.last())
    }
}

/// The position of the first occurrence of `c` in `s`, if any.
pub open spec fn find_char(s: Seq<char>, c: char) -> Option<int>
    decreases s.len(),
{
    if s.len() == 0 {
        None
    } else if s[0] == c {
        Some(0)
    } else {
        match find_char(s.drop_first(), c) {
            None => None,
            Some(i) => Some(i + 1),
        }
    }
}

/// `find_char` returns the position of the first occurrence, and `None`
/// exactly when there is none.
pub proof fn lemma_find_char_props(s: Seq<char>, c: char)
    ensures
        match find_char(s, c) {
            Some(i) => 0 <= i < s.len() && s[i] == c && (forall|j: int|
                0 <= j < i ==> #[trigger] s[j] != c),
            None => forall|j: int| 0 <= j < s.len() ==> #[trigger] s[j] != c,
        },
    decreases s.len(),
{
    if s.len() == 0 {
    } else if s[0] == c {
    } else {
        let t = s.drop_first();
        lemma_find_char_props(t, c);
        assert(forall|j: int| 0 <= j < t.len() ==> #[trigger] t[j] == s[j + 1]);
        match find_char(t, c) {
            Some(i) => {
                assert(s[i + 1] == t[i]);
                assert forall|j: int| 0 <= j < i + 1 implies #[trigger] s[j] != c by {
                    if j > 0 {
                        assert(t[j - 1] != c);
                    }
                }
            },
            None => {
                assert forall|j: int| 0 <= j < s.len() implies #[trigger] s[j] != c by {
                    if j > 0 {
                        assert(t[j - 1] != c);
                    }
                }
            },
        }
    }
}

/// The first occurrence determines `find_char`.
pub proof fn lemma_find_char_at(s: Seq<char>, c: char, i: int)
    requires
        0 <= i < s.len(),
        s[i] == c,
        forall|j: int| 0 <= j < i ==> #[trigger] s[j] != c,
    ensures
        find_char(s, c) == Some(i),
{
    lemma_find_char_props(s, c);
    match find_char(s, c) {
        None => {
            assert(s[i] != c);
        },
        Some(k) => {
            if k < i {
                assert(s[k] != c);
            } else if i < k {
                assert(s[i] != c);
            }
        },
    }
}

/// Absence of `c` determines `find_char`.
pub proof fn lemma_find_char_none(s: Seq<char>, c: char)
    requires
        forall|j: int| 0 <= j < s.len() ==> #[trigger] s[j] != c,
    ensures
        find_char(s, c) is None,
{
    lemma_find_char_props(s, c);
    match find_char(s, c) {
        None => {},
        Some(k) => {
            assert(s[k] != c);
        },
    }
}

/// A decimal prefix never exceeds the whole numeral.
pub proof fn lemma_dec_value_prefix_le(s: Seq<char>, i: int)
    requires
        0 <= i <= s.len(),
    ensures
        dec_value(s.subrange(0, i)) <= dec_value(s),
    decreases s.len() - i,
{
    if i == s.len() {
        assert(s.subrange(0, i) =~= s);
    } else {
        assert(s.subrange(0, i + 1).drop_last() =~= s.subrange(0, i));
        lemma_dec_value_prefix_le(s, i + 1);
    }
}

/// Ten to the `n`.
pub open spec fn ten_pow(n: nat) -> nat
    decreases n,
{
    if n == 0 {
        1
    } else {
        10 * ten_pow((n - 1) as nat)
    }
}

/// A numeral of `n` digits is below ten to the `n`.
pub proof fn lemma_dec_value_upper(s: Seq<char>)
    ensures
        dec_value(s) < ten_pow(s.len()),
    decreases s.len(),
{
    if s.len() == 0 {
    } else {
        lemma_dec_value_upper(s.drop_last());
        assert(digit_val(s.last()) <= 9);
    }
}

/// The value of `s` as a 16-bit number: defined when `s` is one or more
/// decimal digits (leading zeros allowed) valued at most 65535.
pub open spec fn dec_u16_of(s: Seq<char>) -> Option<u16> {
    if s.len() >= 1 && all_digits(s) && dec_value(s) <= 65535 {
        Some(dec_value(s) as u16)
    } else {
        None
    }
}

/// The value of `s` as port text in the lenient host/port split: as
/// `dec_u16_of`, but an optional leading `+` is allowed.
pub open spec fn u16_text_of(s: Seq<char>) -> Option<u16> {
    if s.len() >= 1 && s[0] == '+' {
        dec_u16_of(s.drop_first())
    } else {
        dec_u16_of(s)
    }
}

/// The value of `s` as an address octet: one to three decimal digits, no
/// leading zero, at most 255.
pub open spec fn octet_of(s: Seq<char>) -> Option<u8> {
    if 1 <= s.len() <= 3 && all_digits(s) && (s[0] != '0' || s.len() == 1) && dec_value(s)
        <= 255 {
        Some(dec_value(s) as u8)
    } else {
        None
    }
}

/// The octets of `s` read as `.`-separated parts, each a valid octet.
pub open spec fn dotted_octets(s: Seq<char>) -> Option<Seq<u8>>
    decreases s.len(),
{
    match find_char(s, '.') {
        None => match octet_of(s) {
            Some(o) => Some(seq![o]),
            None => None,
        },
        Some(i) => if 0 <= i < s.len() {
            match (octet_of(s.subrange(0, i)), dotted_octets(
                s.subrange(i + 1, s.len() as int),
            )) {
                (Some(o), Some(rest)) => Some(seq![o] + rest),
                _ => None,
            }
        } else {
            None
        },
    }
}

/// Prepends already-read octets to the outcome of reading the rest.
pub open spec fn dotted_prepend(pre: Seq<u8>, rest: Option<Seq<u8>>) -> Option<Seq<u8>> {
    match rest {
        Some(os) => Some(pre + os),
        None => None,
    }
}

/// A successful dotted parse yields at least one octet.
pub proof fn lemma_dotted_octets_len(s: Seq<char>)
    ensures
        match dotted_octets(s) {
            Some(os) => os.len() >= 1,
            None => true,
        },
{
}

/// The version-4 address denoted by `s`: exactly four dotted octets.
pub open spec fn ipv4_of(s: Seq<char>) -> Option<IpAddress> {
    match dotted_octets(s) {
        Some(os) => if os.len() == 4 {
            Some(IpAddress::V4 { a: os[0], b: os[1], c: os[2], d: os[3] })
        } else {
            None
        },
        None => None,
    }
}

/// Whether `c` is a hexadecimal digit, either case.
pub open spec fn is_hex_digit(c: char) -> bool {
    (48 <= (c as int) && (c as int) <= 57) || (97 <= (c as int) && (c as int) <= 102) || (65
        <= (c as int) && (c as int) <= 70)
}

/// The numeric value of a hexadecimal digit; 0 for any other character.
pub open spec fn hex_val(c: char) -> nat {
    if 48 <= (c as int) && (c as int) <= 57 {
        ((c as int) - 48) as nat
    } else if 97 <= (c as int) && (c as int) <= 102 {
        ((c as int) - 87) as nat
    } else if 65 <= (c as int) && (c as int) <= 70 {
        ((c as int) - 55) as nat
    } else {
        0
    }
}

/// Whether every character of `s` is a hexadecimal digit.
pub open spec fn all_hex_digits(s: Seq<char>) -> bool {
    forall|i: int| 0 <= i < s.len() ==> is_hex_digit(#[trigger] s[i])
}

/// The value of `s` read as a hexadecimal numeral.
pub open spec fn hex_value(s: Seq<char>) -> nat
    decreases s.len(),
{
    if s.len() == 0 {
        0
    } else {
        hex_value(s.drop_last()) * 16 + hex_val(s.last())
    }
}

/// Sixteen to the `n`.
pub open spec fn sixteen_pow(n: nat) -> nat
    decreases n,
{
    if n == 0 {
        1
    } else {
        16 * sixteen_pow((n - 1) as nat)
    }
}

/// A hexadecimal numeral of `n` digits is below sixteen to the `n`.
pub proof fn lemma_hex_value_upper(s: Seq<char>)
    ensures
        hex_value(s) < sixteen_pow(s.len()),
    decreases s.len(),
{
    if s.len() == 0 {
    } else {
        lemma_hex_value_upper(s.drop_last());
        assert(hex_val(s.last()) <= 15);
    }
}

/// The value of `s` as a version-6 group: one to four hexadecimal digits
/// (leading zeros allowed).
pub open spec fn hex_group_of(s: Seq<char>) -> Option<u16> {
    if 1 <= s.len() <= 4 && all_hex_digits(s) {
        Some(hex_value(s) as u16)
    } else {
        None
    }
}

/// The position of the first `::` in `s`, if any.
pub open spec fn find_double_colon(s: Seq<char>) -> Option<int>
    decreases s.len(),
{
    if s.len() < 2 {
        None
    } else if s[0] == ':' && s[1] == ':' {
        Some(0)
    } else {
        match find_double_colon(s.drop_first()) {
            None => None,
            Some(i) => Some(i + 1),
        }
    }
}

/// `find_double_colon` returns the position of the first `::`, and `None`
/// exactly when there is none.
pub proof fn lemma_find_double_colon_props(s: Seq<char>)
    ensures
        match find_double_colon(s) {
            Some(i) => 0 <= i < s.len() - 1 && s[i] == ':' && s[i + 1] == ':' && (forall|j: int|
                0 <= j < i ==> !(#[trigger] s[j] == ':' && s[j + 1] == ':')),
            None => forall|j: int| 0 <= j < s.len() - 1 ==> !(#[trigger] s[j] == ':' && s[j + 1]
                == ':'),
        },
    decreases s.len(),
{
    if s.len() < 2 {
    } else if s[0] == ':' && s[1] == ':' {
    } else {
        let t = s.drop_first();
        lemma_find_double_colon_props(t);
        assert(forall|j: int| 0 <= j < t.len() ==> #[trigger] t[j] == s[j + 1]);
        match find_double_colon(t) {
            Some(i) => {
                assert(s[i + 1] == t[i] && s[i + 2] == t[i + 1]);
                assert forall|j: int| 0 <= j < i + 1 implies !(#[trigger] s[j] == ':' && s[j + 1]
                    == ':') by {
                    if j > 0 {
                        assert(!(t[j - 1] == ':' && t[j] == ':'));
                    }
                }
            },
            None => {
                assert forall|j: int| 0 <= j < s.len() - 1 implies !(#[trigger] s[j] == ':' && s[j
                    + 1] == ':') by {
                    if j > 0 {
                        assert(!(t[j - 1] == ':' && t[j] == ':'));
                    }
                }
            },
        }
    }
}

/// The first `::` determines `find_double_colon`.
pub proof fn lemma_find_double_colon_at(s: Seq<char>, i: int)
    requires
        0 <= i < s.len() - 1,
        s[i] == ':' && s[i + 1] == ':',
        forall|j: int| 0 <= j < i ==> !(#[trigger] s[j] == ':' && s[j + 1] == ':'),
    ensures
        find_double_colon(s) == Some(i),
{
    lemma_find_double_colon_props(s);
    match find_double_colon(s) {
        None => {
            assert(!(s[i] == ':' && s[i + 1] == ':'));
        },
        Some(k) => {
            if k < i {
                assert(!(s[k] == ':' && s[k + 1] == ':'));
            } else if i < k {
                assert(!(s[i] == ':' && s[i + 1] == ':'));
            }
        },
    }
}

/// Absence of `::` determines `find_double_colon`.
pub proof fn lemma_find_double_colon_none(s: Seq<char>)
    requires
        forall|j: int| 0 <= j < s.len() - 1 ==> !(#[trigger] s[j] == ':' && s[j + 1] == ':'),
    ensures
        find_double_colon(s) is None,
{
    lemma_find_double_colon_props(s);
    match find_double_colon(s) {
        None => {},
        Some(k) => {
            assert(!(s[k] == ':' && s[k + 1] == ':'));
        },
    }
}

/// The two groups denoted by an embedded version-4 tail: its four octets,
/// big-endian, two per group.
pub open spec fn groups_of_v4(ip: IpAddress) -> Seq<u16> {
    match ip {
        IpAddress::V4 { a, b, c, d } => seq![
            ((a as int) * 256 + (b as int)) as u16,
            ((c as int) * 256 + (d as int)) as u16,
        ],
        _ => Seq::empty(),
    }
}

/// The groups of `s` read as `:`-separated parts, each a hexadecimal group.
pub open spec fn colon_groups(s: Seq<char>) -> Option<Seq<u16>>
    decreases s.len(),
{
    match find_char(s, ':') {
        None => match hex_group_of(s) {
            Some(g) => Some(seq![g]),
            None => None,
        },
        Some(i) => if 0 <= i < s.len() {
            match (hex_group_of(s.subrange(0, i)), colon_groups(s.subrange(i + 1, s.len() as int))) {
                (Some(g), Some(rest)) => Some(seq![g] + rest),
                _ => None,
            }
        } else {
            None
        },
    }
}

/// As `colon_groups`, but the last part may instead be an embedded
/// version-4 address, worth two groups.
pub open spec fn colon_groups_v4(s: Seq<char>) -> Option<Seq<u16>>
    decreases s.len(),
{
    match find_char(s, ':') {
        None => match hex_group_of(s) {
            Some(g) => Some(seq![g]),
            None => match ipv4_of(s) {
                Some(ip) => Some(groups_of_v4(ip)),
                None => None,
            },
        },
        Some(i) => if 0 <= i < s.len() {
            match (hex_group_of(s.subrange(0, i)), colon_groups_v4(
                s.subrange(i + 1, s.len() as int),
            )) {
                (Some(g), Some(rest)) => Some(seq![g] + rest),
                _ => None,
            }
        } else {
            None
        },
    }
}

/// Prepends already-read groups to the outcome of reading the rest.
pub open spec fn groups_prepend(pre: Seq<u16>, rest: Option<Seq<u16>>) -> Option<Seq<u16>> {
    match rest {
        Some(gs) => Some(pre + gs),
        None => None,
    }
}

/// `n` zero groups.
pub open spec fn zero_groups(n: nat) -> Seq<u16> {
    Seq::new(n, |i: int| 0u16)
}

/// The eight groups denoted by `s` as a version-6 address: eight
/// `:`-separated groups, or fewer with one `::` standing for the missing
/// zero groups; the last part may be an embedded version-4 address worth
/// two groups.
pub open spec fn ipv6_groups(s: Seq<char>) -> Option<Seq<u16>> {
    match find_double_colon(s) {
        None => match colon_groups_v4(s) {
            Some(gs) => if gs.len() == 8 {
                Some(gs)
            } else {
                None
            },
            None => None,
        },
        Some(i) => if 0 <= i && i + 2 <= s.len() {
            let left = s.subrange(0, i);
            let right = s.subrange(i + 2, s.len() as int);
            let lgs = if left.len() == 0 {
                Some(Seq::<u16>::empty())
            } else {
                colon_groups(left)
            };
            let rgs = if right.len() == 0 {
                Some(Seq::<u16>::empty())
            } else {
                colon_groups_v4(right)
            };
            match (lgs, rgs) {
                (Some(l), Some(r)) => if l.len() + r.len() <= 7 {
                    Some(l + zero_groups((8 - l.len() - r.len()) as nat) + r)
                } else {
                    None
                },
                _ => None,
            }
        } else {
            None
        },
    }
}

/// The version-6 address denoted by `s`.
pub open spec fn ipv6_of(s: Seq<char>) -> Option<IpAddress> {
    match ipv6_groups(s) {
        Some(gs) => Some(
            IpAddress::V6 {
                s0: gs[0],
                s1: gs[1],
                s2: gs[2],
                s3: gs[3],
                s4: gs[4],
                s5: gs[5],
                s6: gs[6],
                s7: gs[7],
            },
        ),
        None => None,
    }
}

/// The literal socket address denoted by `s`: either a version-4 address,
/// `:` and a decimal port, or a bracketed version-6 address `[` .. `]`
/// followed by `:` and a decimal port.
pub open spec fn socket_literal_of(s: Seq<char>) -> Option<SocketAddress> {
    if s.len() >= 1 && s[0] == '[' {
        match find_char(s, ']') {
            Some(j) => if 1 <= j && j + 1 < s.len() && s[j + 1] == ':' {
                match (ipv6_of(s.subrange(1, j)), dec_u16_of(s.subrange(j + 2, s.len() as int))) {
                    (Some(ip), Some(p)) => Some(SocketAddress { ip, port: p }),
                    _ => None,
                }
            } else {
                None
            },
            None => None,
        }
    } else {
        match find_char(s, ':') {
            Some(i) => if 0 <= i < s.len() {
                match (ipv4_of(s.subrange(0, i)), dec_u16_of(s.subrange(i + 1, s.len() as int))) {
                    (Some(ip), Some(p)) => Some(SocketAddress { ip, port: p }),
                    _ => None,
                }
            } else {
                None
            },
            None => None,
        }
    }
}

/// The host part of a specification: everything before the first `:`, or the
/// whole specification when there is none.
pub open spec fn host_part(s: Seq<char>) -> Seq<char> {
    match find_char(s, ':') {
        Some(i) => s.subrange(0, i),
        None => s,
    }
}

/// The port text of a specification: everything after the first `:`, or
/// empty when there is none.
pub open spec fn port_part(s: Seq<char>) -> Seq<char> {
    match find_char(s, ':') {
        Some(i) => if 0 <= i < s.len() {
            s.subrange(i + 1, s.len() as int)
        } else {
            Seq::empty()
        },
        None => Seq::empty(),
    }
}

/// The port resolution uses: the port text's value, or the fallback when the
/// text does not parse.
pub open spec fn effective_port(s: Seq<char>, fallback: u16) -> u16 {
    match u16_text_of(port_part(s)) {
        Some(p) => p,
        None => fallback,
    }
}

/// Malformed trailing port text is tolerated, never an error: whenever the
/// port text of a specification does not parse, the effective port is
/// exactly the caller's fallback.
pub proof fn lemma_port_fallback(s: Seq<char>, fallback: u16)
    requires
        u16_text_of(port_part(s)) is None,
    ensures
        effective_port(s, fallback) == fallback,
{
}

/// The position of the first occurrence of `c` in `s`, if any.
pub fn find_char_in(s: &str, c: char) -> (r: Option<usize>)
    ensures
        match r {
            Some(i) => find_char(s@, c) == Some(i as int),
            None => find_char(s@, c) is None,
        },
{
    let n = s.unicode_len();
    let mut i: usize = 0;
    while i < n
        invariant
            0 <= i <= n,
            n == s@.len(),
            forall|j: int| 0 <= j < i ==> #[trigger] s@[j] != c,
        decreases n - i,
    {
        if s.get_char(i) == c {
            proof {
                lemma_find_char_at(s@, c, i as int);
            }
            return Some(i);
        }
        i = i + 1;
    }
    proof {
        lemma_find_char_none(s@, c);
    }
    None
}

/// Reads `s` as a decimal numeral worth at most 65535.
pub fn parse_decimal_u16(s: &str) -> (r: Option<u16>)
    ensures
        r == dec_u16_of(s@),
{
    let n = s.unicode_len();
    if n == 0 {
        return None;
    }
    let mut i: usize = 0;
    let mut acc: u32 = 0;
    while i < n
        invariant
            0 <= i <= n,
            n == s@.len(),
            all_digits(s@.subrange(0, i as int)),
            acc == dec_value(s@.subrange(0, i as int)),
            acc <= 65535,
        decreases n - i,
    {
        let c = s.get_char(i);
        let v = c as u32;
        if v < 48 || v > 57 {
            assert(!is_dec_digit(s@[i as int]));
            return None;
        }
        let acc2 = acc * 10 + (v - 48);
        proof {
            assert(s@.subrange(0, i as int + 1).drop_last() =~= s@.subrange(0, i as int));
            assert(s@.subrange(0, i as int + 1).last() == s@[i as int]);
            assert(forall|j: int|
                0 <= j < i + 1 ==> #[trigger] s@.subrange(0, i as int + 1)[j] == s@.subrange(
                    0,
                    i as int,
                ).push(s@[i as int])[j]);
        }
        if acc2 > 65535 {
            proof {
                lemma_dec_value_prefix_le(s@, i as int + 1);
            }
            return None;
        }
        acc = acc2;
        i = i + 1;
    }
    proof {
        assert(s@.subrange(0, n as int) =~= s@);
    }
    Some(acc as u16)
}

/// Reads `s` as port text: a decimal numeral with an optional leading `+`.
pub fn parse_u16_text(s: &str) -> (r: Option<u16>)
    ensures
        r == u16_text_of(s@),
{
    let n = s.unicode_len();
    if n >= 1 && s.get_char(0) == '+' {
        let digits = s.substring_char(1, n);
        proof {
            assert(digits@ =~= s@.drop_first());
        }
        parse_decimal_u16(digits)
    } else {
        parse_decimal_u16(s)
    }
}

/// Reads `s` as an address octet.
pub fn parse_octet(s: &str) -> (r: Option<u8>)
    ensures
        r == octet_of(s@),
{
    let n = s.unicode_len();
    if n < 1 || n > 3 {
        return None;
    }
    if n > 1 && s.get_char(0) == '0' {
        return None;
    }
    match parse_decimal_u16(s) {
        None => {
            proof {
                lemma_dec_value_upper(s@);
            }
            None
        },
        Some(v) => if v <= 255 {
            Some(v as u8)
        } else {
            None
        },
    }
}

/// Reads `s` as a dotted-quad version-4 address.
pub fn parse_ipv4(s: &str) -> (r: Option<IpAddress>)
    ensures
        r == ipv4_of(s@),
{
    let mut rest: &str = s;
    let mut octets: Vec<u8> = Vec::new();
    loop
        invariant
            octets@.len() <= 4,
            dotted_prepend(octets@, dotted_octets(rest@)) == dotted_octets(s@),
        decreases rest@.len(),
    {
        let rest_len = rest.unicode_len();
        match find_char_in(rest, '.') {
            None => {
                match parse_octet(rest) {
                    Some(oct) => {
                        octets.push(oct);
                        proof {
                            assert(octets@ =~= octets@.drop_last() + seq![oct]);
                        }
                        if octets.len() == 4 {
                            proof {
                                let os = dotted_octets(s@).unwrap();
                                assert(os =~= octets@);
                            }
                            return Some(
                                IpAddress::V4 {
                                    a: octets[0],
                                    b: octets[1],
                                    c: octets[2],
                                    d: octets[3],
                                },
                            );
                        } else {
                            proof {
                                let os = dotted_octets(s@).unwrap();
                                assert(os =~= octets@);
                            }
                            return None;
                        }
                    },
                    None => {
                        return None;
                    },
                }
            },
            Some(i) => {
                proof {
                    lemma_find_char_props(rest@, '.');
                }
                if octets.len() == 4 {
                    proof {
                        lemma_dotted_octets_len(rest@);
                        if dotted_octets(rest@) is Some {
                            let os = dotted_octets(s@).unwrap();
                            assert(os.len() >= 5);
                        }
                    }
                    return None;
                }
                let part = rest.substring_char(0, i);
                match parse_octet(part) {
                    None => {
                        return None;
                    },
                    Some(oct) => {
                        let next = rest.substring_char(i + 1, rest_len);
                        proof {
                            let pre = octets@;
                            let tail = dotted_octets(next@);
                            if tail is Some {
                                assert(pre + (seq![oct] + tail.unwrap()) =~= pre.push(oct)
                                    + tail.unwrap());
                            }
                        }
                        octets.push(oct);
                        rest = next;
                    },
                }
            },
        }
    }
}


/// The position of the first `::` in `s`, if any.
pub fn find_double_colon_in(s: &str) -> (r: Option<usize>)
    ensures
        match r {
            Some(i) => find_double_colon(s@) == Some(i as int),
            None => find_double_colon(s@) is None,
        },
{
    let n = s.unicode_len();
    if n < 2 {
        proof {
            lemma_find_double_colon_none(s@);
        }
        return None;
    }
    let mut i: usize = 0;
    let mut prev = s.get_char(0);
    while i < n - 1
        invariant
            0 <= i <= n - 1,
            2 <= n == s@.len(),
            prev == s@[i as int],
            forall|j: int| 0 <= j < i ==> !(#[trigger] s@[j] == ':' && s@[j + 1] == ':'),
        decreases n - i,
    {
        let next = s.get_char(i + 1);
        if prev == ':' && next == ':' {
            proof {
                lemma_find_double_colon_at(s@, i as int);
            }
            return Some(i);
        }
        prev = next;
        i = i + 1;
    }
    proof {
        lemma_find_double_colon_none(s@);
    }
    None
}

/// Reads `s` as a version-6 group: one to four hexadecimal digits.
pub fn parse_hex_group(s: &str) -> (r: Option<u16>)
    ensures
        r == hex_group_of(s@),
{
    let n = s.unicode_len();
    if n < 1 || n > 4 {
        return None;
    }
    let mut i: usize = 0;
    let mut acc: u32 = 0;
    while i < n
        invariant
            0 <= i <= n,
            1 <= n <= 4,
            n == s@.len(),
            all_hex_digits(s@.subrange(0, i as int)),
            acc == hex_value(s@.subrange(0, i as int)),
            acc < sixteen_pow(i as nat),
        decreases n - i,
    {
        let c = s.get_char(i);
        let v = c as u32;
        let d: u32 = if 48 <= v && v <= 57 {
            v - 48
        } else if 97 <= v && v <= 102 {
            v - 87
        } else if 65 <= v && v <= 70 {
            v - 55
        } else {
            assert(!is_hex_digit(s@[i as int]));
            return None;
        };
        proof {
            assert(sixteen_pow(0) == 1);
            assert(sixteen_pow(1) == 16);
            assert(sixteen_pow(2) == 256);
            assert(sixteen_pow(3) == 4096);
            assert(sixteen_pow(i as nat + 1) == 16 * sixteen_pow(i as nat));
            if i == 0 {
            } else if i == 1 {
            } else if i == 2 {
            } else {
                assert(i == 3);
            }
            assert(acc <= 4095);
            assert(s@.subrange(0, i as int + 1).drop_last() =~= s@.subrange(0, i as int));
            assert(s@.subrange(0, i as int + 1).last() == s@[i as int]);
        }
        acc = acc * 16 + d;
        i = i + 1;
    }
    proof {
        assert(s@.subrange(0, n as int) =~= s@);
        lemma_hex_value_upper(s@);
        assert(sixteen_pow(0) == 1);
        assert(sixteen_pow(1) == 16);
        assert(sixteen_pow(2) == 256);
        assert(sixteen_pow(3) == 4096);
        assert(sixteen_pow(4) == 65536);
        if n == 1 {
        } else if n == 2 {
        } else if n == 3 {
        } else {
            assert(n == 4);
        }
        assert(acc <= 65535);
    }
    Some(acc as u16)
}

/// Reads `s` as `:`-separated groups; with `v4_tail`, the last part may be
/// an embedded version-4 address, worth two groups.
pub fn parse_colon_groups(s: &str, v4_tail: bool) -> (r: Option<Vec<u16>>)
    ensures
        v4_tail ==> (match r {
            Some(v) => colon_groups_v4(s@) == Some(v@),
            None => colon_groups_v4(s@) is None,
        }),
        !v4_tail ==> (match r {
            Some(v) => colon_groups(s@) == Some(v@),
            None => colon_groups(s@) is None,
        }),
{
    let mut rest: &str = s;
    let mut groups: Vec<u16> = Vec::new();
    loop
        invariant
            v4_tail ==> groups_prepend(groups@, colon_groups_v4(rest@)) == colon_groups_v4(s@),
            !v4_tail ==> groups_prepend(groups@, colon_groups(rest@)) == colon_groups(s@),
        decreases rest@.len(),
    {
        let rest_len = rest.unicode_len();
        match find_char_in(rest, ':') {
            None => {
                match parse_hex_group(rest) {
                    Some(g) => {
                        groups.push(g);
                        proof {
                            assert(groups@ =~= groups@.drop_last() + seq![g]);
                        }
                        return Some(groups);
                    },
                    None => {
                        if !v4_tail {
                            return None;
                        }
                        match parse_ipv4(rest) {
                            None => {
                                return None;
                            },
                            Some(ip) => {
                                match ip {
                                    IpAddress::V4 { a, b, c, d } => {
                                        let hi: u16 = (a as u16) * 256 + (b as u16);
                                        let lo: u16 = (c as u16) * 256 + (d as u16);
                                        groups.push(hi);
                                        groups.push(lo);
                                        proof {
                                            assert(groups@ =~= groups@.drop_last().drop_last()
                                                + groups_of_v4(ip));
                                        }
                                        return Some(groups);
                                    },
                                    IpAddress::V6 { .. } => {
                                        // A dotted parse only ever yields a
                                        // version-4 address.
                                        proof {
                                            assert(false);
                                        }
                                        return None;
                                    },
                                }
                            },
                        }
                    },
                }
            },
            Some(i) => {
                proof {
                    lemma_find_char_props(rest@, ':');
                }
                let part = rest.substring_char(0, i);
                match parse_hex_group(part) {
                    None => {
                        return None;
                    },
                    Some(g) => {
                        let next = rest.substring_char(i + 1, rest_len);
                        proof {
                            if v4_tail {
                                let tail = colon_groups_v4(next@);
                                if tail is Some {
                                    assert(groups@ + (seq![g] + tail.unwrap()) =~= groups@.push(g)
                                        + tail.unwrap());
                                }
                            } else {
                                let tail = colon_groups(next@);
                                if tail is Some {
                                    assert(groups@ + (seq![g] + tail.unwrap()) =~= groups@.push(g)
                                        + tail.unwrap());
                                }
                            }
                        }
                        groups.push(g);
                        rest = next;
                    },
                }
            },
        }
    }
}

/// Reads `s` as a version-6 address.
pub fn parse_ipv6(s: &str) -> (r: Option<IpAddress>)
    ensures
        r == ipv6_of(s@),
{
    let n = s.unicode_len();
    match find_double_colon_in(s) {
        None => {
            match parse_colon_groups(s, true) {
                Some(v) => {
                    if v.len() == 8 {
                        Some(
                            IpAddress::V6 {
                                s0: v[0],
                                s1: v[1],
                                s2: v[2],
                                s3: v[3],
                                s4: v[4],
                                s5: v[5],
                                s6: v[6],
                                s7: v[7],
                            },
                        )
                    } else {
                        None
                    }
                },
                None => None,
            }
        },
        Some(i) => {
            proof {
                lemma_find_double_colon_props(s@);
            }
            let left = s.substring_char(0, i);
            let right = s.substring_char(i + 2, n);
            let lv: Vec<u16> = if left.unicode_len() == 0 {
                Vec::new()
            } else {
                match parse_colon_groups(left, false) {
                    Some(v) => v,
                    None => {
                        return None;
                    },
                }
            };
            let rv: Vec<u16> = if right.unicode_len() == 0 {
                Vec::new()
            } else {
                match parse_colon_groups(right, true) {
                    Some(v) => v,
                    None => {
                        return None;
                    },
                }
            };
            if lv.len() <= 7 && rv.len() <= 7 - lv.len() {
                let ghost gs = lv@ + zero_groups((8 - lv@.len() - rv@.len()) as nat) + rv@;
                let zeros: usize = 8 - lv.len() - rv.len();
                let mut all: Vec<u16> = Vec::new();
                let mut k: usize = 0;
                while k < lv.len()
                    invariant
                        0 <= k <= lv@.len(),
                        gs == lv@ + zero_groups((8 - lv@.len() - rv@.len()) as nat) + rv@,
                        lv@.len() + rv@.len() <= 7,
                        all@ == gs.subrange(0, k as int),
                    decreases lv@.len() - k,
                {
                    all.push(lv[k]);
                    proof {
                        assert(all@ =~= gs.subrange(0, k as int + 1));
                    }
                    k = k + 1;
                }
                let mut z: usize = 0;
                while z < zeros
                    invariant
                        0 <= z <= zeros,
                        zeros == 8 - lv@.len() - rv@.len(),
                        gs == lv@ + zero_groups((8 - lv@.len() - rv@.len()) as nat) + rv@,
                        lv@.len() + rv@.len() <= 7,
                        all@ == gs.subrange(0, lv@.len() + z),
                    decreases zeros - z,
                {
                    all.push(0);
                    proof {
                        assert(all@ =~= gs.subrange(0, lv@.len() + z + 1));
                    }
                    z = z + 1;
                }
                let mut k2: usize = 0;
                while k2 < rv.len()
                    invariant
                        0 <= k2 <= rv@.len(),
                        zeros == 8 - lv@.len() - rv@.len(),
                        gs == lv@ + zero_groups((8 - lv@.len() - rv@.len()) as nat) + rv@,
                        lv@.len() + rv@.len() <= 7,
                        all@ == gs.subrange(0, lv@.len() + zeros + k2),
                    decreases rv@.len() - k2,
                {
                    all.push(rv[k2]);
                    proof {
                        assert(all@ =~= gs.subrange(0, lv@.len() + zeros + k2 + 1));
                    }
                    k2 = k2 + 1;
                }
                proof {
                    assert(all@ =~= gs);
                }
                Some(
                    IpAddress::V6 {
                        s0: all[0],
                        s1: all[1],
                        s2: all[2],
                        s3: all[3],
                        s4: all[4],
                        s5: all[5],
                        s6: all[6],
                        s7: all[7],
                    },
                )
            } else {
                None
            }
        },
    }
}

/// Reads `s` as a literal socket address.
pub fn parse_socket_literal(s: &str) -> (r: Option<SocketAddress>)
    ensures
        r == socket_literal_of(s@),
{
    let n = s.unicode_len();
    if n >= 1 && s.get_char(0) == '[' {
        match find_char_in(s, ']') {
            None => None,
            Some(j) => {
                proof {
                    lemma_find_char_props(s@, ']');
                }
                if j >= 1 && j + 1 < n {
                    if s.get_char(j + 1) == ':' {
                        let inside = s.substring_char(1, j);
                        match parse_ipv6(inside) {
                            None => None,
                            Some(ip) => {
                                let port_part_text = s.substring_char(j + 2, n);
                                match parse_decimal_u16(port_part_text) {
                                    None => None,
                                    Some(p) => Some(SocketAddress { ip, port: p }),
                                }
                            },
                        }
                    } else {
                        None
                    }
                } else {
                    None
                }
            },
        }
    } else {
        match find_char_in(s, ':') {
            None => None,
            Some(i) => {
                proof {
                    lemma_find_char_props(s@, ':');
                }
                let ip_part = s.substring_char(0, i);
                match parse_ipv4(ip_part) {
                    None => None,
                    Some(ip) => {
                        let port_part_text = s.substring_char(i + 1, n);
                        match parse_decimal_u16(port_part_text) {
                            None => None,
                            Some(p) => Some(SocketAddress { ip, port: p }),
                        }
                    },
                }
            },
        }
    }
}

} // verus!
