//! Host addresses read from text.
//!
//! An IPv4 address is written as four decimal numbers from 0 to 255,
//! separated by dots, none with a leading zero. An IPv6 address is written as
//! eight groups of one to four digits of base 16, separated by colons; one
//! run of zero groups may be left out, which leaves `::` in its place, and
//! the last two groups may be written as an IPv4 address.

use crate::address::{IpAddress, Ipv4Address, Ipv6Address};
use vstd::prelude::*;

verus! {

/// Whether the character is one of the digits `0` to `9`.
pub open spec fn is_decimal_digit(c: char) -> bool {
    '0' <= c <= '9'
}

/// Whether the character is a digit of base 16, in either case.
pub open spec fn is_hex_digit(c: char) -> bool {
    ||| '0' <= c <= '9'
    ||| 'a' <= c <= 'f'
    ||| 'A' <= c <= 'F'
}

/// The number that a digit of base 16 stands for.
pub open spec fn digit_value(c: char) -> int {
    if '0' <= c <= '9' {
        c as int - '0' as int
    } else if 'a' <= c <= 'f' {
        c as int - 'a' as int + 10
    } else {
        c as int - 'A' as int + 10
    }
}

/// The number that a run of digits stands for in the given base.
pub open spec fn digits_value(digits: Seq<char>, radix: int) -> int
    decreases digits.len(),
{
    if digits.len() == 0 {
        0
    } else {
        digits_value(digits.drop_last(), radix) * radix + digit_value(digits.last())
    }
}

/// The pieces of a text that lie between the occurrences of a separator: one
/// more than there are separators, some of them possibly empty.
pub open spec fn split(text: Seq<char>, separator: char) -> Seq<Seq<char>>
    decreases text.len(),
{
    if text.len() == 0 {
        seq![Seq::<char>::empty()]
    } else {
        let before = split(text.drop_last(), separator);
        if text.last() == separator {
            before.push(Seq::<char>::empty())
        } else {
            before.drop_last().push(before.last().push(text.last()))
        }
    }
}

/// The number from 0 to 255 that a piece of an IPv4 address stands for: one
/// to three decimal digits, the first of which is `0` only if it stands alone.
pub open spec fn spec_parse_octet(piece: Seq<char>) -> Option<int> {
    if 1 <= piece.len() <= 3 && (forall|i: int|
        0 <= i < piece.len() ==> is_decimal_digit(#[trigger] piece[i])) && (piece.len() == 1
        || piece[0] != '0') && digits_value(piece, 10) <= 255 {
        Some(digits_value(piece, 10))
    } else {
        None
    }
}

/// The number that a group of an IPv6 address stands for: one to four digits
/// of base 16.
pub open spec fn spec_parse_group(piece: Seq<char>) -> Option<int> {
    if 1 <= piece.len() <= 4 && (forall|i: int|
        0 <= i < piece.len() ==> is_hex_digit(#[trigger] piece[i])) {
        Some(digits_value(piece, 16))
    } else {
        None
    }
}

/// The IPv4 address that a text stands for, if it stands for one.
pub open spec fn spec_parse_ipv4(text: Seq<char>) -> Option<Ipv4Address> {
    let pieces = split(text, '.');
    if pieces.len() == 4 && spec_parse_octet(pieces[0]) is Some && spec_parse_octet(
        pieces[1],
    ) is Some && spec_parse_octet(pieces[2]) is Some && spec_parse_octet(pieces[3]) is Some {
        Some(
            Ipv4Address {
                bits: (spec_parse_octet(pieces[0])->0 * 0x100_0000 + spec_parse_octet(
                    pieces[1],
                )->0 * 0x1_0000 + spec_parse_octet(pieces[2])->0 * 0x100 + spec_parse_octet(
                    pieces[3],
                )->0) as u32,
            },
        )
    } else {
        None
    }
}

/// The groups that a colon-separated text stands for. Every piece is a group
/// of digits of base 16; where `dotted_tail` holds, the last piece may instead
/// be an IPv4 address, which stands for two groups.
pub open spec fn spec_parse_groups(text: Seq<char>, dotted_tail: bool) -> Option<Seq<int>> {
    let pieces = split(text, ':');
    let leading = pieces.drop_last();
    let last = pieces.last();
    if forall|i: int| 0 <= i < leading.len() ==> spec_parse_group(#[trigger] leading[i]) is Some {
        let values = Seq::new(leading.len(), |i: int| spec_parse_group(leading[i])->0);
        if spec_parse_group(last) is Some {
            Some(values.push(spec_parse_group(last)->0))
        } else if dotted_tail && spec_parse_ipv4(last) is Some {
            let bits = spec_parse_ipv4(last)->0.bits as int;
            Some(values.push(bits / 0x1_0000).push(bits % 0x1_0000))
        } else {
            None
        }
    } else {
        None
    }
}

/// The place of the first `::` at or after `from`, if there is one.
pub open spec fn find_double_colon(text: Seq<char>, from: int) -> Option<int>
    decreases text.len() - from,
{
    if from < 0 || from + 1 >= text.len() {
        None
    } else if text[from] == ':' && text[from + 1] == ':' {
        Some(from)
    } else {
        find_double_colon(text, from + 1)
    }
}

/// The number that eight groups make, the first of them the most significant.
pub open spec fn groups_bits(groups: Seq<int>) -> int {
    groups[0] * 0x1_0000_0000_0000_0000_0000_0000_0000 + groups[1]
        * 0x1_0000_0000_0000_0000_0000_0000 + groups[2] * 0x1_0000_0000_0000_0000_0000 + groups[3]
        * 0x1_0000_0000_0000_0000 + groups[4] * 0x1_0000_0000_0000 + groups[5] * 0x1_0000_0000
        + groups[6] * 0x1_0000 + groups[7]
}

/// The groups of an address in which `head` comes first, `tail` comes last
/// and zero groups fill what is between them.
pub open spec fn with_zeros_between(head: Seq<int>, tail: Seq<int>) -> Seq<int> {
    head + Seq::new((8 - head.len() - tail.len()) as nat, |i: int| 0int) + tail
}

/// The IPv6 address that a text stands for, if it stands for one.
pub open spec fn spec_parse_ipv6(text: Seq<char>) -> Option<Ipv6Address> {
    match find_double_colon(text, 0) {
        None => match spec_parse_groups(text, true) {
            Some(groups) => if groups.len() == 8 {
                Some(Ipv6Address { bits: groups_bits(groups) as u128 })
            } else {
                None
            },
            None => None,
        },
        Some(at) => {
            let head = if at == 0 {
                Some(Seq::<int>::empty())
            } else {
                spec_parse_groups(text.take(at), false)
            };
            let tail = if at + 2 == text.len() {
                Some(Seq::<int>::empty())
            } else {
                spec_parse_groups(text.skip(at + 2), true)
            };
            if head is Some && tail is Some && head->0.len() + tail->0.len() <= 7 {
                Some(
                    Ipv6Address {
                        bits: groups_bits(with_zeros_between(head->0, tail->0)) as u128,
                    },
                )
            } else {
                None
            }
        },
    }
}

/// The address of either family that a text stands for, if it stands for one.
pub open spec fn spec_parse_ip(text: Seq<char>) -> Option<IpAddress> {
    match spec_parse_ipv4(text) {
        Some(address) => Some(IpAddress::V4(address)),
        None => match spec_parse_ipv6(text) {
            Some(address) => Some(IpAddress::V6(address)),
            None => None,
        },
    }
}

/// Whether the character is white space, as Unicode defines it.
pub open spec fn is_whitespace(c: char) -> bool {
    ||| '\u{9}' <= c <= '\u{d}'
    ||| c == ' '
    ||| c == '\u{85}'
    ||| c == '\u{a0}'
    ||| c == '\u{1680}'
    ||| '\u{2000}' <= c <= '\u{200a}'
    ||| c == '\u{2028}'
    ||| c == '\u{2029}'
    ||| c == '\u{202f}'
    ||| c == '\u{205f}'
    ||| c == '\u{3000}'
}

/// The text without the white space that it starts with.
pub open spec fn trim_start(text: Seq<char>) -> Seq<char>
    decreases text.len(),
{
    if text.len() > 0 && is_whitespace(text[0]) {
        trim_start(text.drop_first())
    } else {
        text
    }
}

/// The text without the white space that it ends with.
pub open spec fn trim_end(text: Seq<char>) -> Seq<char>
    decreases text.len(),
{
    if text.len() > 0 && is_whitespace(text.last()) {
        trim_end(text.drop_last())
    } else {
        text
    }
}

/// The text without the white space at either end.
pub open spec fn spec_trim(text: Seq<char>) -> Seq<char> {
    trim_end(trim_start(text))
}

/// The groups as numbers without bounds.
pub open spec fn group_values(groups: Seq<u16>) -> Seq<int> {
    Seq::new(groups.len(), |i: int| groups[i] as int)
}

/// The largest number that `count` decimal digits can stand for, plus one.
spec fn decimal_span(count: int) -> int {
    if count <= 0 {
        1
    } else if count == 1 {
        10
    } else if count == 2 {
        100
    } else {
        1000
    }
}

/// The largest number that `count` digits of base 16 can stand for, plus one.
spec fn hex_span(count: int) -> int {
    if count <= 0 {
        1
    } else if count == 1 {
        0x10
    } else if count == 2 {
        0x100
    } else if count == 3 {
        0x1000
    } else {
        0x1_0000
    }
}

/// Returns the characters of a string, in order.
pub fn chars_of(text: &str) -> (chars: Vec<char>)
    ensures
        chars@ == text@,
{
    let mut chars: Vec<char> = Vec::new();
    for c in it: text.chars()
        invariant
            it.seq() == text@,
            chars@ == it.seq().take(it.index()),
    {
        chars.push(c);
    }
    chars
}

/// Returns the characters from `from` up to, not including, `to`.
fn copy_range(chars: &Vec<char>, from: usize, to: usize) -> (part: Vec<char>)
    requires
        from <= to <= chars.len(),
    ensures
        part@ == chars@.subrange(from as int, to as int),
{
    let mut part: Vec<char> = Vec::new();
    let mut i: usize = from;
    while i < to
        invariant
            from <= i <= to <= chars.len(),
            part@ == chars@.subrange(from as int, i as int),
        decreases to - i,
    {
        part.push(chars[i]);
        i += 1;
    }
    part
}

/// Returns the pieces between the occurrences of the separator.
fn split_on(chars: &Vec<char>, separator: char) -> (pieces: Vec<Vec<char>>)
    ensures
        pieces.len() == split(chars@, separator).len(),
        forall|k: int|
            0 <= k < pieces.len() ==> (#[trigger] pieces[k])@ == split(chars@, separator)[k],
{
    let mut done: Vec<Vec<char>> = Vec::new();
    let mut current: Vec<char> = Vec::new();
    let ghost mut views: Seq<Seq<char>> = Seq::empty();
    let mut i: usize = 0;
    while i < chars.len()
        invariant
            i <= chars.len(),
            views.len() == done.len(),
            forall|k: int| 0 <= k < done.len() ==> (#[trigger] done[k])@ == views[k],
            split(chars@.take(i as int), separator) == views.push(current@),
        decreases chars.len() - i,
    {
        let c = chars[i];
        proof {
            let longer = chars@.take(i + 1);
            assert(longer.drop_last() =~= chars@.take(i as int));
            assert(longer.last() == c);
            if c == separator {
                assert(split(longer, separator) == views.push(current@).push(Seq::<char>::empty()));
            } else {
                assert(views.push(current@).drop_last() =~= views);
                assert(split(longer, separator) == views.push(current@.push(c)));
            }
        }
        if c == separator {
            proof {
                views = views.push(current@);
            }
            done.push(current);
            current = Vec::new();
        } else {
            current.push(c);
        }
        i += 1;
    }
    proof {
        assert(chars@.take(chars.len() as int) =~= chars@);
        views = views.push(current@);
    }
    done.push(current);
    done
}

/// Returns the number that a digit of base 16 stands for.
fn hex_digit(c: char) -> (r: Option<u32>)
    ensures
        r is Some <==> is_hex_digit(c),
        r matches Some(v) ==> v == digit_value(c) && v < 16,
        is_decimal_digit(c) ==> r is Some && r->0 < 10,
        r matches Some(v) ==> (v < 10 <==> is_decimal_digit(c)),
{
    if '0' <= c && c <= '9' {
        Some(c as u32 - '0' as u32)
    } else if 'a' <= c && c <= 'f' {
        Some(c as u32 - 'a' as u32 + 10)
    } else if 'A' <= c && c <= 'F' {
        Some(c as u32 - 'A' as u32 + 10)
    } else {
        None
    }
}

/// Reads one piece of an IPv4 address.
fn parse_octet(piece: &Vec<char>) -> (r: Option<u32>)
    ensures
        r is Some <==> spec_parse_octet(piece@) is Some,
        r matches Some(v) ==> v == spec_parse_octet(piece@)->0 && v <= 255,
{
    let n = piece.len();
    if n < 1 || n > 3 {
        return None;
    }
    if n > 1 && piece[0] == '0' {
        return None;
    }
    let mut value: u32 = 0;
    let mut i: usize = 0;
    while i < n
        invariant
            i <= n == piece.len(),
            n <= 3,
            value == digits_value(piece@.take(i as int), 10),
            value < decimal_span(i as int),
            forall|k: int| 0 <= k < i ==> is_decimal_digit(#[trigger] piece[k]),
        decreases n - i,
    {
        proof {
            assert(piece@.take(i + 1).drop_last() =~= piece@.take(i as int));
        }
        match hex_digit(piece[i]) {
            Some(digit) => {
                if digit >= 10 {
                    return None;
                }
                value = value * 10 + digit;
            },
            None => {
                return None;
            },
        }
        i += 1;
    }
    proof {
        assert(piece@.take(n as int) =~= piece@);
    }
    if value > 255 {
        None
    } else {
        Some(value)
    }
}

/// Reads one group of an IPv6 address.
fn parse_group(piece: &Vec<char>) -> (r: Option<u16>)
    ensures
        r is Some <==> spec_parse_group(piece@) is Some,
        r matches Some(v) ==> v == spec_parse_group(piece@)->0,
{
    let n = piece.len();
    if n < 1 || n > 4 {
        return None;
    }
    let mut value: u32 = 0;
    let mut i: usize = 0;
    while i < n
        invariant
            i <= n == piece.len(),
            n <= 4,
            value == digits_value(piece@.take(i as int), 16),
            value < hex_span(i as int),
            forall|k: int| 0 <= k < i ==> is_hex_digit(#[trigger] piece[k]),
        decreases n - i,
    {
        proof {
            assert(piece@.take(i + 1).drop_last() =~= piece@.take(i as int));
        }
        match hex_digit(piece[i]) {
            Some(digit) => {
                value = value * 16 + digit;
            },
            None => {
                return None;
            },
        }
        i += 1;
    }
    proof {
        assert(piece@.take(n as int) =~= piece@);
    }
    Some(value as u16)
}

/// Reads an IPv4 address from its characters.
fn parse_ipv4_chars(chars: &Vec<char>) -> (r: Option<Ipv4Address>)
    ensures
        r == spec_parse_ipv4(chars@),
{
    let pieces = split_on(chars, '.');
    if pieces.len() != 4 {
        return None;
    }
    let a = match parse_octet(&pieces[0]) {
        Some(v) => v,
        None => {
            return None;
        },
    };
    let b = match parse_octet(&pieces[1]) {
        Some(v) => v,
        None => {
            return None;
        },
    };
    let c = match parse_octet(&pieces[2]) {
        Some(v) => v,
        None => {
            return None;
        },
    };
    let d = match parse_octet(&pieces[3]) {
        Some(v) => v,
        None => {
            return None;
        },
    };
    Some(Ipv4Address { bits: a * 0x100_0000 + b * 0x1_0000 + c * 0x100 + d })
}

/// Reads colon-separated groups from their characters.
fn parse_groups(chars: &Vec<char>, dotted_tail: bool) -> (r: Option<Vec<u16>>)
    ensures
        r is Some <==> spec_parse_groups(chars@, dotted_tail) is Some,
        r matches Some(groups) ==> group_values(groups@) == spec_parse_groups(
            chars@,
            dotted_tail,
        )->0,
{
    let pieces = split_on(chars, ':');
    let ghost parts = split(chars@, ':');
    proof {
        lemma_split_nonempty(chars@, ':');
    }
    let leading: usize = pieces.len() - 1;
    let mut groups: Vec<u16> = Vec::new();
    let mut i: usize = 0;
    while i < leading
        invariant
            i <= leading == pieces.len() - 1,
            parts == split(chars@, ':'),
            pieces.len() == parts.len(),
            forall|k: int| 0 <= k < pieces.len() ==> (#[trigger] pieces[k])@ == parts[k],
            groups.len() == i,
            forall|k: int| 0 <= k < i ==> spec_parse_group(#[trigger] parts[k]) is Some,
            forall|k: int|
                0 <= k < i ==> (#[trigger] groups[k]) as int == spec_parse_group(parts[k])->0,
        decreases leading - i,
    {
        match parse_group(&pieces[i]) {
            Some(group) => {
                groups.push(group);
            },
            None => {
                proof {
                    assert(parts.drop_last()[i as int] == parts[i as int]);
                }
                return None;
            },
        }
        i += 1;
    }
    proof {
        assert forall|k: int| 0 <= k < parts.drop_last().len() implies spec_parse_group(
            #[trigger] parts.drop_last()[k],
        ) is Some by {
            assert(parts.drop_last()[k] == parts[k]);
        }
    }
    let ghost values = Seq::new(
        parts.drop_last().len(),
        |k: int| spec_parse_group(parts.drop_last()[k])->0,
    );
    proof {
        assert(group_values(groups@) =~= values);
    }
    match parse_group(&pieces[leading]) {
        Some(group) => {
            groups.push(group);
            proof {
                assert(group_values(groups@) =~= values.push(spec_parse_group(parts.last())->0));
            }
            Some(groups)
        },
        None => {
            if !dotted_tail {
                return None;
            }
            match parse_ipv4_chars(&pieces[leading]) {
                Some(address) => {
                    let high: u16 = (address.bits / 0x1_0000) as u16;
                    let low: u16 = (address.bits % 0x1_0000) as u16;
                    groups.push(high);
                    groups.push(low);
                    proof {
                        let bits = address.bits as int;
                        assert(group_values(groups@) =~= values.push(bits / 0x1_0000).push(
                            bits % 0x1_0000,
                        ));
                    }
                    Some(groups)
                },
                None => None,
            }
        },
    }
}

/// A text always has at least one piece.
pub proof fn lemma_split_nonempty(text: Seq<char>, separator: char)
    ensures
        split(text, separator).len() >= 1,
    decreases text.len(),
{
    if text.len() > 0 {
        lemma_split_nonempty(text.drop_last(), separator);
    }
}

/// Returns the place of the first `::`.
fn locate_double_colon(chars: &Vec<char>) -> (r: Option<usize>)
    ensures
        r is Some <==> find_double_colon(chars@, 0) is Some,
        r matches Some(at) ==> at == find_double_colon(chars@, 0)->0 && at + 2 <= chars.len(),
{
    if chars.len() < 2 {
        return None;
    }
    let mut i: usize = 0;
    while i + 1 < chars.len()
        invariant
            i + 1 <= chars.len(),
            find_double_colon(chars@, 0) == find_double_colon(chars@, i as int),
        decreases chars.len() - i,
    {
        if chars[i] == ':' && chars[i + 1] == ':' {
            return Some(i);
        }
        i += 1;
    }
    None
}

/// Puts eight groups together into one number.
fn pack_groups(groups: &Vec<u16>) -> (bits: u128)
    requires
        groups.len() == 8,
    ensures
        bits == groups_bits(group_values(groups@)),
{
    (groups[0] as u128) * 0x1_0000_0000_0000_0000_0000_0000_0000u128 + (groups[1] as u128)
        * 0x1_0000_0000_0000_0000_0000_0000u128 + (groups[2] as u128)
        * 0x1_0000_0000_0000_0000_0000u128 + (groups[3] as u128) * 0x1_0000_0000_0000_0000u128 + (
    groups[4] as u128) * 0x1_0000_0000_0000u128 + (groups[5] as u128) * 0x1_0000_0000u128 + (
    groups[6] as u128) * 0x1_0000u128 + (groups[7] as u128)
}

/// Reads an IPv6 address from its characters.
fn parse_ipv6_chars(chars: &Vec<char>) -> (r: Option<Ipv6Address>)
    ensures
        r == spec_parse_ipv6(chars@),
{
    match locate_double_colon(chars) {
        None => match parse_groups(chars, true) {
            Some(groups) => {
                if groups.len() == 8 {
                    let bits = pack_groups(&groups);
                    Some(Ipv6Address { bits })
                } else {
                    None
                }
            },
            None => None,
        },
        Some(at) => {
            let head: Vec<u16> = if at == 0 {
                Vec::new()
            } else {
                let text = copy_range(chars, 0, at);
                match parse_groups(&text, false) {
                    Some(groups) => groups,
                    None => {
                        return None;
                    },
                }
            };
            let tail: Vec<u16> = if at + 2 == chars.len() {
                Vec::new()
            } else {
                let text = copy_range(chars, at + 2, chars.len());
                match parse_groups(&text, true) {
                    Some(groups) => groups,
                    None => {
                        return None;
                    },
                }
            };
            if head.len() > 7 || tail.len() > 7 - head.len() {
                return None;
            }
            let ghost head_values = group_values(head@);
            let ghost tail_values = group_values(tail@);
            let mut groups: Vec<u16> = head;
            let fill: usize = 8 - groups.len() - tail.len();
            let mut i: usize = 0;
            while i < fill
                invariant
                    i <= fill,
                    fill == 8 - head_values.len() - tail_values.len(),
                    groups.len() == head_values.len() + i,
                    group_values(groups@) == head_values + Seq::new(i as nat, |k: int| 0int),
                decreases fill - i,
            {
                let ghost before = groups@;
                groups.push(0);
                proof {
                    assert(group_values(groups@) =~= group_values(before).push(0));
                    assert(group_values(before).push(0) =~= head_values + Seq::new(
                        (i + 1) as nat,
                        |k: int| 0int,
                    ));
                }
                i += 1;
            }
            let mut j: usize = 0;
            while j < tail.len()
                invariant
                    j <= tail.len(),
                    tail_values == group_values(tail@),
                    head_values.len() + tail_values.len() <= 7,
                    fill == 8 - head_values.len() - tail_values.len(),
                    groups.len() == head_values.len() + fill + j,
                    group_values(groups@) == head_values + Seq::new(fill as nat, |k: int| 0int)
                        + tail_values.take(j as int),
                decreases tail.len() - j,
            {
                let ghost before = groups@;
                groups.push(tail[j]);
                proof {
                    assert(group_values(groups@) =~= group_values(before).push(
                        tail[j as int] as int,
                    ));
                    assert(tail_values.take(j + 1) =~= tail_values.take(j as int).push(
                        tail[j as int] as int,
                    ));
                    assert(group_values(before).push(tail[j as int] as int) =~= head_values
                        + Seq::new(fill as nat, |k: int| 0int) + tail_values.take(j + 1));
                }
                j += 1;
            }
            proof {
                assert(tail_values.take(tail.len() as int) =~= tail_values);
                assert(group_values(groups@) == with_zeros_between(head_values, tail_values));
            }
            let bits = pack_groups(&groups);
            Some(Ipv6Address { bits })
        },
    }
}

/// Returns the characters without the white space at either end.
fn trim_chars(chars: &Vec<char>) -> (trimmed: Vec<char>)
    ensures
        trimmed@ == spec_trim(chars@),
{
    let mut start: usize = 0;
    proof {
        assert(chars@.skip(0) =~= chars@);
    }
    while start < chars.len() && is_whitespace_char(chars[start])
        invariant
            start <= chars.len(),
            trim_start(chars@) == trim_start(chars@.skip(start as int)),
        decreases chars.len() - start,
    {
        proof {
            assert(chars@.skip(start as int).drop_first() =~= chars@.skip(start + 1));
        }
        start += 1;
    }
    let mut end: usize = chars.len();
    proof {
        assert(chars@.skip(start as int) =~= chars@.subrange(start as int, end as int));
    }
    while end > start && is_whitespace_char(chars[end - 1])
        invariant
            start <= end <= chars.len(),
            trim_start(chars@) == chars@.skip(start as int),
            spec_trim(chars@) == trim_end(chars@.subrange(start as int, end as int)),
        decreases end - start,
    {
        proof {
            assert(chars@.subrange(start as int, end as int).drop_last() =~= chars@.subrange(
                start as int,
                end - 1,
            ));
        }
        end -= 1;
    }
    copy_range(chars, start, end)
}

/// Tells whether a character is white space.
fn is_whitespace_char(c: char) -> (r: bool)
    ensures
        r == is_whitespace(c),
{
    ('\u{9}' <= c && c <= '\u{d}') || c == ' ' || c == '\u{85}' || c == '\u{a0}' || c
        == '\u{1680}' || ('\u{2000}' <= c && c <= '\u{200a}') || c == '\u{2028}' || c
        == '\u{2029}' || c == '\u{202f}' || c == '\u{205f}' || c == '\u{3000}'
}

/// Reads an IPv4 address. The whole text must be the address.
pub fn parse_ipv4(text: &str) -> (r: Option<Ipv4Address>)
    ensures
        r == spec_parse_ipv4(text@),
{
    let chars = chars_of(text);
    parse_ipv4_chars(&chars)
}

/// Reads an IPv6 address. The whole text must be the address.
pub fn parse_ipv6(text: &str) -> (r: Option<Ipv6Address>)
    ensures
        r == spec_parse_ipv6(text@),
{
    let chars = chars_of(text);
    parse_ipv6_chars(&chars)
}

/// Reads an address of either family. The whole text must be the address.
pub fn parse_ip(text: &str) -> (r: Option<IpAddress>)
    ensures
        r == spec_parse_ip(text@),
{
    let chars = chars_of(text);
    match parse_ipv4_chars(&chars) {
        Some(address) => Some(IpAddress::V4(address)),
        None => match parse_ipv6_chars(&chars) {
            Some(address) => Some(IpAddress::V6(address)),
            None => None,
        },
    }
}

/// Reads an IPv4 address from a text that may have white space around it.
pub fn parse_ipv4_trimmed(text: &str) -> (r: Option<Ipv4Address>)
    ensures
        r == spec_parse_ipv4(spec_trim(text@)),
{
    let chars = chars_of(text);
    let trimmed = trim_chars(&chars);
    parse_ipv4_chars(&trimmed)
}

/// Reads an IPv6 address from a text that may have white space around it.
pub fn parse_ipv6_trimmed(text: &str) -> (r: Option<Ipv6Address>)
    ensures
        r == spec_parse_ipv6(spec_trim(text@)),
{
    let chars = chars_of(text);
    let trimmed = trim_chars(&chars);
    parse_ipv6_chars(&trimmed)
}

} // verus!
