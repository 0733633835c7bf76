//! Host addresses written out as text.
//!
//! An IPv4 address is written as its four octets in decimal, separated by
//! dots. An IPv6 address is written as its eight groups in base 16, in lower
//! case and without leading zeros, separated by colons; the longest run of two
//! or more zero groups, the first of them if there are several, is left out
//! and leaves `::` in its place. An IPv6 address that stands for an IPv4
//! address is written as `::ffff:` and that address.

use crate::address::{IpAddress, Ipv4Address, Ipv6Address};
use vstd::prelude::*;
use vstd::string::StringExecFns;

verus! {

/// The character that stands for a digit below 16.
pub open spec fn digit_char(digit: int) -> char {
    if digit == 0 {
        '0'
    } else if digit == 1 {
        '1'
    } else if digit == 2 {
        '2'
    } else if digit == 3 {
        '3'
    } else if digit == 4 {
        '4'
    } else if digit == 5 {
        '5'
    } else if digit == 6 {
        '6'
    } else if digit == 7 {
        '7'
    } else if digit == 8 {
        '8'
    } else if digit == 9 {
        '9'
    } else if digit == 10 {
        'a'
    } else if digit == 11 {
        'b'
    } else if digit == 12 {
        'c'
    } else if digit == 13 {
        'd'
    } else if digit == 14 {
        'e'
    } else {
        'f'
    }
}

/// The digits of a number in decimal, without leading zeros.
pub open spec fn decimal_text(n: nat) -> Seq<char>
    decreases n,
{
    if n < 10 {
        seq![digit_char(n as int)]
    } else {
        decimal_text(n / 10).push(digit_char((n % 10) as int))
    }
}

/// The digits of a number in base 16, in lower case and without leading zeros.
pub open spec fn hex_text(n: nat) -> Seq<char>
    decreases n,
{
    if n < 16 {
        seq![digit_char(n as int)]
    } else {
        hex_text(n / 16).push(digit_char((n % 16) as int))
    }
}

/// The four octets of an IPv4 address, the first of them the most significant.
pub open spec fn spec_octets(address: Ipv4Address) -> Seq<int> {
    let bits = address.bits as int;
    seq![bits / 0x100_0000, (bits / 0x1_0000) % 0x100, (bits / 0x100) % 0x100, bits % 0x100]
}

/// The eight groups of an IPv6 address, the first of them the most significant.
pub open spec fn spec_groups(address: Ipv6Address) -> Seq<int> {
    let bits = address.bits as int;
    seq![
        bits / 0x1_0000_0000_0000_0000_0000_0000_0000,
        (bits / 0x1_0000_0000_0000_0000_0000_0000) % 0x1_0000,
        (bits / 0x1_0000_0000_0000_0000_0000) % 0x1_0000,
        (bits / 0x1_0000_0000_0000_0000) % 0x1_0000,
        (bits / 0x1_0000_0000_0000) % 0x1_0000,
        (bits / 0x1_0000_0000) % 0x1_0000,
        (bits / 0x1_0000) % 0x1_0000,
        bits % 0x1_0000,
    ]
}

/// The text of an IPv4 address.
pub open spec fn spec_format_ipv4(address: Ipv4Address) -> Seq<char> {
    let octets = spec_octets(address);
    decimal_text(octets[0] as nat) + seq!['.'] + decimal_text(octets[1] as nat) + seq!['.']
        + decimal_text(octets[2] as nat) + seq!['.'] + decimal_text(octets[3] as nat)
}

/// The groups in base 16 with a colon between each two of them.
pub open spec fn join_groups(groups: Seq<int>) -> Seq<char>
    decreases groups.len(),
{
    if groups.len() == 0 {
        Seq::<char>::empty()
    } else if groups.len() == 1 {
        hex_text(groups[0] as nat)
    } else {
        join_groups(groups.drop_last()) + seq![':'] + hex_text(groups.last() as nat)
    }
}

/// How many zero groups follow one another from `start` on.
pub open spec fn zeros_from(groups: Seq<int>, start: int) -> int
    decreases groups.len() - start,
{
    if 0 <= start < groups.len() && groups[start] == 0 {
        1 + zeros_from(groups, start + 1)
    } else {
        0
    }
}

/// The first place before `end` at which the longest run of zero groups starts.
pub open spec fn longest_zeros_start(groups: Seq<int>, end: int) -> int
    decreases end,
{
    if end <= 1 {
        0
    } else {
        let earlier = longest_zeros_start(groups, end - 1);
        if zeros_from(groups, end - 1) > zeros_from(groups, earlier) {
            end - 1
        } else {
            earlier
        }
    }
}

/// Whether the address stands for an IPv4 address: its first five groups are
/// zero and the sixth is `ffff`.
pub open spec fn is_ipv4_mapped(address: Ipv6Address) -> bool {
    address.bits as int / 0x1_0000_0000 == 0xffff
}

/// The text of an IPv6 address.
pub open spec fn spec_format_ipv6(address: Ipv6Address) -> Seq<char> {
    if is_ipv4_mapped(address) {
        "::ffff:"@ + spec_format_ipv4(
            Ipv4Address { bits: (address.bits as int % 0x1_0000_0000) as u32 },
        )
    } else {
        let groups = spec_groups(address);
        let start = longest_zeros_start(groups, 8);
        let count = zeros_from(groups, start);
        if count > 1 {
            join_groups(groups.take(start)) + "::"@ + join_groups(groups.skip(start + count))
        } else {
            join_groups(groups)
        }
    }
}

/// The text of an address of either family.
pub open spec fn spec_format_ip(address: IpAddress) -> Seq<char> {
    match address {
        IpAddress::V4(a) => spec_format_ipv4(a),
        IpAddress::V6(a) => spec_format_ipv6(a),
    }
}

/// Returns the text of one digit.
fn digit_str(digit: u32) -> (r: &'static str)
    requires
        digit < 16,
    ensures
        r@ == seq![digit_char(digit as int)],
{
    proof {
        reveal_strlit("0");
        reveal_strlit("1");
        reveal_strlit("2");
        reveal_strlit("3");
        reveal_strlit("4");
        reveal_strlit("5");
        reveal_strlit("6");
        reveal_strlit("7");
        reveal_strlit("8");
        reveal_strlit("9");
        reveal_strlit("a");
        reveal_strlit("b");
        reveal_strlit("c");
        reveal_strlit("d");
        reveal_strlit("e");
        reveal_strlit("f");
    }
    let r = if digit == 0 {
        "0"
    } else if digit == 1 {
        "1"
    } else if digit == 2 {
        "2"
    } else if digit == 3 {
        "3"
    } else if digit == 4 {
        "4"
    } else if digit == 5 {
        "5"
    } else if digit == 6 {
        "6"
    } else if digit == 7 {
        "7"
    } else if digit == 8 {
        "8"
    } else if digit == 9 {
        "9"
    } else if digit == 10 {
        "a"
    } else if digit == 11 {
        "b"
    } else if digit == 12 {
        "c"
    } else if digit == 13 {
        "d"
    } else if digit == 14 {
        "e"
    } else {
        "f"
    };
    assert(r@ =~= seq![digit_char(digit as int)]);
    r
}

/// Writes a number in decimal at the end of a text.
pub fn push_decimal(out: &mut String, n: u32)
    ensures
        final(out)@ == old(out)@ + decimal_text(n as nat),
    decreases n,
{
    if n >= 10 {
        push_decimal(out, n / 10);
    }
    out.append(digit_str(n % 10));
    proof {
        assert(final(out)@ =~= old(out)@ + decimal_text(n as nat));
    }
}

/// Writes a number in base 16 at the end of a text.
fn push_hex(out: &mut String, n: u32)
    ensures
        final(out)@ == old(out)@ + hex_text(n as nat),
    decreases n,
{
    if n >= 16 {
        push_hex(out, n / 16);
    }
    out.append(digit_str(n % 16));
    proof {
        assert(final(out)@ =~= old(out)@ + hex_text(n as nat));
    }
}

/// Writes an IPv4 address at the end of a text.
fn push_ipv4(out: &mut String, address: &Ipv4Address)
    ensures
        final(out)@ == old(out)@ + spec_format_ipv4(*address),
{
    proof {
        reveal_strlit(".");
    }
    let bits = address.bits;
    push_decimal(out, bits / 0x100_0000);
    out.append(".");
    push_decimal(out, (bits / 0x1_0000) % 0x100);
    out.append(".");
    push_decimal(out, (bits / 0x100) % 0x100);
    out.append(".");
    push_decimal(out, bits % 0x100);
    proof {
        assert("."@ =~= seq!['.']);
        assert(final(out)@ =~= old(out)@ + spec_format_ipv4(*address));
    }
}

/// Returns the text of an IPv4 address.
pub fn format_ipv4(address: &Ipv4Address) -> (text: String)
    ensures
        text@ == spec_format_ipv4(*address),
{
    let mut text = String::new();
    push_ipv4(&mut text, address);
    proof {
        assert(Seq::<char>::empty() + spec_format_ipv4(*address) =~= spec_format_ipv4(*address));
    }
    text
}

/// Returns the eight groups of an IPv6 address.
fn groups_of(address: &Ipv6Address) -> (groups: Vec<u16>)
    ensures
        groups.len() == 8,
        crate::address::parse::group_values(groups@) == spec_groups(*address),
{
    let bits = address.bits;
    let mut groups: Vec<u16> = Vec::new();
    groups.push((bits / 0x1_0000_0000_0000_0000_0000_0000_0000u128) as u16);
    groups.push(((bits / 0x1_0000_0000_0000_0000_0000_0000u128) % 0x1_0000u128) as u16);
    groups.push(((bits / 0x1_0000_0000_0000_0000_0000u128) % 0x1_0000u128) as u16);
    groups.push(((bits / 0x1_0000_0000_0000_0000u128) % 0x1_0000u128) as u16);
    groups.push(((bits / 0x1_0000_0000_0000u128) % 0x1_0000u128) as u16);
    groups.push(((bits / 0x1_0000_0000u128) % 0x1_0000u128) as u16);
    groups.push(((bits / 0x1_0000u128) % 0x1_0000u128) as u16);
    groups.push((bits % 0x1_0000u128) as u16);
    proof {
        assert(crate::address::parse::group_values(groups@) =~= spec_groups(*address));
    }
    groups
}

/// Counts the zero groups that follow one another from `start` on.
fn count_zeros_from(groups: &Vec<u16>, start: usize) -> (count: usize)
    requires
        start <= groups.len(),
    ensures
        count == zeros_from(crate::address::parse::group_values(groups@), start as int),
        start + count <= groups.len(),
{
    let ghost values = crate::address::parse::group_values(groups@);
    let mut end: usize = start;
    while end < groups.len() && groups[end] == 0
        invariant
            start <= end <= groups.len(),
            values == crate::address::parse::group_values(groups@),
            zeros_from(values, start as int) == (end - start) + zeros_from(values, end as int),
        decreases groups.len() - end,
    {
        end += 1;
    }
    end - start
}

/// Writes groups in base 16, colons between them, at the end of a text.
fn push_groups(out: &mut String, groups: &Vec<u16>, from: usize, to: usize)
    requires
        from <= to <= groups.len(),
    ensures
        final(out)@ == old(out)@ + join_groups(
            crate::address::parse::group_values(groups@).subrange(from as int, to as int),
        ),
{
    let ghost values = crate::address::parse::group_values(groups@);
    let mut i: usize = from;
    proof {
        assert(values.subrange(from as int, from as int) =~= Seq::<int>::empty());
        assert(out@ + Seq::<char>::empty() =~= out@);
        reveal_strlit(":");
    }
    while i < to
        invariant
            from <= i <= to <= groups.len(),
            values == crate::address::parse::group_values(groups@),
            out@ == old(out)@ + join_groups(values.subrange(from as int, i as int)),
        decreases to - i,
    {
        let ghost before = out@;
        let ghost shorter = values.subrange(from as int, i as int);
        let ghost longer = values.subrange(from as int, i + 1);
        proof {
            assert(longer.drop_last() =~= shorter);
            assert(longer.last() == groups[i as int] as int);
            reveal_strlit(":");
        }
        if i > from {
            out.append(":");
        }
        push_hex(out, groups[i] as u32);
        proof {
            assert(":"@ =~= seq![':']);
            if i > from {
                assert(out@ =~= old(out)@ + join_groups(longer));
            } else {
                assert(shorter.len() == 0);
                assert(longer.len() == 1);
                assert(join_groups(shorter) =~= Seq::<char>::empty());
                assert(out@ =~= old(out)@ + join_groups(longer));
            }
        }
        i += 1;
    }
}

/// Returns the text of an IPv6 address.
pub fn format_ipv6(address: &Ipv6Address) -> (text: String)
    ensures
        text@ == spec_format_ipv6(*address),
{
    let mut text = String::new();
    if address.bits / 0x1_0000_0000u128 == 0xffffu128 {
        text.append("::ffff:");
        let low = Ipv4Address { bits: (address.bits % 0x1_0000_0000u128) as u32 };
        push_ipv4(&mut text, &low);
        proof {
            assert(text@ =~= spec_format_ipv6(*address));
        }
        return text;
    }
    let groups = groups_of(address);
    let ghost values = crate::address::parse::group_values(groups@);
    let mut start: usize = 0;
    let mut count: usize = count_zeros_from(&groups, 0);
    let mut end: usize = 1;
    while end < 8
        invariant
            1 <= end <= 8,
            groups.len() == 8,
            values == crate::address::parse::group_values(groups@),
            start == longest_zeros_start(values, end as int),
            start < end,
            count == zeros_from(values, start as int),
            start + count <= 8,
        decreases 8 - end,
    {
        let here = count_zeros_from(&groups, end);
        if here > count {
            start = end;
            count = here;
        }
        end += 1;
    }
    if count > 1 {
        push_groups(&mut text, &groups, 0, start);
        text.append("::");
        push_groups(&mut text, &groups, start + count, 8);
        proof {
            assert(values.subrange(0, start as int) =~= values.take(start as int));
            assert(values.subrange(start + count, 8) =~= values.skip(start + count));
            assert(text@ =~= spec_format_ipv6(*address));
        }
    } else {
        push_groups(&mut text, &groups, 0, 8);
        proof {
            assert(values.subrange(0, 8) =~= values);
            assert(text@ =~= spec_format_ipv6(*address));
        }
    }
    text
}

/// Returns the text of an address of either family.
pub fn format_ip(address: &IpAddress) -> (text: String)
    ensures
        text@ == spec_format_ip(*address),
{
    match address {
        IpAddress::V4(a) => format_ipv4(a),
        IpAddress::V6(a) => format_ipv6(a),
    }
}

} // verus!
