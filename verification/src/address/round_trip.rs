//! What is written is read back: the text of an address stands for that
//! address.

use crate::address::format::{
    decimal_text, digit_char, hex_text, is_ipv4_mapped, join_groups, longest_zeros_start,
    spec_format_ip, spec_format_ipv4, spec_format_ipv6, spec_groups, spec_octets, zeros_from,
};
use crate::address::parse::{
    digit_value, digits_value, find_double_colon, groups_bits, is_decimal_digit, is_hex_digit,
    spec_parse_group, spec_parse_groups, spec_parse_ip, spec_parse_ipv4, spec_parse_ipv6,
    lemma_split_nonempty, spec_parse_octet, split, with_zeros_between,
};
use crate::address::{IpAddress, Ipv4Address, Ipv6Address};
use vstd::prelude::*;

verus! {

/// The character of a digit stands for that digit.
proof fn lemma_digit_char(digit: int)
    requires
        0 <= digit < 16,
    ensures
        is_hex_digit(digit_char(digit)),
        digit_value(digit_char(digit)) == digit,
        digit < 10 ==> is_decimal_digit(digit_char(digit)),
        digit_char(digit) == '0' <==> digit == 0,
{
}

/// The decimal text of a number is made of decimal digits, stands for the
/// number and starts with `0` only for zero.
proof fn lemma_decimal_text(n: nat)
    ensures
        decimal_text(n).len() >= 1,
        n < 10 ==> decimal_text(n).len() == 1,
        n < 100 ==> decimal_text(n).len() <= 2,
        n < 1000 ==> decimal_text(n).len() <= 3,
        forall|i: int|
            0 <= i < decimal_text(n).len() ==> is_decimal_digit(#[trigger] decimal_text(n)[i]),
        digits_value(decimal_text(n), 10) == n,
        n >= 1 ==> decimal_text(n)[0] != '0',
    decreases n,
{
    if n < 10 {
        lemma_digit_char(n as int);
        let text = decimal_text(n);
        assert(text.drop_last() =~= Seq::<char>::empty());
        assert(digits_value(text.drop_last(), 10) == 0);
        assert(digits_value(text, 10) == digits_value(text.drop_last(), 10) * 10 + digit_value(
            text.last(),
        ));
    } else {
        lemma_decimal_text(n / 10);
        lemma_digit_char((n % 10) as int);
        let shorter = decimal_text(n / 10);
        let text = decimal_text(n);
        assert(text == shorter.push(digit_char((n % 10) as int)));
        assert(text.drop_last() =~= shorter);
        assert(text[0] == shorter[0]);
        assert(digits_value(text, 10) == digits_value(text.drop_last(), 10) * 10 + digit_value(
            text.last(),
        ));
    }
}

/// The text of a number in base 16 is made of digits of that base and stands
/// for the number.
proof fn lemma_hex_text(n: nat)
    ensures
        hex_text(n).len() >= 1,
        n < 0x10 ==> hex_text(n).len() == 1,
        n < 0x100 ==> hex_text(n).len() <= 2,
        n < 0x1000 ==> hex_text(n).len() <= 3,
        n < 0x1_0000 ==> hex_text(n).len() <= 4,
        forall|i: int| 0 <= i < hex_text(n).len() ==> is_hex_digit(#[trigger] hex_text(n)[i]),
        digits_value(hex_text(n), 16) == n,
    decreases n,
{
    if n < 16 {
        lemma_digit_char(n as int);
        let text = hex_text(n);
        assert(text.drop_last() =~= Seq::<char>::empty());
        assert(digits_value(text.drop_last(), 16) == 0);
        assert(digits_value(text, 16) == digits_value(text.drop_last(), 16) * 16 + digit_value(
            text.last(),
        ));
    } else {
        lemma_hex_text(n / 16);
        lemma_digit_char((n % 16) as int);
        let shorter = hex_text(n / 16);
        let text = hex_text(n);
        assert(text == shorter.push(digit_char((n % 16) as int)));
        assert(text.drop_last() =~= shorter);
        assert(digits_value(text, 16) == digits_value(text.drop_last(), 16) * 16 + digit_value(
            text.last(),
        ));
    }
}

/// A text without the separator is one piece.
proof fn lemma_split_one_piece(text: Seq<char>, separator: char)
    requires
        forall|i: int| 0 <= i < text.len() ==> text[i] != separator,
    ensures
        split(text, separator) == seq![text],
    decreases text.len(),
{
    if text.len() == 0 {
        assert(text =~= Seq::<char>::empty());
        assert(split(text, separator) =~= seq![text]);
    } else {
        lemma_split_one_piece(text.drop_last(), separator);
        let before = split(text.drop_last(), separator);
        assert(before.drop_last() =~= Seq::<Seq<char>>::empty());
        assert(before.last().push(text.last()) =~= text);
        assert(split(text, separator) =~= seq![text]);
    }
}

/// The pieces of two texts with a separator between them are the pieces of
/// the first and then the pieces of the second.
proof fn lemma_split_joined(first: Seq<char>, second: Seq<char>, separator: char)
    ensures
        split(first + seq![separator] + second, separator) == split(first, separator) + split(
            second,
            separator,
        ),
    decreases second.len(),
{
    let whole = first + seq![separator] + second;
    if second.len() == 0 {
        assert(whole.drop_last() =~= first);
        assert(whole.last() == separator);
        assert(split(whole, separator) =~= split(first, separator) + split(second, separator));
    } else {
        let shorter = second.drop_last();
        lemma_split_joined(first, shorter, separator);
        lemma_split_nonempty(shorter, separator);
        assert(whole.drop_last() =~= first + seq![separator] + shorter);
        assert(whole.last() == second.last());
        let before = split(first, separator) + split(shorter, separator);
        if second.last() == separator {
            assert(split(whole, separator) =~= split(first, separator) + split(second, separator));
        } else {
            assert(before.last() == split(shorter, separator).last());
            assert(before.drop_last() =~= split(first, separator) + split(
                shorter,
                separator,
            ).drop_last());
            assert(split(whole, separator) =~= split(first, separator) + split(second, separator));
        }
    }
}

/// The decimal text of an octet is read back as that octet.
proof fn lemma_octet_text_reads_back(n: nat)
    requires
        n <= 255,
    ensures
        spec_parse_octet(decimal_text(n)) == Some(n as int),
        forall|i: int| 0 <= i < decimal_text(n).len() ==> decimal_text(n)[i] != '.',
        forall|i: int| 0 <= i < decimal_text(n).len() ==> decimal_text(n)[i] != ':',
{
    lemma_decimal_text(n);
    assert forall|i: int| 0 <= i < decimal_text(n).len() implies decimal_text(n)[i] != '.'
        && decimal_text(n)[i] != ':' by {
        assert(is_decimal_digit(decimal_text(n)[i]));
    }
}

/// The text of a group is read back as that group.
proof fn lemma_group_text_reads_back(n: nat)
    requires
        n <= 0xffff,
    ensures
        spec_parse_group(hex_text(n)) == Some(n as int),
        hex_text(n).len() >= 1,
        forall|i: int| 0 <= i < hex_text(n).len() ==> hex_text(n)[i] != ':',
        forall|i: int| 0 <= i < hex_text(n).len() ==> hex_text(n)[i] != '.',
{
    lemma_hex_text(n);
    assert forall|i: int| 0 <= i < hex_text(n).len() implies hex_text(n)[i] != ':' && hex_text(
        n,
    )[i] != '.' by {
        assert(is_hex_digit(hex_text(n)[i]));
    }
}

/// The pieces of the text of an IPv4 address are the texts of its octets.
proof fn lemma_ipv4_text_pieces(address: Ipv4Address)
    ensures
        split(spec_format_ipv4(address), '.') == seq![
            decimal_text(spec_octets(address)[0] as nat),
            decimal_text(spec_octets(address)[1] as nat),
            decimal_text(spec_octets(address)[2] as nat),
            decimal_text(spec_octets(address)[3] as nat),
        ],
{
    let octets = spec_octets(address);
    let a = decimal_text(octets[0] as nat);
    let b = decimal_text(octets[1] as nat);
    let c = decimal_text(octets[2] as nat);
    let d = decimal_text(octets[3] as nat);
    lemma_octet_text_reads_back(octets[0] as nat);
    lemma_octet_text_reads_back(octets[1] as nat);
    lemma_octet_text_reads_back(octets[2] as nat);
    lemma_octet_text_reads_back(octets[3] as nat);
    lemma_split_one_piece(a, '.');
    lemma_split_one_piece(b, '.');
    lemma_split_one_piece(c, '.');
    lemma_split_one_piece(d, '.');
    lemma_split_joined(a, b, '.');
    lemma_split_joined(a + seq!['.'] + b, c, '.');
    lemma_split_joined(a + seq!['.'] + b + seq!['.'] + c, d, '.');
    assert(split(spec_format_ipv4(address), '.') =~= seq![a, b, c, d]);
}

/// The text of an IPv4 address is read back as that address.
pub proof fn lemma_ipv4_text_reads_back(address: Ipv4Address)
    ensures
        spec_parse_ipv4(spec_format_ipv4(address)) == Some(address),
{
    let octets = spec_octets(address);
    lemma_ipv4_text_pieces(address);
    lemma_octet_text_reads_back(octets[0] as nat);
    lemma_octet_text_reads_back(octets[1] as nat);
    lemma_octet_text_reads_back(octets[2] as nat);
    lemma_octet_text_reads_back(octets[3] as nat);
    let bits = address.bits as int;
    assert(octets[0] * 0x100_0000 + octets[1] * 0x1_0000 + octets[2] * 0x100 + octets[3] == bits);
}

/// Whether every group fits in 16 bits.
spec fn are_groups(groups: Seq<int>) -> bool {
    forall|i: int| 0 <= i < groups.len() ==> 0 <= #[trigger] groups[i] <= 0xffff
}

/// The texts of the groups.
spec fn group_texts(groups: Seq<int>) -> Seq<Seq<char>> {
    Seq::new(groups.len(), |i: int| hex_text(groups[i] as nat))
}

/// Whether two colons stand next to each other at the place.
spec fn colons_at(text: Seq<char>, at: int) -> bool {
    text[at] == ':' && text[at + 1] == ':'
}

/// Whether a text neither starts nor ends with a colon, has no two colons
/// next to each other and has no dot.
spec fn is_spaced(text: Seq<char>) -> bool {
    &&& text.len() >= 1
    &&& text[0] != ':'
    &&& text.last() != ':'
    &&& forall|j: int| 0 <= j < text.len() - 1 ==> !#[trigger] colons_at(text, j)
    &&& forall|j: int| 0 <= j < text.len() ==> text[j] != '.'
}

/// The pieces of joined groups are the texts of the groups, and the colons
/// in the joined groups stand alone and inside.
proof fn lemma_joined_groups(groups: Seq<int>)
    requires
        groups.len() >= 1,
        are_groups(groups),
    ensures
        split(join_groups(groups), ':') == group_texts(groups),
        is_spaced(join_groups(groups)),
    decreases groups.len(),
{
    let last = hex_text(groups.last() as nat);
    lemma_group_text_reads_back(groups.last() as nat);
    lemma_split_one_piece(last, ':');
    if groups.len() == 1 {
        assert(groups.last() == groups[0]);
        assert(split(join_groups(groups), ':') =~= group_texts(groups));
    } else {
        let shorter = groups.drop_last();
        lemma_joined_groups(shorter);
        let head = join_groups(shorter);
        lemma_split_joined(head, last, ':');
        let text = join_groups(groups);
        assert(text == head + seq![':'] + last);
        assert(split(text, ':') =~= group_texts(groups)) by {
            assert(group_texts(groups) =~= group_texts(shorter) + seq![last]);
        }
        assert(is_spaced(text)) by {
            assert(text[0] == head[0]);
            assert(text.last() == last.last());
            assert forall|j: int| 0 <= j < text.len() - 1 implies !#[trigger] colons_at(
                text,
                j,
            ) by {
                if j < head.len() - 1 {
                    assert(text[j] == head[j]);
                    assert(text[j + 1] == head[j + 1]);
                    assert(!colons_at(head, j));
                } else if j == head.len() - 1 {
                    assert(text[j] == head.last());
                } else if j == head.len() {
                    assert(text[j + 1] == last[0]);
                } else {
                    assert(text[j] == last[j - head.len() - 1]);
                }
            }
            assert forall|j: int| 0 <= j < text.len() implies text[j] != '.' by {
                if j < head.len() {
                    assert(text[j] == head[j]);
                } else if j > head.len() {
                    assert(text[j] == last[j - head.len() - 1]);
                }
            }
        }
    }
}

/// Joined groups are read back as those groups.
proof fn lemma_groups_read_back(groups: Seq<int>, dotted_tail: bool)
    requires
        groups.len() >= 1,
        are_groups(groups),
    ensures
        spec_parse_groups(join_groups(groups), dotted_tail) == Some(groups),
{
    lemma_joined_groups(groups);
    let pieces = split(join_groups(groups), ':');
    let leading = pieces.drop_last();
    assert forall|i: int| 0 <= i < pieces.len() implies spec_parse_group(#[trigger] pieces[i])
        == Some(groups[i]) by {
        lemma_group_text_reads_back(groups[i] as nat);
    }
    assert forall|i: int| 0 <= i < leading.len() implies spec_parse_group(
        #[trigger] leading[i],
    ) is Some by {
        assert(leading[i] == pieces[i]);
    }
    let values = Seq::new(leading.len(), |i: int| spec_parse_group(leading[i])->0);
    assert(values.push(spec_parse_group(pieces.last())->0) =~= groups) by {
        assert forall|i: int| 0 <= i < leading.len() implies values[i] == groups[i] by {
            assert(leading[i] == pieces[i]);
        }
    }
}

/// Where no two colons stand next to each other from `from` on, no `::` is found.
proof fn lemma_no_double_colon(text: Seq<char>, from: int)
    requires
        0 <= from,
        forall|j: int| from <= j < text.len() - 1 ==> !#[trigger] colons_at(text, j),
    ensures
        find_double_colon(text, from) is None,
    decreases text.len() - from,
{
    if from + 1 < text.len() {
        assert(!colons_at(text, from));
        lemma_no_double_colon(text, from + 1);
    }
}

/// The first place at which two colons stand next to each other is where
/// `::` is found.
proof fn lemma_first_double_colon(text: Seq<char>, from: int, at: int)
    requires
        0 <= from <= at,
        at + 1 < text.len(),
        text[at] == ':',
        text[at + 1] == ':',
        forall|j: int| from <= j < at ==> !#[trigger] colons_at(text, j),
    ensures
        find_double_colon(text, from) == Some(at),
    decreases at - from,
{
    if from < at {
        assert(!colons_at(text, from));
        lemma_first_double_colon(text, from + 1, at);
    }
}

/// A run of zero groups is made of zero groups and ends within the groups.
proof fn lemma_zeros_run(groups: Seq<int>, start: int)
    requires
        0 <= start <= groups.len(),
    ensures
        0 <= zeros_from(groups, start),
        start + zeros_from(groups, start) <= groups.len(),
        forall|j: int| start <= j < start + zeros_from(groups, start) ==> groups[j] == 0,
    decreases groups.len() - start,
{
    if start < groups.len() && groups[start] == 0 {
        lemma_zeros_run(groups, start + 1);
    }
}

/// The longest run of zero groups starts within the groups.
proof fn lemma_longest_zeros_start(groups: Seq<int>, end: int)
    requires
        1 <= end <= groups.len(),
    ensures
        0 <= longest_zeros_start(groups, end) < end,
    decreases end,
{
    if end > 1 {
        lemma_longest_zeros_start(groups, end - 1);
    }
}

/// The groups of an address fit in 16 bits and make the address.
proof fn lemma_groups_make_address(address: Ipv6Address)
    ensures
        spec_groups(address).len() == 8,
        are_groups(spec_groups(address)),
        groups_bits(spec_groups(address)) == address.bits,
{
    let bits = address.bits as int;
    let g = spec_groups(address);
    assert(g[0] == bits / 0x1_0000_0000_0000_0000_0000_0000_0000);
    assert(g[7] == bits % 0x1_0000);
    let r1 = bits / 0x1_0000;
    let r2 = bits / 0x1_0000_0000;
    let r3 = bits / 0x1_0000_0000_0000;
    let r4 = bits / 0x1_0000_0000_0000_0000;
    let r5 = bits / 0x1_0000_0000_0000_0000_0000;
    let r6 = bits / 0x1_0000_0000_0000_0000_0000_0000;
    let r7 = bits / 0x1_0000_0000_0000_0000_0000_0000_0000;
    assert(r2 == r1 / 0x1_0000);
    assert(r3 == r2 / 0x1_0000);
    assert(r4 == r3 / 0x1_0000);
    assert(r5 == r4 / 0x1_0000);
    assert(r6 == r5 / 0x1_0000);
    assert(r7 == r6 / 0x1_0000);
    assert(bits == r1 * 0x1_0000 + g[7]);
    assert(r1 == r2 * 0x1_0000 + g[6]);
    assert(r2 == r3 * 0x1_0000 + g[5]);
    assert(r3 == r4 * 0x1_0000 + g[4]);
    assert(r4 == r5 * 0x1_0000 + g[3]);
    assert(r5 == r6 * 0x1_0000 + g[2]);
    assert(r6 == r7 * 0x1_0000 + g[1]);
    assert(r7 == g[0]);
}

/// The text of an IPv6 address whose groups are written out one by one is
/// read back as that address.
proof fn lemma_plain_text_reads_back(address: Ipv6Address)
    ensures
        spec_parse_ipv6(join_groups(spec_groups(address))) == Some(address),
{
    let groups = spec_groups(address);
    lemma_groups_make_address(address);
    lemma_joined_groups(groups);
    lemma_groups_read_back(groups, true);
    lemma_no_double_colon(join_groups(groups), 0);
}

/// The text of an IPv6 address with a run of zero groups left out is read
/// back as that address.
proof fn lemma_short_text_reads_back(address: Ipv6Address, start: int, count: int)
    requires
        0 <= start,
        count >= 1,
        start + count <= 8,
        forall|j: int| start <= j < start + count ==> spec_groups(address)[j] == 0,
    ensures
        spec_parse_ipv6(
            join_groups(spec_groups(address).take(start)) + "::"@ + join_groups(
                spec_groups(address).skip(start + count),
            ),
        ) == Some(address),
{
    reveal_strlit("::");
    let groups = spec_groups(address);
    lemma_groups_make_address(address);
    let first = groups.take(start);
    let second = groups.skip(start + count);
    let head = join_groups(first);
    let tail = join_groups(second);
    let text = head + "::"@ + tail;
    let at = head.len() as int;
    assert("::"@ =~= seq![':', ':']);
    assert(are_groups(first));
    assert(are_groups(second));
    if start > 0 {
        lemma_joined_groups(first);
        lemma_groups_read_back(first, false);
    }
    if start + count < 8 {
        lemma_joined_groups(second);
        lemma_groups_read_back(second, true);
    }
    assert(text[at] == ':');
    assert(text[at + 1] == ':');
    assert forall|j: int| 0 <= j < at implies !#[trigger] colons_at(text, j) by {
        assert(text[j] == head[j]);
        if j + 1 < at {
            assert(text[j + 1] == head[j + 1]);
            assert(!colons_at(head, j));
        } else {
            assert(head[j] == head.last());
        }
    }
    lemma_first_double_colon(text, 0, at);
    assert(text.take(at) =~= head);
    assert(text.skip(at + 2) =~= tail);
    assert(with_zeros_between(first, second) =~= groups);
}

/// The text `ffff` stands for the group of sixteen ones.
proof fn lemma_all_ones_group()
    ensures
        hex_text(0xffff) == seq!['f', 'f', 'f', 'f'],
{
    assert(hex_text(0xf) =~= seq!['f']);
    assert(hex_text(0xff) =~= seq!['f', 'f']);
    assert(hex_text(0xfff) =~= seq!['f', 'f', 'f']);
    assert(hex_text(0xffff) =~= seq!['f', 'f', 'f', 'f']);
}

/// The text of an IPv4 address has a dot and no colon.
proof fn lemma_ipv4_text_shape(address: Ipv4Address)
    ensures
        exists|k: int|
            0 <= k < spec_format_ipv4(address).len() && spec_format_ipv4(address)[k] == '.',
        forall|j: int|
            0 <= j < spec_format_ipv4(address).len() ==> spec_format_ipv4(address)[j] != ':',
{
    let octets = spec_octets(address);
    let a = decimal_text(octets[0] as nat);
    let b = decimal_text(octets[1] as nat);
    let c = decimal_text(octets[2] as nat);
    let d = decimal_text(octets[3] as nat);
    lemma_octet_text_reads_back(octets[0] as nat);
    lemma_octet_text_reads_back(octets[1] as nat);
    lemma_octet_text_reads_back(octets[2] as nat);
    lemma_octet_text_reads_back(octets[3] as nat);
    let text = spec_format_ipv4(address);
    assert(text =~= a + seq!['.'] + b + seq!['.'] + c + seq!['.'] + d);
    assert(text[a.len() as int] == '.');
    assert forall|j: int| 0 <= j < text.len() implies text[j] != ':' by {
        let ab = a.len() + 1;
        let abc = ab + b.len() + 1;
        let abcd = abc + c.len() + 1;
        if j < a.len() {
            assert(text[j] == a[j]);
        } else if j < ab {
        } else if j < ab + b.len() {
            assert(text[j] == b[j - ab]);
        } else if j < abc {
        } else if j < abc + c.len() {
            assert(text[j] == c[j - abc]);
        } else if j < abcd {
        } else {
            assert(text[j] == d[j - abcd]);
        }
    }
}

/// The text of an IPv6 address that stands for an IPv4 address is read back
/// as that address.
proof fn lemma_mapped_text_reads_back(address: Ipv6Address)
    requires
        is_ipv4_mapped(address),
    ensures
        spec_parse_ipv6(spec_format_ipv6(address)) == Some(address),
{
    reveal_strlit("::ffff:");
    let low = Ipv4Address { bits: (address.bits as int % 0x1_0000_0000) as u32 };
    let dotted = spec_format_ipv4(low);
    let text = spec_format_ipv6(address);
    let ones = seq!['f', 'f', 'f', 'f'];
    assert("::ffff:"@ =~= seq![':', ':', 'f', 'f', 'f', 'f', ':']);
    assert(text == "::ffff:"@ + dotted);
    lemma_ipv4_text_reads_back(low);
    lemma_ipv4_text_shape(low);
    lemma_all_ones_group();
    lemma_group_text_reads_back(0xffff);
    assert(text[0] == ':');
    assert(text[1] == ':');
    lemma_first_double_colon(text, 0, 0);
    let tail = text.skip(2);
    assert(tail =~= ones + seq![':'] + dotted);
    lemma_split_one_piece(ones, ':');
    lemma_split_one_piece(dotted, ':');
    lemma_split_joined(ones, dotted, ':');
    let pieces = split(tail, ':');
    assert(pieces =~= seq![ones, dotted]);
    let leading = pieces.drop_last();
    assert(leading =~= seq![ones]);
    assert(pieces.last() == dotted);
    let k = choose|k: int| 0 <= k < dotted.len() && dotted[k] == '.';
    assert(!is_hex_digit(dotted[k]));
    assert(spec_parse_group(dotted) is None);
    let values = Seq::new(leading.len(), |i: int| spec_parse_group(leading[i])->0);
    let bits = low.bits as int;
    let groups = values.push(bits / 0x1_0000).push(bits % 0x1_0000);
    assert(groups =~= seq![0xffffint, bits / 0x1_0000, bits % 0x1_0000]);
    assert(spec_parse_groups(tail, true) == Some(groups));
    let all = with_zeros_between(Seq::<int>::empty(), groups);
    assert(all =~= seq![0int, 0int, 0int, 0int, 0int, 0xffffint, bits / 0x1_0000, bits % 0x1_0000]);
    assert(groups_bits(all) == address.bits);
}

/// The text of an IPv6 address is read back as that address.
pub proof fn lemma_ipv6_text_reads_back(address: Ipv6Address)
    ensures
        spec_parse_ipv6(spec_format_ipv6(address)) == Some(address),
{
    if is_ipv4_mapped(address) {
        lemma_mapped_text_reads_back(address);
    } else {
        let groups = spec_groups(address);
        lemma_groups_make_address(address);
        lemma_longest_zeros_start(groups, 8);
        let start = longest_zeros_start(groups, 8);
        lemma_zeros_run(groups, start);
        let count = zeros_from(groups, start);
        if count > 1 {
            lemma_short_text_reads_back(address, start, count);
        } else {
            lemma_plain_text_reads_back(address);
        }
    }
}

/// Whether the text has a colon.
spec fn has_colon(text: Seq<char>) -> bool {
    exists|j: int| 0 <= j < text.len() && #[trigger] text[j] == ':'
}

/// A text with a colon in it is no IPv4 address.
proof fn lemma_colon_is_no_ipv4(text: Seq<char>)
    requires
        has_colon(text),
    ensures
        spec_parse_ipv4(text) is None,
{
    lemma_piece_keeps_colon(text);
    let pieces = split(text, '.');
    let k = choose|k: int| 0 <= k < pieces.len() && has_colon(#[trigger] pieces[k]);
    let j = choose|j: int| 0 <= j < pieces[k].len() && #[trigger] pieces[k][j] == ':';
    assert(!is_decimal_digit(pieces[k][j]));
    assert(spec_parse_octet(pieces[k]) is None);
}

/// A colon in a text is in one of the pieces between its dots.
proof fn lemma_piece_keeps_colon(text: Seq<char>)
    requires
        has_colon(text),
    ensures
        exists|k: int| 0 <= k < split(text, '.').len() && has_colon(#[trigger] split(text, '.')[k]),
    decreases text.len(),
{
    let at = choose|j: int| 0 <= j < text.len() && #[trigger] text[j] == ':';
    let before = split(text.drop_last(), '.');
    let pieces = split(text, '.');
    lemma_split_nonempty(text.drop_last(), '.');
    if at == text.len() - 1 {
        let k = pieces.len() - 1;
        let j = pieces[k].len() - 1;
        assert(pieces[k] == before.last().push(text.last()));
        assert(pieces[k][j] == ':');
        assert(has_colon(pieces[k]));
    } else {
        assert(text.drop_last()[at] == ':');
        assert(has_colon(text.drop_last()));
        lemma_piece_keeps_colon(text.drop_last());
        let k = choose|k: int| 0 <= k < before.len() && has_colon(#[trigger] before[k]);
        let j = choose|j: int| 0 <= j < before[k].len() && #[trigger] before[k][j] == ':';
        if text.last() == '.' {
            assert(pieces[k] == before[k]);
        } else if k < before.len() - 1 {
            assert(pieces[k] == before[k]);
        } else {
            assert(pieces[k] == before.last().push(text.last()));
            assert(pieces[k][j] == ':');
            assert(has_colon(pieces[k]));
        }
    }
}

/// The text of an IPv6 address has a colon.
proof fn lemma_ipv6_text_has_colon(address: Ipv6Address)
    ensures
        has_colon(spec_format_ipv6(address)),
{
    let text = spec_format_ipv6(address);
    if is_ipv4_mapped(address) {
        reveal_strlit("::ffff:");
        assert(text[0] == ':');
    } else {
        let groups = spec_groups(address);
        lemma_groups_make_address(address);
        lemma_longest_zeros_start(groups, 8);
        let start = longest_zeros_start(groups, 8);
        lemma_zeros_run(groups, start);
        let count = zeros_from(groups, start);
        if count > 1 {
            reveal_strlit("::");
            let head = join_groups(groups.take(start));
            assert(text[head.len() as int] == ':');
        } else {
            let shorter = groups.drop_last();
            assert(are_groups(shorter));
            lemma_joined_groups(shorter);
            let head = join_groups(shorter);
            assert(text == head + seq![':'] + hex_text(groups.last() as nat));
            assert(text[head.len() as int] == ':');
        }
    }
}

/// The text of an address of either family is read back as that address.
pub proof fn lemma_ip_text_reads_back(address: IpAddress)
    ensures
        spec_parse_ip(spec_format_ip(address)) == Some(address),
{
    match address {
        IpAddress::V4(a) => {
            lemma_ipv4_text_reads_back(a);
        },
        IpAddress::V6(a) => {
            lemma_ipv6_text_reads_back(a);
            lemma_ipv6_text_has_colon(a);
            lemma_colon_is_no_ipv4(spec_format_ipv6(a));
        },
    }
}

} // verus!
