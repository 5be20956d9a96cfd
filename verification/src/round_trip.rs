//! Reading what was written gives back what was written: numerals,
//! addresses, and lists of addresses.

use crate::ip_address::{
    address_of, all_digits, decimal_text, digit_char, digit_value, embedded, find_pair,
    group_of, groups_of, hex_parts, hex_text, is_v4_mapped, lemma_find_pair, lemma_longest_run,
    lemma_zeros_from, longest_run_start, number_value, numeral, pair_at, pieces, tail_groups,
    v4_of, v4_text, v6_from, v6_groups, v6_text, zeros_from, IpAddress,
};
use crate::configuration::{address_list, address_texts, addresses_in, addresses_of};
use crate::text::{find, join, lemma_find, lemma_find_is, split};
use vstd::prelude::*;

verus! {

/// Whether `c` occurs nowhere in `s`.
pub open spec fn free_of(s: Seq<char>, c: char) -> bool {
    forall|j: int| 0 <= j < s.len() ==> s[j] != c
}

/// A text without the separator is one piece.
pub proof fn lemma_split_whole(s: Seq<char>, sep: char)
    requires
        free_of(s, sep),
    ensures
        split(s, sep) == seq![s],
{
    lemma_find_is(s, sep, s.len() as int);
}

/// A piece without the separator, a separator and a rest split into the
/// piece and the pieces of the rest.
pub proof fn lemma_split_first(piece: Seq<char>, rest: Seq<char>, sep: char)
    requires
        free_of(piece, sep),
    ensures
        split(piece + seq![sep] + rest, sep) == seq![piece] + split(rest, sep),
{
    let s = piece + seq![sep] + rest;
    lemma_find_is(s, sep, piece.len() as int);
    assert(s.take(piece.len() as int) =~= piece);
    assert(s.skip(piece.len() as int + 1) =~= rest);
}

/// Splitting what was joined gives the pieces back, where there is at least
/// one piece and none holds the separator.
pub proof fn lemma_split_join(parts: Seq<Seq<char>>, sep: char)
    requires
        parts.len() >= 1,
        forall|i: int| 0 <= i < parts.len() ==> free_of(#[trigger] parts[i], sep),
    ensures
        split(join(parts, sep), sep) == parts,
    decreases parts.len(),
{
    if parts.len() == 1 {
        lemma_split_whole(parts[0], sep);
        assert(seq![parts[0]] =~= parts);
    } else {
        let rest = parts.skip(1);
        assert forall|i: int| 0 <= i < rest.len() implies free_of(#[trigger] rest[i], sep) by {
            assert(rest[i] == parts[i + 1]);
        }
        lemma_split_join(rest, sep);
        lemma_split_first(parts[0], join(rest, sep), sep);
        assert(seq![parts[0]] + rest =~= parts);
    }
}

/// The character of a digit reads as that digit, and is no punctuation.
pub proof fn lemma_digit_char(d: int)
    requires
        0 <= d < 16,
    ensures
        digit_value(digit_char(d), 16) == Some(d),
        d < 10 ==> digit_value(digit_char(d), 10) == Some(d),
        digit_char(d) != '.',
        digit_char(d) != ':',
        digit_char(d) != ',',
        d != 0 ==> digit_char(d) != '0',
{
}

/// The decimal numeral of a number reads as that number, has no more digits
/// than the number needs, and starts with a zero only where it is one digit.
pub proof fn lemma_decimal_text(n: nat)
    requires
        n <= 65535,
    ensures
        decimal_text(n).len() >= 1,
        n < 10 ==> decimal_text(n).len() == 1,
        n < 100 ==> decimal_text(n).len() <= 2,
        n < 1000 ==> decimal_text(n).len() <= 3,
        n < 10000 ==> decimal_text(n).len() <= 4,
        decimal_text(n).len() <= 5,
        all_digits(decimal_text(n), 10),
        number_value(decimal_text(n), 10) == n,
        n >= 10 ==> decimal_text(n)[0] != '0',
        free_of(decimal_text(n), '.'),
        free_of(decimal_text(n), ':'),
        free_of(decimal_text(n), ','),
    decreases n,
{
    let t = decimal_text(n);
    if n < 10 {
        lemma_digit_char(n as int);
        assert(t.drop_last() =~= Seq::<char>::empty());
        assert(number_value(t.drop_last(), 10) == 0);
    } else {
        let head = decimal_text(n / 10);
        let c = digit_char((n % 10) as int);
        lemma_decimal_text(n / 10);
        lemma_digit_char((n % 10) as int);
        assert(t == head + seq![c]);
        assert(t.drop_last() =~= head);
        assert(t.last() == c);
        assert(t[0] == head[0]);
        assert forall|i: int| 0 <= i < t.len() implies (#[trigger] digit_value(t[i], 10)) is Some
            && t[i] != '.' && t[i] != ':' && t[i] != ',' by {
            if i < head.len() {
                assert(t[i] == head[i]);
                assert(digit_value(head[i], 10) is Some);
            }
        }
    }
}

/// The hexadecimal numeral of a 16-bit number reads as that number and has
/// four digits at most.
pub proof fn lemma_hex_text(n: nat)
    requires
        n <= 65535,
    ensures
        hex_text(n).len() >= 1,
        n < 16 ==> hex_text(n).len() == 1,
        n < 256 ==> hex_text(n).len() <= 2,
        n < 4096 ==> hex_text(n).len() <= 3,
        hex_text(n).len() <= 4,
        all_digits(hex_text(n), 16),
        number_value(hex_text(n), 16) == n,
        free_of(hex_text(n), '.'),
        free_of(hex_text(n), ':'),
        free_of(hex_text(n), ','),
    decreases n,
{
    let t = hex_text(n);
    if n < 16 {
        lemma_digit_char(n as int);
        assert(t.drop_last() =~= Seq::<char>::empty());
        assert(number_value(t.drop_last(), 16) == 0);
    } else {
        let head = hex_text(n / 16);
        let c = digit_char((n % 16) as int);
        lemma_hex_text(n / 16);
        lemma_digit_char((n % 16) as int);
        assert(t == head + seq![c]);
        assert(t.drop_last() =~= head);
        assert(t.last() == c);
        assert forall|i: int| 0 <= i < t.len() implies (#[trigger] digit_value(t[i], 16)) is Some
            && t[i] != '.' && t[i] != ':' && t[i] != ',' by {
            if i < head.len() {
                assert(t[i] == head[i]);
                assert(digit_value(head[i], 16) is Some);
            }
        }
    }
}

/// A group's hexadecimal numeral reads as the group.
pub proof fn lemma_group_round_trip(n: u16)
    ensures
        group_of(hex_text(n as nat)) == Some(n),
{
    lemma_hex_text(n as nat);
}

/// Joined pieces hold a character only where a piece holds it or it is the separator.
pub proof fn lemma_join_free_of(parts: Seq<Seq<char>>, sep: char, c: char)
    requires
        c != sep,
        forall|i: int| 0 <= i < parts.len() ==> free_of(#[trigger] parts[i], c),
    ensures
        free_of(join(parts, sep), c),
    decreases parts.len(),
{
    if parts.len() >= 2 {
        let rest = parts.skip(1);
        assert forall|i: int| 0 <= i < rest.len() implies free_of(#[trigger] rest[i], c) by {
            assert(rest[i] == parts[i + 1]);
        }
        lemma_join_free_of(rest, sep, c);
        let joined = join(parts, sep);
        assert forall|j: int| 0 <= j < joined.len() implies joined[j] != c by {
            if j < parts[0].len() {
                assert(joined[j] == parts[0][j]);
            } else if j > parts[0].len() {
                assert(joined[j] == join(rest, sep)[j - parts[0].len() - 1]);
            }
        }
    }
}

/// The decimal numerals of the four octets.
pub open spec fn v4_parts(a: u8, b: u8, c: u8, d: u8) -> Seq<Seq<char>> {
    seq![
        decimal_text(a as nat),
        decimal_text(b as nat),
        decimal_text(c as nat),
        decimal_text(d as nat),
    ]
}

/// The text of an IPv4 address reads as the address, and holds neither a
/// colon nor a comma.
pub proof fn lemma_v4_round_trip(a: u8, b: u8, c: u8, d: u8)
    ensures
        v4_of(v4_text(a, b, c, d)) == Some(IpAddress::V4(a, b, c, d)),
        free_of(v4_text(a, b, c, d), ':'),
        free_of(v4_text(a, b, c, d), ','),
        v4_text(a, b, c, d).len() >= 1,
{
    let parts = v4_parts(a, b, c, d);
    lemma_decimal_text(a as nat);
    lemma_decimal_text(b as nat);
    lemma_decimal_text(c as nat);
    lemma_decimal_text(d as nat);
    lemma_split_join(parts, '.');
    lemma_join_free_of(parts, '.', ':');
    lemma_join_free_of(parts, '.', ',');
    assert(join(parts, '.').len() >= parts[0].len()) by {
        assert(parts.skip(1).len() == 3);
    }
}

/// Whether no two colons stand side by side in `s`.
pub open spec fn no_pair(s: Seq<char>) -> bool {
    forall|j: int| !#[trigger] pair_at(s, j)
}

/// The first pair of colons is where `find_pair` finds it.
pub proof fn lemma_find_pair_is(s: Seq<char>, k: int)
    requires
        pair_at(s, k),
        forall|j: int| 0 <= j < k ==> !#[trigger] pair_at(s, j),
    ensures
        find_pair(s) == k,
{
    lemma_find_pair(s);
    let f = find_pair(s);
    if f < k {
        assert(pair_at(s, f));
    } else if f > k {
        assert(!pair_at(s, k));
    }
}

/// Where no two colons stand side by side, `find_pair` finds nothing.
pub proof fn lemma_find_pair_none(s: Seq<char>)
    requires
        no_pair(s),
    ensures
        find_pair(s) == s.len(),
{
    lemma_find_pair(s);
    if find_pair(s) < s.len() {
        assert(pair_at(s, find_pair(s)));
    }
}

/// Behind a text that holds no pair of colons and does not end in a colon,
/// the first pair is the one that is put there.
pub proof fn lemma_find_pair_behind(head: Seq<char>, tail: Seq<char>)
    requires
        no_pair(head),
        head.len() == 0 || head.last() != ':',
    ensures
        find_pair(head + seq![':', ':'] + tail) == head.len(),
{
    let text = head + seq![':', ':'] + tail;
    let k = head.len() as int;
    assert(text[k] == ':' && text[k + 1] == ':');
    assert forall|j: int| 0 <= j < k implies !#[trigger] pair_at(text, j) by {
        assert(text[j] == head[j]);
        if j + 1 < k {
            assert(text[j + 1] == head[j + 1]);
            assert(!pair_at(head, j));
        } else {
            assert(head[j] == head.last());
        }
    }
    lemma_find_pair_is(text, k);
}

/// With the first pair of colons at `k`, the text reads as the groups
/// before it, zeros, and the groups behind it.
pub proof fn lemma_v6_groups_around(text: Seq<char>, k: int, front: Seq<u16>, back: Seq<u16>)
    requires
        find_pair(text) == k,
        k < text.len(),
        groups_of(pieces(text.take(k))) == Some(front),
        tail_groups(pieces(text.skip(k + 2))) == Some(back),
        front.len() + back.len() <= 7,
    ensures
        v6_groups(text) == Some(
            front + Seq::new((8 - front.len() - back.len()) as nat, |i: int| 0u16) + back,
        ),
{
}

/// The hexadecimal numerals of groups, joined by colons: they start and end
/// with a digit, hold no two colons side by side and no dot, and split into
/// the numerals again.
pub proof fn lemma_joined_hex(h: Seq<u16>)
    ensures
        h.len() == 0 ==> join(hex_parts(h), ':').len() == 0,
        h.len() >= 1 ==> join(hex_parts(h), ':').len() >= 1 && join(hex_parts(h), ':')[0] != ':'
            && join(hex_parts(h), ':').last() != ':',
        no_pair(join(hex_parts(h), ':')),
        free_of(join(hex_parts(h), ':'), '.'),
        free_of(join(hex_parts(h), ':'), ','),
        pieces(join(hex_parts(h), ':')) == hex_parts(h),
    decreases h.len(),
{
    let parts = hex_parts(h);
    let joined = join(parts, ':');
    if h.len() == 0 {
        assert(pieces(joined) =~= parts);
    } else {
        assert forall|i: int| 0 <= i < parts.len() implies free_of(#[trigger] parts[i], ':')
            && free_of(parts[i], '.') && free_of(parts[i], ',') by {
            lemma_hex_text(h[i] as nat);
        }
        lemma_split_join(parts, ':');
        lemma_join_free_of(parts, ':', '.');
        lemma_join_free_of(parts, ':', ',');
        lemma_hex_text(h[0] as nat);
        let first = parts[0];
        if h.len() == 1 {
            assert(joined == first);
            assert forall|j: int| !#[trigger] pair_at(joined, j) by {
                if 0 <= j < joined.len() {
                    assert(joined[j] != ':');
                }
            }
        } else {
            let rest = join(parts.skip(1), ':');
            assert(parts.skip(1) =~= hex_parts(h.skip(1)));
            lemma_joined_hex(h.skip(1));
            assert(joined == first + seq![':'] + rest);
            assert(joined[0] == first[0]);
            assert(joined.last() == rest.last());
            assert forall|j: int| !#[trigger] pair_at(joined, j) by {
                if 0 <= j && j + 1 < joined.len() {
                    if j < first.len() {
                        assert(joined[j] == first[j]);
                    } else if j == first.len() {
                        assert(joined[j + 1] == rest[0]);
                    } else {
                        assert(joined[j] == rest[j - first.len() - 1]);
                        assert(joined[j + 1] == rest[j - first.len() - 1 + 1]);
                        assert(!pair_at(rest, j - first.len() - 1));
                    }
                }
            }
        }
    }
}

/// The numerals of groups read as the groups, also where an IPv4 address
/// might have stood last.
pub proof fn lemma_groups_of_hex(h: Seq<u16>)
    ensures
        groups_of(hex_parts(h)) == Some(h),
        tail_groups(hex_parts(h)) == Some(h),
{
    let parts = hex_parts(h);
    assert forall|i: int| 0 <= i < parts.len() implies (#[trigger] group_of(parts[i])) == Some(
        h[i],
    ) by {
        lemma_group_round_trip(h[i]);
    }
    assert(groups_of(parts)->0 =~= h);
    if parts.len() > 0 {
        lemma_hex_text(h.last() as nat);
        lemma_split_whole(parts.last(), '.');
    }
}

/// A text that does not start with a decimal digit writes no IPv4 address.
pub proof fn lemma_v4_starts_with_digit(s: Seq<char>)
    requires
        s.len() == 0 || digit_value(s[0], 10) is None,
    ensures
        v4_of(s) is None,
{
    lemma_find(s, '.');
    let k = find(s, '.');
    let first = split(s, '.')[0];
    if s.len() > 0 {
        if k < s.len() {
            assert(first == s.take(k));
        } else {
            assert(first == s);
        }
        if first.len() > 0 {
            assert(first[0] == s[0]);
            assert(!all_digits(first, 10));
        }
    }
}

/// The text of a mapped IPv4 address reads as its eight groups.
proof fn lemma_v6_mapped_round_trip(g: Seq<u16>)
    requires
        g.len() == 8,
        is_v4_mapped(g),
    ensures
        v6_groups(v6_text(g)) == Some(g),
        v4_of(v6_text(g)) is None,
        free_of(v6_text(g), ','),
{
    let a = (g[6] / 256) as u8;
    let b = (g[6] % 256) as u8;
    let c = (g[7] / 256) as u8;
    let d = (g[7] % 256) as u8;
    let dotted = v4_text(a, b, c, d);
    let prefix = seq![':', ':', 'f', 'f', 'f', 'f', ':'];
    let text = v6_text(g);
    let ffff = seq!['f', 'f', 'f', 'f'];
    lemma_v4_round_trip(a, b, c, d);
    assert(text == prefix + dotted);
    assert(text[0] == ':' && text[1] == ':');
    assert(find_pair(text) == 0);
    assert(digit_value(text[0], 10) is None);
    lemma_v4_starts_with_digit(text);
    assert forall|j: int| 0 <= j < text.len() implies text[j] != ',' by {
        if j >= 7 {
            assert(text[j] == dotted[j - 7]);
        }
    }
    let head = text.take(0);
    assert(pieces(head) =~= Seq::<Seq<char>>::empty());
    assert(groups_of(pieces(head)) == Some(Seq::<u16>::empty())) by {
        assert(groups_of(pieces(head))->0 =~= Seq::<u16>::empty());
    }
    let tail = text.skip(2);
    assert(tail =~= ffff + seq![':'] + dotted);
    lemma_split_first(ffff, dotted, ':');
    lemma_split_whole(dotted, ':');
    let parts = split(tail, ':');
    assert(parts =~= seq![ffff, dotted]);
    assert(pieces(tail) == parts);
    assert(parts.last() == dotted);
    let one = seq![0xffffu16];
    assert(hex_text(65535) =~= ffff) by {
        reveal_with_fuel(hex_text, 4);
    }
    assert(parts.drop_last() =~= hex_parts(one));
    lemma_groups_of_hex(one);
    assert(embedded(IpAddress::V4(a, b, c, d)) =~= seq![g[6], g[7]]);
    let read = tail_groups(parts);
    assert(read == Some(one + seq![g[6], g[7]]));
    assert(Seq::<u16>::empty() + Seq::new(5, |i: int| 0u16) + (one + seq![g[6], g[7]]) =~= g);
}

/// The text with `::` in place of a run of zero groups.
pub open spec fn elided_text(g: Seq<u16>, start: int, run: int) -> Seq<char> {
    join(hex_parts(g.take(start)), ':') + seq![':', ':'] + join(
        hex_parts(g.skip(start + run)),
        ':',
    )
}

/// Two texts with a pair of colons between them hold a character other than
/// the colon only where one of the two holds it.
pub proof fn lemma_around_pair_free_of(head: Seq<char>, tail: Seq<char>, c: char)
    requires
        c != ':',
        free_of(head, c),
        free_of(tail, c),
    ensures
        free_of(head + seq![':', ':'] + tail, c),
{
    let text = head + seq![':', ':'] + tail;
    assert forall|j: int| 0 <= j < text.len() implies text[j] != c by {
        if j < head.len() {
            assert(text[j] == head[j]);
        } else if j >= head.len() + 2 {
            assert(text[j] == tail[j - head.len() - 2]);
        }
    }
}

/// Groups with a run of zeros among them are the groups before the run,
/// the zeros, and the groups behind it.
pub proof fn lemma_groups_around_zeros(g: Seq<u16>, start: int, run: int)
    requires
        0 <= start,
        0 <= run,
        start + run <= g.len(),
        forall|j: int| start <= j < start + run ==> g[j] == 0,
    ensures
        g.take(start) + Seq::new(run as nat, |i: int| 0u16) + g.skip(start + run) == g,
{
    assert(g.take(start) + Seq::new(run as nat, |i: int| 0u16) + g.skip(start + run) =~= g);
}

/// A text with `::` in place of a run of zero groups reads as the eight groups.
proof fn lemma_v6_elided_round_trip(g: Seq<u16>, start: int, run: int)
    requires
        g.len() == 8,
        0 <= start,
        2 <= run,
        start + run <= 8,
        forall|j: int| start <= j < start + run ==> g[j] == 0,
    ensures
        v6_groups(elided_text(g, start, run)) == Some(g),
        free_of(elided_text(g, start, run), ','),
        free_of(elided_text(g, start, run), '.'),
{
    let text = elided_text(g, start, run);
    let front = g.take(start);
    let back = g.skip(start + run);
    let head = join(hex_parts(front), ':');
    let tail = join(hex_parts(back), ':');
    let k = head.len() as int;
    assert(find_pair(text) == k) by {
        lemma_joined_hex(front);
        lemma_find_pair_behind(head, tail);
    }
    assert(groups_of(pieces(head)) == Some(front)) by {
        lemma_joined_hex(front);
        lemma_groups_of_hex(front);
    }
    assert(tail_groups(pieces(tail)) == Some(back)) by {
        lemma_joined_hex(back);
        lemma_groups_of_hex(back);
    }
    assert(free_of(text, ',') && free_of(text, '.')) by {
        lemma_joined_hex(front);
        lemma_joined_hex(back);
        lemma_around_pair_free_of(head, tail, ',');
        lemma_around_pair_free_of(head, tail, '.');
    }
    assert(text.take(k) =~= head);
    assert(text.skip(k + 2) =~= tail);
    assert(k < text.len());
    assert(front.len() == start && back.len() == 8 - start - run);
    lemma_v6_groups_around(text, k, front, back);
    lemma_groups_around_zeros(g, start, run);
}

/// The eight numerals between colons read as the eight groups.
proof fn lemma_v6_full_round_trip(g: Seq<u16>)
    requires
        g.len() == 8,
    ensures
        v6_groups(join(hex_parts(g), ':')) == Some(g),
        free_of(join(hex_parts(g), ':'), ','),
        free_of(join(hex_parts(g), ':'), '.'),
{
    let text = join(hex_parts(g), ':');
    lemma_joined_hex(g);
    lemma_groups_of_hex(g);
    lemma_find_pair_none(text);
    assert(pieces(text) == split(text, ':'));
}

/// The text of an IPv6 address reads as its eight groups, not as an IPv4
/// address, and holds no comma.
pub proof fn lemma_v6_round_trip(g: Seq<u16>)
    requires
        g.len() == 8,
    ensures
        v6_groups(v6_text(g)) == Some(g),
        v4_of(v6_text(g)) is None,
        free_of(v6_text(g), ','),
{
    if is_v4_mapped(g) {
        lemma_v6_mapped_round_trip(g);
    } else {
        let start = longest_run_start(g, 8);
        let run = zeros_from(g, start);
        lemma_longest_run(g, 8);
        lemma_zeros_from(g, start);
        if run >= 2 {
            lemma_v6_elided_round_trip(g, start, run);
            assert(v6_text(g) == elided_text(g, start, run));
        } else {
            lemma_v6_full_round_trip(g);
        }
        lemma_split_whole(v6_text(g), '.');
    }
}

/// Reading the text of an address gives the address back; and the text
/// holds no comma.
pub proof fn law_address_round_trip(address: IpAddress)
    ensures
        address_of(address.text()) == Some(address),
        free_of(address.text(), ','),
{
    match address {
        IpAddress::V4(a, b, c, d) => {
            lemma_v4_round_trip(a, b, c, d);
        },
        IpAddress::V6(a, b, c, d, e, f, g, h) => {
            let groups = seq![a, b, c, d, e, f, g, h];
            lemma_v6_round_trip(groups);
            assert(v6_from(groups) == address);
        },
    }
}

/// The empty text writes no address.
pub proof fn lemma_empty_is_no_address()
    ensures
        address_of(Seq::<char>::empty()) is None,
{
    let empty = Seq::<char>::empty();
    lemma_v4_starts_with_digit(empty);
    lemma_split_whole(empty, ':');
    lemma_split_whole(empty, '.');
    assert(find_pair(empty) == 0);
    let parts = seq![empty];
    assert(group_of(parts[0]) is None);
    assert(groups_of(parts) is None);
}

/// The texts of addresses read as the addresses.
pub proof fn lemma_texts_read_back(addresses: Seq<IpAddress>)
    ensures
        addresses_in(address_texts(addresses)) == addresses,
    decreases addresses.len(),
{
    let texts = address_texts(addresses);
    if addresses.len() == 0 {
        assert(addresses_in(texts) =~= addresses);
    } else {
        lemma_texts_read_back(addresses.drop_last());
        law_address_round_trip(addresses.last());
        assert(texts.drop_last() =~= address_texts(addresses.drop_last()));
        assert(texts.last() == addresses.last().text());
        assert(addresses.drop_last().push(addresses.last()) =~= addresses);
    }
}

/// Reading the comma-separated list of addresses gives the addresses back,
/// in their order and with their repetitions.
pub proof fn law_address_list_round_trip(addresses: Seq<IpAddress>)
    ensures
        addresses_of(address_list(addresses)) == addresses,
{
    let texts = address_texts(addresses);
    if addresses.len() == 0 {
        lemma_empty_is_no_address();
        lemma_split_whole(Seq::<char>::empty(), ',');
        assert(address_list(addresses) =~= Seq::<char>::empty());
        let parts = seq![Seq::<char>::empty()];
        assert(parts.drop_last() =~= Seq::<Seq<char>>::empty());
        assert(addresses_in(parts.drop_last()) =~= Seq::<IpAddress>::empty());
        assert(addresses_in(parts) =~= addresses);
    } else {
        assert forall|i: int| 0 <= i < texts.len() implies free_of(#[trigger] texts[i], ',') by {
            law_address_round_trip(addresses[i]);
        }
        lemma_split_join(texts, ',');
        lemma_texts_read_back(addresses);
    }
}

} // verus!
