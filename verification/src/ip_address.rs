//! IP addresses as plain values, with their textual form.

use crate::text::{
    chars_of, join, lemma_join_push, split, split_chars, string_of, views,
};
use vstd::prelude::*;

verus! {

/// An IPv4 or IPv6 address.
#[derive(Clone, Copy, Debug, PartialEq, Eq, Hash, Structural)]
pub enum IpAddress {
    /// The four octets of an IPv4 address, most significant first.
    V4(u8, u8, u8, u8),
    /// The eight 16-bit groups of an IPv6 address, most significant first.
    V6(u16, u16, u16, u16, u16, u16, u16, u16),
}

/// The value of `c` as a digit in base `radix` (10 or 16), where it is one.
pub open spec fn digit_value(c: char, radix: int) -> Option<int> {
    let code = c as u32 as int;
    if 48 <= code <= 57 {
        Some(code - 48)
    } else if radix == 16 && 97 <= code <= 102 {
        Some(code - 87)
    } else if radix == 16 && 65 <= code <= 70 {
        Some(code - 55)
    } else {
        None
    }
}

/// The digit `c` stands for in base `radix`, which is 10 or 16.
pub(crate) fn digit_of(c: char, radix: u32) -> (digit: Option<u32>)
    requires
        radix == 10 || radix == 16,
    ensures
        digit_value(c, radix as int) == match digit {
            Some(d) => Some(d as int),
            None => None,
        },
{
    let code: u32 = c as u32;
    if 48 <= code && code <= 57 {
        Some(code - 48)
    } else if radix == 16 && 97 <= code && code <= 102 {
        Some(code - 87)
    } else if radix == 16 && 65 <= code && code <= 70 {
        Some(code - 55)
    } else {
        None
    }
}

/// The lower-case character that writes the digit `d`, which is below 16.
pub open spec fn digit_char(d: int) -> char {
    if d < 10 {
        ((48 + d) as u8) as char
    } else {
        ((87 + d) as u8) as char
    }
}

/// The character for a digit below 16.
pub(crate) fn char_of_digit(d: u8) -> (c: char)
    requires
        d < 16,
    ensures
        c == digit_char(d as int),
{
    if d < 10 {
        (48 + d) as char
    } else {
        (87 + d) as char
    }
}

/// Whether every character of `s` is a digit in base `radix`.
pub open spec fn all_digits(s: Seq<char>, radix: int) -> bool {
    forall|i: int| 0 <= i < s.len() ==> (#[trigger] digit_value(s[i], radix)) is Some
}

/// The number that the digits of `s` write in base `radix`, most significant first.
pub open spec fn number_value(s: Seq<char>, radix: int) -> int
    decreases s.len(),
{
    if s.len() == 0 {
        0
    } else {
        number_value(s.drop_last(), radix) * radix + match digit_value(s.last(), radix) {
            Some(d) => d,
            None => 0,
        }
    }
}

/// The number written by `s` as a whole: one to `max_digits` digits in base
/// `radix`, with a leading zero on a longer numeral only where `zero_prefix` allows it.
pub open spec fn numeral(s: Seq<char>, radix: int, max_digits: int, zero_prefix: bool) -> Option<
    int,
> {
    if 1 <= s.len() <= max_digits && all_digits(s, radix) && (zero_prefix || s.len() == 1
        || s[0] != '0') {
        Some(number_value(s, radix))
    } else {
        None
    }
}

/// The octet written by `s` in decimal: up to three digits, no leading zero on
/// a longer numeral, at most 255.
pub open spec fn octet_of(s: Seq<char>) -> Option<u8> {
    match numeral(s, 10, 3, false) {
        Some(n) => if n <= 255 {
            Some(n as u8)
        } else {
            None
        },
        None => None,
    }
}

/// The 16-bit group written by `s` in hexadecimal: one to four digits of either case.
pub open spec fn group_of(s: Seq<char>) -> Option<u16> {
    match numeral(s, 16, 4, true) {
        Some(n) => Some(n as u16),
        None => None,
    }
}

/// A numeral of `n` digits in base `radix` is below `radix` to the power `n`.
pub proof fn lemma_number_bound(s: Seq<char>, radix: int)
    requires
        radix == 10 || radix == 16,
    ensures
        0 <= number_value(s, radix),
        s.len() <= 1 ==> number_value(s, radix) < radix,
        s.len() == 2 ==> number_value(s, radix) < radix * radix,
        s.len() == 3 ==> number_value(s, radix) < radix * radix * radix,
        s.len() == 4 ==> number_value(s, radix) < radix * radix * radix * radix,
        s.len() == 5 ==> number_value(s, radix) < radix * radix * radix * radix * radix,
    decreases s.len(),
{
    if s.len() > 0 {
        lemma_number_bound(s.drop_last(), radix);
    }
}

/// Reads `s` as one numeral of at most `max_digits` digits in base `radix`.
pub(crate) fn read_numeral(s: &Vec<char>, radix: u32, max_digits: usize, zero_prefix: bool) -> (value:
    Option<u32>)
    requires
        radix == 10 || radix == 16,
        max_digits <= 5,
    ensures
        numeral(s@, radix as int, max_digits as int, zero_prefix) == match value {
            Some(n) => Some(n as int),
            None => None,
        },
{
    let len = s.len();
    if len == 0 || len > max_digits {
        return None;
    }
    if !zero_prefix && len > 1 && s[0] == '0' {
        return None;
    }
    let mut value: u32 = 0;
    let mut i: usize = 0;
    while i < len
        invariant
            0 <= i <= len,
            len == s.len(),
            len <= 5,
            radix == 10 || radix == 16,
            all_digits(s@.take(i as int), radix as int),
            value == number_value(s@.take(i as int), radix as int),
        decreases len - i,
    {
        proof {
            lemma_number_bound(s@.take(i as int), radix as int);
            assert(s@.take(i + 1).drop_last() =~= s@.take(i as int));
        }
        match digit_of(s[i], radix) {
            Some(d) => {
                assert(value < 16 * 16 * 16 * 16) by (nonlinear_arith)
                    requires
                        i <= 4,
                        radix == 10 || radix == 16,
                        i <= 1 ==> value < radix,
                        i == 2 ==> value < radix * radix,
                        i == 3 ==> value < radix * radix * radix,
                        i == 4 ==> value < radix * radix * radix * radix,
                ;
                value = value * radix + d;
                proof {
                    assert forall|j: int| 0 <= j < i + 1 implies (#[trigger] digit_value(
                        s@.take(i + 1)[j],
                        radix as int,
                    )) is Some by {
                        if j < i {
                            assert(s@.take(i as int)[j] == s@[j]);
                        }
                    }
                }
            },
            None => {
                assert(digit_value(s@[i as int], radix as int) is None);
                return None;
            },
        }
        i += 1;
    }
    proof {
        assert(s@.take(len as int) =~= s@);
    }
    Some(value)
}

/// The IPv4 address written by `s`: four decimal octets between dots.
pub open spec fn v4_of(s: Seq<char>) -> Option<IpAddress> {
    let parts = split(s, '.');
    if parts.len() == 4 && octet_of(parts[0]) is Some && octet_of(parts[1]) is Some && octet_of(
        parts[2],
    ) is Some && octet_of(parts[3]) is Some {
        Some(
            IpAddress::V4(
                octet_of(parts[0])->0,
                octet_of(parts[1])->0,
                octet_of(parts[2])->0,
                octet_of(parts[3])->0,
            ),
        )
    } else {
        None
    }
}

/// The index of the first `::` in `s`, or `s.len()` where there is none.
pub open spec fn find_pair(s: Seq<char>) -> int
    decreases s.len(),
{
    if s.len() < 2 {
        s.len() as int
    } else if s[0] == ':' && s[1] == ':' {
        0
    } else {
        1 + find_pair(s.skip(1))
    }
}

/// The colon-separated pieces of one side of an IPv6 text: none where the side is empty.
pub open spec fn pieces(s: Seq<char>) -> Seq<Seq<char>> {
    if s.len() == 0 {
        Seq::empty()
    } else {
        split(s, ':')
    }
}

/// The groups written by `parts`, where each of them is a hexadecimal group.
pub open spec fn groups_of(parts: Seq<Seq<char>>) -> Option<Seq<u16>> {
    if forall|i: int| 0 <= i < parts.len() ==> (#[trigger] group_of(parts[i])) is Some {
        Some(Seq::new(parts.len(), |i: int| group_of(parts[i])->0))
    } else {
        None
    }
}

/// The two groups that hold an embedded IPv4 address.
pub open spec fn embedded(address: IpAddress) -> Seq<u16> {
    match address {
        IpAddress::V4(a, b, c, d) => seq![(a * 256 + b) as u16, (c * 256 + d) as u16],
        IpAddress::V6(..) => Seq::empty(),
    }
}

/// The groups written by `parts`, whose last piece may be an IPv4 address that
/// stands for two groups.
pub open spec fn tail_groups(parts: Seq<Seq<char>>) -> Option<Seq<u16>> {
    if parts.len() > 0 && v4_of(parts.last()) is Some {
        match groups_of(parts.drop_last()) {
            Some(groups) => Some(groups + embedded(v4_of(parts.last())->0)),
            None => None,
        }
    } else {
        groups_of(parts)
    }
}

/// The eight groups of the IPv6 address written by `s`. Without `::` the text
/// holds all eight; with it, the groups before and after it, seven at most,
/// with zeros between them.
pub open spec fn v6_groups(s: Seq<char>) -> Option<Seq<u16>> {
    let k = find_pair(s);
    if k < s.len() {
        let head = groups_of(pieces(s.take(k)));
        let tail = tail_groups(pieces(s.skip(k + 2)));
        if head is Some && tail is Some && head->0.len() + tail->0.len() <= 7 {
            Some(
                head->0 + Seq::new((8 - head->0.len() - tail->0.len()) as nat, |i: int| 0u16)
                    + tail->0,
            )
        } else {
            None
        }
    } else {
        match tail_groups(split(s, ':')) {
            Some(groups) => if groups.len() == 8 {
                Some(groups)
            } else {
                None
            },
            None => None,
        }
    }
}

/// The IPv6 address with the eight groups `g`.
pub open spec fn v6_from(g: Seq<u16>) -> IpAddress {
    IpAddress::V6(g[0], g[1], g[2], g[3], g[4], g[5], g[6], g[7])
}

/// The IPv6 address written by `s`.
pub open spec fn v6_of(s: Seq<char>) -> Option<IpAddress> {
    match v6_groups(s) {
        Some(g) => Some(v6_from(g)),
        None => None,
    }
}

/// The address written by `s`: an IPv4 address in dotted decimal, or else an
/// IPv6 address in colon-separated hexadecimal.
pub open spec fn address_of(s: Seq<char>) -> Option<IpAddress> {
    match v4_of(s) {
        Some(address) => Some(address),
        None => v6_of(s),
    }
}

fn read_octet(s: &Vec<char>) -> (octet: Option<u8>)
    ensures
        octet == octet_of(s@),
{
    match read_numeral(s, 10, 3, false) {
        Some(n) => if n <= 255 {
            Some(n as u8)
        } else {
            None
        },
        None => None,
    }
}

fn read_group(s: &Vec<char>) -> (group: Option<u16>)
    ensures
        group == group_of(s@),
{
    match read_numeral(s, 16, 4, true) {
        Some(n) => {
            proof {
                lemma_number_bound(s@, 16);
            }
            Some(n as u16)
        },
        None => None,
    }
}

/// Reads `s` as an IPv4 address.
pub fn read_v4(s: &Vec<char>) -> (address: Option<IpAddress>)
    ensures
        address == v4_of(s@),
{
    let parts = split_chars(s, '.');
    if parts.len() != 4 {
        return None;
    }
    assert(views(parts@)[0] == parts@[0]@ && views(parts@)[1] == parts@[1]@ && views(parts@)[2]
        == parts@[2]@ && views(parts@)[3] == parts@[3]@);
    let a = read_octet(&parts[0]);
    let b = read_octet(&parts[1]);
    let c = read_octet(&parts[2]);
    let d = read_octet(&parts[3]);
    match (a, b, c, d) {
        (Some(a), Some(b), Some(c), Some(d)) => Some(IpAddress::V4(a, b, c, d)),
        _ => None,
    }
}

/// The groups held by an optional vector.
pub open spec fn groups_view(groups: Option<Vec<u16>>) -> Option<Seq<u16>> {
    match groups {
        Some(g) => Some(g@),
        None => None,
    }
}

fn find_pair_in(s: &Vec<char>) -> (k: usize)
    ensures
        k == find_pair(s@),
{
    let len = s.len();
    let mut i: usize = 0;
    proof {
        assert(s@.skip(0) =~= s@);
    }
    while len - i >= 2
        invariant
            0 <= i <= len,
            len == s.len(),
            find_pair(s@) == i + find_pair(s@.skip(i as int)),
        decreases len - i,
    {
        if s[i] == ':' && s[i + 1] == ':' {
            return i;
        }
        proof {
            assert(s@.skip(i as int).skip(1) =~= s@.skip(i + 1));
        }
        i += 1;
    }
    len
}

fn sub_chars(s: &Vec<char>, from: usize, to: usize) -> (piece: Vec<char>)
    requires
        from <= to <= s.len(),
    ensures
        piece@ == s@.subrange(from as int, to as int),
{
    let mut piece: Vec<char> = Vec::new();
    let mut i: usize = from;
    while i < to
        invariant
            from <= i <= to <= s.len(),
            piece@ == s@.subrange(from as int, i as int),
        decreases to - i,
    {
        piece.push(s[i]);
        i += 1;
        proof {
            assert(piece@ =~= s@.subrange(from as int, i as int));
        }
    }
    piece
}

fn read_pieces(s: &Vec<char>) -> (parts: Vec<Vec<char>>)
    ensures
        views(parts@) == pieces(s@),
{
    if s.len() == 0 {
        let parts: Vec<Vec<char>> = Vec::new();
        assert(views(parts@) =~= pieces(s@));
        parts
    } else {
        split_chars(s, ':')
    }
}

fn read_groups(parts: &Vec<Vec<char>>, count: usize) -> (groups: Option<Vec<u16>>)
    requires
        count <= parts.len(),
    ensures
        groups_view(groups) == groups_of(views(parts@).take(count as int)),
{
    let ghost texts = views(parts@).take(count as int);
    let mut groups: Vec<u16> = Vec::new();
    let mut i: usize = 0;
    while i < count
        invariant
            0 <= i <= count <= parts.len(),
            texts == views(parts@).take(count as int),
            groups@.len() == i,
            forall|j: int| 0 <= j < i ==> (#[trigger] group_of(texts[j])) == Some(groups@[j]),
        decreases count - i,
    {
        assert(texts[i as int] == parts@[i as int]@);
        match read_group(&parts[i]) {
            Some(g) => {
                groups.push(g);
            },
            None => {
                assert(group_of(texts[i as int]) is None);
                return None;
            },
        }
        i += 1;
    }
    proof {
        assert(groups_of(texts) is Some);
        assert(groups_of(texts)->0 =~= groups@);
    }
    Some(groups)
}

fn read_tail(parts: &Vec<Vec<char>>) -> (groups: Option<Vec<u16>>)
    ensures
        groups_view(groups) == tail_groups(views(parts@)),
{
    let count = parts.len();
    proof {
        assert(views(parts@).take(count as int) =~= views(parts@));
    }
    if count > 0 {
        assert(views(parts@).last() == parts@[count - 1]@);
        assert(views(parts@).drop_last() =~= views(parts@).take(count - 1));
        match read_v4(&parts[count - 1]) {
            Some(IpAddress::V4(a, b, c, d)) => {
                match read_groups(parts, count - 1) {
                    Some(mut groups) => {
                        let high: u16 = (a as u16) * 256 + (b as u16);
                        let low: u16 = (c as u16) * 256 + (d as u16);
                        let ghost before = groups@;
                        groups.push(high);
                        groups.push(low);
                        proof {
                            assert(groups@ =~= before + embedded(IpAddress::V4(a, b, c, d)));
                        }
                        Some(groups)
                    },
                    None => None,
                }
            },
            _ => read_groups(parts, count),
        }
    } else {
        read_groups(parts, count)
    }
}

/// Reads `s` as an IPv6 address.
pub fn read_v6(s: &Vec<char>) -> (address: Option<IpAddress>)
    ensures
        address == v6_of(s@),
{
    let len = s.len();
    let k = find_pair_in(s);
    let mut groups: Vec<u16> = Vec::new();
    if k < len {
        proof {
            lemma_find_pair(s@);
        }
        let head_text = sub_chars(s, 0, k);
        let tail_text = sub_chars(s, k + 2, len);
        proof {
            assert(head_text@ =~= s@.take(k as int));
            assert(tail_text@ =~= s@.skip(k + 2));
        }
        let head_parts = read_pieces(&head_text);
        let tail_parts = read_pieces(&tail_text);
        proof {
            assert(views(head_parts@).take(head_parts.len() as int) =~= views(head_parts@));
        }
        let head = read_groups(&head_parts, head_parts.len());
        let tail = read_tail(&tail_parts);
        match (head, tail) {
            (Some(head), Some(tail)) => {
                if head.len() > 7 || tail.len() > 7 || head.len() + tail.len() > 7 {
                    return None;
                }
                let fill: usize = 8 - head.len() - tail.len();
                let mut i: usize = 0;
                while i < head.len()
                    invariant
                        0 <= i <= head.len(),
                        groups@ == head@.take(i as int),
                    decreases head.len() - i,
                {
                    groups.push(head[i]);
                    i += 1;
                    proof {
                        assert(groups@ =~= head@.take(i as int));
                    }
                }
                i = 0;
                while i < fill
                    invariant
                        0 <= i <= fill,
                        groups@ == head@ + Seq::new(i as nat, |j: int| 0u16),
                    decreases fill - i,
                {
                    groups.push(0u16);
                    i += 1;
                    proof {
                        assert(groups@ =~= head@ + Seq::new(i as nat, |j: int| 0u16));
                    }
                }
                i = 0;
                while i < tail.len()
                    invariant
                        0 <= i <= tail.len(),
                        groups@ == head@ + Seq::new(fill as nat, |j: int| 0u16) + tail@.take(
                            i as int,
                        ),
                    decreases tail.len() - i,
                {
                    groups.push(tail[i]);
                    i += 1;
                    proof {
                        assert(groups@ =~= head@ + Seq::new(fill as nat, |j: int| 0u16)
                            + tail@.take(i as int));
                    }
                }
                proof {
                    assert(head@.take(head.len() as int) =~= head@);
                    assert(tail@.take(tail.len() as int) =~= tail@);
                }
            },
            _ => {
                return None;
            },
        }
    } else {
        let parts = split_chars(s, ':');
        match read_tail(&parts) {
            Some(all) => {
                if all.len() != 8 {
                    return None;
                }
                groups = all;
            },
            None => {
                return None;
            },
        }
    }
    Some(
        IpAddress::V6(
            groups[0],
            groups[1],
            groups[2],
            groups[3],
            groups[4],
            groups[5],
            groups[6],
            groups[7],
        ),
    )
}

/// Whether two colons stand at index `j` of `s` and behind it.
pub open spec fn pair_at(s: Seq<char>, j: int) -> bool {
    0 <= j && j + 1 < s.len() && s[j] == ':' && s[j + 1] == ':'
}

/// `find_pair` stays within the text, finds a pair where it finds anything,
/// and passes over none.
pub proof fn lemma_find_pair(s: Seq<char>)
    ensures
        0 <= find_pair(s) <= s.len(),
        find_pair(s) < s.len() ==> pair_at(s, find_pair(s)),
        forall|j: int| 0 <= j < find_pair(s) ==> !#[trigger] pair_at(s, j),
    decreases s.len(),
{
    if s.len() >= 2 && !(s[0] == ':' && s[1] == ':') {
        lemma_find_pair(s.skip(1));
        assert(pair_at(s.skip(1), find_pair(s.skip(1))) ==> pair_at(s, find_pair(s)));
        assert forall|j: int| 0 <= j < find_pair(s) implies !#[trigger] pair_at(s, j) by {
            if j > 0 && j + 1 < s.len() {
                assert(!pair_at(s.skip(1), j - 1));
                assert(s.skip(1)[j - 1] == s[j]);
                assert(s.skip(1)[j - 1 + 1] == s[j + 1]);
            }
        }
    }
}

/// The decimal numeral of `n`, without leading zeros.
pub open spec fn decimal_text(n: nat) -> Seq<char>
    decreases n,
{
    if n < 10 {
        seq![digit_char(n as int)]
    } else {
        decimal_text(n / 10) + seq![digit_char((n % 10) as int)]
    }
}

/// The lower-case hexadecimal numeral of `n`, without leading zeros.
pub open spec fn hex_text(n: nat) -> Seq<char>
    decreases n,
{
    if n < 16 {
        seq![digit_char(n as int)]
    } else {
        hex_text(n / 16) + seq![digit_char((n % 16) as int)]
    }
}

/// The dotted-decimal text of the four octets.
pub open spec fn v4_text(a: u8, b: u8, c: u8, d: u8) -> Seq<char> {
    join(
        seq![
            decimal_text(a as nat),
            decimal_text(b as nat),
            decimal_text(c as nat),
            decimal_text(d as nat),
        ],
        '.',
    )
}

/// The hexadecimal numerals of the groups.
pub open spec fn hex_parts(g: Seq<u16>) -> Seq<Seq<char>> {
    Seq::new(g.len(), |i: int| hex_text(g[i] as nat))
}

/// How many groups from index `i` on are zero without a break.
pub open spec fn zeros_from(g: Seq<u16>, i: int) -> int
    decreases g.len() - i,
{
    if 0 <= i < g.len() && g[i] == 0 {
        1 + zeros_from(g, i + 1)
    } else {
        0
    }
}

/// Among the indices below `n`, the first at which the longest run of zero groups starts.
pub open spec fn longest_run_start(g: Seq<u16>, n: int) -> int
    decreases n,
{
    if n <= 0 {
        0
    } else {
        let best = longest_run_start(g, n - 1);
        if zeros_from(g, n - 1) > zeros_from(g, best) {
            n - 1
        } else {
            best
        }
    }
}

/// Whether the groups hold an IPv4 address mapped into IPv6: five zero groups, then `ffff`.
pub open spec fn is_v4_mapped(g: Seq<u16>) -> bool {
    g[0] == 0 && g[1] == 0 && g[2] == 0 && g[3] == 0 && g[4] == 0 && g[5] == 0xffff
}

/// The text of the IPv6 address with the eight groups `g`. A mapped IPv4
/// address is written as `::ffff:` and the dotted address. Otherwise the
/// first longest run of two or more zero groups is written as `::`, and the
/// other groups as hexadecimal numerals between colons.
pub open spec fn v6_text(g: Seq<u16>) -> Seq<char> {
    if is_v4_mapped(g) {
        seq![':', ':', 'f', 'f', 'f', 'f', ':'] + v4_text(
            (g[6] / 256) as u8,
            (g[6] % 256) as u8,
            (g[7] / 256) as u8,
            (g[7] % 256) as u8,
        )
    } else {
        let start = longest_run_start(g, 8);
        let run = zeros_from(g, start);
        if run >= 2 {
            join(hex_parts(g.take(start)), ':') + seq![':', ':'] + join(
                hex_parts(g.skip(start + run)),
                ':',
            )
        } else {
            join(hex_parts(g), ':')
        }
    }
}

/// The run found as the longest lies within the groups.
pub proof fn lemma_longest_run(g: Seq<u16>, n: int)
    requires
        0 <= n <= g.len(),
    ensures
        0 <= longest_run_start(g, n),
        n > 0 ==> longest_run_start(g, n) < n,
        zeros_from(g, longest_run_start(g, n)) >= 0,
    decreases n,
{
    if n > 0 {
        lemma_longest_run(g, n - 1);
    }
    lemma_zeros_from(g, longest_run_start(g, n));
}

/// A run of zero groups ends within the groups, and holds zeros only.
pub proof fn lemma_zeros_from(g: Seq<u16>, i: int)
    ensures
        0 <= zeros_from(g, i),
        0 <= i <= g.len() ==> i + zeros_from(g, i) <= g.len(),
        forall|j: int| i <= j < i + zeros_from(g, i) ==> g[j] == 0,
    decreases g.len() - i,
{
    if 0 <= i < g.len() && g[i] == 0 {
        lemma_zeros_from(g, i + 1);
    }
}

/// Appends the decimal numeral of `n` to `out`.
pub(crate) fn push_decimal(out: &mut Vec<char>, n: u16)
    ensures
        final(out)@ == old(out)@ + decimal_text(n as nat),
{
    let ghost before = out@;
    proof {
        reveal_with_fuel(decimal_text, 5);
    }
    if n >= 10000 {
        out.push(char_of_digit((n / 10000) as u8));
    }
    if n >= 1000 {
        out.push(char_of_digit(((n / 1000) % 10) as u8));
    }
    if n >= 100 {
        out.push(char_of_digit(((n / 100) % 10) as u8));
    }
    if n >= 10 {
        out.push(char_of_digit(((n / 10) % 10) as u8));
    }
    out.push(char_of_digit((n % 10) as u8));
    proof {
        assert(out@ =~= before + decimal_text(n as nat));
    }
}

fn push_hex(out: &mut Vec<char>, n: u16)
    ensures
        final(out)@ == old(out)@ + hex_text(n as nat),
{
    let ghost before = out@;
    proof {
        reveal_with_fuel(hex_text, 4);
    }
    if n >= 4096 {
        out.push(char_of_digit((n / 4096) as u8));
    }
    if n >= 256 {
        out.push(char_of_digit(((n / 256) % 16) as u8));
    }
    if n >= 16 {
        out.push(char_of_digit(((n / 16) % 16) as u8));
    }
    out.push(char_of_digit((n % 16) as u8));
    proof {
        assert(out@ =~= before + hex_text(n as nat));
    }
}

fn push_v4(out: &mut Vec<char>, a: u8, b: u8, c: u8, d: u8)
    ensures
        final(out)@ == old(out)@ + v4_text(a, b, c, d),
{
    let ghost before = out@;
    push_decimal(out, a as u16);
    out.push('.');
    push_decimal(out, b as u16);
    out.push('.');
    push_decimal(out, c as u16);
    out.push('.');
    push_decimal(out, d as u16);
    proof {
        let parts = seq![
            decimal_text(a as nat),
            decimal_text(b as nat),
            decimal_text(c as nat),
            decimal_text(d as nat),
        ];
        reveal_with_fuel(join, 4);
        assert(parts.skip(1).skip(1).skip(1) =~= seq![decimal_text(d as nat)]);
        assert(parts.skip(1).skip(1) =~= seq![decimal_text(c as nat), decimal_text(d as nat)]);
        assert(parts.skip(1) =~= seq![
            decimal_text(b as nat),
            decimal_text(c as nat),
            decimal_text(d as nat),
        ]);
        assert(out@ =~= before + v4_text(a, b, c, d));
    }
}

fn push_groups(out: &mut Vec<char>, groups: &Vec<u16>, from: usize, to: usize)
    requires
        from <= to <= groups.len(),
    ensures
        final(out)@ == old(out)@ + join(hex_parts(groups@.subrange(from as int, to as int)), ':'),
{
    let ghost before = out@;
    let mut i: usize = from;
    proof {
        assert(hex_parts(groups@.subrange(from as int, from as int)) =~= Seq::empty());
        assert(out@ =~= before + join(hex_parts(groups@.subrange(from as int, i as int)), ':'));
    }
    while i < to
        invariant
            from <= i <= to <= groups.len(),
            out@ == before + join(hex_parts(groups@.subrange(from as int, i as int)), ':'),
        decreases to - i,
    {
        let ghost done = hex_parts(groups@.subrange(from as int, i as int));
        let ghost joined = out@;
        if i > from {
            out.push(':');
        }
        push_hex(out, groups[i]);
        proof {
            lemma_join_push(done, hex_text(groups@[i as int] as nat), ':');
            assert(hex_parts(groups@.subrange(from as int, i + 1)) =~= done.push(
                hex_text(groups@[i as int] as nat),
            ));
            assert(out@ =~= before + join(
                hex_parts(groups@.subrange(from as int, i + 1)),
                ':',
            ));
        }
        i += 1;
    }
}

fn count_zeros(groups: &Vec<u16>, from: usize) -> (run: usize)
    requires
        from <= groups.len(),
    ensures
        run == zeros_from(groups@, from as int),
        from + run <= groups.len(),
{
    let mut i: usize = from;
    while i < groups.len() && groups[i] == 0
        invariant
            from <= i <= groups.len(),
            zeros_from(groups@, from as int) == (i - from) + zeros_from(groups@, i as int),
        decreases groups.len() - i,
    {
        i += 1;
    }
    i - from
}

fn find_longest_run(groups: &Vec<u16>) -> (start: usize)
    requires
        groups.len() == 8,
    ensures
        start == longest_run_start(groups@, 8),
        start < 8,
{
    let mut best: usize = 0;
    let mut best_run: usize = count_zeros(groups, 0);
    let mut n: usize = 1;
    proof {
        reveal_with_fuel(longest_run_start, 2);
    }
    while n < 8
        invariant
            1 <= n <= 8,
            groups.len() == 8,
            best == longest_run_start(groups@, n as int),
            best_run == zeros_from(groups@, best as int),
            best < n,
        decreases 8 - n,
    {
        let run = count_zeros(groups, n);
        if run > best_run {
            best = n;
            best_run = run;
        }
        n += 1;
    }
    best
}

impl IpAddress {
    /// The text of the address: dotted decimal for IPv4, colon-separated
    /// hexadecimal with the longest run of zeros elided for IPv6.
    pub open spec fn text(self) -> Seq<char> {
        match self {
            IpAddress::V4(a, b, c, d) => v4_text(a, b, c, d),
            IpAddress::V6(a, b, c, d, e, f, g, h) => v6_text(seq![a, b, c, d, e, f, g, h]),
        }
    }

    /// Appends the text of the address to `out`.
    pub fn push_text(&self, out: &mut Vec<char>)
        ensures
            final(out)@ == old(out)@ + self.text(),
    {
        let ghost before = out@;
        match *self {
            IpAddress::V4(a, b, c, d) => {
                push_v4(out, a, b, c, d);
            },
            IpAddress::V6(a, b, c, d, e, f, g, h) => {
                let groups: Vec<u16> = vec![a, b, c, d, e, f, g, h];
                proof {
                    assert(groups@ =~= seq![a, b, c, d, e, f, g, h]);
                }
                if a == 0 && b == 0 && c == 0 && d == 0 && e == 0 && f == 0xffff {
                    out.push(':');
                    out.push(':');
                    out.push('f');
                    out.push('f');
                    out.push('f');
                    out.push('f');
                    out.push(':');
                    let ghost prefix = out@;
                    push_v4(out, (g / 256) as u8, (g % 256) as u8, (h / 256) as u8, (h % 256) as u8);
                    proof {
                        assert(prefix =~= before + seq![':', ':', 'f', 'f', 'f', 'f', ':']);
                        assert(out@ =~= before + v6_text(groups@));
                    }
                } else {
                    let start = find_longest_run(&groups);
                    let run = count_zeros(&groups, start);
                    if run >= 2 {
                        push_groups(out, &groups, 0, start);
                        out.push(':');
                        out.push(':');
                        push_groups(out, &groups, start + run, 8);
                        proof {
                            assert(groups@.subrange(0, start as int) =~= groups@.take(
                                start as int,
                            ));
                            assert(groups@.subrange(start + run, 8) =~= groups@.skip(
                                start + run,
                            ));
                            assert(out@ =~= before + v6_text(groups@));
                        }
                    } else {
                        push_groups(out, &groups, 0, 8);
                        proof {
                            assert(groups@.subrange(0, 8) =~= groups@);
                            assert(out@ =~= before + v6_text(groups@));
                        }
                    }
                }
            },
        }
    }

    /// Writes the address as text.
    pub fn to_text(&self) -> (text: String)
        ensures
            text@ == self.text(),
    {
        let mut out: Vec<char> = Vec::new();
        self.push_text(&mut out);
        proof {
            assert(out@ =~= self.text());
        }
        string_of(&out)
    }

    /// Reads an address from the characters of its text.
    pub fn read(chars: &Vec<char>) -> (address: Option<IpAddress>)
        ensures
            address == address_of(chars@),
    {
        match read_v4(chars) {
            Some(address) => Some(address),
            None => read_v6(chars),
        }
    }

    /// Reads an address from its text: dotted decimal for IPv4, colon-separated
    /// hexadecimal for IPv6. Text that writes no address gives `None`.
    pub fn parse(text: &str) -> (address: Option<IpAddress>)
        ensures
            address == address_of(text@),
    {
        let chars = chars_of(text);
        IpAddress::read(&chars)
    }
}

} // verus!
