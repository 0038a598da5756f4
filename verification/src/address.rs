use vstd::prelude::*;
use vstd::slice::slice_subrange;
use crate::hex::{all_hex_digits, hex_digit, hex_digit_value};
use crate::text::{parts_view, split, split_bytes, COLON, DIGIT_0, DIGIT_9, DOT};

verus! {

/// Whether a byte is an ASCII decimal digit.
pub open spec fn is_decimal_digit(c: u8) -> bool {
    DIGIT_0 <= c <= DIGIT_9
}

/// The number that a string of decimal digits spells.
pub open spec fn decimal_value(digits: Seq<u8>) -> int
    decreases digits.len(),
{
    if digits.len() == 0 {
        0
    } else {
        10 * decimal_value(digits.drop_last()) + (digits.last() - DIGIT_0)
    }
}

/// The octet that one part of a dotted IPv4 address spells: one to three
/// decimal digits, without a leading zero unless the part is `0` itself,
/// that spell a number up to 255. `None` for any other text.
pub open spec fn octet_of(part: Seq<u8>) -> Option<u8> {
    if 1 <= part.len() <= 3 && (forall|i: int|
        0 <= i < part.len() ==> is_decimal_digit(#[trigger] part[i])) && (part.len() > 1
        ==> part[0] != DIGIT_0) && decimal_value(part) <= 255 {
        Some(decimal_value(part) as u8)
    } else {
        None
    }
}

/// The four octets that a text spells as a dotted IPv4 address: four parts
/// separated by dots, each of which spells an octet. `None` for any other
/// text.
pub open spec fn ipv4_of(text: Seq<u8>) -> Option<Seq<u8>> {
    let parts = split(text, DOT);
    if parts.len() == 4 && (forall|i: int| 0 <= i < 4 ==> (#[trigger] octet_of(parts[i])) is Some) {
        Some(Seq::new(4, |i: int| octet_of(parts[i]).unwrap()))
    } else {
        None
    }
}

/// Reads one part of a dotted IPv4 address.
pub fn parse_octet(part: &[u8]) -> (octet: Option<u8>)
    ensures
        octet == octet_of(part@),
{
    let n = part.len();
    if n == 0 || n > 3 {
        return None;
    }
    if n > 1 && part[0] == DIGIT_0 {
        return None;
    }
    let mut value: u16 = 0;
    let mut i: usize = 0;
    while i < n
        invariant
            i <= n <= 3,
            n == part.len(),
            forall|j: int| 0 <= j < i ==> is_decimal_digit(#[trigger] part@[j]),
            value == decimal_value(part@.take(i as int)),
            i == 0 ==> value == 0,
            i == 1 ==> value <= 9,
            i == 2 ==> value <= 99,
            i == 3 ==> value <= 999,
        decreases n - i,
    {
        let c = part[i];
        if c < DIGIT_0 || c > DIGIT_9 {
            return None;
        }
        assert(part@.take(i + 1).drop_last() =~= part@.take(i as int));
        value = value * 10 + (c - DIGIT_0) as u16;
        i += 1;
    }
    assert(part@.take(i as int) =~= part@);
    if value > 255 {
        None
    } else {
        Some(value as u8)
    }
}

/// Reads a dotted IPv4 address.
pub fn parse_ipv4(text: &[u8]) -> (octets: Option<[u8; 4]>)
    ensures
        match octets {
            Some(o) => ipv4_of(text@) == Some(o@),
            None => ipv4_of(text@) is None,
        },
{
    let parts = split_bytes(text, DOT);
    if parts.len() != 4 {
        return None;
    }
    let mut octets = [0u8; 4];
    let mut i: usize = 0;
    while i < 4
        invariant
            i <= 4,
            parts.len() == 4,
            parts_view(parts@) == split(text@, DOT),
            forall|j: int|
                0 <= j < i ==> octet_of(#[trigger] split(text@, DOT)[j]) == Some(octets@[j]),
        decreases 4 - i,
    {
        assert(parts_view(parts@)[i as int] == parts@[i as int]@);
        match parse_octet(parts[i]) {
            Some(octet) => {
                octets[i] = octet;
            },
            None => {
                return None;
            },
        }
        i += 1;
    }
    Some(octets)
}

/// The number that a string of hexadecimal digits spells.
pub open spec fn hex_value(digits: Seq<u8>) -> int
    decreases digits.len(),
{
    if digits.len() == 0 {
        0
    } else {
        16 * hex_value(digits.drop_last()) + hex_digit_value(digits.last()).unwrap()
    }
}

/// The 16-bit group that one part of an IPv6 address spells: one to four
/// hexadecimal digits. `None` for any other text.
pub open spec fn hextet_of(part: Seq<u8>) -> Option<u16> {
    if 1 <= part.len() <= 4 && all_hex_digits(part) {
        Some(hex_value(part) as u16)
    } else {
        None
    }
}

/// The 16-bit group made of two octets, the high one first.
pub open spec fn octet_pair(high: u8, low: u8) -> u16 {
    (256 * high + low) as u16
}

/// Whether each of the first `count` parts spells a group.
pub open spec fn all_hextets(parts: Seq<Seq<u8>>, count: int) -> bool {
    forall|i: int| 0 <= i < count ==> (#[trigger] hextet_of(parts[i])) is Some
}

/// The groups that the first `count` parts spell.
pub open spec fn hextets(parts: Seq<Seq<u8>>, count: int) -> Seq<u16> {
    Seq::new(count as nat, |i: int| hextet_of(parts[i]).unwrap())
}

/// The groups that a list of colon-separated parts spells: one group for
/// each part, which is one to four hexadecimal digits. Where `ipv4_last` is
/// set, the last part may instead be a dotted IPv4 address, which gives two
/// groups. `None` where some part is neither.
pub open spec fn groups_of(parts: Seq<Seq<u8>>, ipv4_last: bool) -> Option<Seq<u16>> {
    let n = parts.len() as int;
    if all_hextets(parts, n) {
        Some(hextets(parts, n))
    } else if ipv4_last && all_hextets(parts, n - 1) && ipv4_of(parts[n - 1]) is Some {
        let octets = ipv4_of(parts[n - 1]).unwrap();
        Some(
            hextets(parts, n - 1).push(octet_pair(octets[0], octets[1])).push(
                octet_pair(octets[2], octets[3]),
            ),
        )
    } else {
        None
    }
}

/// Whether a text has two colons in a row at a position.
pub open spec fn double_colon_at(text: Seq<u8>, at: int) -> bool {
    0 <= at && at + 1 < text.len() && text[at] == COLON && text[at + 1] == COLON
}

/// The first position at which a text has two colons in a row.
pub open spec fn first_double_colon(text: Seq<u8>) -> Option<int> {
    if exists|at: int| double_colon_at(text, at) {
        Some(
            choose|at: int|
                double_colon_at(text, at) && forall|before: int|
                    before < at ==> !double_colon_at(text, before),
        )
    } else {
        None
    }
}

/// A run of zero groups.
pub open spec fn zero_groups(count: nat) -> Seq<u16> {
    Seq::new(count, |i: int| 0u16)
}

/// The groups that one side of a double colon spells: none where the side
/// is empty, else those of its colon-separated parts.
pub open spec fn side_groups(text: Seq<u8>, ipv4_last: bool) -> Option<Seq<u16>> {
    if text.len() == 0 {
        Some(Seq::empty())
    } else {
        groups_of(split(text, COLON), ipv4_last)
    }
}

/// The eight groups that a text without a double colon spells: its
/// colon-separated parts spell exactly eight groups, the last two of which
/// may be written as a dotted IPv4 address. `None` for any other text.
pub open spec fn full_groups(text: Seq<u8>) -> Option<Seq<u16>> {
    match groups_of(split(text, COLON), true) {
        Some(groups) => if groups.len() == 8 {
            Some(groups)
        } else {
            None
        },
        None => None,
    }
}

/// The eight groups that a text with a double colon at `at` spells: the text
/// before it and the text after it spell at most seven groups together, only
/// the second of which may end in a dotted IPv4 address, and the double
/// colon stands for the zero groups between them. `None` for any other text.
pub open spec fn elided_groups(text: Seq<u8>, at: int) -> Option<Seq<u16>> {
    match (side_groups(text.take(at), false), side_groups(text.skip(at + 2), true)) {
        (Some(head), Some(tail)) => if head.len() + tail.len() <= 7 {
            Some(head + zero_groups((8 - head.len() - tail.len()) as nat) + tail)
        } else {
            None
        },
        _ => None,
    }
}

/// The eight groups that a text spells as an IPv6 address, read at its
/// first double colon where it has one. `None` where the text is no IPv6
/// address.
pub open spec fn ipv6_of(text: Seq<u8>) -> Option<Seq<u16>> {
    match first_double_colon(text) {
        Some(at) => elided_groups(text, at),
        None => full_groups(text),
    }
}

/// An address that reads has its full size: four octets, or eight groups.
pub proof fn lemma_addresses_are_whole(text: Seq<u8>)
    ensures
        ipv4_of(text) is Some ==> ipv4_of(text).unwrap().len() == 4,
        ipv6_of(text) is Some ==> ipv6_of(text).unwrap().len() == 8,
{
}

/// A string of at most four hexadecimal digits spells a number below 2^16.
pub proof fn lemma_hex_value_bound(digits: Seq<u8>)
    requires
        digits.len() <= 4,
        all_hex_digits(digits),
    ensures
        0 <= hex_value(digits) < 0x10000,
{
    reveal_with_fuel(hex_value, 5);
}

/// Reads one group of an IPv6 address.
pub fn parse_hextet(part: &[u8]) -> (group: Option<u16>)
    ensures
        group == hextet_of(part@),
{
    let n = part.len();
    if n == 0 || n > 4 {
        return None;
    }
    let mut value: u32 = 0;
    let mut i: usize = 0;
    while i < n
        invariant
            i <= n <= 4,
            n == part.len(),
            all_hex_digits(part@.take(i as int)),
            value == hex_value(part@.take(i as int)),
        decreases n - i,
    {
        let digit = match hex_digit(part[i]) {
            Some(d) => d,
            None => {
                return None;
            },
        };
        proof {
            lemma_hex_value_bound(part@.take(i as int));
            assert(part@.take(i + 1).drop_last() =~= part@.take(i as int));
            assert(all_hex_digits(part@.take(i + 1)));
        }
        value = value * 16 + digit as u32;
        i += 1;
    }
    proof {
        assert(part@.take(i as int) =~= part@);
        lemma_hex_value_bound(part@);
    }
    Some(value as u16)
}

/// Reads the groups that a list of colon-separated parts spells.
pub fn parse_groups(parts: &Vec<&[u8]>, ipv4_last: bool) -> (groups: Option<Vec<u16>>)
    ensures
        match groups {
            Some(g) => groups_of(parts_view(parts@), ipv4_last) == Some(g@),
            None => groups_of(parts_view(parts@), ipv4_last) is None,
        },
{
    let n = parts.len();
    let ghost all = parts_view(parts@);
    let mut groups: Vec<u16> = Vec::new();
    let mut i: usize = 0;
    while i < n
        invariant
            i <= n,
            n == parts.len(),
            all == parts_view(parts@),
            all_hextets(all, i as int),
            groups@ == hextets(all, i as int),
        decreases n - i,
    {
        assert(all[i as int] == parts@[i as int]@);
        match parse_hextet(parts[i]) {
            Some(group) => {
                groups.push(group);
            },
            None => {
                if ipv4_last && i + 1 == n {
                    match parse_ipv4(parts[i]) {
                        Some(octets) => {
                            groups.push(256 * (octets[0] as u16) + octets[1] as u16);
                            groups.push(256 * (octets[2] as u16) + octets[3] as u16);
                            return Some(groups);
                        },
                        None => {
                            return None;
                        },
                    }
                } else {
                    return None;
                }
            },
        }
        i += 1;
    }
    Some(groups)
}

/// Finds the first place where a text has two colons in a row.
pub fn find_double_colon(text: &[u8]) -> (found: Option<usize>)
    ensures
        match found {
            Some(at) => first_double_colon(text@) == Some(at as int) && at + 1 < text.len(),
            None => first_double_colon(text@) is None,
        },
{
    let mut i: usize = 0;
    while i < text.len()
        invariant
            i <= text.len(),
            forall|before: int| before < i ==> !double_colon_at(text@, before),
        decreases text.len() - i,
    {
        if text[i] == COLON && i + 1 < text.len() && text[i + 1] == COLON {
            assert(double_colon_at(text@, i as int));
            return Some(i);
        }
        i += 1;
    }
    None
}

/// Reads the groups on one side of a double colon.
pub fn parse_side(text: &[u8], ipv4_last: bool) -> (groups: Option<Vec<u16>>)
    ensures
        match groups {
            Some(g) => side_groups(text@, ipv4_last) == Some(g@),
            None => side_groups(text@, ipv4_last) is None,
        },
{
    if text.len() == 0 {
        Some(Vec::new())
    } else {
        let parts = split_bytes(text, COLON);
        parse_groups(&parts, ipv4_last)
    }
}

/// The eight groups that a list of eight groups holds.
fn eight_groups(spelled: &Vec<u16>) -> (out: [u16; 8])
    requires
        spelled.len() == 8,
    ensures
        out@ == spelled@,
{
    let mut out = [0u16; 8];
    let mut i: usize = 0;
    while i < 8
        invariant
            i <= 8,
            spelled.len() == 8,
            forall|j: int| 0 <= j < i ==> out@[j] == spelled@[j],
        decreases 8 - i,
    {
        out[i] = spelled[i];
        i += 1;
    }
    out
}

/// The eight groups made of `head`, then as many zero groups as it takes,
/// then `tail`.
fn around_zeros(head: &Vec<u16>, tail: &Vec<u16>) -> (out: [u16; 8])
    requires
        head.len() + tail.len() <= 7,
    ensures
        out@ == head@ + zero_groups((8 - head.len() - tail.len()) as nat) + tail@,
{
    let gap = 8 - head.len() - tail.len();
    let mut out = [0u16; 8];
    let mut i: usize = 0;
    while i < head.len()
        invariant
            i <= head.len() <= 7,
            forall|j: int| 0 <= j < i ==> out@[j] == head@[j],
            forall|j: int| i <= j < 8 ==> out@[j] == 0,
        decreases head.len() - i,
    {
        out[i] = head[i];
        i += 1;
    }
    let mut k: usize = 0;
    while k < tail.len()
        invariant
            k <= tail.len(),
            head.len() + gap + tail.len() == 8,
            forall|j: int| 0 <= j < head.len() ==> out@[j] == head@[j],
            forall|j: int| head.len() <= j < head.len() + gap ==> out@[j] == 0,
            forall|j: int| 0 <= j < k ==> out@[head.len() + gap + j] == tail@[j],
        decreases tail.len() - k,
    {
        out[head.len() + gap + k] = tail[k];
        k += 1;
    }
    out
}

/// Reads an IPv6 address that has no double colon.
fn parse_full(text: &[u8]) -> (groups: Option<[u16; 8]>)
    ensures
        match groups {
            Some(g) => full_groups(text@) == Some(g@),
            None => full_groups(text@) is None,
        },
{
    let parts = split_bytes(text, COLON);
    match parse_groups(&parts, true) {
        Some(spelled) => if spelled.len() == 8 {
            Some(eight_groups(&spelled))
        } else {
            None
        },
        None => None,
    }
}

/// Reads an IPv6 address that has a double colon at `at`.
fn parse_elided(text: &[u8], at: usize) -> (groups: Option<[u16; 8]>)
    requires
        at + 1 < text.len(),
    ensures
        match groups {
            Some(g) => elided_groups(text@, at as int) == Some(g@),
            None => elided_groups(text@, at as int) is None,
        },
{
    let head = match parse_side(slice_subrange(text, 0, at), false) {
        Some(g) => g,
        None => {
            return None;
        },
    };
    let tail = match parse_side(slice_subrange(text, at + 2, text.len()), true) {
        Some(g) => g,
        None => {
            return None;
        },
    };
    if head.len() > 7 || tail.len() > 7 - head.len() {
        return None;
    }
    Some(around_zeros(&head, &tail))
}

/// Reads an IPv6 address.
pub fn parse_ipv6(text: &[u8]) -> (groups: Option<[u16; 8]>)
    ensures
        match groups {
            Some(g) => ipv6_of(text@) == Some(g@),
            None => ipv6_of(text@) is None,
        },
{
    match find_double_colon(text) {
        Some(at) => parse_elided(text, at),
        None => parse_full(text),
    }
}

} // verus!
