use crate::text::{chars_of, decimal_value, digit_value, is_digit, leading_digits};
use vstd::prelude::*;

verus! {

/// An internet address: the four bytes of version 4, or the eight groups of version 6.
#[derive(Clone, Copy, Debug, PartialEq, Eq)]
pub enum IpAddress {
    V4([u8; 4]),
    V6([u16; 8]),
}

/// The view of an internet address: its bytes or its groups as a sequence.
pub enum IpView {
    V4(Seq<u8>),
    V6(Seq<u16>),
}

impl DeepView for IpAddress {
    type V = IpView;

    open spec fn deep_view(&self) -> IpView {
        match self {
            IpAddress::V4(bytes) => IpView::V4(bytes@),
            IpAddress::V6(groups) => IpView::V6(groups@),
        }
    }
}

/// A number read at the front of a text, with the count of characters it took.
pub struct Taken<T> {
    pub value: T,
    pub used: int,
}

/// One byte in decimal at the front of `s`: all the digits that stand there, one to
/// three of them, not beginning with `0` unless that is the only digit, 255 at most.
#[verifier::opaque]
pub open spec fn octet(s: Seq<char>) -> Option<Taken<u8>> {
    let n = leading_digits(s);
    let value = decimal_value(s.take(n as int));
    if 1 <= n <= 3 && (n == 1 || s[0] != '0') && value <= 255 {
        Some(Taken { value: value as u8, used: n as int })
    } else {
        None
    }
}

/// Whether a point stands at position `at` of `s`.
pub open spec fn point_at(s: Seq<char>, at: int) -> bool {
    0 <= at < s.len() && s[at] == '.'
}

/// Four bytes in decimal with points between them, at the front of `s`.
pub open spec fn dotted_quad(s: Seq<char>) -> Option<Taken<Seq<u8>>> {
    let a = octet(s);
    let s1 = s.skip(a->Some_0.used + 1);
    let b = octet(s1);
    let s2 = s1.skip(b->Some_0.used + 1);
    let c = octet(s2);
    let s3 = s2.skip(c->Some_0.used + 1);
    let d = octet(s3);
    if a is Some && point_at(s, a->Some_0.used) && b is Some && point_at(s1, b->Some_0.used)
        && c is Some && point_at(s2, c->Some_0.used) && d is Some {
        Some(
            Taken {
                value: seq![a->Some_0.value, b->Some_0.value, c->Some_0.value, d->Some_0.value],
                used: a->Some_0.used + b->Some_0.used + c->Some_0.used + d->Some_0.used + 3,
            },
        )
    } else {
        None
    }
}

/// A hexadecimal digit, in small or capital letters.
pub open spec fn is_hex_digit(c: char) -> bool {
    is_digit(c) || ('a' <= c && c <= 'f') || ('A' <= c && c <= 'F')
}

/// The number that a hexadecimal digit stands for.
pub open spec fn hex_digit_value(c: char) -> nat {
    if is_digit(c) {
        digit_value(c)
    } else if 'a' <= c && c <= 'f' {
        (c as int - 'a' as int + 10) as nat
    } else {
        (c as int - 'A' as int + 10) as nat
    }
}

/// How many hexadecimal digits `s` begins with.
pub open spec fn leading_hex_digits(s: Seq<char>) -> nat
    decreases s.len(),
{
    if s.len() > 0 && is_hex_digit(s[0]) {
        1 + leading_hex_digits(s.skip(1))
    } else {
        0
    }
}

/// The number that a string of hexadecimal digits stands for.
pub open spec fn hex_value(s: Seq<char>) -> nat
    decreases s.len(),
{
    if s.len() == 0 {
        0
    } else {
        hex_value(s.drop_last()) * 16 + hex_digit_value(s.last())
    }
}

/// One group of a version-6 address at the front of `s`: all the hexadecimal digits
/// that stand there, one to four of them.
#[verifier::opaque]
pub open spec fn hex_group(s: Seq<char>) -> Option<Taken<u16>> {
    let n = leading_hex_digits(s);
    if 1 <= n <= 4 {
        Some(Taken { value: hex_value(s.take(n as int)) as u16, used: n as int })
    } else {
        None
    }
}

/// The group that two bytes make, the first the more significant.
pub open spec fn pair(high: u8, low: u8) -> u16 {
    (high as int * 256 + low as int) as u16
}

/// A run of groups with colons between them.
pub struct GroupRun {
    pub groups: Seq<u16>,
    pub used: int,
    pub quad: bool,
}

/// No group.
pub open spec fn no_groups() -> GroupRun {
    GroupRun { groups: Seq::empty(), used: 0, quad: false }
}

/// The run of groups at the front of `s`, `room` groups at most. Unless the run is the
/// `first` thing read, each group follows a colon. Where two groups or more are still
/// missing and four bytes with points between them stand next, they make the last two
/// groups of the run.
pub open spec fn group_run(s: Seq<char>, room: nat, first: bool) -> GroupRun
    decreases room,
{
    let colon: int = if first {
        0
    } else {
        1
    };
    let body = s.skip(colon);
    if room == 0 || (!first && !(s.len() > 0 && s[0] == ':')) {
        no_groups()
    } else if room >= 2 && dotted_quad(body) is Some {
        let quad = dotted_quad(body)->Some_0;
        GroupRun {
            groups: seq![pair(quad.value[0], quad.value[1]), pair(quad.value[2], quad.value[3])],
            used: colon + quad.used,
            quad: true,
        }
    } else if hex_group(body) is Some {
        let group = hex_group(body)->Some_0;
        let rest = group_run(body.skip(group.used), (room - 1) as nat, false);
        GroupRun {
            groups: seq![group.value] + rest.groups,
            used: colon + group.used + rest.used,
            quad: rest.quad,
        }
    } else {
        no_groups()
    }
}

/// `n` groups of zero.
pub open spec fn zero_groups(n: nat) -> Seq<u16> {
    Seq::new(n, |i: int| 0u16)
}

/// The version-4 address that a text stands for: four bytes with points between them
/// and nothing else.
pub open spec fn ipv4(s: Seq<char>) -> Option<Seq<u8>> {
    match dotted_quad(s) {
        Some(quad) => if quad.used == s.len() {
            Some(quad.value)
        } else {
            None
        },
        None => None,
    }
}

/// The version-6 address that a text stands for: eight groups, or fewer with one `::`
/// that stands for the missing groups, at least one, all zero. The last two groups may
/// be written as four bytes with points, but not before a `::`.
pub open spec fn ipv6(s: Seq<char>) -> Option<Seq<u16>> {
    let head = group_run(s, 8, true);
    let rest = s.skip(head.used);
    let back = rest.skip(2);
    let tail = group_run(back, (7 - head.groups.len()) as nat, true);
    if head.groups.len() == 8 {
        if head.used == s.len() {
            Some(head.groups)
        } else {
            None
        }
    } else if !head.quad && rest.len() >= 2 && rest[0] == ':' && rest[1] == ':' && tail.used
        == back.len() {
        Some(
            head.groups + zero_groups((8 - head.groups.len() - tail.groups.len()) as nat)
                + tail.groups,
        )
    } else {
        None
    }
}

/// The address that a text stands for. A text that begins with a version-4 address is
/// one or is none.
pub open spec fn ip_address(s: Seq<char>) -> Option<IpView> {
    if dotted_quad(s) is Some {
        match ipv4(s) {
            Some(bytes) => Some(IpView::V4(bytes)),
            None => None,
        }
    } else {
        match ipv6(s) {
            Some(groups) => Some(IpView::V6(groups)),
            None => None,
        }
    }
}

/// Reads one byte in decimal at `chars[from..]`; gives it with the count of its digits.
fn read_octet(chars: &Vec<char>, from: usize) -> (r: Option<(u8, usize)>)
    requires
        from <= chars.len(),
    ensures
        match r {
            Some((value, used)) => octet(chars@.skip(from as int)) == Some(
                Taken { value, used: used as int },
            ) && from + used <= chars.len(),
            None => octet(chars@.skip(from as int)) is None,
        },
{
    reveal(octet);
    let ghost body = chars@.skip(from as int);
    let mut acc: u32 = 0;
    let mut k: usize = 0;
    assert(body.skip(0) == body);
    while from + k < chars.len() && '0' <= chars[from + k] && chars[from + k] <= '9'
        invariant
            k <= 3,
            from + k <= chars.len(),
            body == chars@.skip(from as int),
            leading_digits(body) == k + leading_digits(body.skip(k as int)),
            acc == decimal_value(body.take(k as int)),
            acc <= 999,
            k <= 2 ==> acc <= 99,
            k <= 1 ==> acc <= 9,
            k == 0 ==> acc == 0,
        decreases chars.len() - from - k,
    {
        let c = chars[from + k];
        assert(body.skip(k as int).skip(1) == body.skip(k + 1));
        if k == 3 {
            reveal(octet);
            return None;
        }
        assert(body.take(k + 1).drop_last() == body.take(k as int));
        assert(body.take(k + 1).last() == c);
        acc = acc * 10 + (c as u32 - '0' as u32);
        k += 1;
    }
    if k == 0 || (k > 1 && chars[from] == '0') || acc > 255 {
        None
    } else {
        Some((acc as u8, k))
    }
}

/// Reads four bytes with points between them at `chars[from..]`; gives them with the
/// count of characters they take.
fn read_quad(chars: &Vec<char>, from: usize) -> (r: Option<([u8; 4], usize)>)
    requires
        from <= chars.len(),
    ensures
        match r {
            Some((bytes, used)) => dotted_quad(chars@.skip(from as int)) == Some(
                Taken { value: bytes@, used: used as int },
            ) && from + used <= chars.len(),
            None => dotted_quad(chars@.skip(from as int)) is None,
        },
{
    let ghost s = chars@.skip(from as int);
    let (a, n1) = match read_octet(chars, from) {
        Some(t) => t,
        None => {
            return None;
        },
    };
    let p1: usize = from + n1;
    if !(p1 < chars.len() && chars[p1] == '.') {
        return None;
    }
    let ghost s1 = s.skip(n1 + 1);
    assert(s1 == chars@.skip(p1 + 1));
    let (b, n2) = match read_octet(chars, p1 + 1) {
        Some(t) => t,
        None => {
            return None;
        },
    };
    let p2: usize = p1 + 1 + n2;
    if !(p2 < chars.len() && chars[p2] == '.') {
        return None;
    }
    let ghost s2 = s1.skip(n2 + 1);
    assert(s2 == chars@.skip(p2 + 1));
    let (c, n3) = match read_octet(chars, p2 + 1) {
        Some(t) => t,
        None => {
            return None;
        },
    };
    let p3: usize = p2 + 1 + n3;
    if !(p3 < chars.len() && chars[p3] == '.') {
        return None;
    }
    let ghost s3 = s2.skip(n3 + 1);
    assert(s3 == chars@.skip(p3 + 1));
    let (d, n4) = match read_octet(chars, p3 + 1) {
        Some(t) => t,
        None => {
            return None;
        },
    };
    let bytes: [u8; 4] = [a, b, c, d];
    Some((bytes, p3 + 1 + n4 - from))
}

/// Reads one group of hexadecimal digits at `chars[from..]`; gives it with the count of
/// its digits.
fn read_hex_group(chars: &Vec<char>, from: usize) -> (r: Option<(u16, usize)>)
    requires
        from <= chars.len(),
    ensures
        match r {
            Some((value, used)) => hex_group(chars@.skip(from as int)) == Some(
                Taken { value, used: used as int },
            ) && from + used <= chars.len(),
            None => hex_group(chars@.skip(from as int)) is None,
        },
{
    reveal(hex_group);
    let ghost body = chars@.skip(from as int);
    let mut acc: u32 = 0;
    let mut k: usize = 0;
    assert(body.skip(0) == body);
    while from + k < chars.len() && (('0' <= chars[from + k] && chars[from + k] <= '9') || ('a'
        <= chars[from + k] && chars[from + k] <= 'f') || ('A' <= chars[from + k] && chars[from + k]
        <= 'F'))
        invariant
            k <= 4,
            from + k <= chars.len(),
            body == chars@.skip(from as int),
            leading_hex_digits(body) == k + leading_hex_digits(body.skip(k as int)),
            acc == hex_value(body.take(k as int)),
            acc <= 0xffff,
            k <= 3 ==> acc <= 0xfff,
            k <= 2 ==> acc <= 0xff,
            k <= 1 ==> acc <= 0xf,
            k == 0 ==> acc == 0,
        decreases chars.len() - from - k,
    {
        let c = chars[from + k];
        assert(body.skip(k as int).skip(1) == body.skip(k + 1));
        if k == 4 {
            reveal(hex_group);
            return None;
        }
        assert(body.take(k + 1).drop_last() == body.take(k as int));
        let d: u32 = if '0' <= c && c <= '9' {
            c as u32 - '0' as u32
        } else if 'a' <= c && c <= 'f' {
            c as u32 - 'a' as u32 + 10
        } else {
            c as u32 - 'A' as u32 + 10
        };
        acc = acc * 16 + d;
        k += 1;
    }
    if k == 0 {
        None
    } else {
        Some((acc as u16, k))
    }
}

/// A run that goes on after the groups `front`, which took `used` characters.
pub open spec fn run_after(front: Seq<u16>, used: int, rest: GroupRun) -> GroupRun {
    GroupRun { groups: front + rest.groups, used: used + rest.used, quad: rest.quad }
}

/// Reads a run of at most `room` groups at `chars[from..]`; gives the groups, the
/// position after them, and whether the run ends in four bytes with points.
fn read_groups(chars: &Vec<char>, from: usize, room: usize) -> (r: (Vec<u16>, usize, bool))
    requires
        from <= chars.len(),
        room <= 8,
    ensures
        r.0@ == group_run(chars@.skip(from as int), room as nat, true).groups,
        r.1 == from + group_run(chars@.skip(from as int), room as nat, true).used,
        r.2 == group_run(chars@.skip(from as int), room as nat, true).quad,
        r.1 <= chars.len(),
        r.0.len() <= room,
{
    let ghost whole = group_run(chars@.skip(from as int), room as nat, true);
    let mut groups: Vec<u16> = Vec::new();
    let mut at: usize = from;
    while groups.len() < room
        invariant
            from <= at <= chars.len(),
            groups.len() <= room <= 8,
            whole == group_run(chars@.skip(from as int), room as nat, true),
            whole == run_after(
                groups@,
                at - from,
                group_run(
                    chars@.skip(at as int),
                    (room - groups.len()) as nat,
                    groups.len() == 0,
                ),
            ),
        decreases room - groups.len(),
    {
        let first = groups.len() == 0;
        let ghost here = chars@.skip(at as int);
        let ghost left = (room - groups.len()) as nat;
        if !first && !(at < chars.len() && chars[at] == ':') {
            return (groups, at, false);
        }
        let start: usize = if first {
            at
        } else {
            at + 1
        };
        let ghost body = chars@.skip(start as int);
        assert(body == here.skip(start - at));
        if room - groups.len() >= 2 {
            match read_quad(chars, start) {
                Some((bytes, used)) => {
                    let high: u16 = (bytes[0] as u16) * 256 + bytes[1] as u16;
                    let low: u16 = (bytes[2] as u16) * 256 + bytes[3] as u16;
                    let ghost before = groups@;
                    groups.push(high);
                    groups.push(low);
                    return (groups, start + used, true);
                },
                None => {},
            }
        }
        match read_hex_group(chars, start) {
            Some((group, used)) => {
                let ghost before = groups@;
                let ghost rest = group_run(body.skip(used as int), (left - 1) as nat, false);
                assert(body.skip(used as int) == chars@.skip(start + used));
                assert(before.push(group) + rest.groups == before + (seq![group] + rest.groups));
                groups.push(group);
                at = start + used;
            },
            None => {
                return (groups, at, false);
            },
        }
    }
    (groups, at, false)
}

/// The `i`-th of the eight groups that `head`, zeros and `tail` make.
fn group_of(head: &Vec<u16>, tail: &Vec<u16>, i: usize) -> (g: u16)
    requires
        head.len() + tail.len() <= 8,
        i < 8,
    ensures
        g == (head@ + zero_groups((8 - head.len() - tail.len()) as nat) + tail@)[i as int],
{
    if i < head.len() {
        head[i]
    } else if i >= 8 - tail.len() {
        tail[i - (8 - tail.len())]
    } else {
        0
    }
}

/// Reads a text as an internet address.
pub fn parse_ip(s: &str) -> (r: Option<IpAddress>)
    ensures
        r.deep_view() == ip_address(s@),
{
    let chars = chars_of(s);
    assert(chars@.skip(0) == chars@);
    match read_quad(&chars, 0) {
        Some((bytes, used)) => {
            if used == chars.len() {
                Some(IpAddress::V4(bytes))
            } else {
                None
            }
        },
        None => {
            let (head, at, quad) = read_groups(&chars, 0, 8);
            if head.len() == 8 {
                if at == chars.len() {
                    let groups: [u16; 8] = [
                        head[0],
                        head[1],
                        head[2],
                        head[3],
                        head[4],
                        head[5],
                        head[6],
                        head[7],
                    ];
                    assert(groups@ =~= head@);
                    Some(IpAddress::V6(groups))
                } else {
                    None
                }
            } else if quad || !(chars.len() - at >= 2 && chars[at] == ':' && chars[at + 1] == ':') {
                None
            } else {
                assert(chars@.skip(at as int).skip(2) == chars@.skip(at + 2));
                let (tail, end, _) = read_groups(&chars, at + 2, 7 - head.len());
                if end != chars.len() {
                    None
                } else {
                    let groups: [u16; 8] = [
                        group_of(&head, &tail, 0),
                        group_of(&head, &tail, 1),
                        group_of(&head, &tail, 2),
                        group_of(&head, &tail, 3),
                        group_of(&head, &tail, 4),
                        group_of(&head, &tail, 5),
                        group_of(&head, &tail, 6),
                        group_of(&head, &tail, 7),
                    ];
                    assert(groups@ =~= head@ + zero_groups((8 - head.len() - tail.len()) as nat)
                        + tail@);
                    Some(IpAddress::V6(groups))
                }
            }
        },
    }
}

} // verus!
