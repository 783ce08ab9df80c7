use vstd::prelude::*;

verus! {

/// An IPv4 address, octet by octet.
#[derive(Clone, Copy, Debug, PartialEq, Eq, Structural)]
pub struct Ipv4Addr {
    pub a: u8,
    pub b: u8,
    pub c: u8,
    pub d: u8,
}

/// An IPv6 address, 16-bit group by 16-bit group.
#[derive(Clone, Copy, Debug, PartialEq, Eq, Structural)]
pub struct Ipv6Addr {
    pub g0: u16,
    pub g1: u16,
    pub g2: u16,
    pub g3: u16,
    pub g4: u16,
    pub g5: u16,
    pub g6: u16,
    pub g7: u16,
}

#[derive(Clone, Copy, Debug, PartialEq, Eq, Structural)]
pub enum IpAddr {
    V4(Ipv4Addr),
    V6(Ipv6Addr),
}

/// An address and a port.
#[derive(Clone, Copy, Debug, PartialEq, Eq, Structural)]
pub struct SocketAddr {
    pub ip: IpAddr,
    pub port: u16,
}

impl Ipv4Addr {
    /// `0.0.0.0`, the address that stands for every local interface.
    pub fn unspecified() -> (a: Ipv4Addr)
        ensures
            a == (Ipv4Addr { a: 0, b: 0, c: 0, d: 0 }),
    {
        Ipv4Addr { a: 0, b: 0, c: 0, d: 0 }
    }

    /// Whether the address lies in `224.0.0.0/4`.
    #[verifier::when_used_as_spec(spec_is_multicast)]
    pub fn is_multicast(&self) -> (b: bool)
        ensures
            b == self.spec_is_multicast(),
    {
        self.a >= 224 && self.a <= 239
    }

    pub open spec fn spec_is_multicast(&self) -> bool {
        224 <= self.a <= 239
    }

    /// Whether the address is `255.255.255.255`.
    #[verifier::when_used_as_spec(spec_is_broadcast)]
    pub fn is_broadcast(&self) -> (b: bool)
        ensures
            b == self.spec_is_broadcast(),
    {
        self.a == 255 && self.b == 255 && self.c == 255 && self.d == 255
    }

    pub open spec fn spec_is_broadcast(&self) -> bool {
        *self == (Ipv4Addr { a: 255, b: 255, c: 255, d: 255 })
    }
}

impl Ipv6Addr {
    /// `::`, the address that stands for every local interface.
    pub fn unspecified() -> (a: Ipv6Addr)
        ensures
            a == (Ipv6Addr { g0: 0, g1: 0, g2: 0, g3: 0, g4: 0, g5: 0, g6: 0, g7: 0 }),
    {
        Ipv6Addr { g0: 0, g1: 0, g2: 0, g3: 0, g4: 0, g5: 0, g6: 0, g7: 0 }
    }

    /// Whether the address lies in `ff00::/8`.
    #[verifier::when_used_as_spec(spec_is_multicast)]
    pub fn is_multicast(&self) -> (b: bool)
        ensures
            b == self.spec_is_multicast(),
    {
        self.g0 >= 0xff00
    }

    pub open spec fn spec_is_multicast(&self) -> bool {
        self.g0 >= 0xff00
    }
}

impl IpAddr {
    pub fn is_ipv6(&self) -> (b: bool)
        ensures
            b == (*self is V6),
    {
        match self {
            IpAddr::V4(_) => false,
            IpAddr::V6(_) => true,
        }
    }
}

impl SocketAddr {
    pub fn new(ip: IpAddr, port: u16) -> (s: SocketAddr)
        ensures
            s == (SocketAddr { ip, port }),
    {
        SocketAddr { ip, port }
    }

    pub fn port(&self) -> (p: u16)
        ensures
            p == self.port,
    {
        self.port
    }
}

// ---------------------------------------------------------------------------
// Numbers
// ---------------------------------------------------------------------------
/// The value of `c` as a digit in base `base`, for bases up to 16.
pub open spec fn digit_value(c: char, base: nat) -> Option<nat> {
    let v: int = if '0' <= c && c <= '9' {
        c as int - '0' as int
    } else if 'a' <= c && c <= 'f' {
        c as int - 'a' as int + 10
    } else if 'A' <= c && c <= 'F' {
        c as int - 'A' as int + 10
    } else {
        16
    };
    if v < base {
        Some(v as nat)
    } else {
        None
    }
}

/// `s` is a non-empty run of digits in base `base`.
pub open spec fn is_number(s: Seq<char>, base: nat) -> bool {
    s.len() > 0 && forall|i: int| 0 <= i < s.len() ==> digit_value(#[trigger] s[i], base) is Some
}

/// What a run of digits stands for, the last digit counting ones.
pub open spec fn number_value(s: Seq<char>, base: nat) -> nat
    decreases s.len(),
{
    if s.len() == 0 {
        0
    } else {
        base * number_value(s.drop_last(), base) + digit_value(s.last(), base).unwrap()
    }
}

/// The port that a text stands for: digits with the value of at most 65535, after
/// a `+` or not.
pub open spec fn port_value(s: Seq<char>) -> Option<u16> {
    let digits = if s.len() > 0 && s[0] == '+' {
        s.skip(1)
    } else {
        s
    };
    if is_number(digits, 10) && number_value(digits, 10) <= 0xffff {
        Some(number_value(digits, 10) as u16)
    } else {
        None
    }
}

/// The octet that a text stands for: one to three digits with the value of at most
/// 255, with no zero in front of another digit.
pub open spec fn octet_value(s: Seq<char>) -> Option<u8> {
    if is_number(s, 10) && s.len() <= 3 && (s[0] == '0' ==> s.len() == 1) && number_value(s, 10)
        <= 255 {
        Some(number_value(s, 10) as u8)
    } else {
        None
    }
}

/// The 16-bit group that one to four hexadecimal digits stand for.
pub open spec fn group_value(s: Seq<char>) -> Option<u16> {
    if is_number(s, 16) && s.len() <= 4 && number_value(s, 16) <= 0xffff {
        Some(number_value(s, 16) as u16)
    } else {
        None
    }
}

fn digit(c: char, base: u32) -> (d: Option<u32>)
    requires
        base <= 16,
    ensures
        match digit_value(c, base as nat) {
            Some(v) => d == Some(v as u32) && v < base,
            None => d is None,
        },
{
    let v: u32 = if '0' <= c && c <= '9' {
        c as u32 - '0' as u32
    } else if 'a' <= c && c <= 'f' {
        c as u32 - 'a' as u32 + 10
    } else if 'A' <= c && c <= 'F' {
        c as u32 - 'A' as u32 + 10
    } else {
        16
    };
    if v < base {
        Some(v)
    } else {
        None
    }
}

proof fn lemma_number_grows(s: Seq<char>, n: int, base: nat)
    requires
        0 <= n <= s.len(),
        base >= 1,
    ensures
        number_value(s.take(n), base) <= number_value(s, base),
    decreases s.len(),
{
    if n == s.len() {
        assert(s.take(n) == s);
    } else {
        lemma_number_grows(s.drop_last(), n, base);
        assert(s.drop_last().take(n) == s.take(n));
        let rest = number_value(s.drop_last(), base);
        assert(base * rest >= rest) by (nonlinear_arith)
            requires
                base >= 1,
                rest >= 0,
        ;
    }
}

/// The number in base `base` that `s[from..to]` spells, where it spells one of at
/// most 65535.
fn number(s: &Vec<char>, from: usize, to: usize, base: u32) -> (r: Option<u32>)
    requires
        from <= to <= s@.len(),
        1 <= base <= 16,
    ensures
        ({
            let t = s@.subrange(from as int, to as int);
            match r {
                Some(v) => is_number(t, base as nat) && v == number_value(t, base as nat) && v
                    <= 0xffff,
                None => !is_number(t, base as nat) || number_value(t, base as nat) > 0xffff,
            }
        }),
{
    let ghost t = s@.subrange(from as int, to as int);
    if from == to {
        return None;
    }
    let mut i: usize = from;
    let mut v: u32 = 0;
    while i < to
        invariant
            from <= i <= to <= s@.len(),
            1 <= base <= 16,
            t == s@.subrange(from as int, to as int),
            v == number_value(t.take(i - from), base as nat),
            v <= 0xffff,
            forall|j: int|
                0 <= j < i - from ==> digit_value(#[trigger] t[j], base as nat) is Some,
        decreases to - i,
    {
        let ghost k = i - from;
        assert(t[k] == s@[i as int]);
        assert(t.take(k + 1).drop_last() == t.take(k));
        match digit(s[i], base) {
            Some(d) => {
                assert(base * v <= 16 * 0xffff) by (nonlinear_arith)
                    requires
                        base <= 16,
                        v <= 0xffff,
                ;
                v = base * v + d;
                assert(v == number_value(t.take(k + 1), base as nat));
                i += 1;
                if v > 0xffff {
                    proof {
                        lemma_number_grows(t, k + 1, base as nat);
                    }
                    return None;
                }
            },
            None => {
                return None;
            },
        }
    }
    assert(t.take(i - from) == t);
    Some(v)
}

/// The port that `s[from..to]` stands for.
pub fn parse_port(s: &Vec<char>, from: usize, to: usize) -> (r: Option<u16>)
    requires
        from <= to <= s@.len(),
    ensures
        r == port_value(s@.subrange(from as int, to as int)),
{
    let ghost t = s@.subrange(from as int, to as int);
    let start: usize = if from < to && s[from] == '+' {
        from + 1
    } else {
        from
    };
    proof {
        if from < to {
            assert(t[0] == s@[from as int]);
            assert(t.skip(1) == s@.subrange(from + 1, to as int));
        }
    }
    match number(s, start, to, 10) {
        Some(v) => Some(v as u16),
        None => None,
    }
}

fn parse_octet(s: &Vec<char>, from: usize, to: usize) -> (r: Option<u8>)
    requires
        from <= to <= s@.len(),
    ensures
        r == octet_value(s@.subrange(from as int, to as int)),
{
    let ghost t = s@.subrange(from as int, to as int);
    if from == to || to - from > 3 {
        return None;
    }
    assert(t[0] == s@[from as int]);
    if s[from] == '0' && to - from > 1 {
        return None;
    }
    match number(s, from, to, 10) {
        Some(v) => if v <= 255 {
            Some(v as u8)
        } else {
            None
        },
        None => None,
    }
}

fn parse_group(s: &Vec<char>, from: usize, to: usize) -> (r: Option<u16>)
    requires
        from <= to <= s@.len(),
    ensures
        r == group_value(s@.subrange(from as int, to as int)),
{
    if to - from > 4 {
        return None;
    }
    match number(s, from, to, 16) {
        Some(v) => Some(v as u16),
        None => None,
    }
}

// ---------------------------------------------------------------------------
// Pieces of a text
// ---------------------------------------------------------------------------
/// The position of the first `c` in `s`, or the length of `s` where there is none.
pub open spec fn first_of(s: Seq<char>, c: char) -> int
    decreases s.len(),
{
    if s.len() == 0 || s[0] == c {
        0
    } else {
        1 + first_of(s.skip(1), c)
    }
}

/// The position of the last `c` in `s`, or -1 where there is none.
pub open spec fn last_of(s: Seq<char>, c: char) -> int
    decreases s.len(),
{
    if s.len() == 0 {
        -1
    } else if s.last() == c {
        s.len() - 1
    } else {
        last_of(s.drop_last(), c)
    }
}

pub proof fn lemma_first_of(s: Seq<char>, c: char, i: int)
    requires
        0 <= i <= s.len(),
        forall|j: int| 0 <= j < i ==> s[j] != c,
        i < s.len() ==> s[i] == c,
    ensures
        first_of(s, c) == i,
    decreases s.len(),
{
    if i > 0 {
        assert forall|j: int| 0 <= j < i - 1 implies s.skip(1)[j] != c by {
            assert(s.skip(1)[j] == s[j + 1]);
        }
        lemma_first_of(s.skip(1), c, i - 1);
    }
}

pub proof fn lemma_last_of(s: Seq<char>, c: char, i: int)
    requires
        -1 <= i < s.len(),
        forall|j: int| i < j < s.len() ==> s[j] != c,
        i >= 0 ==> s[i] == c,
    ensures
        last_of(s, c) == i,
    decreases s.len(),
{
    if s.len() > 0 && i < s.len() - 1 {
        lemma_last_of(s.drop_last(), c, i);
    }
}

/// The position of the first `c` in `s[from..to]`, or `to`.
pub fn find(s: &Vec<char>, from: usize, to: usize, c: char) -> (i: usize)
    requires
        from <= to <= s@.len(),
    ensures
        from <= i <= to,
        i - from == first_of(s@.subrange(from as int, to as int), c),
        i < to ==> s@[i as int] == c,
{
    let ghost t = s@.subrange(from as int, to as int);
    let mut i: usize = from;
    while i < to
        invariant_except_break
            from <= i <= to <= s@.len(),
            t == s@.subrange(from as int, to as int),
            forall|j: int| 0 <= j < i - from ==> t[j] != c,
        ensures
            from <= i <= to,
            forall|j: int| 0 <= j < i - from ==> t[j] != c,
            i < to ==> t[i - from] == c,
        decreases to - i,
    {
        assert(t[i - from] == s@[i as int]);
        if s[i] == c {
            break;
        }
        i += 1;
    }
    proof {
        lemma_first_of(t, c, i - from);
    }
    i
}

/// The position of the last `c` in `s[from..to]`.
pub fn rfind(s: &Vec<char>, from: usize, to: usize, c: char) -> (r: Option<usize>)
    requires
        from <= to <= s@.len(),
    ensures
        match r {
            Some(i) => from <= i < to && i - from == last_of(
                s@.subrange(from as int, to as int),
                c,
            ),
            None => last_of(s@.subrange(from as int, to as int), c) == -1,
        },
{
    let ghost t = s@.subrange(from as int, to as int);
    let mut i: usize = to;
    while i > from
        invariant
            from <= i <= to <= s@.len(),
            t == s@.subrange(from as int, to as int),
            forall|j: int| i - from <= j < t.len() ==> t[j] != c,
        decreases i,
    {
        assert(t[i - 1 - from] == s@[i - 1]);
        if s[i - 1] == c {
            proof {
                lemma_last_of(t, c, i - 1 - from);
            }
            return Some(i - 1);
        }
        i -= 1;
    }
    proof {
        lemma_last_of(t, c, -1);
    }
    None
}

/// The pieces of `s` between the separators `c`: one more than there are separators.
pub open spec fn split(s: Seq<char>, c: char) -> Seq<Seq<char>>
    decreases s.len(),
    via split_terminates
{
    let i = first_of(s, c);
    if i < s.len() {
        seq![s.take(i)] + split(s.skip(i + 1), c)
    } else {
        seq![s]
    }
}

#[via_fn]
proof fn split_terminates(s: Seq<char>, c: char) {
    lemma_first_of_bounds(s, c);
}

pub proof fn lemma_first_of_bounds(s: Seq<char>, c: char)
    ensures
        0 <= first_of(s, c) <= s.len(),
    decreases s.len(),
{
    if s.len() > 0 && s[0] != c {
        lemma_first_of_bounds(s.skip(1), c);
    }
}

/// The bounds in `s` of each of the pieces of `s[from..to]`.
fn pieces(s: &Vec<char>, from: usize, to: usize, c: char) -> (r: Vec<(usize, usize)>)
    requires
        from <= to <= s@.len(),
    ensures
        pieces_at(s@, r@, split(s@.subrange(from as int, to as int), c)),
{
    let ghost whole = split(s@.subrange(from as int, to as int), c);
    let mut r: Vec<(usize, usize)> = Vec::new();
    let mut start: usize = from;
    let ghost mut done: Seq<Seq<char>> = Seq::empty();
    assert(done + split(s@.subrange(start as int, to as int), c) == whole);
    loop
        invariant
            from <= start <= to <= s@.len(),
            pieces_at(s@, r@, done),
            whole == split(s@.subrange(from as int, to as int), c),
            done + split(s@.subrange(start as int, to as int), c) == whole,
        decreases to - start,
    {
        let ghost t = s@.subrange(start as int, to as int);
        let i: usize = find(s, start, to, c);
        r.push((start, i));
        if i == to {
            proof {
                assert(split(t, c) == seq![t]);
                assert(done.push(t) == whole);
            }
            return r;
        }
        proof {
            let piece = t.take(i - start);
            assert(piece == s@.subrange(start as int, i as int));
            assert(t.skip(i - start + 1) == s@.subrange(i + 1, to as int));
            let rest = split(s@.subrange(i + 1, to as int), c);
            assert(done + (seq![piece] + rest) == done.push(piece) + rest);
            done = done.push(piece);
        }
        start = i + 1;
    }
}

/// `bounds` are the bounds in `s` of `texts`, one by one.
spec fn pieces_at(s: Seq<char>, bounds: Seq<(usize, usize)>, texts: Seq<Seq<char>>) -> bool {
    &&& bounds.len() == texts.len()
    &&& forall|i: int|
        0 <= i < bounds.len() ==> {
            let b = #[trigger] bounds[i];
            b.0 <= b.1 <= s.len() && s.subrange(b.0 as int, b.1 as int) == texts[i]
        }
}

// ---------------------------------------------------------------------------
// Addresses
// ---------------------------------------------------------------------------
/// The IPv4 address that a text stands for: four octets with dots between them.
pub open spec fn ipv4_value(s: Seq<char>) -> Option<Ipv4Addr> {
    let p = split(s, '.');
    if p.len() == 4 && octet_value(p[0]) is Some && octet_value(p[1]) is Some && octet_value(
        p[2],
    ) is Some && octet_value(p[3]) is Some {
        Some(
            Ipv4Addr {
                a: octet_value(p[0])->0,
                b: octet_value(p[1])->0,
                c: octet_value(p[2])->0,
                d: octet_value(p[3])->0,
            },
        )
    } else {
        None
    }
}

/// The groups that the last piece of an IPv6 address stands for: one, or the two of
/// an embedded IPv4 address where `v4` allows one.
pub open spec fn last_groups(s: Seq<char>, v4: bool) -> Option<Seq<u16>> {
    if v4 && ipv4_value(s) is Some {
        let q = ipv4_value(s)->0;
        Some(seq![(q.a * 256 + q.b) as u16, (q.c * 256 + q.d) as u16])
    } else if group_value(s) is Some {
        Some(seq![group_value(s)->0])
    } else {
        None
    }
}

/// The groups that the pieces of an IPv6 address stand for.
pub open spec fn piece_groups(p: Seq<Seq<char>>, v4: bool) -> Option<Seq<u16>> {
    if (forall|i: int| 0 <= i < p.len() - 1 ==> group_value(#[trigger] p[i]) is Some)
        && last_groups(p.last(), v4) is Some {
        Some(
            Seq::new((p.len() - 1) as nat, |i: int| group_value(p[i])->0) + last_groups(
                p.last(),
                v4,
            )->0,
        )
    } else {
        None
    }
}

/// The groups on one side of `::`, of which there may be none.
pub open spec fn side_groups(s: Seq<char>, v4: bool) -> Option<Seq<u16>> {
    if s.len() == 0 {
        Some(Seq::empty())
    } else {
        piece_groups(split(s, ':'), v4)
    }
}

/// The position of the first `::` in `s`, or the length of `s` where there is none.
pub open spec fn first_gap(s: Seq<char>) -> int
    decreases s.len(),
{
    if s.len() == 0 || (s.len() >= 2 && s[0] == ':' && s[1] == ':') {
        0
    } else {
        1 + first_gap(s.skip(1))
    }
}

/// The eight groups that a text stands for as an IPv6 address: eight groups with
/// colons between them, or at most seven with one `::` that fills up with zeros.
pub open spec fn ipv6_groups(s: Seq<char>) -> Option<Seq<u16>> {
    let i = first_gap(s);
    if i < s.len() {
        let head = side_groups(s.take(i), false);
        let tail = side_groups(s.skip(i + 2), true);
        if head is Some && tail is Some && head->0.len() + tail->0.len() <= 7 {
            Some(
                head->0 + Seq::new((8 - head->0.len() - tail->0.len()) as nat, |k: int| 0u16)
                    + tail->0,
            )
        } else {
            None
        }
    } else {
        let all = piece_groups(split(s, ':'), true);
        if all is Some && all->0.len() == 8 {
            all
        } else {
            None
        }
    }
}

pub open spec fn ipv6_of_groups(g: Seq<u16>) -> Ipv6Addr {
    Ipv6Addr {
        g0: g[0],
        g1: g[1],
        g2: g[2],
        g3: g[3],
        g4: g[4],
        g5: g[5],
        g6: g[6],
        g7: g[7],
    }
}

/// The IPv6 address that a text stands for.
pub open spec fn ipv6_value(s: Seq<char>) -> Option<Ipv6Addr> {
    match ipv6_groups(s) {
        Some(g) => Some(ipv6_of_groups(g)),
        None => None,
    }
}

/// The IPv4 address that `s[from..to]` stands for.
pub fn parse_ipv4(s: &Vec<char>, from: usize, to: usize) -> (r: Option<Ipv4Addr>)
    requires
        from <= to <= s@.len(),
    ensures
        r == ipv4_value(s@.subrange(from as int, to as int)),
{
    let p = pieces(s, from, to, '.');
    if p.len() != 4 {
        return None;
    }
    let a = parse_octet(s, p[0].0, p[0].1);
    let b = parse_octet(s, p[1].0, p[1].1);
    let c = parse_octet(s, p[2].0, p[2].1);
    let d = parse_octet(s, p[3].0, p[3].1);
    match (a, b, c, d) {
        (Some(a), Some(b), Some(c), Some(d)) => Some(Ipv4Addr { a, b, c, d }),
        _ => None,
    }
}

fn parse_side(s: &Vec<char>, from: usize, to: usize, v4: bool, whole: bool) -> (r: Option<
    Vec<u16>,
>)
    requires
        from <= to <= s@.len(),
    ensures
        ({
            let t = s@.subrange(from as int, to as int);
            let g = if whole {
                piece_groups(split(t, ':'), v4)
            } else {
                side_groups(t, v4)
            };
            match r {
                Some(v) => g == Some(v@),
                None => g is None,
            }
        }),
{
    let ghost t = s@.subrange(from as int, to as int);
    let mut g: Vec<u16> = Vec::new();
    if from == to && !whole {
        return Some(g);
    }
    let p = pieces(s, from, to, ':');
    let ghost texts = split(t, ':');
    proof {
        lemma_split_nonempty(t, ':');
    }
    let last: usize = p.len() - 1;
    let mut i: usize = 0;
    while i < last
        invariant
            i <= last,
            last == p@.len() - 1,
            from <= to <= s@.len(),
            t == s@.subrange(from as int, to as int),
            texts == split(t, ':'),
            whole || from < to,
            pieces_at(s@, p@, texts),
            g@.len() == i,
            forall|j: int|
                0 <= j < i ==> group_value(#[trigger] texts[j]) is Some && g@[j] == group_value(
                    texts[j],
                )->0,
        decreases last - i,
    {
        match parse_group(s, p[i].0, p[i].1) {
            Some(v) => {
                g.push(v);
            },
            None => {
                assert(group_value(texts[i as int]) is None);
                return None;
            },
        }
        i += 1;
    }
    assert(g@ =~= Seq::new((texts.len() - 1) as nat, |i: int| group_value(texts[i])->0));
    let ghost before = g@;
    let (lo, hi) = p[last];
    assert(texts.last() == s@.subrange(lo as int, hi as int));
    let quad = if v4 {
        parse_ipv4(s, lo, hi)
    } else {
        None
    };
    match quad {
        Some(q) => {
            g.push(q.a as u16 * 256 + q.b as u16);
            g.push(q.c as u16 * 256 + q.d as u16);
            assert(g@ =~= before + seq![(q.a * 256 + q.b) as u16, (q.c * 256 + q.d) as u16]);
            Some(g)
        },
        None => match parse_group(s, lo, hi) {
            Some(v) => {
                g.push(v);
                assert(g@ =~= before + seq![v]);
                Some(g)
            },
            None => None,
        },
    }
}

proof fn lemma_split_nonempty(s: Seq<char>, c: char)
    ensures
        split(s, c).len() >= 1,
{
}

proof fn lemma_first_gap(s: Seq<char>, i: int)
    requires
        0 <= i <= s.len(),
        forall|j: int| 0 <= j < i ==> !(j + 1 < s.len() && #[trigger] s[j] == ':' && s[j + 1] == ':'),
        i < s.len() ==> i + 1 < s.len() && s[i] == ':' && s[i + 1] == ':',
    ensures
        first_gap(s) == i,
    decreases s.len(),
{
    if i > 0 {
        let t = s.skip(1);
        assert forall|j: int| 0 <= j < i - 1 implies !(j + 1 < t.len() && #[trigger] t[j] == ':' && t[j
            + 1] == ':') by {
            assert(t[j] == s[j + 1]);
        }
        assert(!(0int + 1 < s.len() && s[0] == ':' && s[1] == ':'));
        lemma_first_gap(t, i - 1);
    }
}

fn find_gap(s: &Vec<char>, from: usize, to: usize) -> (i: usize)
    requires
        from <= to <= s@.len(),
    ensures
        from <= i <= to,
        i - from == first_gap(s@.subrange(from as int, to as int)),
        i < to ==> i + 1 < to,
{
    let ghost t = s@.subrange(from as int, to as int);
    let mut i: usize = from;
    while i < to
        invariant
            from <= i <= to <= s@.len(),
            t == s@.subrange(from as int, to as int),
            forall|j: int|
                0 <= j < i - from ==> !(j + 1 < t.len() && #[trigger] t[j] == ':' && t[j + 1]
                    == ':'),
        decreases to - i,
    {
        assert(t[i - from] == s@[i as int]);
        if s[i] == ':' && to - i > 1 && s[i + 1] == ':' {
            proof {
                assert(t[i - from + 1] == s@[i + 1]);
                lemma_first_gap(t, i - from);
            }
            return i;
        }
        i += 1;
    }
    proof {
        lemma_first_gap(t, i - from);
    }
    i
}

fn address_of(g: &Vec<u16>) -> (a: Ipv6Addr)
    requires
        g@.len() == 8,
    ensures
        a == ipv6_of_groups(g@),
{
    Ipv6Addr {
        g0: g[0],
        g1: g[1],
        g2: g[2],
        g3: g[3],
        g4: g[4],
        g5: g[5],
        g6: g[6],
        g7: g[7],
    }
}

/// The IPv6 address that `s[from..to]` stands for.
pub fn parse_ipv6(s: &Vec<char>, from: usize, to: usize) -> (r: Option<Ipv6Addr>)
    requires
        from <= to <= s@.len(),
    ensures
        r == ipv6_value(s@.subrange(from as int, to as int)),
{
    let ghost t = s@.subrange(from as int, to as int);
    let i: usize = find_gap(s, from, to);
    if i < to {
        assert(t.take(i - from) == s@.subrange(from as int, i as int));
        assert(t.skip(i - from + 2) == s@.subrange(i + 2, to as int));
        let head = parse_side(s, from, i, false, false);
        let tail = parse_side(s, i + 2, to, true, false);
        match (head, tail) {
            (Some(mut g), Some(mut h)) => {
                if g.len() > 7 || h.len() > 7 || g.len() + h.len() > 7 {
                    return None;
                }
                let ghost g0 = g@;
                let fill: usize = 8 - g.len() - h.len();
                let mut k: usize = 0;
                while k < fill
                    invariant
                        k <= fill,
                        g@ == g0 + Seq::new(k as nat, |k: int| 0u16),
                    decreases fill - k,
                {
                    g.push(0);
                    k += 1;
                }
                g.append(&mut h);
                Some(address_of(&g))
            },
            _ => None,
        }
    } else {
        match parse_side(s, from, to, true, true) {
            Some(g) => if g.len() == 8 {
                Some(address_of(&g))
            } else {
                None
            },
            None => None,
        }
    }
}

// ---------------------------------------------------------------------------
// Laws
// ---------------------------------------------------------------------------
/// A digit is a decimal one or, in base 16, a letter up to `f` in either case, and counts as it
/// does there.
pub proof fn digits_count_as_they_do(c: char)
    ensures
        digit_value(c, 10) is Some <==> '0' <= c && c <= '9',
        '0' <= c && c <= '9' ==> digit_value(c, 10)->0 == c as int - '0' as int && digit_value(
            c,
            16,
        ) == digit_value(c, 10),
        digit_value(c, 16) is Some <==> ('0' <= c && c <= '9') || ('a' <= c && c <= 'f') || ('A' <= c
            && c <= 'F'),
        'a' <= c && c <= 'f' ==> digit_value(c, 16)->0 == 10 + (c as int - 'a' as int),
        'A' <= c && c <= 'F' ==> digit_value(c, 16)->0 == 10 + (c as int - 'A' as int),
{
}

/// A number written in decimal digits is read as that number.
pub proof fn written_number_is_read(n: nat)
    ensures
        is_number(crate::text::decimal_text(n), 10),
        number_value(crate::text::decimal_text(n), 10) == n,
    decreases n,
{
    let t = crate::text::decimal_text(n);
    reveal_with_fuel(number_value, 2);
    if n < 10 {
        assert(t.drop_last() =~= Seq::<char>::empty());
        assert(digit_value(t[0], 10) == Some(n));
    } else {
        written_number_is_read(n / 10);
        let h = crate::text::decimal_text(n / 10);
        assert(t.drop_last() =~= h);
        assert(digit_value(t.last(), 10) == Some(n % 10));
        assert forall|i: int| 0 <= i < t.len() implies digit_value(#[trigger] t[i], 10) is Some by {
            if i < h.len() {
                assert(t[i] == h[i]);
            }
        }
    }
}

proof fn lemma_number_positive(s: Seq<char>)
    requires
        is_number(s, 10),
        s[0] != '0',
    ensures
        number_value(s, 10) > 0,
    decreases s.len(),
{
    reveal_with_fuel(number_value, 2);
    if s.len() == 1 {
        assert(digit_value(s[0], 10)->0 > 0);
    } else {
        let t = s.drop_last();
        assert forall|i: int| 0 <= i < t.len() implies digit_value(#[trigger] t[i], 10) is Some by {
            assert(s[i] == t[i]);
        }
        lemma_number_positive(t);
    }
}

/// Digits with no zero in front are how their number is written.
pub proof fn read_number_is_written(s: Seq<char>)
    requires
        is_number(s, 10),
        s[0] == '0' ==> s.len() == 1,
    ensures
        crate::text::decimal_text(number_value(s, 10)) == s,
    decreases s.len(),
{
    reveal_with_fuel(number_value, 2);
    let last = digit_value(s.last(), 10)->0;
    assert(digit_value(s[s.len() - 1], 10) is Some);
    assert(crate::text::digit_char(last) == s.last());
    let t = s.drop_last();
    if s.len() == 1 {
        assert(number_value(s, 10) == last);
        assert(crate::text::decimal_text(last) =~= s);
    } else {
        assert forall|i: int| 0 <= i < t.len() implies digit_value(#[trigger] t[i], 10) is Some by {
            assert(s[i] == t[i]);
        }
        read_number_is_written(t);
        lemma_number_positive(t);
        let v = number_value(t, 10);
        assert(number_value(s, 10) == 10 * v + last);
        assert((10 * v + last) / 10 == v && (10 * v + last) % 10 == last);
        assert(crate::text::decimal_text(number_value(s, 10)) =~= t.push(s.last()));
        assert(t.push(s.last()) =~= s);
    }
}

/// A port is read as it is written, up to 65535 and no further.
pub proof fn written_port_is_read(n: nat)
    ensures
        n <= 65535 ==> port_value(crate::text::decimal_text(n)) == Some(n as u16),
        n > 65535 ==> port_value(crate::text::decimal_text(n)) is None,
        port_value(Seq::empty()) is None,
{
    written_number_is_read(n);
    crate::text::digits_stand_for_the_number(n);
    assert('0' <= crate::text::decimal_text(n)[0]);
}

/// What is read as a port is digits, after a plus sign or not, and stands for that port.
pub proof fn only_digits_are_a_port(s: Seq<char>, i: int)
    requires
        port_value(s) is Some,
        0 <= i < s.len(),
    ensures
        '0' <= s[i] && s[i] <= '9' || (i == 0 && s[0] == '+'),
        '0' <= s.last() && s.last() <= '9',
{
    let digits = if s[0] == '+' { s.skip(1) } else { s };
    assert(digits.len() > 0);
    let k = if s[0] == '+' { i - 1 } else { i };
    if k >= 0 {
        assert(digits[k] == s[i]);
        assert(digit_value(digits[k], 10) is Some);
    }
    assert(digits[digits.len() - 1] == s.last());
    assert(digit_value(digits[digits.len() - 1], 10) is Some);
}

/// An octet is read exactly where it is written as numbers up to 255 are.
pub proof fn octets_are_read_as_written(n: nat, s: Seq<char>)
    ensures
        n <= 255 ==> octet_value(crate::text::decimal_text(n)) == Some(n as u8),
        n > 255 ==> octet_value(crate::text::decimal_text(n)) is None,
        octet_value(s) matches Some(v) ==> s == crate::text::decimal_text(v as nat),
{
    written_number_is_read(n);
    crate::text::digits_stand_for_the_number(n);
    if n <= 255 {
        reveal_with_fuel(crate::text::decimal_text, 4);
        assert(crate::text::decimal_text(n).len() <= 3);
    }
    if octet_value(s) is Some {
        read_number_is_written(s);
    }
}

/// Pieces, one after the other, with a separator between them.
pub open spec fn rejoined(p: Seq<Seq<char>>, c: char) -> Seq<char>
    decreases p.len(),
{
    if p.len() == 0 {
        Seq::empty()
    } else if p.len() == 1 {
        p[0]
    } else {
        p[0] + seq![c] + rejoined(p.skip(1), c)
    }
}

/// Splitting takes out the separators and nothing else.
pub proof fn pieces_make_the_text(s: Seq<char>, c: char)
    ensures
        rejoined(split(s, c), c) == s,
        split(s, c).len() >= 1,
    decreases s.len(),
{
    lemma_first_of_bounds(s, c);
    let i = first_of(s, c);
    if i < s.len() {
        let rest = split(s.skip(i + 1), c);
        pieces_make_the_text(s.skip(i + 1), c);
        assert(split(s, c).skip(1) =~= rest);
        assert(s[i] == c) by {
            lemma_at_first(s, c);
        }
        assert(s.take(i) + seq![c] + s.skip(i + 1) =~= s);
    }
}

proof fn lemma_at_first(s: Seq<char>, c: char)
    ensures
        first_of(s, c) < s.len() ==> s[first_of(s, c)] == c,
        forall|j: int| 0 <= j < first_of(s, c) ==> s[j] != c,
    decreases s.len(),
{
    lemma_first_of_bounds(s, c);
    if s.len() > 0 && s[0] != c {
        let t = s.skip(1);
        lemma_first_of_bounds(t, c);
        lemma_at_first(t, c);
        assert forall|j: int| 0 <= j < first_of(s, c) implies s[j] != c by {
            if j > 0 {
                assert(t[j - 1] == s[j]);
            }
        }
        if first_of(s, c) < s.len() {
            assert(t[first_of(t, c)] == s[first_of(s, c)]);
        }
    }
}

/// Pieces that do not hold the separator come back from what they make.
pub proof fn rejoined_pieces_come_back(p: Seq<Seq<char>>, c: char)
    requires
        p.len() >= 1,
        forall|i: int, j: int|
            0 <= i < p.len() && 0 <= j < p[i].len() ==> #[trigger] p[i][j] != c,
    ensures
        split(rejoined(p, c), c) == p,
    decreases p.len(),
{
    let s = rejoined(p, c);
    if p.len() == 1 {
        assert forall|j: int| 0 <= j < s.len() implies s[j] != c by {
            assert(p[0][j] != c);
        }
        lemma_first_of(s, c, s.len() as int);
        assert(split(s, c) =~= p);
    } else {
        let rest = p.skip(1);
        assert forall|i: int, j: int| 0 <= i < rest.len() && 0 <= j < rest[i].len() implies #[trigger] rest[i][j]
            != c by {
            assert(rest[i] == p[i + 1]);
            assert(p[i + 1][j] != c);
        }
        rejoined_pieces_come_back(rest, c);
        let n = p[0].len() as int;
        assert forall|j: int| 0 <= j < n implies s[j] != c by {
            assert(p[0][j] != c);
        }
        assert(s[n] == c);
        lemma_first_of(s, c, n);
        assert(s.take(n) =~= p[0]);
        assert(s.skip(n + 1) =~= rejoined(rest, c));
        assert(seq![p[0]] + rest =~= p);
    }
}

/// An IPv4 address as it is written: four octets with dots between them.
pub open spec fn ipv4_text(x: Ipv4Addr) -> Seq<char> {
    rejoined(ipv4_pieces(x), '.')
}

pub open spec fn ipv4_pieces(x: Ipv4Addr) -> Seq<Seq<char>> {
    seq![
        crate::text::decimal_text(x.a as nat),
        crate::text::decimal_text(x.b as nat),
        crate::text::decimal_text(x.c as nat),
        crate::text::decimal_text(x.d as nat),
    ]
}

/// An IPv4 address is read exactly where it is written as such an address is, and as that
/// address.
pub proof fn ipv4_addresses_are_read_as_written(x: Ipv4Addr, s: Seq<char>)
    ensures
        ipv4_value(ipv4_text(x)) == Some(x),
        ipv4_value(s) matches Some(y) ==> s == ipv4_text(y),
{
    let p = ipv4_pieces(x);
    octets_are_read_as_written(x.a as nat, s);
    octets_are_read_as_written(x.b as nat, s);
    octets_are_read_as_written(x.c as nat, s);
    octets_are_read_as_written(x.d as nat, s);
    assert forall|i: int, j: int| 0 <= i < p.len() && 0 <= j < p[i].len() implies #[trigger] p[i][j]
        != '.' by {
        crate::text::digits_stand_for_the_number(x.a as nat);
        crate::text::digits_stand_for_the_number(x.b as nat);
        crate::text::digits_stand_for_the_number(x.c as nat);
        crate::text::digits_stand_for_the_number(x.d as nat);
    }
    rejoined_pieces_come_back(p, '.');
    if ipv4_value(s) is Some {
        let q = split(s, '.');
        let y = ipv4_value(s)->0;
        octets_are_read_as_written(0, q[0]);
        octets_are_read_as_written(0, q[1]);
        octets_are_read_as_written(0, q[2]);
        octets_are_read_as_written(0, q[3]);
        assert(q =~= ipv4_pieces(y));
        pieces_make_the_text(s, '.');
    }
}

/// One to four hexadecimal digits.
pub open spec fn is_hex_group(s: Seq<char>) -> bool {
    1 <= s.len() <= 4 && is_number(s, 16)
}

/// A group of an IPv6 address is one to four hexadecimal digits, and any such are one.
pub proof fn hex_groups_are_read(s: Seq<char>)
    ensures
        group_value(s) is Some <==> is_hex_group(s),
        group_value(s) matches Some(v) ==> v == number_value(s, 16),
{
    if is_hex_group(s) {
        lemma_hex_bound(s);
    }
}

proof fn lemma_hex_bound(s: Seq<char>)
    requires
        is_number(s, 16),
        s.len() <= 4,
    ensures
        number_value(s, 16) <= 0xffff,
        s.len() <= 3 ==> number_value(s, 16) <= 0xfff,
        s.len() <= 2 ==> number_value(s, 16) <= 0xff,
        s.len() <= 1 ==> number_value(s, 16) <= 0xf,
    decreases s.len(),
{
    reveal_with_fuel(number_value, 2);
    assert(digit_value(s[s.len() - 1], 16) is Some);
    if s.len() > 1 {
        let t = s.drop_last();
        assert forall|i: int| 0 <= i < t.len() implies digit_value(#[trigger] t[i], 16) is Some by {
            assert(s[i] == t[i]);
        }
        lemma_hex_bound(t);
    }
}

proof fn lemma_hex_is_plain(s: Seq<char>)
    requires
        is_hex_group(s),
    ensures
        forall|j: int| 0 <= j < s.len() ==> #[trigger] s[j] != ':' && s[j] != '.',
        ipv4_value(s) is None,
        is_piece(s),
{
    assert forall|j: int| 0 <= j < s.len() implies #[trigger] s[j] != ':' && s[j] != '.' by {
        assert(digit_value(s[j], 16) is Some);
    }
    lemma_first_of(s, '.', s.len() as int);
    assert(split(s, '.').len() == 1);
}

proof fn lemma_hex_pieces(p: Seq<Seq<char>>, v4: bool)
    requires
        p.len() >= 1,
        forall|i: int| 0 <= i < p.len() ==> is_hex_group(#[trigger] p[i]),
    ensures
        split(rejoined(p, ':'), ':') == p,
        piece_groups(p, v4) matches Some(g) && g.len() == p.len() && forall|i: int|
            0 <= i < p.len() ==> #[trigger] g[i] == number_value(p[i], 16),
{
    assert forall|i: int, j: int| 0 <= i < p.len() && 0 <= j < p[i].len() implies #[trigger] p[i][j]
        != ':' by {
        lemma_hex_is_plain(p[i]);
    }
    rejoined_pieces_come_back(p, ':');
    assert forall|i: int| 0 <= i < p.len() implies group_value(#[trigger] p[i]) is Some
        && group_value(p[i])->0 == number_value(p[i], 16) by {
        hex_groups_are_read(p[i]);
    }
    lemma_hex_is_plain(p.last());
    assert(p.last() == p[p.len() - 1]);
    hex_groups_are_read(p.last());
    assert(last_groups(p.last(), v4) == Some(seq![group_value(p.last())->0]));
}

/// Some characters, none of them a colon.
spec fn is_piece(s: Seq<char>) -> bool {
    s.len() > 0 && forall|j: int| 0 <= j < s.len() ==> #[trigger] s[j] != ':'
}

proof fn lemma_no_gap(p: Seq<Seq<char>>)
    requires
        p.len() >= 1,
        forall|i: int| 0 <= i < p.len() ==> is_piece(#[trigger] p[i]),
    ensures
        ({
            let s = rejoined(p, ':');
            &&& s.len() > 0
            &&& s[0] != ':'
            &&& s.last() != ':'
            &&& forall|j: int| 0 <= j < s.len() - 1 ==> !(#[trigger] s[j] == ':' && s[j + 1] == ':')
        }),
    decreases p.len(),
{
    let s = rejoined(p, ':');
    assert(is_piece(p[0]));
    if p.len() > 1 {
        let rest = p.skip(1);
        assert forall|i: int| 0 <= i < rest.len() implies is_piece(#[trigger] rest[i]) by {
            assert(rest[i] == p[i + 1]);
        }
        lemma_no_gap(rest);
        let t = rejoined(rest, ':');
        let n = p[0].len() as int;
        assert(s == p[0] + seq![':'] + t);
        assert forall|j: int| 0 <= j < s.len() - 1 implies !(#[trigger] s[j] == ':' && s[j + 1]
            == ':') by {
            if j < n {
                assert(s[j] == p[0][j]);
            } else if j == n {
                assert(s[j + 1] == t[0]);
            } else {
                assert(s[j] == t[j - n - 1]);
                assert(s[j + 1] == t[j - n]);
            }
        }
        assert(s.last() == t.last());
    } else {
        assert(s == p[0]);
        assert(s.last() == p[0][s.len() - 1]);
    }
}

/// Eight groups with colons between them are the IPv6 address of these groups; any other number
/// of groups, with no `::` among them, is none.
pub proof fn eight_groups_are_an_ipv6_address(p: Seq<Seq<char>>)
    requires
        p.len() >= 1,
        forall|i: int| 0 <= i < p.len() ==> is_hex_group(#[trigger] p[i]),
    ensures
        p.len() == 8 ==> (ipv6_value(rejoined(p, ':')) matches Some(x) && x.g0 == number_value(
            p[0],
            16,
        ) && x.g1 == number_value(p[1], 16) && x.g2 == number_value(p[2], 16) && x.g3
            == number_value(p[3], 16) && x.g4 == number_value(p[4], 16) && x.g5 == number_value(
            p[5],
            16,
        ) && x.g6 == number_value(p[6], 16) && x.g7 == number_value(p[7], 16)),
        p.len() != 8 ==> ipv6_value(rejoined(p, ':')) is None,
{
    let s = rejoined(p, ':');
    assert forall|i: int| 0 <= i < p.len() implies is_piece(#[trigger] p[i]) by {
        lemma_hex_is_plain(p[i]);
    }
    lemma_no_gap(p);
    lemma_first_gap(s, s.len() as int);
    lemma_hex_pieces(p, true);
}

/// One `::` stands for the zeros that are missing between the groups before it and those after
/// it, one at least.
pub proof fn gap_fills_up_with_zeros(p: Seq<Seq<char>>, q: Seq<Seq<char>>, k: int)
    requires
        forall|i: int| 0 <= i < p.len() ==> is_hex_group(#[trigger] p[i]),
        forall|i: int| 0 <= i < q.len() ==> is_hex_group(#[trigger] q[i]),
        0 <= k < 8,
    ensures
        ({
            let s = rejoined(p, ':') + seq![':', ':'] + rejoined(q, ':');
            &&& p.len() + q.len() > 7 ==> ipv6_value(s) is None
            &&& p.len() + q.len() <= 7 ==> ipv6_value(s) is Some && (ipv6_groups(s) matches Some(g)
                && g.len() == 8 && ipv6_value(s) == Some(ipv6_of_groups(g)) && (k < p.len()
                ==> g[k] == number_value(p[k], 16)) && (p.len() <= k < 8 - q.len() ==> g[k] == 0)
                && (k >= 8 - q.len() ==> g[k] == number_value(q[k - (8 - q.len())], 16)))
        }),
{
    let a = rejoined(p, ':');
    let b = rejoined(q, ':');
    let s = a + seq![':', ':'] + b;
    let n = a.len() as int;
    assert forall|i: int| 0 <= i < p.len() implies is_piece(#[trigger] p[i]) by {
        lemma_hex_is_plain(p[i]);
    }
    assert forall|i: int| 0 <= i < q.len() implies is_piece(#[trigger] q[i]) by {
        lemma_hex_is_plain(q[i]);
    }
    if p.len() > 0 {
        lemma_no_gap(p);
        lemma_hex_pieces(p, false);
    }
    if q.len() > 0 {
        lemma_no_gap(q);
        lemma_hex_pieces(q, true);
    }
    assert forall|j: int| 0 <= j < n implies !(j + 1 < s.len() && #[trigger] s[j] == ':' && s[j + 1]
        == ':') by {
        assert(s[j] == a[j]);
        if j == n - 1 {
            assert(a[j] == a.last());
        } else {
            assert(s[j + 1] == a[j + 1]);
        }
    }
    lemma_first_gap(s, n);
    assert(s.take(n) =~= a);
    assert(s.skip(n + 2) =~= b);
    if p.len() + q.len() <= 7 {
        let g = ipv6_groups(s)->0;
        let h = side_groups(a, false)->0;
        let t = side_groups(b, true)->0;
        assert(h.len() == p.len() && t.len() == q.len());
        assert(g.len() == 8);
    }
}

/// An IPv4 address is written in digits and dots.
pub proof fn written_ipv4_address_is_digits_and_dots(x: Ipv4Addr)
    ensures
        ipv4_text(x).len() > 0,
        forall|j: int|
            0 <= j < ipv4_text(x).len() ==> ('0' <= #[trigger] ipv4_text(x)[j] && ipv4_text(x)[j]
                <= '9') || ipv4_text(x)[j] == '.',
{
    let a = crate::text::decimal_text(x.a as nat);
    let b = crate::text::decimal_text(x.b as nat);
    let c = crate::text::decimal_text(x.c as nat);
    let d = crate::text::decimal_text(x.d as nat);
    crate::text::digits_stand_for_the_number(x.a as nat);
    crate::text::digits_stand_for_the_number(x.b as nat);
    crate::text::digits_stand_for_the_number(x.c as nat);
    crate::text::digits_stand_for_the_number(x.d as nat);
    let dot = seq!['.'];
    let p = ipv4_pieces(x);
    reveal_with_fuel(rejoined, 4);
    assert(p.skip(1) =~= seq![b, c, d]);
    assert(p.skip(1).skip(1) =~= seq![c, d]);
    assert(p.skip(1).skip(1).skip(1) =~= seq![d]);
    assert(ipv4_text(x) == a + dot + (b + dot + (c + dot + d)));
}

/// An IPv4 address may stand for the last two groups of an IPv6 address.
pub proof fn last_groups_may_be_an_ipv4_address(p: Seq<Seq<char>>, x: Ipv4Addr)
    requires
        p.len() == 6,
        forall|i: int| 0 <= i < p.len() ==> is_hex_group(#[trigger] p[i]),
    ensures
        ipv6_value(rejoined(p.push(ipv4_text(x)), ':')) matches Some(y) && y.g0 == number_value(
            p[0],
            16,
        ) && y.g5 == number_value(p[5], 16) && y.g6 == x.a * 256 + x.b && y.g7 == x.c * 256 + x.d,
{
    let q = p.push(ipv4_text(x));
    let s = rejoined(q, ':');
    written_ipv4_address_is_digits_and_dots(x);
    assert(is_piece(ipv4_text(x)));
    ipv4_addresses_are_read_as_written(x, s);
    assert forall|i: int| 0 <= i < q.len() implies is_piece(#[trigger] q[i]) by {
        if i < 6 {
            assert(q[i] == p[i]);
            lemma_hex_is_plain(p[i]);
        }
    }
    lemma_no_gap(q);
    lemma_first_gap(s, s.len() as int);
    assert forall|i: int, j: int| 0 <= i < q.len() && 0 <= j < q[i].len() implies #[trigger] q[i][j]
        != ':' by {
        assert(is_piece(q[i]));
    }
    rejoined_pieces_come_back(q, ':');
    assert forall|i: int| 0 <= i < 6 implies group_value(#[trigger] q[i]) is Some && group_value(
        q[i],
    )->0 == number_value(p[i], 16) by {
        assert(q[i] == p[i]);
        hex_groups_are_read(p[i]);
    }
    assert(piece_groups(q, true) is Some);
}

/// The address ranges: multicast is 224 to 239 in front, or `ff` in IPv6; broadcast is all ones.
pub proof fn ranges_are_known(
    x: Ipv4Addr,
    m: bool,
    b: bool,
    y: Ipv6Addr,
    n: bool,
    ip: IpAddr,
    six: bool,
    zero: Ipv4Addr,
    zero6: Ipv6Addr,
    port: u16,
    at: SocketAddr,
    p: u16,
)
    requires
        call_ensures(Ipv4Addr::is_multicast, (&x,), m),
        call_ensures(Ipv4Addr::is_broadcast, (&x,), b),
        call_ensures(Ipv6Addr::is_multicast, (&y,), n),
        call_ensures(IpAddr::is_ipv6, (&ip,), six),
        call_ensures(Ipv4Addr::unspecified, (), zero),
        call_ensures(Ipv6Addr::unspecified, (), zero6),
        call_ensures(SocketAddr::new, (ip, port), at),
        call_ensures(SocketAddr::port, (&at,), p),
    ensures
        m <==> 224 <= x.a <= 239,
        b <==> x.a == 255 && x.b == 255 && x.c == 255 && x.d == 255,
        n <==> y.g0 / 256 == 255,
        six <==> ip is V6,
        zero.a == 0 && zero.b == 0 && zero.c == 0 && zero.d == 0,
        zero6.g0 == 0 && zero6.g1 == 0 && zero6.g2 == 0 && zero6.g3 == 0 && zero6.g4 == 0
            && zero6.g5 == 0 && zero6.g6 == 0 && zero6.g7 == 0,
        at.ip == ip && p == port,
{
}

/// Addresses, ports and positions are read from within a longer text.
pub proof fn parts_of_a_text_are_read(
    s: &Vec<char>,
    from: usize,
    to: usize,
    c: char,
    port: Option<u16>,
    v4: Option<Ipv4Addr>,
    v6: Option<Ipv6Addr>,
    first: usize,
    last: Option<usize>,
    k: int,
)
    requires
        from <= to <= s@.len(),
        call_ensures(parse_port, (s, from, to), port),
        call_ensures(parse_ipv4, (s, from, to), v4),
        call_ensures(parse_ipv6, (s, from, to), v6),
        call_ensures(find, (s, from, to, c), first),
        call_ensures(rfind, (s, from, to, c), last),
        from <= k < to,
    ensures
        port == port_value(s@.subrange(from as int, to as int)),
        v4 == ipv4_value(s@.subrange(from as int, to as int)),
        v6 == ipv6_value(s@.subrange(from as int, to as int)),
        s@[k] == c ==> first <= k && (last matches Some(l) && l >= k),
        first < to ==> s@[first as int] == c,
        last matches Some(l) ==> from <= l < to && s@[l as int] == c,
{
    let t = s@.subrange(from as int, to as int);
    lemma_at_first(t, c);
    lemma_at_last(t, c);
    assert(t[k - from] == s@[k]);
    if last is Some {
        assert(t[last->0 - from] == s@[last->0 as int]);
    }
}

proof fn lemma_at_last(s: Seq<char>, c: char)
    ensures
        -1 <= last_of(s, c) < s.len(),
        last_of(s, c) >= 0 ==> s[last_of(s, c)] == c,
        forall|j: int| last_of(s, c) < j < s.len() ==> s[j] != c,
    decreases s.len(),
{
    if s.len() > 0 && s.last() != c {
        lemma_at_last(s.drop_last(), c);
        assert forall|j: int| last_of(s, c) < j < s.len() implies s[j] != c by {
            if j < s.len() - 1 {
                assert(s.drop_last()[j] == s[j]);
            }
        }
    }
}

} // verus!
