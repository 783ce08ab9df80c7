use vstd::prelude::*;
use vstd::string::*;

verus! {

/// The characters of a text, in order.
pub fn chars_of(s: &str) -> (v: Vec<char>)
    ensures
        v@ == s@,
{
    let n: usize = s.unicode_len();
    let mut v: Vec<char> = Vec::new();
    let mut i: usize = 0;
    while i < n
        invariant
            i <= n,
            n == s@.len(),
            v@ == s@.take(i as int),
        decreases n - i,
    {
        v.push(s.get_char(i));
        i += 1;
    }
    v
}

/// Two texts, one after the other.
pub fn joined(first: &str, second: &str) -> (s: String)
    ensures
        s@ == first@ + second@,
{
    let mut s: String = first.to_owned();
    s.append(second);
    s
}

/// Whether two texts are the same.
pub fn same_text(a: &str, b: &str) -> (r: bool)
    ensures
        r == (a@ == b@),
{
    a.to_owned() == b.to_owned()
}

/// `s` starts with `prefix`.
pub open spec fn has_prefix(s: Seq<char>, prefix: Seq<char>) -> bool {
    prefix.len() <= s.len() && s.take(prefix.len() as int) == prefix
}

/// What follows `prefix` in `s`, where `s` starts with it.
pub fn strip_prefix<'a>(s: &'a str, prefix: &str) -> (rest: Option<&'a str>)
    ensures
        rest is Some <==> has_prefix(s@, prefix@),
        rest matches Some(t) ==> t@ == s@.skip(prefix@.len() as int),
{
    let n: usize = s.unicode_len();
    let k: usize = prefix.unicode_len();
    if k > n {
        return None;
    }
    let head = s.substring_char(0, k);
    if same_text(head, prefix) {
        Some(s.substring_char(k, n))
    } else {
        None
    }
}

/// `part` occurs in `s`.
pub open spec fn contains_part(s: Seq<char>, part: Seq<char>) -> bool {
    exists|i: int| is_at(s, part, i)
}

/// `part` occurs in `s` from position `i` on.
pub open spec fn is_at(s: Seq<char>, part: Seq<char>, i: int) -> bool {
    0 <= i <= s.len() - part.len() && s.subrange(i, i + part.len()) == part
}

/// Whether a text occurs in another.
pub fn contains_text(s: &str, part: &str) -> (b: bool)
    ensures
        b == contains_part(s@, part@),
{
    let n: usize = s.unicode_len();
    let k: usize = part.unicode_len();
    if k > n {
        return false;
    }
    let mut i: usize = 0;
    while i <= n - k
        invariant
            k <= n,
            i <= n - k + 1,
            n == s@.len(),
            k == part@.len(),
            forall|j: int| 0 <= j < i ==> !is_at(s@, part@, j),
        decreases n - k + 1 - i,
    {
        if same_text(s.substring_char(i, i + k), part) {
            assert(is_at(s@, part@, i as int));
            return true;
        }
        assert(!is_at(s@, part@, i as int));
        if i == n - k {
            return false;
        }
        i += 1;
    }
    false
}

/// The character of a decimal digit.
pub open spec fn digit_char(d: nat) -> char {
    (('0' as nat) + d) as char
}

/// A number in decimal digits.
pub open spec fn decimal_text(n: nat) -> Seq<char>
    decreases n,
{
    if n < 10 {
        seq![digit_char(n)]
    } else {
        decimal_text(n / 10).push(digit_char(n % 10))
    }
}

fn digit_text(d: usize) -> (s: &'static str)
    requires
        d < 10,
    ensures
        s@ == seq![digit_char(d as nat)],
{
    proof {
        reveal_strlit("0");
        reveal_strlit("1");
        reveal_strlit("2");
        reveal_strlit("3");
        reveal_strlit("4");
        reveal_strlit("5");
        reveal_strlit("6");
        reveal_strlit("7");
        reveal_strlit("8");
        reveal_strlit("9");
    }
    let s = match d {
        0 => "0",
        1 => "1",
        2 => "2",
        3 => "3",
        4 => "4",
        5 => "5",
        6 => "6",
        7 => "7",
        8 => "8",
        _ => "9",
    };
    assert(s@ =~= seq![digit_char(d as nat)]);
    s
}

/// Writes a number in decimal digits.
pub fn decimal(n: usize) -> (s: String)
    ensures
        s@ == decimal_text(n as nat),
    decreases n,
{
    if n < 10 {
        digit_text(n).to_owned()
    } else {
        let mut s = decimal(n / 10);
        s.append(digit_text(n % 10));
        assert(s@ =~= decimal_text((n / 10) as nat).push(digit_char((n % 10) as nat)));
        s
    }
}

/// Bytes as a list of numbers, with commas between them.
pub open spec fn listed_bytes(bytes: Seq<u8>) -> Seq<char>
    decreases bytes.len(),
{
    if bytes.len() == 0 {
        Seq::empty()
    } else if bytes.len() == 1 {
        decimal_text(bytes[0] as nat)
    } else {
        listed_bytes(bytes.drop_last()) + ", "@ + decimal_text(bytes.last() as nat)
    }
}

/// Writes bytes as a list of numbers in square brackets.
pub fn bytes_text(bytes: &Vec<u8>) -> (s: String)
    ensures
        s@ == "["@ + listed_bytes(bytes@) + "]"@,
{
    let mut s = "[".to_owned();
    let mut i: usize = 0;
    assert(bytes@.take(0) =~= Seq::empty());
    assert("["@ + Seq::<char>::empty() =~= "["@);
    while i < bytes.len()
        invariant
            i <= bytes@.len(),
            s@ == "["@ + listed_bytes(bytes@.take(i as int)),
        decreases bytes@.len() - i,
    {
        assert(bytes@.take(i + 1).drop_last() =~= bytes@.take(i as int));
        if i > 0 {
            s.append(", ");
        }
        s.append(decimal(bytes[i] as usize).as_str());
        assert(s@ =~= "["@ + listed_bytes(bytes@.take(i + 1)));
        i += 1;
    }
    assert(bytes@.take(i as int) =~= bytes@);
    s.append("]");
    s
}

// ---------------------------------------------------------------------------
// Laws
// ---------------------------------------------------------------------------
/// The number that decimal digits stand for.
pub open spec fn decimal_value(digits: Seq<char>) -> int
    decreases digits.len(),
{
    if digits.len() == 0 {
        0
    } else {
        10 * decimal_value(digits.drop_last()) + (digits.last() as int - '0' as int)
    }
}

/// The digits of a number stand for that number, are all digits, and do not begin with a zero
/// unless the number is zero; so no two numbers are written alike.
pub proof fn digits_stand_for_the_number(n: nat)
    ensures
        decimal_value(decimal_text(n)) == n,
        decimal_text(n).len() > 0,
        forall|i: int|
            0 <= i < decimal_text(n).len() ==> '0' <= #[trigger] decimal_text(n)[i] <= '9',
        n > 0 ==> decimal_text(n)[0] != '0',
    decreases n,
{
    reveal_with_fuel(decimal_value, 2);
    if n < 10 {
        assert(decimal_text(n).drop_last() =~= Seq::<char>::empty());
    } else {
        digits_stand_for_the_number(n / 10);
        assert(decimal_text(n).drop_last() =~= decimal_text(n / 10));
        assert forall|i: int| 0 <= i < decimal_text(n).len() implies '0' <= #[trigger] decimal_text(
            n,
        )[i] <= '9' by {
            if i < decimal_text(n / 10).len() {
                assert(decimal_text(n)[i] == decimal_text(n / 10)[i]);
            }
        }
    }
}

/// Texts are taken apart, joined, compared and written out as they are.
pub proof fn texts_are_taken_as_they_are(
    s: &str,
    v: Vec<char>,
    t: &str,
    both: String,
    same: bool,
    n: usize,
    digits: String,
)
    requires
        call_ensures(chars_of, (s,), v),
        call_ensures(joined, (s, t), both),
        call_ensures(same_text, (s, t), same),
        call_ensures(decimal, (n,), digits),
    ensures
        v@ == s@,
        both@.len() == s@.len() + t@.len(),
        both@.take(s@.len() as int) == s@,
        both@.skip(s@.len() as int) == t@,
        same <==> s@ == t@,
        decimal_value(digits@) == n,
{
    digits_stand_for_the_number(n as nat);
    assert(both@.take(s@.len() as int) =~= s@);
    assert(both@.skip(s@.len() as int) =~= t@);
}

/// A prefix is taken off exactly where the text begins with it, and leaves the rest.
pub proof fn prefix_and_rest_are_the_text<'a>(s: &'a str, prefix: &str, r: Option<&'a str>, rest: Seq<char>)
    requires
        call_ensures(strip_prefix, (s, prefix), r),
    ensures
        r matches Some(t) ==> s@ == prefix@ + t@,
        s@ == prefix@ + rest ==> (r matches Some(t) && t@ == rest),
        has_prefix(s@, prefix@) <==> exists|x: Seq<char>| s@ == prefix@ + x,
{
    let n = prefix@.len() as int;
    if has_prefix(s@, prefix@) {
        assert(s@ =~= prefix@ + s@.skip(n));
    }
    assert forall|x: Seq<char>| s@ == prefix@ + x implies has_prefix(s@, prefix@) && s@.skip(n)
        == x by {
        assert((prefix@ + x).take(n) =~= prefix@);
        assert((prefix@ + x).skip(n) =~= x);
    }
}

/// A text occurs in another exactly where the other is that text with something, or nothing, on
/// either side.
pub proof fn part_stands_between_the_rest(s: &str, part: &str, b: bool, before: Seq<char>, after: Seq<char>)
    requires
        call_ensures(contains_text, (s, part), b),
    ensures
        s@ == before + part@ + after ==> b,
        b ==> exists|x: Seq<char>, y: Seq<char>| s@ == #[trigger] (x + part@ + y),
{
    if s@ == before + part@ + after {
        assert(s@.subrange(before.len() as int, (before.len() + part@.len()) as int) =~= part@);
        assert(is_at(s@, part@, before.len() as int));
    }
    if b {
        let i = choose|i: int| is_at(s@, part@, i);
        assert(s@ =~= s@.take(i) + part@ + s@.skip(i + part@.len()));
    }
}

/// Bytes are listed in square brackets.
pub proof fn bytes_are_listed_in_brackets(bytes: &Vec<u8>, s: String)
    requires
        call_ensures(bytes_text, (bytes,), s),
    ensures
        s@.len() >= 2,
        s@[0] == '[' && s@.last() == ']',
        bytes@.len() == 1 ==> decimal_value(s@.subrange(1, s@.len() - 1)) == bytes@[0],
{
    reveal_strlit("[");
    reveal_strlit("]");
    if bytes@.len() == 1 {
        digits_stand_for_the_number(bytes@[0] as nat);
        assert(s@.subrange(1, s@.len() - 1) =~= decimal_text(bytes@[0] as nat));
    }
}

} // verus!
