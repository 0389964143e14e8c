//! Texts: numbers in decimal, the pieces of a path, joining and prefixes.

use vstd::prelude::*;
use vstd::string::*;

verus! {

/// The character of a decimal digit.
pub open spec fn digit_char(d: int) -> char {
    if d == 0 {
        '0'
    } else if d == 1 {
        '1'
    } else if d == 2 {
        '2'
    } else if d == 3 {
        '3'
    } else if d == 4 {
        '4'
    } else if d == 5 {
        '5'
    } else if d == 6 {
        '6'
    } else if d == 7 {
        '7'
    } else if d == 8 {
        '8'
    } else {
        '9'
    }
}

/// A natural number in decimal, without leading zeros.
pub open spec fn nat_text(n: nat) -> Seq<char>
    decreases n,
{
    if n < 10 {
        seq![digit_char(n as int)]
    } else {
        nat_text(n / 10).push(digit_char((n % 10) as int))
    }
}

/// An integer in decimal, with a minus sign in front where it is negative.
pub open spec fn int_text(n: int) -> Seq<char> {
    if n < 0 {
        seq!['-'] + nat_text((-n) as nat)
    } else {
        nat_text(n as nat)
    }
}

/// Where the last piece of a `/`-separated text begins, looking at its first
/// `n` characters: behind the last `/` among them, or at 0.
pub open spec fn segment_start(s: Seq<char>, n: nat) -> nat
    decreases n,
{
    if n == 0 || n > s.len() {
        0
    } else if s[n - 1] == '/' {
        n
    } else {
        segment_start(s, (n - 1) as nat)
    }
}

/// What follows the last `/` of a text; the whole text where it has none.
pub open spec fn last_segment(s: Seq<char>) -> Seq<char> {
    s.subrange(segment_start(s, s.len()) as int, s.len() as int)
}

/// Whether `s` begins with `prefix`.
pub open spec fn has_prefix(s: Seq<char>, prefix: Seq<char>) -> bool {
    prefix.len() <= s.len() && s.subrange(0, prefix.len() as int) == prefix
}

/// The texts of `parts` one after another, with `sep` between each two.
pub open spec fn joined(parts: Seq<Seq<char>>, sep: Seq<char>) -> Seq<char>
    decreases parts.len(),
{
    if parts.len() == 0 {
        Seq::empty()
    } else if parts.len() == 1 {
        parts[0]
    } else {
        joined(parts.drop_last(), sep) + sep + parts.last()
    }
}

/// The last piece has no `/` in it, and stands behind a `/` unless it is the
/// whole text.
pub proof fn law_last_segment(s: Seq<char>)
    ensures
        segment_start(s, s.len()) <= s.len(),
        forall|i: int| 0 <= i < last_segment(s).len() ==> last_segment(s)[i] != '/',
        segment_start(s, s.len()) > 0 ==> s[segment_start(s, s.len()) - 1] == '/',
        s == s.subrange(0, segment_start(s, s.len()) as int) + last_segment(s),
{
    lemma_segment_start(s, s.len());
    assert(s =~= s.subrange(0, segment_start(s, s.len()) as int) + last_segment(s));
}

proof fn lemma_segment_start(s: Seq<char>, n: nat)
    requires
        n <= s.len(),
    ensures
        segment_start(s, n) <= n,
        forall|i: int| segment_start(s, n) <= i < n ==> s[i] != '/',
        segment_start(s, n) > 0 ==> s[segment_start(s, n) - 1] == '/',
    decreases n,
{
    if n > 0 && s[n - 1] != '/' {
        lemma_segment_start(s, (n - 1) as nat);
    }
}

fn digit_text(d: u8) -> (res: &'static str)
    requires
        d < 10,
    ensures
        res@ == seq![digit_char(d as int)],
{
    proof {
        reveal_strlit("0");
        reveal_strlit("1");
        reveal_strlit("2");
        reveal_strlit("3");
        reveal_strlit("4");
        reveal_strlit("5");
        reveal_strlit("6");
        reveal_strlit("7");
        reveal_strlit("8");
        reveal_strlit("9");
    }
    let res = if d == 0 {
        "0"
    } else if d == 1 {
        "1"
    } else if d == 2 {
        "2"
    } else if d == 3 {
        "3"
    } else if d == 4 {
        "4"
    } else if d == 5 {
        "5"
    } else if d == 6 {
        "6"
    } else if d == 7 {
        "7"
    } else if d == 8 {
        "8"
    } else {
        "9"
    };
    assert(res@ =~= seq![digit_char(d as int)]);
    res
}

/// Appends `n` in decimal to `out`.
pub fn push_decimal(out: &mut String, n: u64)
    ensures
        final(out)@ == old(out)@ + nat_text(n as nat),
{
    let mut digits: Vec<u8> = Vec::new();
    let mut rest: u64 = n / 10;
    digits.push((n % 10) as u8);
    let ghost mut tail: Seq<char> = seq![digit_char((n % 10) as int)];
    while rest > 0
        invariant
            digits.len() == tail.len(),
            digits.len() > 0,
            forall|j: int| 0 <= j < digits.len() ==> digits[j] < 10,
            forall|j: int|
                0 <= j < digits.len() ==> tail[j] == digit_char(digits[digits.len() - 1 - j] as int),
            nat_text(n as nat) == if rest > 0 {
                nat_text(rest as nat) + tail
            } else {
                tail
            },
        decreases rest,
    {
        let d: u8 = (rest % 10) as u8;
        proof {
            let longer = seq![digit_char(d as int)] + tail;
            if rest < 10 {
                assert(nat_text(rest as nat) + tail =~= longer);
            } else {
                assert(nat_text(rest as nat) + tail =~= nat_text((rest / 10) as nat) + longer);
            }
            tail = longer;
        }
        digits.push(d);
        rest = rest / 10;
    }
    let ghost start = out@;
    let mut j: usize = digits.len();
    while j > 0
        invariant
            j <= digits.len(),
            digits.len() == tail.len(),
            forall|j: int| 0 <= j < digits.len() ==> digits[j] < 10,
            forall|j: int|
                0 <= j < digits.len() ==> tail[j] == digit_char(digits[digits.len() - 1 - j] as int),
            out@ == start + tail.subrange(0, digits.len() - j),
        decreases j,
    {
        j -= 1;
        out.append(digit_text(digits[j]));
        assert(out@ =~= start + tail.subrange(0, digits.len() - j));
    }
    assert(tail.subrange(0, digits.len() as int) =~= tail);
}

/// A count in decimal.
pub fn usize_text(n: usize) -> (res: String)
    ensures
        res@ == nat_text(n as nat),
{
    let mut res = String::new();
    push_decimal(&mut res, n as u64);
    assert(res@ =~= nat_text(n as nat));
    res
}

/// A signed number in decimal.
pub fn i64_text(n: i64) -> (res: String)
    ensures
        res@ == int_text(n as int),
{
    let mut res = String::new();
    if n < 0 {
        let magnitude: u64 = ((-(n + 1)) as u64) + 1;
        proof {
            reveal_strlit("-");
        }
        res.append("-");
        push_decimal(&mut res, magnitude);
        assert(res@ =~= int_text(n as int));
    } else {
        push_decimal(&mut res, n as u64);
        assert(res@ =~= int_text(n as int));
    }
    res
}

/// `a` followed by `b`.
pub fn glue(a: &str, b: &str) -> (res: String)
    ensures
        res@ == a@ + b@,
{
    let mut res = a.to_owned();
    res.append(b);
    res
}

/// `a`, then `b`, then `c`.
pub fn glue3(a: &str, b: &str, c: &str) -> (res: String)
    ensures
        res@ == a@ + b@ + c@,
{
    let mut res = a.to_owned();
    res.append(b);
    res.append(c);
    res
}

/// The texts of `parts` joined with `sep` between each two.
pub fn join(parts: &Vec<String>, sep: &str) -> (res: String)
    ensures
        res@ == joined(parts.deep_view(), sep@),
{
    let mut res = String::new();
    let mut i: usize = 0;
    while i < parts.len()
        invariant
            i <= parts.len(),
            res@ == joined(parts.deep_view().subrange(0, i as int), sep@),
        decreases parts.len() - i,
    {
        let ghost before = parts.deep_view().subrange(0, i as int);
        let ghost after = parts.deep_view().subrange(0, i + 1);
        proof {
            assert(after.drop_last() =~= before);
            assert(after.last() == parts[i as int]@);
        }
        if i > 0 {
            res.append(sep);
        }
        res.append(parts[i].as_str());
        proof {
            if i == 0 {
                assert(res@ =~= after[0]);
            }
        }
        i += 1;
    }
    assert(parts.deep_view().subrange(0, parts.len() as int) =~= parts.deep_view());
    res
}

/// What follows the last `/` of `s`; all of `s` where it has none.
pub fn extract_ref_name(reference: &str) -> (res: String)
    ensures
        res@ == last_segment(reference@),
{
    let n: usize = reference.unicode_len();
    let mut start: usize = n;
    while start > 0 && reference.get_char(start - 1) != '/'
        invariant
            start <= n,
            n == reference@.len(),
            segment_start(reference@, n as nat) == segment_start(reference@, start as nat),
        decreases start,
    {
        start -= 1;
    }
    reference.substring_char(start, n).to_owned()
}

/// Whether `s` begins with `prefix`.
pub fn starts_with(s: &str, prefix: &str) -> (res: bool)
    ensures
        res == has_prefix(s@, prefix@),
{
    let n: usize = prefix.unicode_len();
    if n > s.unicode_len() {
        return false;
    }
    let mut i: usize = 0;
    while i < n
        invariant
            i <= n,
            n == prefix@.len(),
            n <= s@.len(),
            s@.subrange(0, i as int) == prefix@.subrange(0, i as int),
        decreases n - i,
    {
        if s.get_char(i) != prefix.get_char(i) {
            assert(s@.subrange(0, n as int)[i as int] != prefix@[i as int]);
            return false;
        }
        assert(s@.subrange(0, i + 1) =~= s@.subrange(0, i as int).push(s@[i as int]));
        assert(prefix@.subrange(0, i + 1) =~= prefix@.subrange(0, i as int).push(prefix@[i as int]));
        i += 1;
    }
    assert(prefix@.subrange(0, n as int) =~= prefix@);
    true
}

} // verus!
