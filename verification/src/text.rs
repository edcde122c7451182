//! The few operations on text that the chat protocol is made of.

use vstd::prelude::*;
use vstd::string::*;

verus! {

/// Whether `c` has the Unicode property `White_Space`.
pub open spec fn white(c: char) -> bool {
    let n = c as int;
    ||| 0x9 <= n <= 0xd
    ||| n == 0x20
    ||| n == 0x85
    ||| n == 0xa0
    ||| n == 0x1680
    ||| 0x2000 <= n <= 0x200a
    ||| n == 0x2028
    ||| n == 0x2029
    ||| n == 0x202f
    ||| n == 0x205f
    ||| n == 0x3000
}

/// `s` without the white space that it starts with.
pub open spec fn trimmed_front(s: Seq<char>) -> Seq<char>
    decreases s.len(),
{
    if s.len() > 0 && white(s[0]) {
        trimmed_front(s.skip(1))
    } else {
        s
    }
}

/// `s` without the white space that it ends with.
pub open spec fn trimmed_back(s: Seq<char>) -> Seq<char>
    decreases s.len(),
{
    if s.len() > 0 && white(s.last()) {
        trimmed_back(s.drop_last())
    } else {
        s
    }
}

/// `s` without the white space around it.
pub open spec fn trimmed(s: Seq<char>) -> Seq<char> {
    trimmed_back(trimmed_front(s))
}

/// Whether `s` begins with `prefix`.
pub open spec fn begins(s: Seq<char>, prefix: Seq<char>) -> bool {
    prefix.len() <= s.len() && s.take(prefix.len() as int) == prefix
}

/// The parts in order, with `sep` between each two neighbours.
pub open spec fn joined(parts: Seq<Seq<char>>, sep: Seq<char>) -> Seq<char>
    decreases parts.len(),
{
    if parts.len() == 0 {
        Seq::empty()
    } else if parts.len() == 1 {
        parts[0]
    } else {
        joined(parts.drop_last(), sep) + sep + parts.last()
    }
}

/// The decimal digit for `d`.
pub open spec fn digit(d: nat) -> char {
    (('0' as nat) + d) as char
}

/// The decimal notation of `n`.
pub open spec fn decimal(n: nat) -> Seq<char>
    decreases n,
{
    if n < 10 {
        seq![digit(n)]
    } else {
        decimal(n / 10).push(digit(n % 10))
    }
}

/// The views of the strings in `v`, in order.
pub open spec fn texts(v: Seq<String>) -> Seq<Seq<char>> {
    v.map_values(|s: String| s@)
}

/// Tells whether `c` is white space.
pub fn is_white(c: char) -> (b: bool)
    ensures
        b == white(c),
{
    let n: u32 = c as u32;
    (0x9 <= n && n <= 0xd) || n == 0x20 || n == 0x85 || n == 0xa0 || n == 0x1680 || (0x2000 <= n
        && n <= 0x200a) || n == 0x2028 || n == 0x2029 || n == 0x202f || n == 0x205f || n == 0x3000
}

/// The characters of `s`.
fn characters(s: &str) -> (v: Vec<char>)
    ensures
        v@ == s@,
{
    let mut v: Vec<char> = Vec::new();
    for c in it: s.chars()
        invariant
            it.seq() == s@,
            v@ == it.seq().take(it.index()),
    {
        v.push(c);
    }
    v
}

/// Compares two texts.
pub fn same(a: &str, b: &str) -> (r: bool)
    ensures
        r == (a@ == b@),
{
    let mut x = a.chars();
    let mut y = b.chars();
    let ghost mut k: int = 0;
    assert(a@.skip(0) == a@);
    assert(b@.skip(0) == b@);
    loop
        invariant
            0 <= k <= a@.len(),
            k <= b@.len(),
            vstd::std_specs::iter::IteratorSpec::remaining(&x) == a@.skip(k),
            vstd::std_specs::iter::IteratorSpec::remaining(&y) == b@.skip(k),
            a@.take(k) == b@.take(k),
        decreases a@.len() - k,
    {
        match (x.next(), y.next()) {
            (Some(c), Some(d)) => {
                if c != d {
                    return false;
                }
                proof {
                    assert(a@.take(k + 1) =~= a@.take(k).push(c));
                    assert(b@.take(k + 1) =~= b@.take(k).push(d));
                    k = k + 1;
                }
            },
            (None, None) => {
                assert(a@.take(k) == a@);
                assert(b@.take(k) == b@);
                return true;
            },
            _ => {
                return false;
            },
        }
    }
}

/// Cuts off the white space around `s`.
pub fn trim(s: &str) -> (r: &str)
    ensures
        r@ == trimmed(s@),
{
    let v = characters(s);
    assert(s@.skip(0) == s@);
    let mut start: usize = 0;
    while start < v.len() && is_white(v[start])
        invariant
            start <= v.len(),
            v@ == s@,
            trimmed_front(s@) == trimmed_front(s@.skip(start as int)),
        decreases v.len() - start,
    {
        assert(s@.skip(start as int).skip(1) == s@.skip(start + 1));
        start = start + 1;
    }
    let mut end: usize = v.len();
    assert(s@.subrange(start as int, end as int) == s@.skip(start as int));
    while end > start && is_white(v[end - 1])
        invariant
            start <= end <= v.len(),
            v@ == s@,
            trimmed_back(s@.skip(start as int)) == trimmed_back(
                s@.subrange(start as int, end as int),
            ),
        decreases end,
    {
        assert(s@.subrange(start as int, end as int).drop_last() == s@.subrange(
            start as int,
            end - 1,
        ));
        end = end - 1;
    }
    s.substring_char(start, end)
}

/// A text begins with a prefix exactly where something put behind the prefix gives
/// the text.
pub proof fn texts_begin_with_what_stands_in_front(s: Seq<char>, prefix: Seq<char>)
    ensures
        begins(s, prefix) <==> exists|rest: Seq<char>| s == #[trigger] (prefix + rest),
{
    if begins(s, prefix) {
        let rest = s.skip(prefix.len() as int);
        assert(s =~= prefix + rest);
    }
    if exists|rest: Seq<char>| s == #[trigger] (prefix + rest) {
        assert(s.take(prefix.len() as int) =~= prefix);
    }
}

/// Tells whether `s` begins with `prefix`.
pub fn starts_with(s: &str, prefix: &str) -> (b: bool)
    ensures
        b == begins(s@, prefix@),
        b <==> exists|rest: Seq<char>| s@ == #[trigger] (prefix@ + rest),
{
    proof {
        texts_begin_with_what_stands_in_front(s@, prefix@);
    }
    let mut x = s.chars();
    let mut y = prefix.chars();
    let ghost mut k: int = 0;
    assert(s@.skip(0) == s@);
    assert(prefix@.skip(0) == prefix@);
    loop
        invariant
            0 <= k <= s@.len(),
            k <= prefix@.len(),
            vstd::std_specs::iter::IteratorSpec::remaining(&x) == s@.skip(k),
            vstd::std_specs::iter::IteratorSpec::remaining(&y) == prefix@.skip(k),
            s@.take(k) == prefix@.take(k),
            begins(s@, prefix@) <==> exists|rest: Seq<char>| s@ == #[trigger] (prefix@ + rest),
        decreases prefix@.len() - k,
    {
        match (x.next(), y.next()) {
            (_, None) => {
                assert(prefix@.take(k) == prefix@);
                return true;
            },
            (Some(c), Some(d)) => {
                if c != d {
                    assert(begins(s@, prefix@) ==> s@.take(prefix@.len() as int)[k] == c);
                    return false;
                }
                proof {
                    assert(s@.take(k + 1) =~= s@.take(k).push(c));
                    assert(prefix@.take(k + 1) =~= prefix@.take(k).push(d));
                    k = k + 1;
                }
            },
            (None, Some(_)) => {
                return false;
            },
        }
    }
}

/// What follows the first `n` characters of `s`.
pub fn after(s: &str, n: usize) -> (r: &str)
    requires
        n <= s@.len(),
    ensures
        r@ == s@.skip(n as int),
{
    s.substring_char(n, s.unicode_len())
}

/// Writes the parts one after the other, with `sep` between each two.
pub fn join(parts: &Vec<String>, sep: &str) -> (r: String)
    ensures
        r@ == joined(texts(parts@), sep@),
{
    let mut r = String::new();
    let ghost all = texts(parts@);
    for i in 0..parts.len()
        invariant
            all == texts(parts@),
            r@ == joined(all.take(i as int), sep@),
    {
        if i > 0 {
            r.append(sep);
        }
        r.append(parts[i].as_str());
        assert(all.take(i + 1).drop_last() == all.take(i as int));
        assert(all.take(i + 1).last() == parts[i as int]@);
        assert(r@ =~= joined(all.take(i + 1), sep@));
    }
    assert(all.take(parts.len() as int) == all);
    r
}

/// Writes one decimal digit.
fn digit_text(d: u64) -> (r: String)
    requires
        d < 10,
    ensures
        r@ == seq![digit(d as nat)],
{
    proof {
        reveal_strlit("0");
        reveal_strlit("1");
        reveal_strlit("2");
        reveal_strlit("3");
        reveal_strlit("4");
        reveal_strlit("5");
        reveal_strlit("6");
        reveal_strlit("7");
        reveal_strlit("8");
        reveal_strlit("9");
    }
    let r = match d {
        0 => "0",
        1 => "1",
        2 => "2",
        3 => "3",
        4 => "4",
        5 => "5",
        6 => "6",
        7 => "7",
        8 => "8",
        _ => "9",
    };
    assert(r@ =~= seq![digit(d as nat)]);
    r.to_string()
}

/// Writes `n` in decimal notation.
pub fn number(n: u64) -> (r: String)
    ensures
        r@ == decimal(n as nat),
    decreases n,
{
    if n < 10 {
        digit_text(n)
    } else {
        let r = number(n / 10).concat(digit_text(n % 10).as_str());
        assert(r@ =~= decimal(n as nat));
        r
    }
}

/// Whether all of `s` is white space.
pub open spec fn blank(s: Seq<char>) -> bool {
    forall|i: int| 0 <= i < s.len() ==> white(#[trigger] s[i])
}

/// Whether `s` neither starts nor ends with white space.
pub open spec fn tight(s: Seq<char>) -> bool {
    s.len() > 0 ==> !white(s[0]) && !white(s.last())
}

/// Whether `part` occurs in `s`.
pub open spec fn holds(s: Seq<char>, part: Seq<char>) -> bool {
    exists|i: int|
        0 <= i <= s.len() - part.len() && #[trigger] s.subrange(i, i + part.len()) == part
}

/// What a text was put together from occurs in it.
pub proof fn parts_are_held(before: Seq<char>, part: Seq<char>, behind: Seq<char>)
    ensures
        holds(before + part + behind, part),
{
    let s = before + part + behind;
    let i: int = before.len() as int;
    assert(s.subrange(i, i + part.len()) =~= part);
}

/// How much [`trimmed_front`] cuts off.
proof fn lemma_trimmed_front(s: Seq<char>) -> (n: int)
    ensures
        0 <= n <= s.len(),
        trimmed_front(s) == s.skip(n),
        blank(s.take(n)),
        trimmed_front(s).len() > 0 ==> !white(trimmed_front(s)[0]),
    decreases s.len(),
{
    if s.len() > 0 && white(s[0]) {
        let n = lemma_trimmed_front(s.skip(1));
        assert(s.skip(1).skip(n) =~= s.skip(n + 1));
        assert forall|i: int| 0 <= i < n + 1 implies white(#[trigger] s.take(n + 1)[i]) by {
            if i > 0 {
                assert(s.skip(1).take(n)[i - 1] == s[i]);
            }
        }
        n + 1
    } else {
        assert(s.skip(0) =~= s);
        0
    }
}

/// How much [`trimmed_back`] leaves.
proof fn lemma_trimmed_back(s: Seq<char>) -> (n: int)
    ensures
        0 <= n <= s.len(),
        trimmed_back(s) == s.take(n),
        blank(s.skip(n)),
        trimmed_back(s).len() > 0 ==> !white(trimmed_back(s).last()),
    decreases s.len(),
{
    if s.len() > 0 && white(s.last()) {
        let n = lemma_trimmed_back(s.drop_last());
        assert(s.drop_last().take(n) =~= s.take(n));
        assert forall|i: int| 0 <= i < s.len() - n implies white(#[trigger] s.skip(n)[i]) by {
            if i < s.len() - 1 - n {
                assert(s.drop_last().skip(n)[i] == s[n + i]);
            }
        }
        n
    } else {
        assert(s.take(s.len() as int) =~= s);
        s.len() as int
    }
}

/// Trimming cuts off white space and nothing else, as much as there is at either
/// end.
pub proof fn trimming_cuts_the_white_ends(s: Seq<char>)
    ensures
        tight(trimmed(s)),
        exists|i: int, j: int|
            0 <= i <= j <= s.len() && trimmed(s) == #[trigger] s.subrange(i, j) && blank(s.take(i))
                && blank(s.skip(j)),
{
    let i = lemma_trimmed_front(s);
    let rest = trimmed_front(s);
    let n = lemma_trimmed_back(rest);
    assert(rest.take(n) =~= s.subrange(i, i + n));
    assert(rest.skip(n) =~= s.skip(i + n));
    if trimmed(s).len() > 0 {
        assert(trimmed(s)[0] == rest[0]);
    }
}

/// Text without white ends is left as it is.
pub proof fn trimming_leaves_tight_text(s: Seq<char>)
    requires
        tight(s),
    ensures
        trimmed(s) == s,
{
}

/// To trim twice is to trim once.
pub proof fn trimming_twice_is_trimming_once(s: Seq<char>)
    ensures
        trimmed(trimmed(s)) == trimmed(s),
{
    trimming_cuts_the_white_ends(s);
}

} // verus!
