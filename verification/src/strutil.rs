//! Character-level string helpers: trimming, splitting into lines, and
//! comparing a range of one string against another.

use vstd::prelude::*;

verus! {

/// A whitespace character: the Unicode White_Space set, as `char::is_whitespace`
/// has it; the set stripped from rule lines.
pub open spec fn is_space(c: char) -> bool {
    c == ' ' || ('\u{9}' <= c && c <= '\u{d}') || c == '\u{85}' || c == '\u{a0}' || c == '\u{1680}'
        || ('\u{2000}' <= c && c <= '\u{200a}') || c == '\u{2028}' || c == '\u{2029}' || c
        == '\u{202f}' || c == '\u{205f}' || c == '\u{3000}'
}

/// `s` with leading and trailing whitespace removed.
pub open spec fn spec_trim(s: Seq<char>) -> Seq<char>
    decreases s.len(),
{
    if s.len() > 0 && is_space(s[0]) {
        spec_trim(s.drop_first())
    } else if s.len() > 0 && is_space(s[s.len() - 1]) {
        spec_trim(s.drop_last())
    } else {
        s
    }
}

/// The segments of `s` split at `'\n'`, with `cur` the part of the current
/// segment already consumed; splitting an entire string is `split_acc(s, empty)`.
pub open spec fn split_acc(s: Seq<char>, cur: Seq<char>) -> Seq<Seq<char>>
    decreases s.len(),
{
    if s.len() == 0 {
        seq![cur]
    } else if s[0] == '\n' {
        seq![cur] + split_acc(s.drop_first(), Seq::empty())
    } else {
        split_acc(s.drop_first(), cur.push(s[0]))
    }
}

/// The lines of `s`: segments between `'\n'` characters.  A trailing newline
/// yields a final empty line.
pub open spec fn spec_lines(s: Seq<char>) -> Seq<Seq<char>> {
    split_acc(s, Seq::empty())
}

/// Whether `c` is in the whitespace set that trimming strips.
pub fn is_space_char(c: char) -> (r: bool)
    ensures
        r == is_space(c),
{
    c == ' ' || ('\u{9}' <= c && c <= '\u{d}') || c == '\u{85}' || c == '\u{a0}' || c == '\u{1680}'
        || ('\u{2000}' <= c && c <= '\u{200a}') || c == '\u{2028}' || c == '\u{2029}' || c
        == '\u{202f}' || c == '\u{205f}' || c == '\u{3000}'
}

/// `s` with leading and trailing whitespace removed.
pub fn trim_str(s: &str) -> (t: String)
    ensures
        t@ == spec_trim(s@),
{
    let n = s.unicode_len();
    let mut a: usize = 0;
    proof {
        assert(s@.subrange(0, n as int) =~= s@);
    }
    while a < n && is_space_char(s.get_char(a))
        invariant
            a <= n,
            n == s@.len(),
            spec_trim(s@) == spec_trim(s@.subrange(a as int, n as int)),
        decreases n - a,
    {
        proof {
            let sub = s@.subrange(a as int, n as int);
            assert(sub.drop_first() =~= s@.subrange(a + 1, n as int));
        }
        a = a + 1;
    }
    let mut b: usize = n;
    while b > a && is_space_char(s.get_char(b - 1))
        invariant
            a <= b <= n,
            n == s@.len(),
            a < n ==> !is_space(s@[a as int]),
            spec_trim(s@) == spec_trim(s@.subrange(a as int, b as int)),
        decreases b,
    {
        proof {
            let sub = s@.subrange(a as int, b as int);
            assert(sub.drop_last() =~= s@.subrange(a as int, b - 1));
        }
        b = b - 1;
    }
    proof {
        let sub = s@.subrange(a as int, b as int);
        assert(spec_trim(sub) == sub);
    }
    String::from_str(s.substring_char(a, b))
}

/// Whether the range of `a` starting at `off` equals `b`, character by
/// character.
pub fn str_range_eq(a: &str, off: usize, len_b: usize, b: &str) -> (r: bool)
    requires
        len_b == b@.len(),
        off + len_b <= a@.len(),
        off + len_b <= usize::MAX,
    ensures
        r == (a@.subrange(off as int, off + b@.len()) == b@),
{
    let mut j: usize = 0;
    while j < len_b
        invariant
            j <= len_b,
            len_b == b@.len(),
            off + len_b <= a@.len(),
            off + len_b <= usize::MAX,
            forall|k: int| 0 <= k < j ==> a@[off + k] == b@[k],
        decreases len_b - j,
    {
        if a.get_char(off + j) != b.get_char(j) {
            proof {
                assert(a@.subrange(off as int, off + b@.len())[j as int] == a@[off + j]);
            }
            return false;
        }
        j = j + 1;
    }
    proof {
        assert(a@.subrange(off as int, off + b@.len()) =~= b@);
    }
    true
}

/// The lines of `s`, in order.
pub fn split_lines(s: &str) -> (lines: Vec<String>)
    ensures
        lines@.map_values(|l: String| l@) == spec_lines(s@),
{
    let n = s.unicode_len();
    let mut lines: Vec<String> = Vec::new();
    let mut start: usize = 0;
    let mut i: usize = 0;
    proof {
        let f = |l: String| l@;
        assert(s@.subrange(0, n as int) =~= s@);
        assert(s@.subrange(0, 0) =~= Seq::<char>::empty());
        assert(lines@.map_values(f) + split_acc(s@, Seq::empty()) =~= split_acc(
            s@,
            Seq::empty(),
        ));
    }
    while i < n
        invariant
            start <= i <= n,
            n == s@.len(),
            spec_lines(s@) == lines@.map_values(|l: String| l@) + split_acc(
                s@.subrange(i as int, n as int),
                s@.subrange(start as int, i as int),
            ),
        decreases n - i,
    {
        let c = s.get_char(i);
        if c == '\n' {
            let line = String::from_str(s.substring_char(start, i));
            proof {
                let f = |l: String| l@;
                let rest = s@.subrange(i as int, n as int);
                let cur = s@.subrange(start as int, i as int);
                assert(rest[0] == s@[i as int]);
                assert(rest.drop_first() =~= s@.subrange(i + 1, n as int));
                assert(split_acc(rest, cur) == seq![cur] + split_acc(
                    s@.subrange(i + 1, n as int),
                    Seq::empty(),
                ));
                assert(s@.subrange(i + 1, i + 1) =~= Seq::<char>::empty());
                assert(lines@.push(line).map_values(f) =~= lines@.map_values(f).push(line@));
                assert(lines@.map_values(f) + split_acc(rest, cur) =~= lines@.push(
                    line,
                ).map_values(f) + split_acc(s@.subrange(i + 1, n as int), Seq::empty()));
            }
            lines.push(line);
            start = i + 1;
        } else {
            proof {
                let rest = s@.subrange(i as int, n as int);
                let cur = s@.subrange(start as int, i as int);
                assert(rest[0] == s@[i as int]);
                assert(rest.drop_first() =~= s@.subrange(i + 1, n as int));
                assert(cur.push(s@[i as int]) =~= s@.subrange(start as int, i + 1));
                assert(split_acc(rest, cur) == split_acc(rest.drop_first(), cur.push(rest[0])));
            }
        }
        i = i + 1;
    }
    let line = String::from_str(s.substring_char(start, n));
    proof {
        let f = |l: String| l@;
        let cur = s@.subrange(start as int, n as int);
        assert(s@.subrange(n as int, n as int) =~= Seq::<char>::empty());
        assert(split_acc(Seq::empty(), cur) == seq![cur]);
        assert(lines@.push(line).map_values(f) =~= lines@.map_values(f).push(line@));
        assert(lines@.map_values(f) + seq![cur] =~= lines@.map_values(f).push(line@));
    }
    lines.push(line);
    lines
}

} // verus!
