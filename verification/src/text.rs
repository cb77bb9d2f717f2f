//! Text as sequences of characters: the searches and the number syntax that
//! the control commands and the profile matching are built on.

use vstd::prelude::*;
use vstd::string::StrSliceExecFns;

verus! {

broadcast use vstd::string::group_string_axioms;

/// Whether `needle` stands in `hay` at position `i`.
pub open spec fn occurs_at(hay: Seq<char>, needle: Seq<char>, i: int) -> bool {
    0 <= i && i + needle.len() <= hay.len() && hay.subrange(i, i + needle.len()) == needle
}

/// Whether `needle` stands somewhere in `hay`.
pub open spec fn occurs_in(hay: Seq<char>, needle: Seq<char>) -> bool {
    exists|i: int| occurs_at(hay, needle, i)
}

/// Whether `needle` stands in `hay` at some position from `from` on.
pub open spec fn occurs_from(hay: Seq<char>, needle: Seq<char>, from: int) -> bool {
    exists|i: int| from <= i && occurs_at(hay, needle, i)
}

/// The characters of `s`, one by one.
pub fn chars_of(s: &str) -> (r: Vec<char>)
    ensures
        r@ == s@,
{
    let mut out: Vec<char> = Vec::new();
    for c in it: s.chars()
        invariant
            it.seq() == s@,
            out@.len() == it.index(),
            forall|j: int| 0 <= j < out@.len() ==> out@[j] == #[trigger] s@[j],
    {
        out.push(c);
    }
    assert(out@ =~= s@);
    out
}

/// Tells whether `needle` stands in `hay` at position `i`.
pub fn matches_at(hay: &Vec<char>, needle: &Vec<char>, i: usize) -> (r: bool)
    ensures
        r == occurs_at(hay@, needle@, i as int),
{
    if needle.len() > hay.len() || i > hay.len() - needle.len() {
        return false;
    }
    let mut k: usize = 0;
    while k < needle.len()
        invariant
            k <= needle@.len(),
            i + needle@.len() <= hay@.len() <= usize::MAX,
            forall|j: int| 0 <= j < k ==> hay@[i + j] == needle@[j],
        decreases needle@.len() - k,
    {
        if hay[i + k] != needle[k] {
            assert(hay@.subrange(i as int, i + needle@.len())[k as int] == hay@[i + k]);
            return false;
        }
        k = k + 1;
    }
    assert(hay@.subrange(i as int, i + needle@.len()) =~= needle@);
    true
}

/// Finds the first position from `from` on at which `needle` stands in
/// `hay`.
pub fn find_from(hay: &Vec<char>, needle: &Vec<char>, from: usize) -> (r: Option<usize>)
    ensures
        match r {
            Some(i) => from <= i && occurs_at(hay@, needle@, i as int) && forall|j: int|
                from <= j < i ==> !occurs_at(hay@, needle@, j),
            None => !occurs_from(hay@, needle@, from as int),
        },
{
    if needle.len() > hay.len() {
        return None;
    }
    let last: usize = hay.len() - needle.len();
    let mut i: usize = from;
    while i <= last
        invariant
            from <= i,
            last == hay@.len() - needle@.len(),
            forall|j: int| from <= j < i ==> !occurs_at(hay@, needle@, j),
        decreases last + 1 - i,
    {
        if matches_at(hay, needle, i) {
            return Some(i);
        }
        if i == last {
            return None;
        }
        i = i + 1;
    }
    None
}

/// Tells whether `s` begins with `prefix`.
pub fn starts_with(s: &str, prefix: &str) -> (r: bool)
    ensures
        r == prefix@.is_prefix_of(s@),
{
    let hay = chars_of(s);
    let needle = chars_of(prefix);
    matches_at(&hay, &needle, 0)
}

/// What is left of `s` behind `prefix`, if `s` begins with it.
pub fn strip_prefix<'a>(s: &'a str, prefix: &str) -> (r: Option<&'a str>)
    ensures
        match r {
            Some(rest) => prefix@.is_prefix_of(s@) && rest@ == s@.skip(prefix@.len() as int),
            None => !prefix@.is_prefix_of(s@),
        },
{
    let hay = chars_of(s);
    let needle = chars_of(prefix);
    if matches_at(&hay, &needle, 0) {
        let rest = s.substring_char(needle.len(), hay.len());
        assert(rest@ =~= s@.skip(prefix@.len() as int));
        Some(rest)
    } else {
        None
    }
}

/// Tells whether `a` and `b` are the same text.
pub fn same_text(a: &str, b: &str) -> (r: bool)
    ensures
        r == (a@ == b@),
{
    let left = chars_of(a);
    let right = chars_of(b);
    if left.len() != right.len() {
        return false;
    }
    let same: bool = matches_at(&left, &right, 0);
    assert(left@.subrange(0, left@.len() as int) =~= left@);
    same
}

/// Tells whether `needle` stands somewhere in `s`.
pub fn contains(s: &str, needle: &str) -> (r: bool)
    ensures
        r == occurs_in(s@, needle@),
{
    let hay = chars_of(s);
    let pat = chars_of(needle);
    find_from(&hay, &pat, 0).is_some()
}

/// Whether a scan of `hay` from the left finds `sep` at `i` for the first
/// time and never again behind it.
pub open spec fn lone_at(hay: Seq<char>, sep: Seq<char>, i: int) -> bool {
    &&& occurs_at(hay, sep, i)
    &&& forall|j: int| 0 <= j < i ==> !occurs_at(hay, sep, j)
    &&& !occurs_from(hay, sep, i + sep.len())
}

/// The two parts into which `sep` cuts `hay`, if cutting at every `sep`,
/// from the left and without overlap, leaves exactly two parts. An empty
/// separator cuts before and after every character, so it leaves two parts
/// of the empty text only.
pub open spec fn split_parts(hay: Seq<char>, sep: Seq<char>) -> Option<(Seq<char>, Seq<char>)> {
    if sep.len() == 0 {
        if hay.len() == 0 {
            Some((hay, hay))
        } else {
            None
        }
    } else if exists|i: int| lone_at(hay, sep, i) {
        let i = choose|i: int| lone_at(hay, sep, i);
        Some((hay.take(i), hay.skip(i + sep.len())))
    } else {
        None
    }
}

/// Cuts `s` at `sep` where that leaves exactly two parts, and returns them.
pub fn split_in_two<'a>(s: &'a str, sep: &str) -> (r: Option<(&'a str, &'a str)>)
    ensures
        match r {
            Some((head, tail)) => split_parts(s@, sep@) == Some((head@, tail@)),
            None => split_parts(s@, sep@) is None,
        },
{
    let hay = chars_of(s);
    let pat = chars_of(sep);
    if pat.len() == 0 {
        if hay.len() == 0 {
            let part = s.substring_char(0, 0);
            assert(part@ =~= s@);
            return Some((part, part));
        }
        return None;
    }
    let n: usize = hay.len();
    match find_from(&hay, &pat, 0) {
        None => {
            assert forall|i: int| !lone_at(hay@, pat@, i) by {
                if occurs_at(hay@, pat@, i) {
                    assert(occurs_from(hay@, pat@, 0));
                }
            }
            None
        },
        Some(i) => {
            let behind: usize = i + pat.len();
            assert forall|k: int| lone_at(hay@, pat@, k) implies k == i by {
                if k > i {
                    assert(occurs_at(hay@, pat@, i as int));
                }
            }
            match find_from(&hay, &pat, behind) {
                Some(_) => {
                    assert(occurs_from(hay@, pat@, behind as int));
                    None
                },
                None => {
                    assert(lone_at(hay@, pat@, i as int));
                    let head = s.substring_char(0, i);
                    let tail = s.substring_char(behind, n);
                    assert(head@ =~= s@.take(i as int));
                    assert(tail@ =~= s@.skip(behind as int));
                    Some((head, tail))
                },
            }
        },
    }
}

/// Whether the first line of `s` ends before position `i`: at the first
/// line feed, or at the end of `s` if it has none.
pub open spec fn first_line_ends_at(s: Seq<char>, i: int) -> bool {
    &&& 0 <= i <= s.len()
    &&& i == s.len() || s[i] == '\n'
    &&& forall|j: int| 0 <= j < i ==> s[j] != '\n'
}

/// The first line of `s` without its line ending, which is a line feed or
/// a carriage return and a line feed. The empty text has no line.
pub open spec fn first_line(s: Seq<char>) -> Option<Seq<char>> {
    if s.len() == 0 {
        None
    } else {
        let end = choose|i: int| first_line_ends_at(s, i);
        if 0 < end < s.len() && s[end - 1] == '\r' {
            Some(s.take(end - 1))
        } else {
            Some(s.take(end))
        }
    }
}

/// Returns the first line of `s`, if `s` has any.
pub fn take_first_line<'a>(s: &'a str) -> (r: Option<&'a str>)
    ensures
        match r {
            Some(line) => first_line(s@) == Some(line@),
            None => first_line(s@) is None,
        },
{
    let chars = chars_of(s);
    let n: usize = chars.len();
    if n == 0 {
        return None;
    }
    let mut end: usize = 0;
    while end < n && chars[end] != '\n'
        invariant
            end <= n,
            n == chars@.len(),
            forall|j: int| 0 <= j < end ==> chars@[j] != '\n',
        decreases n - end,
    {
        end = end + 1;
    }
    assert(first_line_ends_at(s@, end as int));
    assert forall|k: int| first_line_ends_at(s@, k) implies k == end by {
        if k < end {
            assert(s@[k] != '\n');
        }
    }
    let stop: usize = if 0 < end && end < n && chars[end - 1] == '\r' {
        end - 1
    } else {
        end
    };
    let line = s.substring_char(0, stop);
    assert(line@ =~= s@.take(stop as int));
    Some(line)
}

/// Whether `c` is one of the ten decimal digits.
pub open spec fn is_digit(c: char) -> bool {
    '0' <= c <= '9'
}

/// Whether `s` is made of decimal digits only.
pub open spec fn all_digits(s: Seq<char>) -> bool {
    forall|i: int| 0 <= i < s.len() ==> is_digit(#[trigger] s[i])
}

/// The number that the decimal digits `s` write; 0 for no digits.
pub open spec fn decimal_value(s: Seq<char>) -> int
    decreases s.len(),
{
    if s.len() == 0 {
        0
    } else {
        10 * decimal_value(s.drop_last()) + (s.last() as int - '0' as int)
    }
}

/// The number that `s` writes: an optional `+` or `-`, then one decimal
/// digit or more, and nothing else.
pub open spec fn signed_decimal(s: Seq<char>) -> Option<int> {
    if s.len() == 0 {
        None
    } else {
        let signed = s[0] == '-' || s[0] == '+';
        let digits = if signed {
            s.skip(1)
        } else {
            s
        };
        if digits.len() == 0 || !all_digits(digits) {
            None
        } else if s[0] == '-' {
            Some(-decimal_value(digits))
        } else {
            Some(decimal_value(digits))
        }
    }
}

/// The 32-bit number that `s` writes, if it writes a number and the number
/// fits.
pub open spec fn parsed_i32(s: Seq<char>) -> Option<i32> {
    match signed_decimal(s) {
        Some(v) => if i32::MIN <= v <= i32::MAX {
            Some(v as i32)
        } else {
            None
        },
        None => None,
    }
}

/// More digits never write a smaller number.
proof fn lemma_decimal_value_grows(s: Seq<char>, k: int)
    requires
        all_digits(s),
        0 <= k <= s.len(),
    ensures
        0 <= decimal_value(s.take(k)) <= decimal_value(s),
    decreases s.len() - k,
{
    if k == s.len() {
        assert(s.take(k) =~= s);
        lemma_decimal_value_nonnegative(s);
    } else {
        lemma_decimal_value_grows(s, k + 1);
        let longer = s.take(k + 1);
        assert(longer.drop_last() =~= s.take(k));
        assert(is_digit(s[k]));
        assert(longer.last() == s[k]);
        lemma_decimal_value_nonnegative(s.take(k));
    }
}

proof fn lemma_decimal_value_nonnegative(s: Seq<char>)
    requires
        all_digits(s),
    ensures
        0 <= decimal_value(s),
    decreases s.len(),
{
    if s.len() > 0 {
        assert(is_digit(s.last()));
        lemma_decimal_value_nonnegative(s.drop_last());
    }
}

/// Reads a 32-bit number in decimal notation: an optional sign, then
/// digits, with nothing before, between or after them.
pub fn parse_i32(s: &str) -> (r: Option<i32>)
    ensures
        r == parsed_i32(s@),
{
    let chars = chars_of(s);
    let n: usize = chars.len();
    if n == 0 {
        return None;
    }
    let negative: bool = chars[0] == '-';
    let start: usize = if chars[0] == '-' || chars[0] == '+' {
        1
    } else {
        0
    };
    if start == n {
        return None;
    }
    let ghost digits: Seq<char> = chars@.skip(start as int);
    let mut acc: i64 = 0;
    let mut i: usize = start;
    assert(digits.take(0) =~= Seq::<char>::empty());
    while i < n
        invariant
            start <= i <= n,
            start < n,
            n == chars@.len(),
            chars@ == s@,
            start == if chars@[0] == '-' || chars@[0] == '+' {
                1int
            } else {
                0int
            },
            digits == chars@.skip(start as int),
            all_digits(digits.take(i - start)),
            acc == decimal_value(digits.take(i - start)),
            0 <= acc <= 2147483648,
        decreases n - i,
    {
        let c: char = chars[i];
        if c < '0' || c > '9' {
            assert(digits[i - start] == c);
            return None;
        }
        let d: i64 = (c as u32 - '0' as u32) as i64;
        proof {
            let longer = digits.take(i - start + 1);
            assert(longer.drop_last() =~= digits.take(i - start));
            assert(longer.last() == c);
            assert forall|j: int| 0 <= j < longer.len() implies is_digit(#[trigger] longer[j]) by {
                if j < longer.len() - 1 {
                    assert(digits.take(i - start)[j] == longer[j]);
                }
            }
        }
        acc = acc * 10 + d;
        i = i + 1;
        if acc > 2147483648 {
            proof {
                assert(acc == decimal_value(digits.take(i - start)));
                assert(start == 0 ==> digits =~= s@);
                if all_digits(digits) {
                    lemma_decimal_value_grows(digits, i - start);
                }
            }
            return None;
        }
    }
    assert(digits.take(i - start) =~= digits);
    assert(start == 0 ==> digits =~= s@);
    if negative {
        Some((-acc) as i32)
    } else if acc > 2147483647 {
        None
    } else {
        Some(acc as i32)
    }
}

} // verus!
