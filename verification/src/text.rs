//! Strings as sequences of characters: searching, replacing, lines, numbers.

use vstd::prelude::*;
use vstd::string::*;

verus! {

/// `String::push`: appends one character.
pub assume_specification[ String::push ](s: &mut String, ch: char)
    ensures
        final(s)@ == old(s)@.push(ch),
;

/// The characters of a string.
pub fn chars_of(s: &str) -> (r: Vec<char>)
    ensures
        r@ == s@,
{
    let mut r: Vec<char> = Vec::new();
    for c in it: s.chars()
        invariant
            it.seq() == s@,
            r@ == s@.take(it.index() as int),
    {
        r.push(c);
        assert(r@ =~= s@.take(it.index() as int + 1));
    }
    assert(r@ =~= s@);
    r
}

/// Appends the characters from `from` up to `to`.
pub fn push_chars(out: &mut String, chars: &Vec<char>, from: usize, to: usize)
    requires
        from <= to <= chars.len(),
    ensures
        final(out)@ == old(out)@ + chars@.subrange(from as int, to as int),
{
    let ghost before = out@;
    let mut i: usize = from;
    assert(before + chars@.subrange(from as int, from as int) =~= before);
    while i < to
        invariant
            from <= i <= to <= chars.len(),
            out@ == before + chars@.subrange(from as int, i as int),
        decreases to - i,
    {
        out.push(chars[i]);
        assert(out@ =~= before + chars@.subrange(from as int, i + 1));
        i = i + 1;
    }
}

/// Whether `pat` stands in `s` at position `i`.
pub open spec fn stands_at(s: Seq<char>, pat: Seq<char>, i: int) -> bool {
    0 <= i && i + pat.len() <= s.len() && s.subrange(i, i + pat.len()) == pat
}

/// `s` with every occurrence of `pat` replaced by `by`, from left to right.
pub open spec fn replaced(s: Seq<char>, pat: Seq<char>, by: Seq<char>) -> Seq<char>
    decreases s.len(),
{
    if s.len() == 0 || pat.len() == 0 {
        s
    } else if stands_at(s, pat, 0) {
        by + replaced(s.skip(pat.len() as int), pat, by)
    } else {
        seq![s[0]] + replaced(s.skip(1), pat, by)
    }
}

/// Whether `pat` stands anywhere in `s`.
pub open spec fn holds(s: Seq<char>, pat: Seq<char>) -> bool {
    exists|i: int| stands_at(s, pat, i)
}

/// `pat` and `by` start with the same character, neither has it again, and they
/// differ where both go on: no copy of `by` is part of a copy of `pat`.
pub open spec fn tells_apart(pat: Seq<char>, by: Seq<char>) -> bool {
    &&& pat.len() > 0
    &&& by.len() > 0
    &&& pat[0] == by[0]
    &&& forall|i: int| 1 <= i < pat.len() ==> #[trigger] pat[i] != pat[0]
    &&& forall|i: int| 1 <= i < by.len() ==> by[i] != pat[0]
    &&& exists|k: int| 0 <= k < pat.len() && k < by.len() && pat[k] != by[k]
}

proof fn lemma_replaced_start(s: Seq<char>, pat: Seq<char>, by: Seq<char>, m: int)
    requires
        tells_apart(pat, by),
        0 <= m <= replaced(s, pat, by).len(),
        forall|i: int| 0 <= i < m ==> replaced(s, pat, by)[i] != pat[0],
    ensures
        m <= s.len(),
        s.take(m) == replaced(s, pat, by).take(m),
    decreases m,
{
    let r = replaced(s, pat, by);
    if m > 0 {
        if stands_at(s, pat, 0) {
            assert(r[0] == by[0]);
        } else {
            let rest = replaced(s.skip(1), pat, by);
            assert forall|i: int| 0 <= i < m - 1 implies rest[i] != pat[0] by {
                assert(rest[i] == r[i + 1]);
            }
            lemma_replaced_start(s.skip(1), pat, by, m - 1);
            assert forall|i: int| 0 <= i < m implies s[i] == r[i] by {
                if i > 0 {
                    assert(s.skip(1).take(m - 1)[i - 1] == rest.take(m - 1)[i - 1]);
                }
            }
        }
    }
    assert(s.take(m) =~= r.take(m));
}

/// Law: where the pattern and what replaces it tell apart, the text does not
/// hold the pattern any more.
pub proof fn lemma_replaced_lacks(s: Seq<char>, pat: Seq<char>, by: Seq<char>)
    requires
        tells_apart(pat, by),
    ensures
        !holds(replaced(s, pat, by), pat),
    decreases s.len(),
{
    let r = replaced(s, pat, by);
    assert forall|i: int| !stands_at(r, pat, i) by {
        if stands_at(r, pat, i) {
            let found = r.subrange(i, i + pat.len());
            assert(found[0] == pat[0] && found[0] == r[i]);
            if stands_at(s, pat, 0) {
                let rest = replaced(s.skip(pat.len() as int), pat, by);
                lemma_replaced_lacks(s.skip(pat.len() as int), pat, by);
                if i == 0 {
                    let k = choose|k: int|
                        0 <= k < pat.len() && k < by.len() && pat[k] != by[k];
                    assert(found[k] == r[k]);
                } else if i >= by.len() {
                    assert(rest.subrange(i - by.len(), i - by.len() + pat.len()) =~= found);
                    assert(stands_at(rest, pat, i - by.len()));
                }
            } else {
                let rest = replaced(s.skip(1), pat, by);
                lemma_replaced_lacks(s.skip(1), pat, by);
                if i > 0 {
                    assert(rest.subrange(i - 1, i - 1 + pat.len()) =~= found);
                    assert(stands_at(rest, pat, i - 1));
                } else {
                    let m = pat.len() - 1;
                    assert forall|j: int| 0 <= j < m implies rest[j] == pat[j + 1] by {
                        assert(found[j + 1] == r[j + 1]);
                    }
                    lemma_replaced_start(s.skip(1), pat, by, m);
                    assert forall|j: int| 0 <= j < pat.len() implies s[j] == pat[j] by {
                        if j > 0 {
                            assert(s.skip(1).take(m)[j - 1] == rest.take(m)[j - 1]);
                        }
                    }
                    assert(s.subrange(0, pat.len() as int) =~= pat);
                }
            }
        }
    }
}

/// Law: a text that does not hold the pattern stays as it is.
pub proof fn lemma_replaced_same(s: Seq<char>, pat: Seq<char>, by: Seq<char>)
    requires
        !holds(s, pat),
    ensures
        replaced(s, pat, by) == s,
    decreases s.len(),
{
    if s.len() > 0 && pat.len() > 0 {
        assert(!stands_at(s, pat, 0));
        let rest = s.skip(1);
        assert forall|i: int| !stands_at(rest, pat, i) by {
            if stands_at(rest, pat, i) {
                assert(s.subrange(i + 1, i + 1 + pat.len()) =~= rest.subrange(i, i + pat.len()));
                assert(stands_at(s, pat, i + 1));
            }
        }
        lemma_replaced_same(rest, pat, by);
        assert(seq![s[0]] + rest =~= s);
    }
}

/// Whether `pat` stands in `s` at position `i`.
pub fn matches_at(s: &Vec<char>, pat: &Vec<char>, i: usize) -> (r: bool)
    requires
        i <= s.len(),
    ensures
        r == stands_at(s@, pat@, i as int),
{
    if pat.len() > s.len() - i {
        return false;
    }
    let mut j: usize = 0;
    while j < pat.len()
        invariant
            j <= pat.len(),
            i + pat.len() <= s.len(),
            forall|k: int| 0 <= k < j ==> s@[i + k] == pat@[k],
        decreases pat.len() - j,
    {
        if s[i + j] != pat[j] {
            assert(s@.subrange(i as int, i + pat@.len())[j as int] != pat@[j as int]);
            return false;
        }
        j = j + 1;
    }
    assert(s@.subrange(i as int, i + pat@.len()) =~= pat@);
    true
}

/// Replaces every occurrence of `pat` by `by`, from left to right.
pub fn replace_all(s: &str, pat: &str, by: &str) -> (r: String)
    requires
        pat@.len() > 0,
    ensures
        r@ == replaced(s@, pat@, by@),
{
    let chars = chars_of(s);
    let pattern = chars_of(pat);
    let mut out = String::new();
    let mut i: usize = 0;
    assert(s@.skip(0) =~= s@);
    while i < chars.len()
        invariant
            i <= chars.len(),
            chars@ == s@,
            pattern@ == pat@,
            pat@.len() > 0,
            out@ + replaced(s@.skip(i as int), pat@, by@) == replaced(s@, pat@, by@),
        decreases chars.len() - i,
    {
        let ghost rest = s@.skip(i as int);
        let ghost before = out@;
        if matches_at(&chars, &pattern, i) {
            assert(rest.subrange(0, pat@.len() as int) =~= s@.subrange(i as int, i + pat@.len()));
            assert(stands_at(rest, pat@, 0));
            assert(rest.skip(pat@.len() as int) =~= s@.skip(i + pat@.len()));
            out.append(by);
            i = i + pattern.len();
            assert(out@ + replaced(s@.skip(i as int), pat@, by@) =~= before + replaced(
                rest,
                pat@,
                by@,
            ));
        } else {
            assert(!stands_at(rest, pat@, 0)) by {
                if stands_at(rest, pat@, 0) {
                    assert(rest.subrange(0, pat@.len() as int) =~= s@.subrange(
                        i as int,
                        i + pat@.len(),
                    ));
                }
            }
            assert(rest.skip(1) =~= s@.skip(i + 1));
            out.push(chars[i]);
            i = i + 1;
            assert(out@ + replaced(s@.skip(i as int), pat@, by@) =~= before + replaced(
                rest,
                pat@,
                by@,
            ));
        }
    }
    assert(s@.skip(i as int) =~= seq![]);
    assert(out@ =~= out@ + replaced(s@.skip(i as int), pat@, by@));
    out
}

/// How many line feeds there are.
pub open spec fn line_feeds(s: Seq<char>) -> nat
    decreases s.len(),
{
    if s.len() == 0 {
        0
    } else {
        line_feeds(s.drop_last()) + if s.last() == '\n' {
            1nat
        } else {
            0nat
        }
    }
}

/// How many line feeds there are.
pub fn count_line_feeds(s: &str) -> (r: usize)
    ensures
        r == line_feeds(s@),
{
    let chars = chars_of(s);
    let mut n: usize = 0;
    let mut i: usize = 0;
    while i < chars.len()
        invariant
            i <= chars.len(),
            chars@ == s@,
            n == line_feeds(s@.take(i as int)),
            n <= i,
        decreases chars.len() - i,
    {
        assert(s@.take(i + 1).drop_last() =~= s@.take(i as int));
        if chars[i] == '\n' {
            n = n + 1;
        }
        i = i + 1;
    }
    assert(s@.take(i as int) =~= s@);
    n
}

// ---------------------------------------------------------------------------
// Searching and lines
// ---------------------------------------------------------------------------

/// The first position from `i` on at which `pat` stands in `s`.
pub open spec fn found_from(s: Seq<char>, pat: Seq<char>, i: int) -> Option<int>
    decreases s.len() - i,
{
    if i >= s.len() || i + pat.len() > s.len() {
        None
    } else if stands_at(s, pat, i) {
        Some(i)
    } else {
        found_from(s, pat, i + 1)
    }
}

/// The first position from `from` on at which `pat` stands in `s`.
pub fn find_from(s: &Vec<char>, pat: &Vec<char>, from: usize) -> (r: Option<usize>)
    requires
        from <= s.len(),
        pat.len() > 0,
    ensures
        r is Some <==> found_from(s@, pat@, from as int) is Some,
        r matches Some(i) ==> found_from(s@, pat@, from as int) == Some(i as int) && from <= i && i
            + pat.len() <= s.len() && stands_at(s@, pat@, i as int),
{
    let mut i: usize = from;
    while i < s.len()
        invariant
            from <= i <= s.len(),
            pat.len() > 0,
            found_from(s@, pat@, i as int) == found_from(s@, pat@, from as int),
        decreases s.len() - i,
    {
        if matches_at(s, pat, i) {
            return Some(i);
        }
        i = i + 1;
    }
    None
}

/// A line without a carriage return at its end.
pub open spec fn without_return(line: Seq<char>) -> Seq<char> {
    if line.len() > 0 && line.last() == '\r' {
        line.drop_last()
    } else {
        line
    }
}

/// The first line feed from `i` on, or the end.
pub open spec fn line_end(s: Seq<char>, i: int) -> int
    decreases s.len() - i,
{
    if i >= s.len() || s[i] == '\n' {
        i
    } else {
        line_end(s, i + 1)
    }
}

/// The lines of `s` from `i` on. A line ends at a line feed, which may have a
/// carriage return before it, or at the end of the text.
pub open spec fn lines_from(s: Seq<char>, i: int) -> Seq<Seq<char>>
    decreases s.len() - i,
{
    let end = line_end(s, i);
    if i < 0 || i >= s.len() || end < i {
        seq![]
    } else if end >= s.len() {
        seq![s.skip(i)]
    } else {
        seq![without_return(s.subrange(i, end))] + lines_from(s, end + 1)
    }
}

/// The first line feed from `from` on, or the end.
pub fn find_line_end(s: &Vec<char>, from: usize) -> (r: usize)
    requires
        from <= s.len(),
    ensures
        from <= r <= s.len(),
        r == line_end(s@, from as int),
{
    let mut i: usize = from;
    while i < s.len() && s[i] != '\n'
        invariant
            from <= i <= s.len(),
            line_end(s@, i as int) == line_end(s@, from as int),
        decreases s.len() - i,
    {
        i = i + 1;
    }
    i
}

// ---------------------------------------------------------------------------
// White space and numbers
// ---------------------------------------------------------------------------

/// Whether a character is white space, as Unicode has it.
pub open spec fn is_space(c: char) -> bool {
    let n = c as u32;
    9 <= n <= 13 || n == 0x20 || n == 0x85 || n == 0xa0 || n == 0x1680 || 0x2000 <= n <= 0x200a
        || n == 0x2028 || n == 0x2029 || n == 0x202f || n == 0x205f || n == 0x3000
}

fn space(c: char) -> (r: bool)
    ensures
        r == is_space(c),
{
    let n: u32 = c as u32;
    (9 <= n && n <= 13) || n == 0x20 || n == 0x85 || n == 0xa0 || n == 0x1680 || (0x2000 <= n && n
        <= 0x200a) || n == 0x2028 || n == 0x2029 || n == 0x202f || n == 0x205f || n == 0x3000
}

/// `s` without white space at its start.
pub open spec fn trimmed_start(s: Seq<char>) -> Seq<char>
    decreases s.len(),
{
    if s.len() > 0 && is_space(s[0]) {
        trimmed_start(s.skip(1))
    } else {
        s
    }
}

/// `s` without white space at its end.
pub open spec fn trimmed_end(s: Seq<char>) -> Seq<char>
    decreases s.len(),
{
    if s.len() > 0 && is_space(s.last()) {
        trimmed_end(s.drop_last())
    } else {
        s
    }
}

/// Where `chars[from..to]` starts when white space at its start is left out.
pub fn skip_space(chars: &Vec<char>, from: usize, to: usize) -> (r: usize)
    requires
        from <= to <= chars.len(),
    ensures
        from <= r <= to,
        chars@.subrange(r as int, to as int) == trimmed_start(
            chars@.subrange(from as int, to as int),
        ),
{
    let mut i: usize = from;
    while i < to && space(chars[i])
        invariant
            from <= i <= to <= chars.len(),
            trimmed_start(chars@.subrange(i as int, to as int)) == trimmed_start(
                chars@.subrange(from as int, to as int),
            ),
        decreases to - i,
    {
        assert(chars@.subrange(i as int, to as int).skip(1) =~= chars@.subrange(i + 1, to as int));
        i = i + 1;
    }
    i
}

/// Where `chars[from..to]` ends when white space at its end is left out.
pub fn skip_space_back(chars: &Vec<char>, from: usize, to: usize) -> (r: usize)
    requires
        from <= to <= chars.len(),
    ensures
        from <= r <= to,
        chars@.subrange(from as int, r as int) == trimmed_end(
            chars@.subrange(from as int, to as int),
        ),
{
    let mut i: usize = to;
    while i > from && space(chars[i - 1])
        invariant
            from <= i <= to <= chars.len(),
            trimmed_end(chars@.subrange(from as int, i as int)) == trimmed_end(
                chars@.subrange(from as int, to as int),
            ),
        decreases i - from,
    {
        assert(chars@.subrange(from as int, i as int).drop_last() =~= chars@.subrange(
            from as int,
            i - 1,
        ));
        i = i - 1;
    }
    i
}

/// Whether all characters are decimal digits.
pub open spec fn all_digits(s: Seq<char>) -> bool {
    forall|i: int| 0 <= i < s.len() ==> '0' <= #[trigger] s[i] <= '9'
}

/// The number that decimal digits stand for.
pub open spec fn digits_value(s: Seq<char>) -> int
    decreases s.len(),
{
    if s.len() == 0 {
        0
    } else {
        digits_value(s.drop_last()) * 10 + (s.last() as int - '0' as int)
    }
}

/// The number below 2^32 that a string stands for: decimal digits, at least
/// one, with or without a plus sign before them.
pub open spec fn parsed_u32(s: Seq<char>) -> Option<u32> {
    let digits = if s.len() > 0 && s[0] == '+' {
        s.skip(1)
    } else {
        s
    };
    if digits.len() > 0 && all_digits(digits) && digits_value(digits) <= u32::MAX {
        Some(digits_value(digits) as u32)
    } else {
        None
    }
}

proof fn lemma_digits_grow(s: Seq<char>, n: int)
    requires
        all_digits(s),
        0 <= n <= s.len(),
    ensures
        0 <= digits_value(s.take(n)) <= digits_value(s),
    decreases s.len() - n, s.len(),
{
    if n == s.len() {
        assert(s.take(n) =~= s);
        if s.len() > 0 {
            let rest = s.drop_last();
            assert(all_digits(rest)) by {
                assert forall|i: int| 0 <= i < rest.len() implies '0' <= #[trigger] rest[i]
                    <= '9' by {
                    assert(rest[i] == s[i]);
                }
            }
            lemma_digits_grow(rest, rest.len() as int);
            assert(rest.take(rest.len() as int) =~= rest);
            assert('0' <= s[s.len() - 1] <= '9');
        }
    } else {
        lemma_digits_grow(s, n + 1);
        assert(s.take(n + 1).drop_last() =~= s.take(n));
        assert('0' <= s[n] <= '9');
        let t = s.take(n);
        assert(all_digits(t)) by {
            assert forall|i: int| 0 <= i < t.len() implies '0' <= #[trigger] t[i] <= '9' by {
                assert(t[i] == s[i]);
            }
        }
        lemma_digits_grow(t, n);
        assert(t.take(n) =~= t);
    }
}

/// Reads `chars[from..to]` as a number below 2^32.
pub fn parse_u32(chars: &Vec<char>, from: usize, to: usize) -> (r: Option<u32>)
    requires
        from <= to <= chars.len(),
    ensures
        r == parsed_u32(chars@.subrange(from as int, to as int)),
{
    let ghost s = chars@.subrange(from as int, to as int);
    let start: usize = if from < to && chars[from] == '+' {
        from + 1
    } else {
        from
    };
    let ghost digits = chars@.subrange(start as int, to as int);
    assert(digits =~= if s.len() > 0 && s[0] == '+' {
        s.skip(1)
    } else {
        s
    });
    if start == to {
        return None;
    }
    let mut value: u32 = 0;
    let mut i: usize = start;
    while i < to
        invariant
            start <= i <= to <= chars.len(),
            s == chars@.subrange(from as int, to as int),
            digits == chars@.subrange(start as int, to as int),
            value == digits_value(digits.take(i - start)),
            forall|k: int| 0 <= k < i - start ==> '0' <= #[trigger] digits[k] <= '9',
            parsed_u32(s) == (if all_digits(digits) && digits_value(digits) <= u32::MAX {
                Some(digits_value(digits) as u32)
            } else {
                None
            }),
        decreases to - i,
    {
        let c: char = chars[i];
        let ghost k = i - start;
        assert(digits[k] == c);
        if c < '0' || c > '9' {
            assert(!all_digits(digits));
            return None;
        }
        let d: u32 = c as u32 - '0' as u32;
        let wide: u64 = value as u64 * 10 + d as u64;
        assert(digits.take(k + 1).drop_last() =~= digits.take(k));
        assert(wide == digits_value(digits.take(k + 1)));
        if wide > u32::MAX as u64 {
            proof {
                if all_digits(digits) {
                    lemma_digits_grow(digits, k + 1);
                }
            }
            return None;
        }
        value = wide as u32;
        i = i + 1;
    }
    assert(digits.take(i - start) =~= digits);
    Some(value)
}

} // verus!
