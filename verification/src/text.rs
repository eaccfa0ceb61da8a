//! Texts as sequences of characters: lines, trimming and searching.

use vstd::prelude::*;

verus! {

/// Whether a character is white space, as Unicode defines it.
pub open spec fn is_whitespace(c: char) -> bool {
    let u = c as u32;
    ||| 0x09 <= u <= 0x0D
    ||| u == 0x20
    ||| u == 0x85
    ||| u == 0xA0
    ||| u == 0x1680
    ||| 0x2000 <= u <= 0x200A
    ||| u == 0x2028
    ||| u == 0x2029
    ||| u == 0x202F
    ||| u == 0x205F
    ||| u == 0x3000
}

/// The text without the white space it begins with.
pub open spec fn trim_start(s: Seq<char>) -> Seq<char>
    decreases s.len(),
{
    if s.len() > 0 && is_whitespace(s[0]) {
        trim_start(s.drop_first())
    } else {
        s
    }
}

/// The text without the white space it ends with.
pub open spec fn trim_end(s: Seq<char>) -> Seq<char>
    decreases s.len(),
{
    if s.len() > 0 && is_whitespace(s.last()) {
        trim_end(s.drop_last())
    } else {
        s
    }
}

/// The text without white space at either end.
pub open spec fn trim(s: Seq<char>) -> Seq<char> {
    trim_end(trim_start(s))
}

/// Where `c` first occurs in `s` at or behind `from`; the length of `s`
/// where it does not.
pub open spec fn find_char(s: Seq<char>, c: char, from: int) -> int
    decreases s.len() - from,
{
    if from >= s.len() {
        s.len() as int
    } else if s[from] == c {
        from
    } else {
        find_char(s, c, from + 1)
    }
}

/// Whether `pattern` stands in `s` at `at`.
pub open spec fn occurs_at(s: Seq<char>, pattern: Seq<char>, at: int) -> bool {
    0 <= at && at + pattern.len() <= s.len() && s.subrange(at, at + pattern.len()) == pattern
}

/// Where `pattern` first stands in `s` at or behind `from`; the length of
/// `s` where it does not.
pub open spec fn find(s: Seq<char>, pattern: Seq<char>, from: int) -> int
    decreases s.len() - from,
{
    if from >= s.len() {
        s.len() as int
    } else if occurs_at(s, pattern, from) {
        from
    } else {
        find(s, pattern, from + 1)
    }
}

/// Whether `s` begins with `prefix`.
pub open spec fn starts_with(s: Seq<char>, prefix: Seq<char>) -> bool {
    occurs_at(s, prefix, 0)
}

/// The lines of a text. A line ends at a line feed, or at the end of the
/// text; the line feed is not part of it, nor is a carriage return right
/// before the line feed. A text that ends in a line feed has no empty
/// line behind that.
pub open spec fn lines(s: Seq<char>) -> Seq<Seq<char>>
    decreases s.len(),
{
    if s.len() == 0 {
        Seq::empty()
    } else {
        let end = find_char(s, '\n', 0);
        if 0 <= end < s.len() {
            let line = if end > 0 && s[end - 1] == '\r' {
                s.take(end - 1)
            } else {
                s.take(end)
            };
            seq![line] + lines(s.skip(end + 1))
        } else {
            seq![s]
        }
    }
}

/// A search ends at the first place where the pattern stands, or at the
/// end of the text.
pub proof fn lemma_find_bounds(s: Seq<char>, pattern: Seq<char>, from: int)
    requires
        0 <= from <= s.len(),
    ensures
        from <= find(s, pattern, from) <= s.len(),
        find(s, pattern, from) < s.len() ==> occurs_at(s, pattern, find(s, pattern, from)),
        forall|i: int| from <= i < find(s, pattern, from) ==> !occurs_at(s, pattern, i),
    decreases s.len() - from,
{
    if from < s.len() && !occurs_at(s, pattern, from) {
        lemma_find_bounds(s, pattern, from + 1);
    }
}

/// The characters of a text.
pub fn chars_of(text: &str) -> (chars: Vec<char>)
    ensures
        chars@ == text@,
{
    let mut chars: Vec<char> = Vec::new();
    for c in it: text.chars()
        invariant
            it.seq() == text@,
            chars@ == text@.take(it.index() as int),
    {
        chars.push(c);
        assert(text@.take(it.index() + 1) =~= text@.take(it.index() as int).push(c));
    }
    assert(text@.take(text@.len() as int) =~= text@);
    chars
}

/// Whether a character is white space.
pub fn char_is_whitespace(c: char) -> (white: bool)
    ensures
        white == is_whitespace(c),
{
    let u = c as u32;
    (0x09 <= u && u <= 0x0D) || u == 0x20 || u == 0x85 || u == 0xA0 || u == 0x1680 || (0x2000 <= u
        && u <= 0x200A) || u == 0x2028 || u == 0x2029 || u == 0x202F || u == 0x205F || u == 0x3000
}

/// A copy of the characters from `from` up to, not including, `to`.
pub fn copy_range(s: &[char], from: usize, to: usize) -> (part: Vec<char>)
    requires
        from <= to <= s@.len(),
    ensures
        part@ == s@.subrange(from as int, to as int),
{
    let mut part: Vec<char> = Vec::new();
    let mut i = from;
    while i < to
        invariant
            from <= i <= to <= s@.len(),
            part@ == s@.subrange(from as int, i as int),
        decreases to - i,
    {
        part.push(s[i]);
        assert(s@.subrange(from as int, i + 1) =~= s@.subrange(from as int, i as int).push(
            s@[i as int],
        ));
        i += 1;
    }
    part
}

/// Whether two texts are the same.
pub fn same_chars(a: &[char], b: &[char]) -> (same: bool)
    ensures
        same == (a@ == b@),
{
    if a.len() != b.len() {
        return false;
    }
    let mut i: usize = 0;
    while i < a.len()
        invariant
            0 <= i <= a@.len(),
            a@.len() == b@.len(),
            forall|k: int| 0 <= k < i ==> a@[k] == b@[k],
        decreases a@.len() - i,
    {
        if a[i] != b[i] {
            return false;
        }
        i += 1;
    }
    assert(a@ =~= b@);
    true
}

/// Where the text without white space at either end begins and ends.
pub fn trim_bounds(s: &[char]) -> (bounds: (usize, usize))
    ensures
        bounds.0 <= bounds.1 <= s@.len(),
        s@.subrange(bounds.0 as int, bounds.1 as int) == trim(s@),
{
    let mut start: usize = 0;
    proof {
        assert(s@.skip(0) =~= s@);
    }
    while start < s.len() && char_is_whitespace(s[start])
        invariant
            0 <= start <= s@.len(),
            trim_start(s@) == trim_start(s@.skip(start as int)),
        decreases s@.len() - start,
    {
        proof {
            assert(s@.skip(start as int).drop_first() =~= s@.skip(start + 1));
        }
        start += 1;
    }
    assert(trim_start(s@) == s@.skip(start as int));
    let ghost rest = s@.skip(start as int);
    let mut end: usize = s.len();
    proof {
        assert(rest.take(rest.len() as int) =~= rest);
    }
    while end > start && char_is_whitespace(s[end - 1])
        invariant
            start <= end <= s@.len(),
            rest == s@.skip(start as int),
            trim_end(rest) == trim_end(rest.take(end - start)),
        decreases end,
    {
        proof {
            assert(rest.take(end - start).drop_last() =~= rest.take(end - start - 1));
        }
        end -= 1;
    }
    proof {
        assert(rest.take(end - start) =~= s@.subrange(start as int, end as int));
    }
    (start, end)
}

/// Where `c` first occurs in `s` at or behind `from`.
pub fn position_of(s: &[char], c: char, from: usize) -> (at: usize)
    requires
        from <= s@.len(),
    ensures
        at == find_char(s@, c, from as int),
        from <= at <= s@.len(),
{
    let mut at = from;
    while at < s.len() && s[at] != c
        invariant
            from <= at <= s@.len(),
            find_char(s@, c, from as int) == find_char(s@, c, at as int),
        decreases s@.len() - at,
    {
        at += 1;
    }
    at
}

/// Whether `pattern` stands in `s` at `at`.
pub fn stands_at(s: &[char], pattern: &[char], at: usize) -> (found: bool)
    ensures
        found == occurs_at(s@, pattern@, at as int),
{
    if pattern.len() > s.len() || at > s.len() - pattern.len() {
        return false;
    }
    let whole = s.len();
    let mut i: usize = 0;
    while i < pattern.len()
        invariant
            0 <= i <= pattern@.len(),
            whole == s@.len(),
            at + pattern@.len() <= s@.len(),
            forall|k: int| 0 <= k < i ==> s@[at + k] == pattern@[k],
        decreases pattern@.len() - i,
    {
        if s[at + i] != pattern[i] {
            assert(s@.subrange(at as int, at + pattern@.len())[i as int] != pattern@[i as int]);
            return false;
        }
        i += 1;
    }
    assert(s@.subrange(at as int, at + pattern@.len()) =~= pattern@);
    true
}

/// Where `pattern` first stands in `s` at or behind `from`.
pub fn position_of_text(s: &[char], pattern: &[char], from: usize) -> (at: usize)
    requires
        from <= s@.len(),
    ensures
        at == find(s@, pattern@, from as int),
        from <= at <= s@.len(),
{
    let mut at = from;
    while at < s.len() && !stands_at(s, pattern, at)
        invariant
            from <= at <= s@.len(),
            find(s@, pattern@, from as int) == find(s@, pattern@, at as int),
        decreases s@.len() - at,
    {
        at += 1;
    }
    at
}

/// The lines of a text, each as a text of its own.
pub fn split_lines(s: &[char]) -> (out: Vec<Vec<char>>)
    ensures
        out@.len() == lines(s@).len(),
        forall|i: int| 0 <= i < out@.len() ==> (#[trigger] out@[i])@ == lines(s@)[i],
{
    let mut out: Vec<Vec<char>> = Vec::new();
    let mut from: usize = 0;
    proof {
        assert(s@.skip(0) =~= s@);
    }
    while from < s.len()
        invariant
            0 <= from <= s@.len(),
            lines(s@).len() == out@.len() + lines(s@.skip(from as int)).len(),
            forall|i: int| 0 <= i < out@.len() ==> (#[trigger] out@[i])@ == lines(s@)[i],
            forall|i: int|
                0 <= i < lines(s@.skip(from as int)).len() ==> lines(s@)[out@.len() + i]
                    == #[trigger] lines(s@.skip(from as int))[i],
        decreases s@.len() - from,
    {
        let ghost rest = s@.skip(from as int);
        let ghost done = out@.len() as int;
        let end = position_of(s, '\n', from);
        proof {
            lemma_find_shift(s@, '\n', from as int, from as int);
            assert(find_char(rest, '\n', 0) == end - from);
        }
        let stop = if end < s.len() && end > from && s[end - 1] == '\r' {
            end - 1
        } else {
            end
        };
        let line = copy_range(s, from, stop);
        proof {
            assert(line@ =~= lines(rest)[0]) by {
                if end < s.len() {
                    assert(rest[end - from] == s@[end as int]);
                    if end > from {
                        assert(rest[end - from - 1] == s@[end - 1]);
                    }
                    assert(rest.take(stop - from) =~= s@.subrange(from as int, stop as int));
                } else {
                    assert(rest =~= s@.subrange(from as int, stop as int));
                }
            }
            if end < s.len() {
                assert(rest.skip(end - from + 1) =~= s@.skip(end + 1));
            }
        }
        out.push(line);
        from = if end < s.len() {
            end + 1
        } else {
            end
        };
        proof {
            let after = s@.skip(from as int);
            if end >= s.len() {
                assert(after.len() == 0);
                assert(lines(rest) =~= seq![rest]);
            } else {
                assert(lines(rest) =~= seq![lines(rest)[0]] + lines(after));
            }
            assert forall|i: int| 0 <= i < lines(after).len() implies lines(s@)[out@.len() + i]
                == #[trigger] lines(after)[i] by {
                assert(lines(rest)[1 + i] == lines(after)[i]);
                assert(lines(s@)[done + (1 + i)] == lines(rest)[1 + i]);
            }
            assert(lines(s@)[done + 0] == lines(rest)[0]);
        }
    }
    out
}

/// Searching behind `from` in a text is searching from the start in what
/// is left of the text behind `base`.
pub proof fn lemma_find_shift(s: Seq<char>, c: char, base: int, from: int)
    requires
        0 <= base <= from <= s.len(),
    ensures
        find_char(s, c, from) == base + find_char(s.skip(base), c, from - base),
    decreases s.len() - from,
{
    if from < s.len() {
        assert(s.skip(base)[from - base] == s[from]);
        if s[from] != c {
            lemma_find_shift(s, c, base, from + 1);
        }
    }
}

} // verus!
