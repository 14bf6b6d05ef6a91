//! Verified helpers over strings viewed as sequences of characters.

use vstd::prelude::*;

verus! {

/// Characters removed by trimming: the Unicode white-space set, the same
/// characters `char::is_whitespace` accepts.
pub open spec fn is_space_char(c: char) -> bool {
    ||| c == '\t' || c == '\n' || c == '\u{b}' || c == '\u{c}' || c == '\r' || c == ' '
    ||| c == '\u{85}' || c == '\u{a0}' || c == '\u{1680}'
    ||| c == '\u{2000}' || c == '\u{2001}' || c == '\u{2002}' || c == '\u{2003}'
    ||| c == '\u{2004}' || c == '\u{2005}' || c == '\u{2006}' || c == '\u{2007}'
    ||| c == '\u{2008}' || c == '\u{2009}' || c == '\u{200a}'
    ||| c == '\u{2028}' || c == '\u{2029}' || c == '\u{202f}' || c == '\u{205f}' || c == '\u{3000}'
}

/// Drop leading whitespace.
pub open spec fn trim_front_spec(s: Seq<char>) -> Seq<char>
    decreases s.len(),
{
    if s.len() > 0 && is_space_char(s[0]) {
        trim_front_spec(s.drop_first())
    } else {
        s
    }
}

/// Drop trailing whitespace.
pub open spec fn trim_back_spec(s: Seq<char>) -> Seq<char>
    decreases s.len(),
{
    if s.len() > 0 && is_space_char(s.last()) {
        trim_back_spec(s.drop_last())
    } else {
        s
    }
}

/// Drop leading and trailing whitespace.
pub open spec fn trim_spec(s: Seq<char>) -> Seq<char> {
    trim_back_spec(trim_front_spec(s))
}

pub fn is_space(c: char) -> (r: bool)
    ensures
        r == is_space_char(c),
{
    (c == '\t' || c == '\n' || c == '\u{b}' || c == '\u{c}' || c == '\r' || c == ' ')
        || (c == '\u{85}' || c == '\u{a0}' || c == '\u{1680}')
        || (c == '\u{2000}' || c == '\u{2001}' || c == '\u{2002}' || c == '\u{2003}'
            || c == '\u{2004}' || c == '\u{2005}' || c == '\u{2006}' || c == '\u{2007}'
            || c == '\u{2008}' || c == '\u{2009}' || c == '\u{200a}')
        || (c == '\u{2028}' || c == '\u{2029}' || c == '\u{202f}' || c == '\u{205f}'
            || c == '\u{3000}')
}

proof fn lemma_trim_front_skip(s: Seq<char>, from: int, a: int, to: int)
    requires
        0 <= from <= a <= to <= s.len(),
        forall|k: int| from <= k < a ==> is_space_char(s[k]),
    ensures
        trim_front_spec(s.subrange(from, to)) == trim_front_spec(s.subrange(a, to)),
    decreases a - from,
{
    if from < a {
        let sub = s.subrange(from, to);
        assert(sub[0] == s[from]);
        assert(sub.drop_first() =~= s.subrange(from + 1, to));
        lemma_trim_front_skip(s, from + 1, a, to);
    } else {
        assert(s.subrange(from, to) =~= s.subrange(a, to));
    }
}

proof fn lemma_trim_back_skip(s: Seq<char>, a: int, b: int, to: int)
    requires
        0 <= a <= b <= to <= s.len(),
        forall|k: int| b <= k < to ==> is_space_char(s[k]),
    ensures
        trim_back_spec(s.subrange(a, to)) == trim_back_spec(s.subrange(a, b)),
    decreases to - b,
{
    if b < to {
        let sub = s.subrange(a, to);
        assert(sub.last() == s[to - 1]);
        assert(sub.drop_last() =~= s.subrange(a, to - 1));
        lemma_trim_back_skip(s, a, b, to - 1);
    } else {
        assert(s.subrange(a, to) =~= s.subrange(a, b));
    }
}

/// The trimmed text of `s[from..to]`, as a fresh string.
pub fn trim_substring(s: &str, from: usize, to: usize) -> (r: String)
    requires
        from <= to <= s@.len(),
    ensures
        r@ == trim_spec(s@.subrange(from as int, to as int)),
{
    let mut a: usize = from;
    while a < to && is_space(s.get_char(a))
        invariant
            from <= a <= to <= s@.len(),
            forall|k: int| from <= k < a ==> is_space_char(s@[k]),
        decreases to - a,
    {
        a = a + 1;
    }
    proof {
        lemma_trim_front_skip(s@, from as int, a as int, to as int);
        // at this point the front is fully trimmed
        if a < to {
            let sub = s@.subrange(a as int, to as int);
            assert(sub[0] == s@[a as int]);
        }
    }
    let mut b: usize = to;
    while b > a && is_space(s.get_char(b - 1))
        invariant
            from <= a <= b <= to <= s@.len(),
            forall|k: int| b <= k < to ==> is_space_char(s@[k]),
        decreases b,
    {
        b = b - 1;
    }
    proof {
        lemma_trim_back_skip(s@, a as int, b as int, to as int);
        if b > a {
            let sub = s@.subrange(a as int, b as int);
            assert(sub.last() == s@[b - 1]);
        } else {
            assert(s@.subrange(a as int, b as int) =~= Seq::<char>::empty());
        }
    }
    let piece = s.substring_char(a, b);
    piece.to_owned()
}

/// Character-for-character string equality.
pub fn str_eq_str(a: &str, b: &str) -> (r: bool)
    ensures
        r == (a@ == b@),
{
    let la = a.unicode_len();
    let lb = b.unicode_len();
    if la != lb {
        return false;
    }
    let mut i: usize = 0;
    while i < la
        invariant
            la == a@.len(),
            la == b@.len(),
            i <= la,
            forall|k: int| 0 <= k < i ==> a@[k] == b@[k],
        decreases la - i,
    {
        if a.get_char(i) != b.get_char(i) {
            return false;
        }
        i = i + 1;
    }
    proof {
        assert(a@ =~= b@);
    }
    true
}

/// `p` occurs in `s` starting at position `i`.
pub open spec fn matches_at(s: Seq<char>, p: Seq<char>, i: int) -> bool {
    0 <= i && i + p.len() <= s.len() && s.subrange(i, i + p.len()) == p
}

/// `p` occurs somewhere in `s`.
pub open spec fn contains_seq(s: Seq<char>, p: Seq<char>) -> bool {
    exists|i: int| matches_at(s, p, i)
}

/// `p` occurs at the start of `s`.
pub open spec fn starts_with_spec(s: Seq<char>, p: Seq<char>) -> bool {
    matches_at(s, p, 0)
}

/// Does `p` occur in `s` at position `i`?
pub fn match_at(s: &str, p: &str, i: usize) -> (r: bool)
    requires
        i <= s@.len(),
    ensures
        r == matches_at(s@, p@, i as int),
{
    let lp = p.unicode_len();
    let ls = s.unicode_len();
    if lp > ls - i {
        return false;
    }
    let mut k: usize = 0;
    while k < lp
        invariant
            lp == p@.len(),
            ls == s@.len(),
            i + lp <= ls,
            k <= lp,
            forall|j: int| 0 <= j < k ==> s@[i + j] == p@[j],
        decreases lp - k,
    {
        if s.get_char(i + k) != p.get_char(k) {
            proof {
                let sub = s@.subrange(i as int, i + lp);
                assert(sub[k as int] == s@[i + k]);
            }
            return false;
        }
        k = k + 1;
    }
    proof {
        assert(s@.subrange(i as int, i + lp) =~= p@);
    }
    true
}

/// Does `p` occur at the start of `s`?
pub fn str_starts_with(s: &str, p: &str) -> (r: bool)
    ensures
        r == starts_with_spec(s@, p@),
{
    match_at(s, p, 0)
}

/// Does `p` occur anywhere in `s`?
pub fn str_contains(s: &str, p: &str) -> (r: bool)
    ensures
        r == contains_seq(s@, p@),
{
    let ls = s.unicode_len();
    let lp = p.unicode_len();
    if lp == 0 {
        proof {
            assert(s@.subrange(0, 0) =~= p@);
            assert(matches_at(s@, p@, 0));
        }
        return true;
    }
    let mut i: usize = 0;
    while i < ls
        invariant
            ls == s@.len(),
            lp == p@.len(),
            lp >= 1,
            i <= ls,
            forall|j: int| 0 <= j < i ==> !matches_at(s@, p@, j),
        decreases ls - i,
    {
        if match_at(s, p, i) {
            return true;
        }
        i = i + 1;
    }
    proof {
        assert(forall|j: int| matches_at(s@, p@, j) ==> 0 <= j < ls);
    }
    false
}

/// Pad with spaces, or truncate, to exactly `w` characters.
pub open spec fn pad_right_spec(s: Seq<char>, w: int) -> Seq<char> {
    if s.len() >= w {
        s.subrange(0, w)
    } else {
        s + Seq::new((w - s.len()) as nat, |i: int| ' ')
    }
}

/// Pad or truncate a string to exactly `width` characters, for column alignment.
pub fn pad_right(s: &str, width: usize) -> (r: String)
    ensures
        r@ == pad_right_spec(s@, width as int),
{
    let n = s.unicode_len();
    if n >= width {
        let piece = s.substring_char(0, width);
        piece.to_owned()
    } else {
        let mut out = s.to_owned();
        proof {
            reveal_strlit(" ");
            assert(out@ =~= s@ + Seq::new(0nat, |i: int| ' '));
        }
        let mut k: usize = 0;
        while k < width - n
            invariant
                n == s@.len(),
                n < width,
                k <= width - n,
                out@ == s@ + Seq::new(k as nat, |i: int| ' '),
                " "@ == seq![' '],
        decreases width - n - k,
        {
            out.append(" ");
            proof {
                assert(s@ + Seq::new((k + 1) as nat, |i: int| ' ') =~= s@ + Seq::new(
                    k as nat,
                    |i: int| ' ',
                ) + " "@);
            }
            k = k + 1;
        }
        out
    }
}

/// Number of newline characters among the first `upto` characters.
pub open spec fn count_newlines(s: Seq<char>, upto: int) -> int
    decreases upto,
{
    if upto <= 0 {
        0
    } else {
        count_newlines(s, upto - 1) + if s[upto - 1] == '\n' {
            1int
        } else {
            0int
        }
    }
}

/// Position just after the last newline among the first `upto` characters.
pub open spec fn line_start(s: Seq<char>, upto: int) -> int
    decreases upto,
{
    if upto <= 0 {
        0
    } else if s[upto - 1] == '\n' {
        upto
    } else {
        line_start(s, upto - 1)
    }
}

proof fn lemma_count_newlines_bounds(s: Seq<char>, upto: int)
    requires
        0 <= upto,
    ensures
        0 <= count_newlines(s, upto) <= upto,
    decreases upto,
{
    if upto > 0 {
        lemma_count_newlines_bounds(s, upto - 1);
    }
}

proof fn lemma_line_start_bounds(s: Seq<char>, upto: int)
    requires
        0 <= upto,
    ensures
        0 <= line_start(s, upto) <= upto,
    decreases upto,
{
    if upto > 0 && s[upto - 1] != '\n' {
        lemma_line_start_bounds(s, upto - 1);
    }
}

/// Row and column of a character offset in a text, both starting at zero.
/// Offsets past the end count as the end.
pub fn cursor_row_col(text: &str, cursor: usize) -> (rc: (usize, usize))
    ensures
        ({
            let clamped = if cursor <= text@.len() {
                cursor as int
            } else {
                text@.len() as int
            };
            rc.0 == count_newlines(text@, clamped) && rc.1 == clamped - line_start(
                text@,
                clamped,
            )
        }),
{
    let len = text.unicode_len();
    let clamped = if cursor < len {
        cursor
    } else {
        len
    };
    let mut row: usize = 0;
    let mut col: usize = 0;
    let mut i: usize = 0;
    while i < clamped
        invariant
            clamped <= len,
            len == text@.len(),
            i <= clamped,
            row == count_newlines(text@, i as int),
            col == i - line_start(text@, i as int),
            0 <= line_start(text@, i as int) <= i,
            row <= i,
        decreases clamped - i,
    {
        let c = text.get_char(i);
        if c == '\n' {
            row = row + 1;
            col = 0;
        } else {
            col = col + 1;
        }
        proof {
            lemma_line_start_bounds(text@, i + 1);
            lemma_count_newlines_bounds(text@, i + 1);
        }
        i = i + 1;
    }
    (row, col)
}

} // verus!
