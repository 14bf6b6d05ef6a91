//! Scanning a string for `{{name}}` placeholder spans.

use vstd::prelude::*;

use crate::text::{is_space_char, trim_spec, trim_substring, matches_at, contains_seq};

verus! {

/// The two-character opening marker `{{` stands at position `i`.
pub open spec fn is_open_at(s: Seq<char>, i: int) -> bool {
    0 <= i && i + 1 < s.len() && s[i] == '{' && s[i + 1] == '{'
}

/// The two-character closing marker `}}` stands at position `i`.
pub open spec fn is_close_at(s: Seq<char>, i: int) -> bool {
    0 <= i && i + 1 < s.len() && s[i] == '}' && s[i + 1] == '}'
}

/// Position of the first closing marker at or after `j`, if any.
pub open spec fn find_close_from(s: Seq<char>, j: int) -> Option<int>
    decreases s.len() - j,
{
    if j < 0 || j + 1 >= s.len() {
        None
    } else if is_close_at(s, j) {
        Some(j)
    } else {
        find_close_from(s, j + 1)
    }
}

pub proof fn lemma_find_close_some(s: Seq<char>, j0: int)
    requires
        find_close_from(s, j0) is Some,
    ensures
        ({
            let j = find_close_from(s, j0)->0;
            j0 <= j && j + 1 < s.len() && is_close_at(s, j)
        }),
    decreases s.len() - j0,
{
    if !(j0 < 0 || j0 + 1 >= s.len()) && !is_close_at(s, j0) {
        lemma_find_close_some(s, j0 + 1);
    }
}

proof fn lemma_find_close_skip(s: Seq<char>, j0: int, j: int)
    requires
        0 <= j0 <= j,
        forall|k: int| j0 <= k < j ==> !is_close_at(s, k),
    ensures
        find_close_from(s, j0) == find_close_from(s, j),
    decreases j - j0,
{
    if j0 < j {
        lemma_find_close_skip(s, j0 + 1, j);
    }
}

/// One parsed span: start offset, end offset (one past the closing marker),
/// and the trimmed variable name.
pub open spec fn scan_vars(s: Seq<char>, i: int) -> Seq<(int, int, Seq<char>)>
    decreases s.len() - i,
    when 0 <= i
    via scan_vars_dec
{
    if i + 1 >= s.len() {
        Seq::empty()
    } else if is_open_at(s, i) {
        match find_close_from(s, i + 2) {
            Option::None => Seq::empty(),
            Option::Some(j) => {
                let name = trim_spec(s.subrange(i + 2, j));
                if name.len() > 0 {
                    seq![(i, j + 2, name)] + scan_vars(s, j + 2)
                } else {
                    scan_vars(s, j + 2)
                }
            },
        }
    } else {
        scan_vars(s, i + 1)
    }
}

#[via_fn]
proof fn scan_vars_dec(s: Seq<char>, i: int) {
    if i + 1 < s.len() && is_open_at(s, i) {
        if find_close_from(s, i + 2) is Some {
            lemma_find_close_some(s, i + 2);
        }
    }
}

/// The spans of a parse result, as mathematical values.
pub open spec fn spans_view(v: Seq<(usize, usize, String)>) -> Seq<(int, int, Seq<char>)> {
    v.map_values(|t: (usize, usize, String)| (t.0 as int, t.1 as int, t.2@))
}

/// Parse all `{{name}}` spans of `input`, in one pass from left to right.
/// Each span covers the markers; the name is the trimmed interior. Spans
/// with an empty trimmed interior are skipped; an opening marker with no
/// closing marker aborts the scan.
pub fn parse_vars(input: &str) -> (r: Vec<(usize, usize, String)>)
    ensures
        spans_view(r@) == scan_vars(input@, 0),
{
    let len = input.unicode_len();
    let mut result: Vec<(usize, usize, String)> = Vec::new();
    let mut i: usize = 0;
    while i < len && i + 1 < len
        invariant
            len == input@.len(),
            i <= len,
            spans_view(result@) + scan_vars(input@, i as int) == scan_vars(input@, 0),
        decreases len - i,
    {
        if input.get_char(i) == '{' && input.get_char(i + 1) == '{' {
            let mut j: usize = i + 2;
            let mut found = false;
            while !found && j < len && j + 1 < len
                invariant
                    len == input@.len(),
                    i + 2 <= j <= len,
                    forall|k: int| i + 2 <= k < j ==> !is_close_at(input@, k),
                    found ==> j + 1 < len && is_close_at(input@, j as int),
                decreases len - j + (if found { 0int } else { 1int }),
            {
                if input.get_char(j) == '}' && input.get_char(j + 1) == '}' {
                    found = true;
                } else {
                    j = j + 1;
                }
            }
            proof {
                lemma_find_close_skip(input@, i + 2, j as int);
            }
            if found {
                assert(find_close_from(input@, i + 2) == Some(j as int));
                let name = trim_substring(input, i + 2, j);
                if name.unicode_len() > 0 {
                    let ghost old_spans = spans_view(result@);
                    result.push((i, j + 2, name));
                    proof {
                        assert(spans_view(result@) =~= old_spans + seq![
                            (i as int, j + 2, trim_spec(input@.subrange(i + 2, j as int))),
                        ]);
                    }
                }
                i = j + 2;
            } else {
                assert(find_close_from(input@, i + 2) is None);
                assert(scan_vars(input@, i as int) =~= Seq::empty());
                return result;
            }
        } else {
            i = i + 1;
        }
    }
    result
}

/// Spans are in order, within bounds, at least four characters wide, and
/// carry non-empty names; consecutive spans do not overlap. `i` bounds the
/// first span's start from below.
pub open spec fn spans_wf_from(s: Seq<char>, i: int, spans: Seq<(int, int, Seq<char>)>) -> bool {
    forall|k: int|
        0 <= k < spans.len() ==> {
            let lo = if k == 0 {
                i
            } else {
                spans[k - 1].1
            };
            &&& lo <= (#[trigger] spans[k]).0
            &&& spans[k].0 + 4 <= spans[k].1
            &&& spans[k].1 <= s.len()
            &&& spans[k].2.len() > 0
        }
}

proof fn lemma_spans_wf_weaken(s: Seq<char>, i: int, i2: int, spans: Seq<(int, int, Seq<char>)>)
    requires
        i <= i2,
        spans_wf_from(s, i2, spans),
    ensures
        spans_wf_from(s, i, spans),
{
}

/// Every scan yields well-formed spans.
pub proof fn lemma_scan_vars_wf(s: Seq<char>, i: int)
    requires
        0 <= i,
    ensures
        spans_wf_from(s, i, scan_vars(s, i)),
    decreases s.len() - i,
{
    if i + 1 >= s.len() {
    } else if is_open_at(s, i) {
        match find_close_from(s, i + 2) {
            Option::None => {},
            Option::Some(j) => {
                lemma_find_close_some(s, i + 2);
                lemma_scan_vars_wf(s, j + 2);
                let name = trim_spec(s.subrange(i + 2, j));
                if name.len() > 0 {
                    let head = seq![(i, j + 2, name)];
                    let tail = scan_vars(s, j + 2);
                    let all = head + tail;
                    assert forall|k: int| 0 <= k < all.len() implies {
                        let lo = if k == 0 {
                            i
                        } else {
                            all[k - 1].1
                        };
                        &&& lo <= (#[trigger] all[k]).0
                        &&& all[k].0 + 4 <= all[k].1
                        &&& all[k].1 <= s.len()
                        &&& all[k].2.len() > 0
                    } by {
                        if k == 0 {
                        } else {
                            assert(all[k] == tail[k - 1]);
                            assert(spans_wf_from(s, j + 2, tail));
                            if k == 1 {
                                assert(tail[0].0 >= j + 2);
                            } else {
                                assert(all[k - 1] == tail[k - 2]);
                            }
                        }
                    }
                } else {
                    lemma_spans_wf_weaken(s, i, j + 2, scan_vars(s, j + 2));
                }
            },
        }
    } else {
        lemma_scan_vars_wf(s, i + 1);
        lemma_spans_wf_weaken(s, i, i + 1, scan_vars(s, i + 1));
    }
}

/// The opening marker, as a sequence.
pub open spec fn open_marker() -> Seq<char> {
    seq!['{', '{']
}

proof fn lemma_open_at_is_match(s: Seq<char>, i: int)
    ensures
        is_open_at(s, i) <==> matches_at(s, open_marker(), i),
{
    if is_open_at(s, i) {
        assert(s.subrange(i, i + 2) =~= open_marker());
    }
    if matches_at(s, open_marker(), i) {
        assert(s.subrange(i, i + 2)[0] == s[i]);
        assert(s.subrange(i, i + 2)[1] == s[i + 1]);
    }
}

proof fn lemma_scan_vars_no_open(s: Seq<char>, i: int)
    requires
        0 <= i,
        forall|k: int| !is_open_at(s, k),
    ensures
        scan_vars(s, i) == Seq::<(int, int, Seq<char>)>::empty(),
    decreases s.len() - i,
{
    if i + 1 < s.len() {
        lemma_scan_vars_no_open(s, i + 1);
    }
}

/// A string without the opening marker `{{` parses to no spans at all.
pub proof fn lemma_parse_vars_empty_without_marker(s: Seq<char>)
    requires
        !contains_seq(s, open_marker()),
    ensures
        scan_vars(s, 0) == Seq::<(int, int, Seq<char>)>::empty(),
{
    assert forall|k: int| !is_open_at(s, k) by {
        lemma_open_at_is_match(s, k);
    }
    lemma_scan_vars_no_open(s, 0);
}

} // verus!
