use vstd::prelude::*;

verus! {

// ---------------------------------------------------------------------------
// Substring search over character sequences.
//
// The log format is line-oriented; the interesting fragments of a line sit
// between fixed marker strings. Everything below pins down, over `Seq<char>`,
// where a marker first occurs and what text a pair of markers encloses, and
// provides executable search functions proved against those definitions.
// ---------------------------------------------------------------------------

/// `pat` occurs in `s` starting at position `i`.
pub open spec fn occurs_at(s: Seq<char>, pat: Seq<char>, i: int) -> bool {
    0 <= i && i + pat.len() <= s.len() && s.subrange(i, i + pat.len() as int) == pat
}

/// Position of the first occurrence of `pat` in `s` at or after `from`,
/// if there is one.
pub open spec fn find_at(s: Seq<char>, pat: Seq<char>, from: int) -> Option<int>
    decreases s.len() - from when from >= 0
{
    if from + pat.len() > s.len() {
        None
    } else if pat.len() == 0 {
        Some(from)
    } else if occurs_at(s, pat, from) {
        Some(from)
    } else {
        find_at(s, pat, from + 1)
    }
}

/// `find_at` returns the first occurrence and nothing earlier; `None` means
/// no occurrence at all.
pub proof fn lemma_find_at_props(s: Seq<char>, pat: Seq<char>, from: int)
    requires
        from >= 0,
    ensures
        match find_at(s, pat, from) {
            Some(i) => from <= i && occurs_at(s, pat, i) && forall|j: int|
                from <= j < i ==> !occurs_at(s, pat, j),
            None => forall|j: int| j >= from ==> !occurs_at(s, pat, j),
        },
    decreases s.len() - from,
{
    if from + pat.len() > s.len() {
        assert forall|j: int| j >= from implies !occurs_at(s, pat, j) by {
            assert(j + pat.len() >= from + pat.len());
        }
    } else if pat.len() == 0 {
        assert(s.subrange(from, from + pat.len() as int) =~= pat);
    } else if occurs_at(s, pat, from) {
    } else {
        lemma_find_at_props(s, pat, from + 1);
    }
}

/// The text enclosed between the first occurrence of `open_pat` and the
/// first occurrence of `close_pat` after it, if both markers are present.
/// This is what a lazy capture between two literal markers matches.
pub open spec fn capture_between(
    s: Seq<char>,
    open_pat: Seq<char>,
    close_pat: Seq<char>,
) -> Option<Seq<char>> {
    match find_at(s, open_pat, 0) {
        Some(i) => {
            let start = i + open_pat.len();
            match find_at(s, close_pat, start) {
                Some(j) => Some(s.subrange(start, j)),
                None => None,
            }
        },
        None => None,
    }
}

/// The text from right after the first occurrence of `open_pat` to the end
/// of `s`, if the marker is present. This is what a greedy capture after a
/// literal marker matches on a single line.
pub open spec fn capture_to_end(s: Seq<char>, open_pat: Seq<char>) -> Option<Seq<char>> {
    match find_at(s, open_pat, 0) {
        Some(i) => Some(s.subrange(i + open_pat.len(), s.len() as int)),
        None => None,
    }
}

/// Whether `pat` occurs at position `i` of `s`.
fn matches_at(s: &str, pat: &str, i: usize) -> (b: bool)
    requires
        i + pat@.len() <= s@.len() <= usize::MAX,
    ensures
        b == occurs_at(s@, pat@, i as int),
{
    let m = pat.unicode_len();
    let mut k: usize = 0;
    while k < m
        invariant
            k <= m,
            m == pat@.len(),
            i + m <= s@.len() <= usize::MAX,
            forall|t: int| 0 <= t < k ==> s@[i + t] == pat@[t],
        decreases m - k,
    {
        if s.get_char(i + k) != pat.get_char(k) {
            proof {
                if occurs_at(s@, pat@, i as int) {
                    assert(s@.subrange(i as int, i + m as int)[k as int] == s@[i + k]);
                }
            }
            return false;
        }
        k += 1;
    }
    proof {
        assert(s@.subrange(i as int, i + m as int) =~= pat@);
    }
    true
}

/// Position of the first occurrence of `pat` in `s` at or after `from`.
pub fn find_from(s: &str, pat: &str, from: usize) -> (r: Option<usize>)
    ensures
        match r {
            Some(i) => from <= i && find_at(s@, pat@, from as int) == Some(i as int),
            None => find_at(s@, pat@, from as int) is None,
        },
{
    let n = s.unicode_len();
    let m = pat.unicode_len();
    if from > n || m > n - from {
        return None;
    }
    if m == 0 {
        return Some(from);
    }
    let mut i = from;
    while i <= n - m
        invariant
            from <= i,
            i <= n,
            1 <= m <= n,
            n == s@.len(),
            m == pat@.len(),
            find_at(s@, pat@, from as int) == find_at(s@, pat@, i as int),
        decreases n - i,
    {
        if matches_at(s, pat, i) {
            return Some(i);
        }
        i += 1;
    }
    None
}

/// The text between the first occurrence of `open_pat` and the first
/// occurrence of `close_pat` after it.
pub fn extract_between(line: &str, open_pat: &str, close_pat: &str) -> (r: Option<String>)
    ensures
        match r {
            Some(c) => capture_between(line@, open_pat@, close_pat@) == Some(c@),
            None => capture_between(line@, open_pat@, close_pat@) is None,
        },
{
    // Binds the character count so position arithmetic below is known to
    // stay within the machine word.
    let _line_len = line.unicode_len();
    match find_from(line, open_pat, 0) {
        Some(i) => {
            proof {
                lemma_find_at_props(line@, open_pat@, 0);
            }
            let start = i + open_pat.unicode_len();
            match find_from(line, close_pat, start) {
                Some(j) => {
                    proof {
                        lemma_find_at_props(line@, close_pat@, start as int);
                    }
                    Some(line.substring_char(start, j).to_owned())
                },
                None => None,
            }
        },
        None => None,
    }
}

/// The text from right after the first occurrence of `open_pat` to the end
/// of `line`.
pub fn extract_to_end(line: &str, open_pat: &str) -> (r: Option<String>)
    ensures
        match r {
            Some(c) => capture_to_end(line@, open_pat@) == Some(c@),
            None => capture_to_end(line@, open_pat@) is None,
        },
{
    let n = line.unicode_len();
    match find_from(line, open_pat, 0) {
        Some(i) => {
            proof {
                lemma_find_at_props(line@, open_pat@, 0);
            }
            Some(line.substring_char(i + open_pat.unicode_len(), n).to_owned())
        },
        None => None,
    }
}

// ---------------------------------------------------------------------------
// Splitting the raw log text into lines, the way the standard line iterator
// does: lines end at a line feed, and a carriage return directly before the
// line feed is not part of the line. A final line needs no line feed, and a
// trailing carriage return without a line feed stays.
// ---------------------------------------------------------------------------

/// Position of the first line feed at or after `pos`, or the end of `s`.
pub open spec fn line_end(s: Seq<char>, pos: int) -> int
    decreases s.len() - pos when 0 <= pos <= s.len()
{
    if pos >= s.len() {
        pos
    } else if s[pos] == '\n' {
        pos
    } else {
        line_end(s, pos + 1)
    }
}

pub proof fn lemma_line_end_bounds(s: Seq<char>, pos: int)
    requires
        0 <= pos <= s.len(),
    ensures
        pos <= line_end(s, pos) <= s.len(),
        line_end(s, pos) < s.len() ==> s[line_end(s, pos)] == '\n',
        forall|j: int| pos <= j < line_end(s, pos) ==> s[j] != '\n',
    decreases s.len() - pos,
{
    if pos >= s.len() {
    } else if s[pos] == '\n' {
    } else {
        lemma_line_end_bounds(s, pos + 1);
    }
}

/// A line as the split yields it: without the carriage return that preceded
/// the line feed.
pub open spec fn strip_cr(l: Seq<char>) -> Seq<char> {
    if l.len() > 0 && l.last() == '\r' {
        l.drop_last()
    } else {
        l
    }
}

/// The lines of `s` from position `pos` on.
pub open spec fn spec_lines_from(s: Seq<char>, pos: int) -> Seq<Seq<char>>
    decreases s.len() - pos when 0 <= pos <= s.len() via spec_lines_from_decreases
{
    if pos >= s.len() {
        Seq::empty()
    } else {
        let e = line_end(s, pos);
        if e >= s.len() {
            seq![s.subrange(pos, s.len() as int)]
        } else {
            seq![strip_cr(s.subrange(pos, e))] + spec_lines_from(s, e + 1)
        }
    }
}

#[via_fn]
proof fn spec_lines_from_decreases(s: Seq<char>, pos: int) {
    lemma_line_end_bounds(s, pos);
}

/// The lines of `s`.
pub open spec fn spec_lines(s: Seq<char>) -> Seq<Seq<char>> {
    spec_lines_from(s, 0)
}

/// Position of the first line feed of `s` at or after `pos`, or the length
/// of `s` if there is none.
fn find_line_end(s: &str, pos: usize) -> (e: usize)
    requires
        pos <= s@.len() <= usize::MAX,
    ensures
        e == line_end(s@, pos as int),
        pos <= e <= s@.len(),
{
    let n = s.unicode_len();
    let mut i = pos;
    while i < n
        invariant
            pos <= i <= n,
            n == s@.len(),
            line_end(s@, pos as int) == line_end(s@, i as int),
        decreases n - i,
    {
        if s.get_char(i) == '\n' {
            return i;
        }
        i += 1;
    }
    i
}

/// Splits the raw log text into its lines.
pub fn split_lines(s: &str) -> (lines: Vec<String>)
    ensures
        lines@.len() == spec_lines(s@).len(),
        forall|i: int| 0 <= i < lines@.len() ==> lines@[i]@ == spec_lines(s@)[i],
{
    let mut lines: Vec<String> = Vec::new();
    let n = s.unicode_len();
    let mut pos: usize = 0;
    while pos < n
        invariant
            pos <= n,
            n == s@.len(),
            lines@.len() <= spec_lines(s@).len(),
            forall|i: int| 0 <= i < lines@.len() ==> lines@[i]@ == spec_lines(s@)[i],
            spec_lines_from(s@, pos as int) == spec_lines(s@).subrange(
                lines@.len() as int,
                spec_lines(s@).len() as int,
            ),
        decreases n - pos,
    {
        let e = find_line_end(s, pos);
        let ghost pre = lines@.len() as int;
        let ghost full = spec_lines(s@);
        let ghost old_pos = pos as int;
        proof {
            assert(spec_lines_from(s@, pos as int).len() >= 1);
            assert(full.subrange(pre, full.len() as int)[0] == full[pre]);
        }
        if e < n {
            let piece: &str;
            if e > pos && s.get_char(e - 1) == '\r' {
                piece = s.substring_char(pos, e - 1);
                proof {
                    assert(s@.subrange(pos as int, e as int).last() == s@[e - 1]);
                    assert(strip_cr(s@.subrange(pos as int, e as int)) =~= s@.subrange(
                        pos as int,
                        e - 1,
                    ));
                }
            } else {
                piece = s.substring_char(pos, e);
                proof {
                    if s@.subrange(pos as int, e as int).len() > 0 {
                        assert(s@.subrange(pos as int, e as int).last() == s@[e - 1]);
                    }
                    assert(strip_cr(s@.subrange(pos as int, e as int)) == s@.subrange(
                        pos as int,
                        e as int,
                    ));
                }
            }
            lines.push(piece.to_owned());
            pos = e + 1;
        } else {
            let piece = s.substring_char(pos, n);
            lines.push(piece.to_owned());
            pos = n;
        }
        proof {
            let ghost l = full.len() as int;
            let ghost rest = spec_lines_from(s@, pos as int);
            assert(lines@.len() == pre + 1);
            assert(spec_lines_from(s@, old_pos) == full.subrange(pre, l));
            assert(seq![full[pre]] + rest =~= spec_lines_from(s@, old_pos));
            assert(rest.len() == l - pre - 1);
            assert forall|i: int| 0 <= i < rest.len() implies rest[i] == full[pre + 1 + i] by {
                assert((seq![full[pre]] + rest)[i + 1] == rest[i]);
                assert(full.subrange(pre, l)[i + 1] == full[pre + 1 + i]);
            }
            assert(rest =~= full.subrange(pre + 1, l));
            assert(lines@[pre]@ == full[pre]);
        }
    }
    lines
}

} // verus!
