//! Title Extractor: scans drafted markdown line by line and returns the text
//! of the first top-level heading, the marker `# ` stripped and nothing else
//! trimmed.

use vstd::prelude::*;

verus! {

/// A line is a top-level heading when it begins with `#` followed by a space.
pub open spec fn is_heading(line: Seq<char>) -> bool {
    line.len() >= 2 && line[0] == '#' && line[1] == ' '
}

/// The title carried by a heading line: everything after the two-character marker.
pub open spec fn heading_title(line: Seq<char>) -> Seq<char> {
    line.subrange(2, line.len() as int)
}

/// A trailing carriage return belongs to the line ending, not to the line.
pub open spec fn strip_cr(line: Seq<char>) -> Seq<char> {
    if line.len() > 0 && line.last() == '\r' {
        line.drop_last()
    } else {
        line
    }
}

/// Index of the first newline of `s`, or `s.len()` when there is none.
pub open spec fn first_nl(s: Seq<char>) -> int
    decreases s.len(),
{
    if s.len() == 0 {
        0
    } else if s[0] == '\n' {
        0
    } else {
        1 + first_nl(s.skip(1))
    }
}

proof fn lemma_first_nl_bounds(s: Seq<char>)
    ensures
        0 <= first_nl(s) <= s.len(),
        forall|j: int| 0 <= j < first_nl(s) ==> s[j] != '\n',
        first_nl(s) < s.len() ==> s[first_nl(s)] == '\n',
    decreases s.len(),
{
    if s.len() != 0 && s[0] != '\n' {
        lemma_first_nl_bounds(s.skip(1));
        assert forall|j: int| 0 <= j < first_nl(s) implies s[j] != '\n' by {
            if j > 0 {
                assert(s[j] == s.skip(1)[j - 1]);
            }
        }
        if first_nl(s) < s.len() {
            assert(s[first_nl(s)] == s.skip(1)[first_nl(s) - 1]);
        }
    }
}

/// `first_nl` is pinned by its characterisation: no newline before `k`, and a
/// newline (or the end of the text) at `k`.
proof fn lemma_first_nl_at(s: Seq<char>, k: int)
    requires
        0 <= k <= s.len(),
        forall|j: int| 0 <= j < k ==> s[j] != '\n',
        k < s.len() ==> s[k] == '\n',
    ensures
        first_nl(s) == k,
    decreases s.len(),
{
    if s.len() == 0 {
    } else if s[0] == '\n' {
        assert(k == 0);
    } else {
        assert(k >= 1);
        assert forall|j: int| 0 <= j < k - 1 implies s.skip(1)[j] != '\n' by {
            assert(s.skip(1)[j] == s[j + 1]);
        }
        assert(k - 1 < s.skip(1).len() ==> s.skip(1)[k - 1] == '\n');
        lemma_first_nl_at(s.skip(1), k - 1);
    }
}

/// The lines of a text: split at each newline, a trailing carriage return
/// stripped from each piece, with no empty final line when the text ends in a
/// newline.
pub open spec fn lines_of(s: Seq<char>) -> Seq<Seq<char>>
    decreases s.len() via lines_of_decreases
{
    if s.len() == 0 {
        Seq::empty()
    } else {
        let k = first_nl(s);
        if k == s.len() {
            seq![strip_cr(s)]
        } else {
            seq![strip_cr(s.take(k))] + lines_of(s.skip(k + 1))
        }
    }
}

#[via_fn]
proof fn lines_of_decreases(s: Seq<char>) {
    lemma_first_nl_bounds(s);
}

/// The first heading's title among a sequence of lines, if any line is a
/// heading.
pub open spec fn extract_lines(ls: Seq<Seq<char>>) -> Option<Seq<char>>
    decreases ls.len(),
{
    if ls.len() == 0 {
        None
    } else if is_heading(ls[0]) {
        Some(heading_title(ls[0]))
    } else {
        extract_lines(ls.drop_first())
    }
}

/// What the Title Extractor returns on a text: the title of the first heading
/// line, or nothing when no line is a heading.
pub open spec fn extract_spec(s: Seq<char>) -> Option<Seq<char>> {
    extract_lines(lines_of(s))
}

proof fn lemma_extract_lines_skip(ls: Seq<Seq<char>>, i: int)
    requires
        0 <= i <= ls.len(),
        forall|j: int| 0 <= j < i ==> !is_heading(ls[j]),
    ensures
        extract_lines(ls) == extract_lines(ls.skip(i)),
    decreases i,
{
    if i > 0 {
        assert(ls.len() > 0);
        assert(!is_heading(ls[0]));
        lemma_extract_lines_skip(ls.drop_first(), i - 1);
        assert(ls.drop_first().skip(i - 1) =~= ls.skip(i));
    } else {
        assert(ls.skip(0) =~= ls);
    }
}

/// The first heading line wins: when line `i` of the text reads `# ` followed
/// by `t` and no earlier line is a heading, the extractor returns exactly `t`.
pub proof fn lemma_first_heading_extracted(s: Seq<char>, i: int, t: Seq<char>)
    requires
        0 <= i < lines_of(s).len(),
        lines_of(s)[i] == seq!['#', ' '] + t,
        forall|j: int| 0 <= j < i ==> !is_heading(lines_of(s)[j]),
    ensures
        extract_spec(s) == Some(t),
{
    let ls = lines_of(s);
    lemma_extract_lines_skip(ls, i);
    assert(ls.skip(i)[0] == ls[i]);
    assert((seq!['#', ' '] + t)[0] == '#');
    assert((seq!['#', ' '] + t)[1] == ' ');
    assert(is_heading(ls[i]));
    assert(heading_title(ls[i]) =~= t);
}

/// A text none of whose lines is a heading yields no title.
pub proof fn lemma_no_heading_no_title(s: Seq<char>)
    requires
        forall|j: int| 0 <= j < lines_of(s).len() ==> !is_heading(lines_of(s)[j]),
    ensures
        extract_spec(s) is None,
{
    let ls = lines_of(s);
    lemma_extract_lines_skip(ls, ls.len() as int);
    assert(ls.skip(ls.len() as int) =~= Seq::<Seq<char>>::empty());
}

/// Scan the drafted text and return the first top-level heading's title.
pub fn extract(content: &str) -> (r: Option<String>)
    ensures
        r.deep_view() == extract_spec(content@),
{
    let n = content.unicode_len();
    let mut start: usize = 0;
    proof {
        assert(content@.skip(0) =~= content@);
    }
    loop
        invariant
            start <= n,
            n == content@.len(),
            extract_spec(content@) == extract_lines(lines_of(content@.skip(start as int))),
        decreases n - start,
    {
        if start >= n {
            proof {
                assert(content@.skip(start as int) =~= Seq::<char>::empty());
            }
            return None;
        }
        let ghost sk = content@.skip(start as int);
        // Find the end of the current line.
        let mut j: usize = start;
        while j < n && content.get_char(j) != '\n'
            invariant
                start <= j <= n,
                n == content@.len(),
                forall|p: int| start <= p < j ==> content@[p] != '\n',
            decreases n - j,
        {
            j += 1;
        }
        proof {
            assert forall|p: int| 0 <= p < j - start implies sk[p] != '\n' by {
                assert(sk[p] == content@[p + start]);
            }
            if j < n {
                assert(sk[j - start] == content@[j as int]);
            }
            lemma_first_nl_at(sk, j - start);
        }
        // Strip one trailing carriage return, as line endings require.
        let je: usize = if j > start && content.get_char(j - 1) == '\r' {
            j - 1
        } else {
            j
        };
        let ghost line = strip_cr(sk.take(j - start as int));
        proof {
            assert(sk.take(j - start as int) =~= content@.subrange(start as int, j as int));
            assert(line =~= content@.subrange(start as int, je as int));
        }
        if je - start >= 2 && content.get_char(start) == '#' && content.get_char(start + 1) == ' ' {
            proof {
                assert(line[0] == content@[start as int]);
                assert(line[1] == content@[start as int + 1]);
                assert(is_heading(line));
                if j - start < sk.len() {
                    assert(lines_of(sk) == seq![line] + lines_of(sk.skip(j - start as int + 1)));
                } else {
                    assert(sk.take(j - start as int) =~= sk);
                    assert(lines_of(sk) == seq![line]);
                }
                assert(lines_of(sk)[0] == line);
                assert(extract_lines(lines_of(sk)) == Some(heading_title(line)));
                assert(heading_title(line) =~= content@.subrange(start as int + 2, je as int));
            }
            let title = content.substring_char(start + 2, je);
            return Some(title.to_owned());
        }
        proof {
            assert(line.len() < 2 || line[0] != '#' || line[1] != ' ') by {
                if line.len() >= 2 {
                    assert(line[0] == content@[start as int]);
                    assert(line[1] == content@[start as int + 1]);
                }
            }
            assert(!is_heading(line));
        }
        if j >= n {
            proof {
                assert(sk.take(j - start as int) =~= sk);
                assert(lines_of(sk) == seq![line]);
                assert(lines_of(sk)[0] == line);
                assert(lines_of(sk).drop_first() =~= Seq::<Seq<char>>::empty());
                assert(extract_lines(lines_of(sk)) == extract_lines(Seq::<Seq<char>>::empty()));
                assert(extract_lines(lines_of(sk)) is None);
                assert(content@.skip(n as int) =~= Seq::<char>::empty());
            }
            start = n;
        } else {
            proof {
                assert(lines_of(sk) == seq![line] + lines_of(sk.skip(j - start as int + 1)));
                assert(lines_of(sk)[0] == line);
                assert(lines_of(sk).drop_first() =~= lines_of(sk.skip(j - start as int + 1)));
                assert(extract_lines(lines_of(sk)) == extract_lines(
                    lines_of(sk.skip(j - start as int + 1)),
                ));
                assert(sk.skip(j - start as int + 1) =~= content@.skip(j as int + 1));
            }
            start = j + 1;
        }
    }
}

} // verus!
