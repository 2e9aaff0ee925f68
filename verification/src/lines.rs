//! Cutting a text into lines.

use vstd::prelude::*;
use vstd::slice::slice_subrange;
use vstd::slice::slice_to_vec;

verus! {

broadcast use vstd::slice::group_slice_axioms;

/// `line` without the carriage return that ends it, if one does.
pub open spec fn without_carriage_return(line: Seq<char>) -> Seq<char> {
    if line.len() > 0 && line.last() == '\r' {
        line.drop_last()
    } else {
        line
    }
}

/// The lines of `text`. A line ends at a line feed, or at a carriage return
/// directly followed by a line feed; neither belongs to the line. The last
/// line needs no line feed, and is then taken as it stands; a text that ends
/// in a line feed has no empty line after it.
pub open spec fn lines_of(text: Seq<char>) -> Seq<Seq<char>>
    decreases text.len(),
{
    if text.len() == 0 {
        Seq::empty()
    } else {
        match next_line_feed(text) {
            Some(i) => seq![without_carriage_return(text.subrange(0, i))] + lines_of(
                text.subrange(i + 1, text.len() as int),
            ),
            None => seq![text],
        }
    }
}

/// The index of the first line feed in `text`.
pub open spec fn next_line_feed(text: Seq<char>) -> Option<int> {
    if exists|i: int| is_next_line_feed(text, i) {
        Some(choose|i: int| is_next_line_feed(text, i))
    } else {
        None
    }
}

/// `text` has a line feed at index `i` and none before it.
pub open spec fn is_next_line_feed(text: Seq<char>, i: int) -> bool {
    &&& 0 <= i < text.len()
    &&& text[i] == '\n'
    &&& forall|j: int| 0 <= j < i ==> text[j] != '\n'
}

/// The first line feed is where `next_line_feed` says.
pub proof fn lemma_next_line_feed_is(text: Seq<char>, i: int)
    requires
        is_next_line_feed(text, i),
    ensures
        next_line_feed(text) == Some(i),
{
    let k = choose|k: int| is_next_line_feed(text, k);
    assert(is_next_line_feed(text, k));
    if k < i {
        assert(text[k] != '\n');
    } else if i < k {
        assert(text[i] != '\n');
    }
}

/// The views of the lines held in `lines`.
pub open spec fn line_views(lines: Seq<Vec<char>>) -> Seq<Seq<char>> {
    Seq::new(lines.len(), |i: int| lines[i]@)
}

/// The lines of `text`, each as a vector of its own.
pub fn split_lines(text: &[char]) -> (out: Vec<Vec<char>>)
    ensures
        line_views(out@) == lines_of(text@),
{
    let n: usize = text.len();
    let mut out: Vec<Vec<char>> = Vec::new();
    let mut start: usize = 0;
    let mut i: usize = 0;
    assert(text@.subrange(0, n as int) =~= text@);
    assert(line_views(out@) =~= Seq::<Seq<char>>::empty());
    while i < n
        invariant
            n == text@.len(),
            start <= i <= n,
            forall|j: int| start <= j < i ==> text@[j] != '\n',
            line_views(out@) + lines_of(text@.subrange(start as int, n as int)) == lines_of(text@),
        decreases n - i,
    {
        if text[i] == '\n' {
            let end: usize = if i > start && text[i - 1] == '\r' {
                i - 1
            } else {
                i
            };
            let line = slice_to_vec(slice_subrange(text, start, end));
            proof {
                let rest = text@.subrange(start as int, n as int);
                let k = i - start;
                lemma_next_line_feed_is(rest, k);
                assert(rest.subrange(0, k) =~= text@.subrange(start as int, i as int));
                assert(rest.subrange(k + 1, rest.len() as int) =~= text@.subrange(
                    i + 1,
                    n as int,
                ));
                assert(line@ =~= without_carriage_return(rest.subrange(0, k)));
                assert(line_views(out@.push(line)) =~= line_views(out@) + seq![line@]);
                assert(line_views(out@) + (seq![line@] + lines_of(
                    text@.subrange(i + 1, n as int),
                )) =~= line_views(out@.push(line)) + lines_of(text@.subrange(i + 1, n as int)));
            }
            out.push(line);
            start = i + 1;
        }
        i += 1;
    }
    if start < n {
        let line = slice_to_vec(slice_subrange(text, start, n));
        proof {
            let rest = text@.subrange(start as int, n as int);
            assert(forall|k: int| !is_next_line_feed(rest, k));
            assert(line_views(out@.push(line)) =~= line_views(out@) + seq![rest]);
        }
        out.push(line);
    } else {
        assert(line_views(out@) + Seq::<Seq<char>>::empty() =~= line_views(out@));
    }
    out
}

} // verus!
