//! Choosing the stream of highest bandwidth from a master playlist.

use vstd::prelude::*;
use vstd::slice::slice_subrange;
use crate::address::join_url;
use crate::address::resolved_url;
use crate::error::DownloadError;
use crate::lines::line_views;
use crate::lines::lines_of;
use crate::lines::split_lines;
use crate::number::parse_u32;
use crate::number::parsed_u32;
use crate::text::after_first;
use crate::text::before_first;
use crate::text::chars_of;
use crate::text::cut_after;
use crate::text::cut_before;
use crate::text::is_prefix;
use crate::text::starts_with;
use crate::text::string_of;

verus! {

broadcast use vstd::slice::group_slice_axioms;

/// The first of the pieces into which `sep` cuts `s` that begins with
/// `prefix`.
pub open spec fn first_piece_starting(s: Seq<char>, sep: Seq<char>, prefix: Seq<char>) -> Option<
    Seq<char>,
>
    decreases s.len(),
{
    if is_prefix(prefix, before_first(s, sep)) {
        Some(before_first(s, sep))
    } else {
        match after_first(s, sep) {
            Some(rest) => if rest.len() < s.len() {
                first_piece_starting(rest, sep, prefix)
            } else {
                None
            },
            None => None,
        }
    }
}

/// The attributes of a directive: what stands behind its first colon.
pub open spec fn attribute_list(line: Seq<char>) -> Option<Seq<char>> {
    after_first(line, ":"@)
}

/// The bandwidth that a stream directive states: the value of its
/// `BANDWIDTH` attribute. The attributes stand behind the colon of the
/// directive, with commas between them; the first that begins with
/// `BANDWIDTH=` is taken, and what follows that name in it is read as a
/// number. `None` where no attribute has that name or where its value is no
/// number.
pub open spec fn bandwidth_of(line: Seq<char>) -> Option<u32> {
    match attribute_list(line) {
        Some(attributes) => match first_piece_starting(attributes, ","@, "BANDWIDTH="@) {
            Some(attribute) => parsed_u32(
                attribute.subrange("BANDWIDTH="@.len() as int, attribute.len() as int),
            ),
            None => None,
        },
        None => None,
    }
}

/// `line` is a stream directive.
pub open spec fn is_stream_directive(line: Seq<char>) -> bool {
    is_prefix("#EXT-X-STREAM-INF"@, line)
}

/// `line` is a reference: it is not empty and does not begin with `#`.
pub open spec fn is_reference(line: Seq<char>) -> bool {
    line.len() > 0 && line[0] != '#'
}

/// What has been found after some lines of a master playlist: the highest
/// bandwidth stated so far, whether the reference of the directive that
/// stated it is still to come, and that reference once it has been met.
pub struct Selection {
    pub best: Option<u32>,
    pub waiting: bool,
    pub candidate: Option<Seq<char>>,
}

/// `bandwidth` is above every bandwidth stated so far.
pub open spec fn is_above(bandwidth: u32, best: Option<u32>) -> bool {
    match best {
        Some(highest) => bandwidth > highest,
        None => true,
    }
}

/// The selection after one more line. A stream directive that states a
/// bandwidth above every one stated before it drops the reference kept so
/// far and waits for its own; the first reference met while waiting is
/// kept. Every other line changes nothing.
pub open spec fn select_step(before: Selection, line: Seq<char>) -> Selection {
    if is_stream_directive(line) {
        match bandwidth_of(line) {
            Some(bandwidth) => if is_above(bandwidth, before.best) {
                Selection { best: Some(bandwidth), waiting: true, candidate: None }
            } else {
                before
            },
            None => before,
        }
    } else if before.waiting && is_reference(line) {
        Selection { best: before.best, waiting: false, candidate: Some(line) }
    } else {
        before
    }
}

/// The selection after all of `lines`, starting with no bandwidth stated
/// and no reference waited for.
pub open spec fn select_over(lines: Seq<Seq<char>>) -> Selection
    decreases lines.len(),
{
    if lines.len() == 0 {
        Selection { best: None, waiting: false, candidate: None }
    } else {
        select_step(select_over(lines.drop_last()), lines.last())
    }
}

/// The reference that a master playlist selects, unresolved.
pub open spec fn selected_reference(playlist: Seq<char>) -> Option<Seq<char>> {
    select_over(lines_of(playlist)).candidate
}

/// What `select_best` returns for a playlist and the address it came from.
pub open spec fn selected_stream(playlist: Seq<char>, base: Seq<char>) -> Result<
    Seq<char>,
    DownloadError,
> {
    match selected_reference(playlist) {
        None => Err(DownloadError::NoVariantsFound),
        Some(reference) => match resolved_url(base, reference) {
            Some(url) => Ok(url),
            None => Err(DownloadError::InvalidUrl),
        },
    }
}

/// The first of the pieces between the separators `sep` that begins with
/// `prefix`.
fn find_piece_starting<'a>(s: &'a [char], sep: &[char], prefix: &[char]) -> (r: Option<
    &'a [char],
>)
    ensures
        match r {
            Some(piece) => first_piece_starting(s@, sep@, prefix@) == Some(piece@) && is_prefix(
                prefix@,
                piece@,
            ),
            None => first_piece_starting(s@, sep@, prefix@) is None,
        },
{
    let mut rest: &'a [char] = s;
    loop
        invariant
            first_piece_starting(rest@, sep@, prefix@) == first_piece_starting(s@, sep@, prefix@),
        decreases rest@.len(),
    {
        let head = cut_before(rest, sep);
        if starts_with(head, prefix) {
            return Some(head);
        }
        match cut_after(rest, sep) {
            Some(tail) => {
                if tail.len() < rest.len() {
                    rest = tail;
                } else {
                    return None;
                }
            },
            None => {
                return None;
            },
        }
    }
}

/// The bandwidth that the stream directive `line` states.
pub fn read_bandwidth(line: &[char]) -> (r: Option<u32>)
    ensures
        r == bandwidth_of(line@),
{
    let colon = chars_of(":");
    let comma = chars_of(",");
    let name = chars_of("BANDWIDTH=");
    match cut_after(line, colon.as_slice()) {
        Some(attributes) => match find_piece_starting(
            attributes,
            comma.as_slice(),
            name.as_slice(),
        ) {
            Some(attribute) => {
                let end: usize = attribute.len();
                parse_u32(slice_subrange(attribute, name.len(), end))
            },
            None => None,
        },
        None => None,
    }
}

/// The line that the lines select: see `select_over`.
pub fn select_reference(lines: &Vec<Vec<char>>) -> (r: Option<usize>)
    ensures
        match r {
            Some(i) => i < lines@.len() && select_over(line_views(lines@)).candidate == Some(
                lines@[i as int]@,
            ),
            None => select_over(line_views(lines@)).candidate is None,
        },
{
    let directive = chars_of("#EXT-X-STREAM-INF");
    let ghost all = line_views(lines@);
    let mut best: Option<u32> = None;
    let mut waiting: bool = false;
    let mut candidate: Option<usize> = None;
    let mut i: usize = 0;
    assert(all.subrange(0, 0) =~= Seq::<Seq<char>>::empty());
    while i < lines.len()
        invariant
            i <= lines@.len(),
            all == line_views(lines@),
            directive@ == "#EXT-X-STREAM-INF"@,
            select_over(all.subrange(0, i as int)).best == best,
            select_over(all.subrange(0, i as int)).waiting == waiting,
            match candidate {
                Some(k) => k < i && select_over(all.subrange(0, i as int)).candidate == Some(
                    lines@[k as int]@,
                ),
                None => select_over(all.subrange(0, i as int)).candidate is None,
            },
        decreases lines@.len() - i,
    {
        let line: &[char] = lines[i].as_slice();
        proof {
            assert(all.subrange(0, i + 1).drop_last() =~= all.subrange(0, i as int));
            assert(all.subrange(0, i + 1).last() == line@);
        }
        if starts_with(line, directive.as_slice()) {
            match read_bandwidth(line) {
                Some(bandwidth) => {
                    let above = match best {
                        Some(highest) => bandwidth > highest,
                        None => true,
                    };
                    if above {
                        best = Some(bandwidth);
                        waiting = true;
                        candidate = None;
                    }
                },
                None => {},
            }
        } else if waiting && line.len() > 0 && line[0] != '#' {
            waiting = false;
            candidate = Some(i);
        }
        i += 1;
    }
    assert(all.subrange(0, i as int) =~= all);
    candidate
}

/// The address of the stream of highest bandwidth that `playlist` names,
/// resolved against `base_url`, the address that the playlist came from.
///
/// The lines are read in order. A line that begins with `#EXT-X-STREAM-INF`
/// and states a bandwidth above every one stated before it makes the next
/// reference the one to return; of directives with the same bandwidth the
/// first stands. A reference that follows no such directive is passed over,
/// so a playlist without a directive that states a bandwidth, or without a
/// reference after the highest one, offers nothing: `NoVariantsFound`.
pub fn select_best(playlist: &str, base_url: &str) -> (r: Result<String, DownloadError>)
    ensures
        match r {
            Ok(url) => selected_stream(playlist@, base_url@) == Ok::<Seq<char>, DownloadError>(
                url@,
            ),
            Err(e) => selected_stream(playlist@, base_url@) == Err::<Seq<char>, DownloadError>(e),
        },
{
    let text = chars_of(playlist);
    let lines = split_lines(text.as_slice());
    match select_reference(&lines) {
        None => Err(DownloadError::NoVariantsFound),
        Some(i) => {
            let reference = string_of(lines[i].as_slice());
            match join_url(base_url, reference.as_str()) {
                Ok(url) => Ok(url),
                Err(_) => Err(DownloadError::InvalidUrl),
            }
        },
    }
}

/// The bandwidth that `line` states as a stream directive, if it is one
/// and states any.
pub open spec fn stated_bandwidth(line: Seq<char>) -> Option<u32> {
    if is_stream_directive(line) {
        bandwidth_of(line)
    } else {
        None
    }
}

/// `line` is a reference and no stream directive.
pub open spec fn is_stream_reference(line: Seq<char>) -> bool {
    !is_stream_directive(line) && is_reference(line)
}

/// Line `m` states the bandwidth `b`, every directive before it states
/// less, and none after it states more: it is the first of the directives
/// with the highest bandwidth.
pub open spec fn is_first_highest(lines: Seq<Seq<char>>, m: int, b: u32) -> bool {
    &&& 0 <= m < lines.len()
    &&& stated_bandwidth(lines[m]) == Some(b)
    &&& forall|j: int|
        0 <= j < m ==> (#[trigger] stated_bandwidth(lines[j]) matches Some(c) ==> c < b)
    &&& forall|j: int|
        m < j < lines.len() ==> (#[trigger] stated_bandwidth(lines[j]) matches Some(c) ==> c <= b)
}

/// Line `k` is the first reference after line `m`.
pub open spec fn is_next_reference(lines: Seq<Seq<char>>, m: int, k: int) -> bool {
    &&& m < k < lines.len()
    &&& is_stream_reference(lines[k])
    &&& forall|j: int| m < j < k ==> !is_stream_reference(#[trigger] lines[j])
}

/// The selection after the first `n` lines, where line `m` is the first of
/// the directives with the highest bandwidth and line `k` the reference
/// that follows it.
proof fn lemma_selection_at(lines: Seq<Seq<char>>, m: int, b: u32, k: int, n: int)
    requires
        is_first_highest(lines, m, b),
        is_next_reference(lines, m, k),
        0 <= n <= lines.len(),
    ensures
        n <= m ==> is_above(b, select_over(lines.subrange(0, n)).best),
        m < n <= k ==> select_over(lines.subrange(0, n)) == (Selection {
            best: Some(b),
            waiting: true,
            candidate: None,
        }),
        k < n ==> select_over(lines.subrange(0, n)) == (Selection {
            best: Some(b),
            waiting: false,
            candidate: Some(lines[k]),
        }),
    decreases n,
{
    if n > 0 {
        lemma_selection_at(lines, m, b, k, n - 1);
        assert(lines.subrange(0, n).drop_last() =~= lines.subrange(0, n - 1));
        assert(lines.subrange(0, n).last() == lines[n - 1]);
        let line = lines[n - 1];
        assert(is_stream_directive(line) ==> stated_bandwidth(line) == bandwidth_of(line));
        assert(!is_stream_directive(line) ==> (is_stream_reference(line) <==> is_reference(line)));
    }
}

/// The stream of highest bandwidth wins, and of equals the first.
///
/// Let line `m` be a stream directive that states the bandwidth `b`, let
/// every stream directive before it state less and none after it state more,
/// and let line `k` be the first reference after line `m`. Then line `k` is
/// the reference selected, whatever else the playlist holds.
pub proof fn law_first_highest_bandwidth_wins(lines: Seq<Seq<char>>, m: int, b: u32, k: int)
    requires
        is_first_highest(lines, m, b),
        is_next_reference(lines, m, k),
    ensures
        select_over(lines).candidate == Some(lines[k]),
{
    lemma_selection_at(lines, m, b, k, lines.len() as int);
    assert(lines.subrange(0, lines.len() as int) =~= lines);
}

/// Among directives that all state different bandwidths, the one that states
/// the highest wins.
///
/// Let line `m` state the bandwidth `b`, let every other stream directive
/// state less, and let line `k` be the first reference after line `m`. Then
/// `select_best` returns line `k`, resolved against the address of the
/// playlist.
pub proof fn law_highest_of_distinct_bandwidths(
    playlist: Seq<char>,
    base: Seq<char>,
    m: int,
    b: u32,
    k: int,
)
    requires
        0 <= m < lines_of(playlist).len(),
        stated_bandwidth(lines_of(playlist)[m]) == Some(b),
        forall|j: int|
            0 <= j < lines_of(playlist).len() && j != m ==> (#[trigger] stated_bandwidth(
                lines_of(playlist)[j],
            ) matches Some(c) ==> c < b),
        is_next_reference(lines_of(playlist), m, k),
    ensures
        selected_reference(playlist) == Some(lines_of(playlist)[k]),
        selected_stream(playlist, base) == match resolved_url(base, lines_of(playlist)[k]) {
            Some(url) => Ok::<Seq<char>, DownloadError>(url),
            None => Err::<Seq<char>, DownloadError>(DownloadError::InvalidUrl),
        },
{
    law_first_highest_bandwidth_wins(lines_of(playlist), m, b, k);
}

/// Of two directives that state the same highest bandwidth the first wins.
///
/// Let lines `m` and `t`, `m` before `t`, both state the bandwidth `b`, let
/// every other stream directive state less, and let line `k` be the first
/// reference after line `m`. Then `select_best` returns line `k`, whatever
/// follows line `t`.
pub proof fn law_tie_keeps_first(
    playlist: Seq<char>,
    base: Seq<char>,
    m: int,
    t: int,
    b: u32,
    k: int,
)
    requires
        0 <= m < t < lines_of(playlist).len(),
        stated_bandwidth(lines_of(playlist)[m]) == Some(b),
        stated_bandwidth(lines_of(playlist)[t]) == Some(b),
        forall|j: int|
            0 <= j < lines_of(playlist).len() && j != m && j != t ==> (
            #[trigger] stated_bandwidth(lines_of(playlist)[j]) matches Some(c) ==> c < b),
        is_next_reference(lines_of(playlist), m, k),
    ensures
        selected_reference(playlist) == Some(lines_of(playlist)[k]),
        selected_stream(playlist, base) == match resolved_url(base, lines_of(playlist)[k]) {
            Some(url) => Ok::<Seq<char>, DownloadError>(url),
            None => Err::<Seq<char>, DownloadError>(DownloadError::InvalidUrl),
        },
{
    law_first_highest_bandwidth_wins(lines_of(playlist), m, b, k);
}

/// Without a directive that states a bandwidth nothing is selected.
pub proof fn law_no_bandwidth_no_selection(lines: Seq<Seq<char>>)
    requires
        forall|j: int| 0 <= j < lines.len() ==> stated_bandwidth(#[trigger] lines[j]) is None,
    ensures
        select_over(lines) == (Selection { best: None, waiting: false, candidate: None }),
    decreases lines.len(),
{
    if lines.len() > 0 {
        law_no_bandwidth_no_selection(lines.drop_last());
        assert(stated_bandwidth(lines[lines.len() - 1]) is None);
    }
}

} // verus!
