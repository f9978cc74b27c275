//! Line-oriented scanning of a buffer: every match on every line, in order.
//!
//! A buffer is split at `\n`; lines are numbered from 1. The scan stops at
//! the first NUL byte: the line holding it and all later lines are not
//! reported. A line that is not valid UTF-8 is matched as an empty line.

use vstd::prelude::*;
use vstd::string::*;
use vstd::utf8::*;
use crate::search::matcher::{LineMatcher, line_regex_find_at};

verus! {

/// One match occurrence: the line it is on and its byte span there.
#[derive(Debug, Clone)]
pub struct SearchResult {
    pub line_number: u64,
    pub line: String,
    pub match_start: usize,
    pub match_end: usize,
}

/// The mathematical value of a [`SearchResult`].
pub struct SearchResultView {
    pub line_number: int,
    pub line: Seq<char>,
    pub match_start: int,
    pub match_end: int,
}

impl View for SearchResult {
    type V = SearchResultView;

    open spec fn view(&self) -> SearchResultView {
        SearchResultView {
            line_number: self.line_number as int,
            line: self.line@,
            match_start: self.match_start as int,
            match_end: self.match_end as int,
        }
    }
}

/// The values of a list of results.
pub open spec fn result_views(rs: Seq<SearchResult>) -> Seq<SearchResultView> {
    rs.map_values(|r: SearchResult| r@)
}

impl SearchResult {
    /// A copy of this result.
    pub fn duplicate(&self) -> (r: SearchResult)
        ensures
            r@ == self@,
    {
        SearchResult {
            line_number: self.line_number,
            line: self.line.clone(),
            match_start: self.match_start,
            match_end: self.match_end,
        }
    }
}

/// A copy of a list of results.
pub fn duplicate_results(rs: &Vec<SearchResult>) -> (r: Vec<SearchResult>)
    ensures
        result_views(r@) == result_views(rs@),
{
    let mut out: Vec<SearchResult> = Vec::with_capacity(rs.len());
    let mut i: usize = 0;
    while i < rs.len()
        invariant
            i <= rs@.len(),
            out@.len() == i,
            forall|j: int| 0 <= j < i ==> #[trigger] out@[j]@ == rs@[j]@,
        decreases rs@.len() - i,
    {
        out.push(rs[i].duplicate());
        i = i + 1;
    }
    assert(result_views(out@) =~= result_views(rs@));
    out
}

/// The bytes of a line that matching runs on: the line itself when it is
/// valid UTF-8, nothing otherwise.
pub open spec fn matched_bytes(line: Seq<u8>) -> Seq<u8> {
    if valid_utf8(line) {
        line
    } else {
        Seq::empty()
    }
}

/// The text of a line as it is reported: its characters when it is valid
/// UTF-8, the empty text otherwise.
pub open spec fn line_text(line: Seq<u8>) -> Seq<char> {
    if valid_utf8(line) {
        decode_utf8(line)
    } else {
        Seq::empty()
    }
}

/// The match spans of `pattern` in `hay`, searching from `at`: each match
/// is followed by a search from its end, or from one byte further when it
/// is empty, until that offset reaches the end of `hay` or nothing more is
/// found.
pub open spec fn spans_from(pattern: Seq<char>, hay: Seq<u8>, at: int) -> Seq<(int, int)>
    decreases hay.len() - at,
{
    match line_regex_find_at(pattern, hay, at) {
        None => Seq::empty(),
        Some(span) => {
            let (s, e) = span;
            let next = if e == s {
                e + 1
            } else {
                e
            };
            if !(0 <= at <= s <= e <= hay.len()) {
                Seq::empty()
            } else if next >= hay.len() {
                seq![(s, e)]
            } else {
                seq![(s, e)] + spans_from(pattern, hay, next)
            }
        },
    }
}

/// The results reported for one line.
pub open spec fn line_results(pattern: Seq<char>, line: Seq<u8>, line_number: int) -> Seq<
    SearchResultView,
> {
    spans_from(pattern, matched_bytes(line), 0).map_values(
        |sp: (int, int)|
            SearchResultView {
                line_number,
                line: line_text(line),
                match_start: sp.0,
                match_end: sp.1,
            },
    )
}

/// Whether a byte ends the line it is on: `\n`, or NUL, which also ends
/// the scan.
pub open spec fn ends_line(b: u8) -> bool {
    b == 10 || b == 0
}

/// The index of the first byte of `b` that ends a line, or the length of
/// `b` when there is none.
pub open spec fn first_line_end(b: Seq<u8>) -> int
    decreases b.len(),
{
    if b.len() == 0 || ends_line(b[0]) {
        0
    } else {
        1 + first_line_end(b.drop_first())
    }
}

/// The lines a scan of `b` reports: the bytes before the first NUL, split
/// at `\n`, without the line that holds the NUL and without an empty
/// piece after a final `\n`.
pub open spec fn scanned_lines(b: Seq<u8>) -> Seq<Seq<u8>>
    decreases b.len(),
{
    let e = first_line_end(b);
    if b.len() == 0 || e < 0 || e > b.len() {
        Seq::empty()
    } else if e == b.len() {
        seq![b]
    } else if b[e] == 0 {
        Seq::empty()
    } else {
        seq![b.subrange(0, e)] + scanned_lines(b.subrange(e + 1, b.len() as int))
    }
}

/// The results for `lines`, the first of which has number `first`.
pub open spec fn numbered_results(pattern: Seq<char>, lines: Seq<Seq<u8>>, first: int) -> Seq<
    SearchResultView,
>
    decreases lines.len(),
{
    if lines.len() == 0 {
        Seq::empty()
    } else {
        line_results(pattern, lines[0], first) + numbered_results(
            pattern,
            lines.drop_first(),
            first + 1,
        )
    }
}

/// Every match of `pattern` in `buf`: the results of each scanned line,
/// numbered from 1, in order.
pub open spec fn scan_results(pattern: Seq<char>, buf: Seq<u8>) -> Seq<SearchResultView> {
    numbered_results(pattern, scanned_lines(buf), 1)
}

/// The results still to come when the scan loop stands at byte `i` of
/// `buf`, in a line that began at byte `start` and has number
/// `line_number`.
spec fn scan_from(
    pattern: Seq<char>,
    buf: Seq<u8>,
    start: int,
    i: int,
    line_number: int,
) -> Seq<SearchResultView>
    decreases buf.len() - i,
{
    if i < 0 || start < 0 || start > i {
        Seq::empty()
    } else if i >= buf.len() {
        if start < buf.len() {
            line_results(pattern, buf.subrange(start, buf.len() as int), line_number)
        } else {
            Seq::empty()
        }
    } else if buf[i] == 0 {
        Seq::empty()
    } else if buf[i] == 10 {
        line_results(pattern, buf.subrange(start, i), line_number) + scan_from(
            pattern,
            buf,
            i + 1,
            i + 1,
            line_number + 1,
        )
    } else {
        scan_from(pattern, buf, start, i + 1, line_number)
    }
}

proof fn lemma_first_line_end(b: Seq<u8>, start: int, i: int)
    requires
        0 <= start <= i <= b.len(),
        forall|k: int| start <= k < i ==> !ends_line(#[trigger] b[k]),
        i == b.len() || ends_line(b[i]),
    ensures
        first_line_end(b.subrange(start, b.len() as int)) == i - start,
    decreases i - start,
{
    let rest = b.subrange(start, b.len() as int);
    if i > start {
        assert(rest.drop_first() =~= b.subrange(start + 1, b.len() as int));
        lemma_first_line_end(b, start + 1, i);
    }
}

/// The scan loop's state at byte `i` leaves exactly the results of the
/// lines from `start` on.
proof fn lemma_scan_from_lines(pattern: Seq<char>, buf: Seq<u8>, start: int, i: int, n: int)
    requires
        0 <= start <= i <= buf.len(),
        forall|k: int| start <= k < i ==> !ends_line(#[trigger] buf[k]),
    ensures
        scan_from(pattern, buf, start, i, n) == numbered_results(
            pattern,
            scanned_lines(buf.subrange(start, buf.len() as int)),
            n,
        ),
    decreases buf.len() - i,
{
    let rest = buf.subrange(start, buf.len() as int);
    if i >= buf.len() {
        lemma_first_line_end(buf, start, i);
        if start < buf.len() {
            assert(seq![rest].drop_first() =~= Seq::<Seq<u8>>::empty());
            assert(numbered_results(pattern, Seq::<Seq<u8>>::empty(), n + 1) == Seq::<
                SearchResultView,
            >::empty());
            assert(numbered_results(pattern, seq![rest], n) =~= line_results(pattern, rest, n));
        }
    } else if ends_line(buf[i]) {
        lemma_first_line_end(buf, start, i);
        let e = i - start;
        assert(rest[e] == buf[i]);
        if buf[i] == 10 {
            assert(rest.subrange(0, e) =~= buf.subrange(start, i));
            assert(rest.subrange(e + 1, rest.len() as int) =~= buf.subrange(
                i + 1,
                buf.len() as int,
            ));
            lemma_scan_from_lines(pattern, buf, i + 1, i + 1, n + 1);
            let lines = scanned_lines(rest);
            assert(lines.drop_first() =~= scanned_lines(buf.subrange(i + 1, buf.len() as int)));
        }
    } else {
        lemma_scan_from_lines(pattern, buf, start, i + 1, n);
    }
}

proof fn lemma_scan_results(pattern: Seq<char>, buf: Seq<u8>)
    ensures
        scan_from(pattern, buf, 0, 0, 1) == scan_results(pattern, buf),
{
    lemma_scan_from_lines(pattern, buf, 0, 0, 1);
    assert(buf.subrange(0, buf.len() as int) =~= buf);
}

/// Spans that lie within `lo..=hi`, each with its start before its end,
/// in left-to-right order without overlap, with strictly increasing starts.
pub open spec fn ordered_spans(spans: Seq<(int, int)>, lo: int, hi: int) -> bool {
    &&& forall|i: int| 0 <= i < spans.len() ==> lo <= (#[trigger] spans[i]).0 <= spans[i].1 <= hi
    &&& forall|i: int, j: int|
        0 <= i < j < spans.len() ==> (#[trigger] spans[i]).1 <= (#[trigger] spans[j]).0
            && spans[i].0 < spans[j].0
}

/// The matches found on one line come left to right and do not overlap.
pub proof fn line_matches_are_ordered(pattern: Seq<char>, hay: Seq<u8>, at: int)
    requires
        0 <= at,
    ensures
        ordered_spans(spans_from(pattern, hay, at), at, hay.len() as int),
    decreases hay.len() - at,
{
    let all = spans_from(pattern, hay, at);
    match line_regex_find_at(pattern, hay, at) {
        None => {},
        Some(span) => {
            let (s, e) = span;
            let next = if e == s {
                e + 1
            } else {
                e
            };
            if 0 <= at <= s <= e <= hay.len() && next < hay.len() {
                line_matches_are_ordered(pattern, hay, next);
                let rest = spans_from(pattern, hay, next);
                assert(all == seq![(s, e)] + rest);
                assert forall|i: int, j: int| 0 <= i < j < all.len() implies (#[trigger] all[i]).1
                    <= (#[trigger] all[j]).0 && all[i].0 < all[j].0 by {
                    if i == 0 {
                        assert(all[j] == rest[j - 1]);
                    } else {
                        assert(all[i] == rest[i - 1]);
                        assert(all[j] == rest[j - 1]);
                    }
                }
                assert forall|i: int| 0 <= i < all.len() implies at <= (#[trigger] all[i]).0
                    <= all[i].1 <= hay.len() by {
                    if i > 0 {
                        assert(all[i] == rest[i - 1]);
                    }
                }
            }
        },
    }
}

/// Results in the order the scanner reports them: by ascending line
/// number, and within a line left to right without overlap; every line
/// number is at least `first_line`.
pub open spec fn ordered_results(rs: Seq<SearchResultView>, first_line: int) -> bool {
    &&& forall|i: int| 0 <= i < rs.len() ==> first_line <= (#[trigger] rs[i]).line_number
    &&& forall|i: int, j: int|
        0 <= i < j < rs.len() ==> (#[trigger] rs[i]).line_number < (#[trigger] rs[j]).line_number
            || (rs[i].line_number == rs[j].line_number && rs[i].match_end <= rs[j].match_start
            && rs[i].match_start < rs[j].match_start)
}

proof fn lemma_line_results_ordered(pattern: Seq<char>, line: Seq<u8>, line_number: int)
    ensures
        ordered_results(line_results(pattern, line, line_number), line_number),
        forall|i: int|
            0 <= i < line_results(pattern, line, line_number).len() ==> (#[trigger] line_results(
                pattern,
                line,
                line_number,
            )[i]).line_number == line_number,
{
    line_matches_are_ordered(pattern, matched_bytes(line), 0);
}

proof fn lemma_scan_from_ordered(
    pattern: Seq<char>,
    buf: Seq<u8>,
    start: int,
    i: int,
    line_number: int,
)
    ensures
        ordered_results(scan_from(pattern, buf, start, i, line_number), line_number),
    decreases buf.len() - i,
{
    if i < 0 || start < 0 || start > i {
    } else if i >= buf.len() {
        if start < buf.len() {
            lemma_line_results_ordered(pattern, buf.subrange(start, buf.len() as int), line_number);
        }
    } else if buf[i] == 0 {
    } else if buf[i] == 10 {
        let here = line_results(pattern, buf.subrange(start, i), line_number);
        let later = scan_from(pattern, buf, i + 1, i + 1, line_number + 1);
        lemma_line_results_ordered(pattern, buf.subrange(start, i), line_number);
        lemma_scan_from_ordered(pattern, buf, i + 1, i + 1, line_number + 1);
        let all = here + later;
        assert forall|a: int, b: int| 0 <= a < b < all.len() implies (#[trigger] all[a]).line_number
            < (#[trigger] all[b]).line_number || (all[a].line_number == all[b].line_number
            && all[a].match_end <= all[b].match_start && all[a].match_start < all[b].match_start) by {
            if b < here.len() {
            } else if a < here.len() {
                assert(all[a] == here[a]);
                assert(all[b] == later[b - here.len()]);
            } else {
                assert(all[a] == later[a - here.len()]);
                assert(all[b] == later[b - here.len()]);
            }
        }
        assert forall|a: int| 0 <= a < all.len() implies line_number <= (
        #[trigger] all[a]).line_number by {
            if a >= here.len() {
                assert(all[a] == later[a - here.len()]);
            }
        }
    } else {
        lemma_scan_from_ordered(pattern, buf, start, i + 1, line_number);
    }
}

/// A scan reports its results by ascending line number, and within a line
/// from left to right without overlap.
pub proof fn scan_results_are_ordered(pattern: Seq<char>, buf: Seq<u8>)
    ensures
        ordered_results(scan_results(pattern, buf), 1),
{
    lemma_scan_from_ordered(pattern, buf, 0, 0, 1);
    lemma_scan_results(pattern, buf);
}

/// Whether `r` lies on the line numbered `r.line_number` of `lines`, the
/// first of which has number `first`: it carries that line's text and its
/// span lies within the bytes matched on it.
pub open spec fn lies_on_line(r: SearchResultView, lines: Seq<Seq<u8>>, first: int) -> bool {
    &&& first <= r.line_number < first + lines.len()
    &&& r.line == line_text(lines[r.line_number - first])
    &&& 0 <= r.match_start <= r.match_end <= matched_bytes(lines[r.line_number - first]).len()
}

proof fn lemma_numbered_results_on_lines(pattern: Seq<char>, lines: Seq<Seq<u8>>, first: int)
    ensures
        forall|i: int|
            0 <= i < numbered_results(pattern, lines, first).len() ==> lies_on_line(
                #[trigger] numbered_results(pattern, lines, first)[i],
                lines,
                first,
            ),
    decreases lines.len(),
{
    if lines.len() > 0 {
        let here = line_results(pattern, lines[0], first);
        let later = numbered_results(pattern, lines.drop_first(), first + 1);
        lemma_numbered_results_on_lines(pattern, lines.drop_first(), first + 1);
        line_matches_are_ordered(pattern, matched_bytes(lines[0]), 0);
        let all = numbered_results(pattern, lines, first);
        assert(all == here + later);
        assert forall|i: int| 0 <= i < all.len() implies lies_on_line(
            #[trigger] all[i],
            lines,
            first,
        ) by {
            if i < here.len() {
                let sp = spans_from(pattern, matched_bytes(lines[0]), 0)[i];
                assert(all[i] == here[i]);
                assert(here[i].match_start == sp.0 && here[i].match_end == sp.1);
            } else {
                assert(all[i] == later[i - here.len()]);
                assert(lies_on_line(later[i - here.len()], lines.drop_first(), first + 1));
                assert(lines.drop_first()[all[i].line_number - (first + 1)]
                    == lines[all[i].line_number - first]);
            }
        }
    }
}

/// Every result of a scan lies on one of the scanned lines: its number
/// names that line, counting from 1, it carries the line's text, and its
/// span lies within the bytes matched on that line, never across a `\n`.
pub proof fn scan_results_lie_on_lines(pattern: Seq<char>, buf: Seq<u8>)
    ensures
        forall|i: int|
            0 <= i < scan_results(pattern, buf).len() ==> lies_on_line(
                #[trigger] scan_results(pattern, buf)[i],
                scanned_lines(buf),
                1,
            ),
{
    lemma_numbered_results_on_lines(pattern, scanned_lines(buf), 1);
}

/// Relies on std::str::from_utf8: it succeeds exactly on valid UTF-8, and
/// the text it gives back encodes to the same bytes.
#[verifier::external_body]
fn decode_line(bytes: &[u8]) -> (r: Option<&str>)
    ensures
        r is Some <==> valid_utf8(bytes@),
        r matches Some(s) ==> s.spec_bytes() == bytes@,
{
    std::str::from_utf8(bytes).ok()
}

/// Appends the results for one line to `out`.
fn scan_line(matcher: &LineMatcher, line: &[u8], line_number: u64, out: &mut Vec<SearchResult>)
    ensures
        result_views(final(out)@) == result_views(old(out)@) + line_results(
            matcher.pattern(),
            line@,
            line_number as int,
        ),
{
    let empty: Vec<u8> = Vec::new();
    let (hay, text) = match decode_line(line) {
        Some(s) => {
            proof {
                encode_utf8_decode_utf8(s@);
            }
            (line, String::from_str(s))
        },
        None => (empty.as_slice(), String::new()),
    };
    let ghost pat = matcher.pattern();
    let ghost base = result_views(old(out)@);
    let ghost all = spans_from(pat, hay@, 0);
    let ghost mk = |sp: (int, int)|
        SearchResultView {
            line_number: line_number as int,
            line: text@,
            match_start: sp.0,
            match_end: sp.1,
        };
    let mut at: usize = 0;
    let mut done: bool = false;
    let ghost mut emitted: Seq<(int, int)> = Seq::empty();
    while !done
        invariant
            pat == matcher.pattern(),
            all == spans_from(pat, hay@, 0),
            base == result_views(old(out)@),
            mk == (|sp: (int, int)|
                SearchResultView {
                    line_number: line_number as int,
                    line: text@,
                    match_start: sp.0,
                    match_end: sp.1,
                }),
            at <= hay@.len(),
            done ==> emitted == all,
            !done ==> emitted + spans_from(pat, hay@, at as int) == all,
            result_views(out@) == base + emitted.map_values(mk),
        decreases hay@.len() - at + (if done { 0int } else { 1int }),
    {
        match matcher.find_at(hay, at) {
            None => {
                done = true;
            },
            Some(span) => {
                let (s, e) = span;
                let ghost a0 = at as int;
                let ghost prev = emitted;
                let ghost step: int = if e == s {
                    e + 1
                } else {
                    e as int
                };
                assert(spans_from(pat, hay@, a0) == if step >= hay@.len() {
                    seq![(s as int, e as int)]
                } else {
                    seq![(s as int, e as int)] + spans_from(pat, hay@, step)
                });
                let ghost out_prev = result_views(out@);
                out.push(
                    SearchResult {
                        line_number,
                        line: text.clone(),
                        match_start: s,
                        match_end: e,
                    },
                );
                proof {
                    let found = (s as int, e as int);
                    emitted = emitted.push(found);
                    assert(emitted.map_values(mk) =~= prev.map_values(mk).push(mk(found)));
                    assert(result_views(out@) =~= out_prev.push(mk(found)));
                    assert(base + emitted.map_values(mk) =~= (base + prev.map_values(mk)).push(
                        mk(found),
                    ));
                }
                if e >= hay.len() {
                    done = true;
                    assert(emitted =~= prev + seq![(s as int, e as int)]);
                } else {
                    let next: usize = if e == s {
                        e + 1
                    } else {
                        e
                    };
                    if next >= hay.len() {
                        done = true;
                        assert(emitted =~= prev + seq![(s as int, e as int)]);
                    } else {
                        at = next;
                        assert(emitted + spans_from(pat, hay@, at as int) =~= prev + (seq![
                            (s as int, e as int),
                        ] + spans_from(pat, hay@, step)));
                    }
                }
            },
        }
    }
}

/// Scans `buf` with `matcher`: every match on every line before the first
/// NUL byte, by ascending line and then by ascending offset.
pub fn scan_buffer(matcher: &LineMatcher, buf: &[u8]) -> (r: Vec<SearchResult>)
    ensures
        result_views(r@) == scan_results(matcher.pattern(), buf@),
{
    let ghost pat = matcher.pattern();
    proof {
        lemma_scan_results(pat, buf@);
    }
    let mut out: Vec<SearchResult> = Vec::new();
    let mut start: usize = 0;
    let mut i: usize = 0;
    let mut lines_done: usize = 0;
    while i < buf.len()
        invariant
            pat == matcher.pattern(),
            lines_done <= start <= i <= buf@.len(),
            result_views(out@) + scan_from(pat, buf@, start as int, i as int, lines_done + 1)
                == scan_from(pat, buf@, 0, 0, 1),
            scan_from(pat, buf@, 0, 0, 1) == scan_results(pat, buf@),
        decreases buf@.len() - i,
    {
        let b = buf[i];
        if b == 0 {
            assert(scan_from(pat, buf@, start as int, i as int, lines_done + 1) == Seq::<
                SearchResultView,
            >::empty());
            assert(result_views(out@) =~= result_views(out@) + Seq::<SearchResultView>::empty());
            return out;
        } else if b == 10 {
            let ghost before = result_views(out@);
            let line = &buf[start..i];
            scan_line(matcher, line, (lines_done + 1) as u64, &mut out);
            assert(result_views(out@) + scan_from(pat, buf@, i + 1, i + 1, lines_done + 2)
                =~= before + scan_from(pat, buf@, start as int, i as int, lines_done + 1));
            lines_done = lines_done + 1;
            i = i + 1;
            start = i;
        } else {
            i = i + 1;
        }
    }
    if start < buf.len() {
        let ghost before = result_views(out@);
        let line = &buf[start..buf.len()];
        scan_line(matcher, line, (lines_done + 1) as u64, &mut out);
        assert(result_views(out@) =~= before + scan_from(
            pat,
            buf@,
            start as int,
            i as int,
            lines_done + 1,
        ));
    } else {
        assert(result_views(out@) =~= result_views(out@) + scan_from(
            pat,
            buf@,
            start as int,
            i as int,
            lines_done + 1,
        ));
    }
    out
}

} // verus!
