//! A bounded window over the most recent lines of a terminal.

use vstd::prelude::*;
use vstd::string::*;
use std::collections::VecDeque;

verus! {

/// The lines after appending `line` to `lines` in a window of `max_lines`:
/// when the window is full its oldest line leaves first.
pub open spec fn after_add(lines: Seq<String>, max_lines: nat, line: String) -> Seq<String> {
    if lines.len() >= max_lines && lines.len() > 0 {
        lines.drop_first().push(line)
    } else {
        lines.push(line)
    }
}

/// The lines after appending each of `added` in turn.
pub open spec fn after_adds(lines: Seq<String>, max_lines: nat, added: Seq<String>) -> Seq<String>
    decreases added.len(),
{
    if added.len() == 0 {
        lines
    } else {
        after_add(after_adds(lines, max_lines, added.drop_last()), max_lines, added.last())
    }
}

/// The texts of `lines` joined with `\n` between them.
pub open spec fn joined(lines: Seq<String>) -> Seq<char>
    decreases lines.len(),
{
    if lines.len() == 0 {
        Seq::empty()
    } else if lines.len() == 1 {
        lines[0]@
    } else {
        joined(lines.drop_last()) + seq!['\n'] + lines.last()@
    }
}

/// Whether `needle` occurs in `hay` as a contiguous run.
pub open spec fn occurs_in(needle: Seq<char>, hay: Seq<char>) -> bool {
    exists|i: int|
        0 <= i <= hay.len() - needle.len() && #[trigger] hay.subrange(i, i + needle.len()) == needle
}

/// What `str::to_lowercase` makes of a text.
pub uninterp spec fn lowercase_of(s: Seq<char>) -> Seq<char>;

/// Whether a line holds the query, comparing as given or both lowercased.
pub open spec fn line_hit(line: Seq<char>, query: Seq<char>, case_sensitive: bool) -> bool {
    if case_sensitive {
        occurs_in(query, line)
    } else {
        occurs_in(lowercase_of(query), lowercase_of(line))
    }
}

/// The numbered lines among the first `n` that hold the query.
pub open spec fn hits_upto(lines: Seq<String>, query: Seq<char>, case_sensitive: bool, n: int) -> Seq<
    (int, Seq<char>),
>
    decreases n,
{
    if n <= 0 {
        Seq::empty()
    } else if line_hit(lines[n - 1]@, query, case_sensitive) {
        hits_upto(lines, query, case_sensitive, n - 1).push((n - 1, lines[n - 1]@))
    } else {
        hits_upto(lines, query, case_sensitive, n - 1)
    }
}

/// Relies on str::to_lowercase: the result depends on the text alone, and
/// empty text stays empty.
#[verifier::external_body]
fn to_lower(s: &str) -> (r: String)
    ensures
        r@ == lowercase_of(s@),
        s@.len() == 0 ==> r@.len() == 0,
{
    s.to_lowercase()
}

/// Relies on str::contains with a `&str` pattern: whether `needle` occurs
/// in `hay`.
#[verifier::external_body]
fn text_contains(hay: &str, needle: &str) -> (r: bool)
    ensures
        r == occurs_in(needle@, hay@),
{
    hay.contains(needle)
}

/// The last lines of a terminal, at most `max_lines` of them, with a
/// cursor position among them.
pub struct TerminalBuffer {
    lines: VecDeque<String>,
    max_lines: usize,
    current_position: usize,
}

impl TerminalBuffer {
    /// The lines held, oldest first.
    pub closed spec fn lines(&self) -> Seq<String> {
        self.lines@
    }

    pub closed spec fn max_lines(&self) -> nat {
        self.max_lines as nat
    }

    pub closed spec fn position(&self) -> nat {
        self.current_position as nat
    }

    pub fn new(max_lines: usize) -> (r: TerminalBuffer)
        ensures
            r.lines() == Seq::<String>::empty(),
            r.max_lines() == max_lines,
            r.position() == 0,
    {
        TerminalBuffer { lines: VecDeque::with_capacity(max_lines), max_lines, current_position: 0 }
    }

    /// Appends a line, dropping the oldest one when the window is full.
    pub fn add_line(&mut self, line: String)
        ensures
            final(self).lines() == after_add(old(self).lines(), old(self).max_lines(), line),
            final(self).max_lines() == old(self).max_lines(),
            final(self).position() == old(self).position(),
    {
        if self.lines.len() >= self.max_lines {
            self.lines.pop_front();
        }
        self.lines.push_back(line);
    }

    /// Appends each line in turn.
    pub fn add_lines(&mut self, lines: Vec<String>)
        ensures
            final(self).lines() == after_adds(old(self).lines(), old(self).max_lines(), lines@),
            final(self).max_lines() == old(self).max_lines(),
            final(self).position() == old(self).position(),
    {
        let mut i: usize = 0;
        while i < lines.len()
            invariant
                i <= lines@.len(),
                self.lines() == after_adds(
                    old(self).lines(),
                    old(self).max_lines(),
                    lines@.subrange(0, i as int),
                ),
                self.max_lines() == old(self).max_lines(),
                self.position() == old(self).position(),
            decreases lines@.len() - i,
        {
            let line = lines[i].clone();
            assert(lines@.subrange(0, i + 1).drop_last() =~= lines@.subrange(0, i as int));
            self.add_line(line);
            i = i + 1;
        }
        assert(lines@.subrange(0, lines@.len() as int) =~= lines@);
    }

    /// All lines joined with `\n`.
    pub fn get_all_text(&self) -> (r: String)
        ensures
            r@ == joined(self.lines()),
    {
        let mut text = String::new();
        let mut i: usize = 0;
        let sep = "\n";
        proof {
            reveal_strlit("\n");
        }
        while i < self.lines.len()
            invariant
                i <= self.lines@.len(),
                sep@ == seq!['\n'],
                text@ == joined(self.lines@.subrange(0, i as int)),
            decreases self.lines@.len() - i,
        {
            if i > 0 {
                text.append(sep);
            }
            text.append(self.lines[i].as_str());
            i = i + 1;
            assert(self.lines@.subrange(0, i as int).drop_last() =~= self.lines@.subrange(
                0,
                i - 1,
            ));
        }
        assert(self.lines@.subrange(0, self.lines@.len() as int) =~= self.lines@);
        text
    }

    pub fn get_lines(&self) -> (r: &VecDeque<String>)
        ensures
            r@ == self.lines(),
    {
        &self.lines
    }

    /// The line at `index`, counting from the oldest, if there is one.
    pub fn get_line(&self, index: usize) -> (r: Option<&String>)
        ensures
            index < self.lines().len() ==> r == Some(&self.lines()[index as int]),
            index >= self.lines().len() ==> r is None,
    {
        if index < self.lines.len() {
            Some(&self.lines[index])
        } else {
            None
        }
    }

    pub fn len(&self) -> (r: usize)
        ensures
            r == self.lines().len(),
    {
        self.lines.len()
    }

    pub fn is_empty(&self) -> (r: bool)
        ensures
            r == (self.lines().len() == 0),
    {
        self.lines.len() == 0
    }

    /// Drops every line and puts the position back at 0.
    pub fn clear(&mut self)
        ensures
            final(self).lines() == Seq::<String>::empty(),
            final(self).max_lines() == old(self).max_lines(),
            final(self).position() == 0,
    {
        self.lines.clear();
        self.current_position = 0;
    }

    /// Moves the position, no further than the number of lines.
    pub fn set_position(&mut self, position: usize)
        ensures
            final(self).position() == if position <= old(self).lines().len() {
                position as nat
            } else {
                old(self).lines().len()
            },
            final(self).lines() == old(self).lines(),
            final(self).max_lines() == old(self).max_lines(),
    {
        let len = self.lines.len();
        self.current_position = if position <= len {
            position
        } else {
            len
        };
    }

    pub fn get_position(&self) -> (r: usize)
        ensures
            r == self.position(),
    {
        self.current_position
    }

    /// The lines from `context_lines` before `line_number` to
    /// `context_lines` after it, as far as they exist, with their indices.
    pub fn get_context_around(&self, line_number: usize, context_lines: usize) -> (r: Vec<
        (usize, &String),
    >)
        ensures
            ({
                let start = if line_number >= context_lines {
                    line_number - context_lines
                } else {
                    0
                };
                let end = if line_number + context_lines + 1 <= self.lines().len() {
                    line_number + context_lines + 1
                } else {
                    self.lines().len() as int
                };
                &&& r@.len() == if end > start {
                    end - start
                } else {
                    0
                }
                &&& forall|j: int|
                    0 <= j < r@.len() ==> (#[trigger] r@[j]).0 == start + j && r@[j].1
                        == &self.lines()[start + j]
            }),
    {
        let len = self.lines.len();
        let start: usize = if line_number >= context_lines {
            line_number - context_lines
        } else {
            0
        };
        let end: usize = if line_number < len && context_lines < len - line_number {
            line_number + context_lines + 1
        } else {
            len
        };
        let mut out: Vec<(usize, &String)> = Vec::new();
        let mut i: usize = start;
        while i < end
            invariant
                start <= end <= len || end <= start,
                len == self.lines@.len(),
                end <= len,
                start <= i,
                i <= end || out@.len() == 0,
                out@.len() == i - start,
                forall|j: int|
                    0 <= j < out@.len() ==> (#[trigger] out@[j]).0 == start + j && out@[j].1
                        == &self.lines@[start + j],
            decreases end - i,
        {
            out.push((i, &self.lines[i]));
            i = i + 1;
        }
        out
    }

    /// The lines that hold `pattern`, with their indices, oldest first;
    /// without case sensitivity both sides are lowercased first.
    pub fn search_in_buffer(&self, pattern: &str, case_sensitive: bool) -> (r: Vec<
        (usize, String),
    >)
        ensures
            r@.map_values(|h: (usize, String)| (h.0 as int, h.1@)) == hits_upto(
                self.lines(),
                pattern@,
                case_sensitive,
                self.lines().len() as int,
            ),
    {
        let query = if case_sensitive {
            String::from_str(pattern)
        } else {
            to_lower(pattern)
        };
        let mut out: Vec<(usize, String)> = Vec::new();
        let mut i: usize = 0;
        while i < self.lines.len()
            invariant
                i <= self.lines@.len(),
                query@ == if case_sensitive {
                    pattern@
                } else {
                    lowercase_of(pattern@)
                },
                out@.map_values(|h: (usize, String)| (h.0 as int, h.1@)) == hits_upto(
                    self.lines@,
                    pattern@,
                    case_sensitive,
                    i as int,
                ),
            decreases self.lines@.len() - i,
        {
            let line = &self.lines[i];
            let hit = if case_sensitive {
                text_contains(line.as_str(), query.as_str())
            } else {
                let lowered = to_lower(line.as_str());
                text_contains(lowered.as_str(), query.as_str())
            };
            let ghost prev = out@;
            if hit {
                out.push((i, line.clone()));
                assert(out@.map_values(|h: (usize, String)| (h.0 as int, h.1@)) =~= prev.map_values(
                    |h: (usize, String)| (h.0 as int, h.1@),
                ).push((i as int, self.lines@[i as int]@)));
            }
            i = i + 1;
        }
        out
    }
}

} // verus!
