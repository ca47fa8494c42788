//! The telegram framer: from a stream of lines to the lines of one telegram.

use vstd::prelude::*;
use crate::error::DsmrError;
use crate::telegram::lines_of;

verus! {

/// The first character of the line that opens a telegram.
pub const START_MARKER: char = '/';

/// The first character of the line that closes a telegram.
pub const END_MARKER: char = '!';

/// Whether a line begins with `marker`.
pub open spec fn starts_with(line: Seq<char>, marker: char) -> bool {
    line.len() > 0 && line[0] == marker
}

/// The index of the first line at or after `from` that begins with `marker`,
/// or `lines.len()` where there is none.
pub open spec fn next_marker(lines: Seq<Seq<char>>, marker: char, from: int) -> int
    decreases lines.len() - from,
{
    if from < 0 || from >= lines.len() {
        lines.len() as int
    } else if starts_with(lines[from], marker) {
        from
    } else {
        next_marker(lines, marker, from + 1)
    }
}

/// `next_marker` is the first such line, and no line before it is one.
pub proof fn lemma_next_marker(lines: Seq<Seq<char>>, marker: char, from: int)
    requires
        0 <= from <= lines.len(),
    ensures
        from <= next_marker(lines, marker, from) <= lines.len(),
        next_marker(lines, marker, from) < lines.len() ==> starts_with(
            lines[next_marker(lines, marker, from)],
            marker,
        ),
        forall|j: int|
            from <= j < next_marker(lines, marker, from) ==> !starts_with(#[trigger] lines[j], marker),
    decreases lines.len() - from,
{
    if from < lines.len() && !starts_with(lines[from], marker) {
        lemma_next_marker(lines, marker, from + 1);
    }
}

/// An index with the properties of the first marked line is `next_marker`.
pub proof fn lemma_next_marker_unique(lines: Seq<Seq<char>>, marker: char, from: int, i: int)
    requires
        0 <= from <= i <= lines.len(),
        i < lines.len() ==> starts_with(lines[i], marker),
        forall|j: int| from <= j < i ==> !starts_with(#[trigger] lines[j], marker),
    ensures
        next_marker(lines, marker, from) == i,
    decreases lines.len() - from,
{
    if from < i {
        lemma_next_marker_unique(lines, marker, from + 1, i);
    }
}

/// One telegram cut out of a stream of lines, and where the stream goes on.
pub struct Frame {
    /// The lines from the start line up to the end line, the end line left
    /// out.
    pub telegram: Seq<Seq<char>>,
    /// The index of the line after the end line.
    pub next: int,
}

/// The telegram that the framer finds in `lines` from index `from` on: lines
/// are passed over up to the first that begins with `/`; the telegram is that
/// line and those after it, up to the first that begins with `!`. There is
/// none where the lines end before a start line, or before an end line.
pub open spec fn frame_at(lines: Seq<Seq<char>>, from: int) -> Option<Frame> {
    let start = next_marker(lines, START_MARKER, from);
    let end = next_marker(lines, END_MARKER, start);
    if end < lines.len() {
        Some(Frame { telegram: lines.subrange(start, end), next: end + 1 })
    } else {
        None
    }
}

/// What the framer holds between two lines: `None` while it waits for a
/// start line, else the lines of the telegram read so far.
pub type FramerState = Option<Seq<Seq<char>>>;

/// The step of the framer on one line: the state after the line, and the
/// telegram that the line completes, if it does.
pub open spec fn framer_step(state: FramerState, line: Seq<char>) -> (FramerState, FramerState) {
    match state {
        None => if starts_with(line, START_MARKER) {
            (Some(seq![line]), None)
        } else {
            (None, None)
        },
        Some(held) => if starts_with(line, END_MARKER) {
            (None, Some(held))
        } else {
            (Some(held.push(line)), None)
        },
    }
}

/// Decides whether a line begins with `marker`.
pub fn line_starts_with(line: &str, marker: char) -> (r: bool)
    ensures
        r == starts_with(line@, marker),
{
    line.unicode_len() > 0 && line.get_char(0) == marker
}

/// The framer as a machine that is fed one line at a time.
pub struct Framer {
    inside: bool,
    held: Vec<String>,
}

impl Framer {
    /// The state of the machine.
    pub closed spec fn state(&self) -> FramerState {
        if self.inside {
            Some(lines_of(self.held@))
        } else {
            None
        }
    }

    /// A framer that waits for a start line.
    pub fn new() -> (r: Framer)
        ensures
            r.state() is None,
    {
        Framer { inside: false, held: Vec::new() }
    }

    /// Whether the framer is inside a telegram.
    pub fn is_inside(&self) -> (r: bool)
        ensures
            r == self.state() is Some,
    {
        self.inside
    }

    /// Feeds one line to the framer. Returns the telegram that the line
    /// completes, if it does.
    pub fn push_line(&mut self, line: String) -> (r: Option<Vec<String>>)
        ensures
            final(self).state() == framer_step(old(self).state(), line@).0,
            (r is Some) == (framer_step(old(self).state(), line@).1 is Some),
            r matches Some(telegram) ==> Some(lines_of(telegram@)) == framer_step(
                old(self).state(),
                line@,
            ).1,
    {
        if !self.inside {
            if line_starts_with(line.as_str(), START_MARKER) {
                let mut held: Vec<String> = Vec::new();
                held.push(line);
                assert(lines_of(held@) =~= seq![line@]);
                self.held = held;
                self.inside = true;
            }
            None
        } else if line_starts_with(line.as_str(), END_MARKER) {
            let mut telegram: Vec<String> = Vec::new();
            std::mem::swap(&mut telegram, &mut self.held);
            self.inside = false;
            Some(telegram)
        } else {
            let ghost before = self.held@;
            self.held.push(line);
            assert(lines_of(self.held@) =~= lines_of(before).push(line@));
            None
        }
    }
}

/// The outcome of one invocation of the framer as a mathematical value.
pub open spec fn frame_outcome(r: Result<(Vec<String>, usize), DsmrError>) -> Option<Frame> {
    match r {
        Ok((telegram, next)) => Some(Frame { telegram: lines_of(telegram@), next: next as int }),
        Err(_) => None,
    }
}

/// Reads one telegram from `lines`, starting at index `from`. Returns the
/// telegram and the index at which the next invocation goes on, or
/// `SourceExhausted` where the lines end first.
pub fn next_telegram(lines: &Vec<String>, from: usize) -> (r: Result<(Vec<String>, usize), DsmrError>)
    ensures
        frame_outcome(r) == frame_at(lines_of(lines@), from as int),
        r is Err ==> r == Err::<(Vec<String>, usize), DsmrError>(DsmrError::SourceExhausted),
{
    let ghost stream = lines_of(lines@);
    let n = lines.len();
    if from >= n {
        return Err(DsmrError::SourceExhausted);
    }
    let ghost start = next_marker(stream, START_MARKER, from as int);
    proof {
        lemma_next_marker(stream, START_MARKER, from as int);
        lemma_next_marker(stream, END_MARKER, start);
    }
    let mut framer = Framer::new();
    let mut i: usize = from;
    while i < n
        invariant
            from <= i <= n,
            n == lines.len(),
            stream == lines_of(lines@),
            start == next_marker(stream, START_MARKER, from as int),
            from <= start <= n,
            i <= start ==> framer.state() is None,
            i > start ==> framer.state() == Some(stream.subrange(start, i as int)),
            i > start ==> i <= next_marker(stream, END_MARKER, start),
            forall|j: int| from <= j < start ==> !starts_with(#[trigger] stream[j], START_MARKER),
            start < n ==> starts_with(stream[start], START_MARKER),
        decreases n - i,
    {
        let ghost end = next_marker(stream, END_MARKER, start);
        proof {
            lemma_next_marker(stream, END_MARKER, start);
            assert(stream[i as int] == lines[i as int]@);
        }
        let line = lines[i].clone();
        match framer.push_line(line) {
            Some(telegram) => {
                proof {
                    assert(starts_with(stream[i as int], END_MARKER));
                    lemma_next_marker_unique(stream, END_MARKER, start, i as int);
                }
                return Ok((telegram, i + 1));
            },
            None => {
                proof {
                    if i as int == start {
                        assert(stream.subrange(start, i + 1) =~= seq![stream[i as int]]);
                    } else if i as int > start {
                        assert(stream.subrange(start, i + 1) =~= stream.subrange(
                            start,
                            i as int,
                        ).push(stream[i as int]));
                        assert(i as int != end);
                    }
                }
            },
        }
        i += 1;
    }
    proof {
        if start < n {
            assert(next_marker(stream, END_MARKER, start) == n);
        }
    }
    Err(DsmrError::SourceExhausted)
}

/// A well-delimited telegram: a start line, then lines of which none is an
/// end line.
pub open spec fn is_telegram(lines: Seq<Seq<char>>) -> bool {
    &&& lines.len() > 0
    &&& starts_with(lines[0], START_MARKER)
    &&& forall|i: int| 0 <= i < lines.len() ==> !starts_with(#[trigger] lines[i], END_MARKER)
}

/// Two telegrams back to back, each followed by its end line and with
/// nothing between them, are framed as exactly two telegrams: the first
/// invocation yields the first without its end line, the second, which goes
/// on after that end line, yields the second without its end line, and a
/// third finds the lines exhausted.
pub proof fn lemma_back_to_back(
    first: Seq<Seq<char>>,
    first_end: Seq<char>,
    second: Seq<Seq<char>>,
    second_end: Seq<char>,
)
    requires
        is_telegram(first),
        is_telegram(second),
        starts_with(first_end, END_MARKER),
        starts_with(second_end, END_MARKER),
    ensures
        ({
            let stream = first.push(first_end) + second.push(second_end);
            &&& frame_at(stream, 0) == Some(
                Frame { telegram: first, next: first.len() as int + 1 },
            )
            &&& frame_at(stream, first.len() as int + 1) == Some(
                Frame { telegram: second, next: stream.len() as int },
            )
            &&& frame_at(stream, stream.len() as int) is None
        }),
{
    let stream = first.push(first_end) + second.push(second_end);
    let a = first.len() as int;
    let b = a + 1;
    let c = b + second.len();
    assert(stream.len() == c + 1);
    assert(forall|i: int| 0 <= i < a ==> stream[i] == first[i]);
    assert(stream[a] == first_end);
    assert(forall|i: int| b <= i < c ==> stream[i] == second[i - b]);
    assert(stream[c] == second_end);
    lemma_next_marker_unique(stream, START_MARKER, 0, 0);
    lemma_next_marker_unique(stream, END_MARKER, 0, a);
    assert(stream.subrange(0, a) =~= first);
    lemma_next_marker_unique(stream, START_MARKER, b, b);
    lemma_next_marker_unique(stream, END_MARKER, b, c);
    assert(stream.subrange(b, c) =~= second);
}

} // verus!
