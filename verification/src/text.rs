//! Character-level scanning: classes of characters, runs, and lines.
//!
//! A document is handled as a vector of characters. Pieces of it are named by
//! a [`Span`], and every scanning function states its result over the
//! sequence of characters that the span covers.

use vstd::prelude::*;

verus! {

/// Whether `c` is white space: one of the code points that Unicode marks as
/// `White_Space`.
pub open spec fn is_space(c: char) -> bool {
    let n = c as u32;
    ||| 0x09 <= n <= 0x0D
    ||| n == 0x20
    ||| n == 0x85
    ||| n == 0xA0
    ||| n == 0x1680
    ||| 0x2000 <= n <= 0x200A
    ||| n == 0x2028
    ||| n == 0x2029
    ||| n == 0x202F
    ||| n == 0x205F
    ||| n == 0x3000
}

/// A set of characters that a scan steps over.
#[derive(Clone, Copy, Debug)]
pub enum CharClass {
    /// White space.
    Space,
    /// White space and the list marker `-`.
    SpaceOrDash,
    /// Every character but the given one.
    Except(char),
}

impl CharClass {
    /// Whether `c` belongs to the class.
    pub open spec fn has(self, c: char) -> bool {
        match self {
            CharClass::Space => is_space(c),
            CharClass::SpaceOrDash => is_space(c) || c == '-',
            CharClass::Except(x) => c != x,
        }
    }

    /// Tests whether `c` belongs to the class.
    pub fn holds(&self, c: char) -> (r: bool)
        ensures
            r == self.has(c),
    {
        match *self {
            CharClass::Space => space(c),
            CharClass::SpaceOrDash => space(c) || c == '-',
            CharClass::Except(x) => c != x,
        }
    }
}

/// Tests whether `c` is white space.
pub fn space(c: char) -> (r: bool)
    ensures
        r == is_space(c),
{
    let n: u32 = c as u32;
    (0x09 <= n && n <= 0x0D) || n == 0x20 || n == 0x85 || n == 0xA0 || n == 0x1680 || (0x2000 <= n
        && n <= 0x200A) || n == 0x2028 || n == 0x2029 || n == 0x202F || n == 0x205F || n == 0x3000
}

/// The length of the longest prefix of `s` whose characters all belong to
/// `class`.
pub open spec fn run(s: Seq<char>, class: CharClass) -> nat
    decreases s.len(),
{
    if s.len() > 0 && class.has(s[0]) {
        1 + run(s.drop_first(), class)
    } else {
        0
    }
}

/// The index of the first `c` in `s`, or the length of `s` where it holds none.
pub open spec fn find(s: Seq<char>, c: char) -> int {
    run(s, CharClass::Except(c)) as int
}

/// `s` without its leading white space.
pub open spec fn trim_start(s: Seq<char>) -> Seq<char> {
    s.skip(run(s, CharClass::Space) as int)
}

/// A run is the prefix that ends at the first character outside the class.
pub proof fn lemma_run_unique(s: Seq<char>, class: CharClass, n: int)
    requires
        0 <= n <= s.len(),
        forall|k: int| 0 <= k < n ==> class.has(#[trigger] s[k]),
        n < s.len() ==> !class.has(s[n]),
    ensures
        run(s, class) == n,
    decreases n,
{
    if n > 0 {
        let t = s.drop_first();
        assert forall|k: int| 0 <= k < n - 1 implies class.has(#[trigger] t[k]) by {
            assert(t[k] == s[k + 1]);
        }
        lemma_run_unique(t, class, n - 1);
    }
}

/// A run stays inside the sequence, holds only characters of the class, and
/// stops at a character outside it.
pub proof fn lemma_run_bounds(s: Seq<char>, class: CharClass)
    ensures
        run(s, class) <= s.len(),
        forall|k: int| 0 <= k < run(s, class) ==> class.has(#[trigger] s[k]),
        run(s, class) < s.len() ==> !class.has(s[run(s, class) as int]),
    decreases s.len(),
{
    if s.len() > 0 && class.has(s[0]) {
        let t = s.drop_first();
        lemma_run_bounds(t, class);
        assert forall|k: int| 0 <= k < run(s, class) implies class.has(#[trigger] s[k]) by {
            if k > 0 {
                assert(s[k] == t[k - 1]);
            }
        }
        if run(s, class) < s.len() {
            assert(s[run(s, class) as int] == t[run(t, class) as int]);
        }
    }
}

/// A piece of a document: the characters from `start` up to, not including,
/// `end`.
#[derive(Clone, Copy, Debug)]
pub struct Span {
    pub start: usize,
    pub end: usize,
}

impl Span {
    /// Whether the span lies inside a text of `len` characters.
    pub open spec fn within(self, len: nat) -> bool {
        self.start <= self.end <= len
    }

    /// The characters of `text` that the span covers.
    pub open spec fn of(self, text: Seq<char>) -> Seq<char> {
        text.subrange(self.start as int, self.end as int)
    }
}

/// Steps over the characters of `class` from `from` on, and stops at `to` at
/// the latest.
pub fn scan(chars: &Vec<char>, from: usize, to: usize, class: CharClass) -> (r: usize)
    requires
        from <= to <= chars.len(),
    ensures
        from <= r <= to,
        r - from == run(chars@.subrange(from as int, to as int), class),
{
    let mut i: usize = from;
    while i < to && class.holds(chars[i])
        invariant
            from <= i <= to <= chars.len(),
            forall|k: int| from <= k < i ==> class.has(#[trigger] chars@[k]),
        decreases to - i,
    {
        i += 1;
    }
    proof {
        let s = chars@.subrange(from as int, to as int);
        assert forall|k: int| 0 <= k < i - from implies class.has(#[trigger] s[k]) by {
            assert(s[k] == chars@[from + k]);
        }
        lemma_run_unique(s, class, i - from);
    }
    i
}

/// `line` without one closing carriage return.
pub open spec fn strip_cr(line: Seq<char>) -> Seq<char> {
    if line.len() > 0 && line.last() == '\r' {
        line.drop_last()
    } else {
        line
    }
}

/// The lines of `s`. A line ends at a line feed, and holds neither the line
/// feed nor a carriage return that stands directly before it. What follows
/// the last line feed is a line of its own unless it is empty.
pub open spec fn lines_of(s: Seq<char>) -> Seq<Seq<char>>
    decreases s.len(),
{
    if s.len() == 0 {
        Seq::empty()
    } else {
        let n = find(s, '\n');
        if n >= s.len() {
            seq![s]
        } else {
            seq![strip_cr(s.take(n))] + lines_of(s.skip(n + 1))
        }
    }
}

/// The texts that `spans` cover in `text`, one for each span.
pub open spec fn texts_of(text: Seq<char>, spans: Seq<Span>) -> Seq<Seq<char>> {
    Seq::new(spans.len(), |i: int| spans[i].of(text))
}

/// Splits a document into its lines.
pub fn split_lines(chars: &Vec<char>) -> (r: Vec<Span>)
    ensures
        texts_of(chars@, r@) == lines_of(chars@),
        forall|i: int| 0 <= i < r.len() ==> (#[trigger] r[i]).within(chars@.len()),
{
    let len: usize = chars.len();
    let mut spans: Vec<Span> = Vec::new();
    let mut pos: usize = 0;
    proof {
        assert(chars@.skip(0) == chars@);
        assert(texts_of(chars@, spans@) + lines_of(chars@) == lines_of(chars@));
    }
    while pos < len
        invariant
            len == chars.len(),
            pos <= len,
            forall|i: int| 0 <= i < spans.len() ==> (#[trigger] spans[i]).within(chars@.len()),
            lines_of(chars@) == texts_of(chars@, spans@) + lines_of(chars@.skip(pos as int)),
        decreases len - pos,
    {
        let stop: usize = scan(chars, pos, len, CharClass::Except('\n'));
        let ghost rest = chars@.skip(pos as int);
        let ghost before = spans@;
        proof {
            assert(rest == chars@.subrange(pos as int, len as int));
            lemma_run_bounds(rest, CharClass::Except('\n'));
        }
        if stop == len {
            spans.push(Span { start: pos, end: len });
            proof {
                assert(lines_of(chars@.skip(len as int)) == Seq::<Seq<char>>::empty());
                assert(texts_of(chars@, spans@) == texts_of(chars@, before) + seq![rest]);
            }
            pos = len;
        } else {
            let end: usize = if stop > pos && chars[stop - 1] == '\r' {
                stop - 1
            } else {
                stop
            };
            spans.push(Span { start: pos, end });
            proof {
                let n = stop - pos;
                let line = rest.take(n);
                assert(line == chars@.subrange(pos as int, stop as int));
                assert(line.len() > 0 ==> line.last() == chars@[stop - 1]);
                assert(strip_cr(line) == chars@.subrange(pos as int, end as int));
                assert(rest.skip(n + 1) == chars@.skip(stop + 1));
                assert(texts_of(chars@, spans@) == texts_of(chars@, before) + seq![
                    strip_cr(line),
                ]);
            }
            pos = stop + 1;
        }
    }
    proof {
        assert(lines_of(chars@.skip(pos as int)) == Seq::<Seq<char>>::empty());
    }
    spans
}

/// The characters of `text`, one by one.
pub fn chars_of(text: &str) -> (r: Vec<char>)
    ensures
        r@ == text@,
{
    let mut out: Vec<char> = Vec::new();
    for c in it: text.chars()
        invariant
            out@ == it.seq().take(it.index()),
            it.seq() == text@,
    {
        out.push(c);
    }
    out
}

} // verus!
