//! The header of a document: a block of `key: value` lines between two lines
//! of three dashes, read into a mapping from keys to values.

use crate::error::{BuildError, BuildErrorView, Field, HeaderError};
use crate::text::{
    chars_of, find, lemma_run_bounds, lines_of, run, scan, split_lines, texts_of, trim_start,
    CharClass, Span,
};
use vstd::prelude::*;

verus! {

/// The value of one field: a single text, or a list of texts.
#[derive(Debug)]
pub enum HeaderValue<'a> {
    One(&'a str),
    Many(Vec<&'a str>),
}

/// A [`HeaderValue`] by the characters it holds.
pub enum HeaderValueView {
    One(Seq<char>),
    Many(Seq<Seq<char>>),
}

/// The characters of each text of `items`.
pub open spec fn views_of(items: Seq<&str>) -> Seq<Seq<char>> {
    Seq::new(items.len(), |i: int| items[i]@)
}

impl<'a> View for HeaderValue<'a> {
    type V = HeaderValueView;

    open spec fn view(&self) -> HeaderValueView {
        match *self {
            HeaderValue::One(text) => HeaderValueView::One(text@),
            HeaderValue::Many(items) => HeaderValueView::Many(views_of(items@)),
        }
    }
}

impl<'a> HeaderValue<'a> {
    /// The text of a single value, and nothing for a list.
    pub fn one(&self) -> (r: Option<&'a str>)
        ensures
            match r {
                Some(text) => self@ == HeaderValueView::One(text@),
                None => self@ is Many,
            },
    {
        match self {
            HeaderValue::One(text) => Some(*text),
            _ => None,
        }
    }

    /// The items of a list, and nothing for a single value.
    pub fn many(&self) -> (r: Option<&Vec<&'a str>>)
        ensures
            match r {
                Some(items) => self@ == HeaderValueView::Many(views_of(items@)),
                None => self@ is One,
            },
    {
        match self {
            HeaderValue::Many(items) => Some(items),
            _ => None,
        }
    }
}

/// The mapping that a list of entries stands for: of two entries with one
/// key the later one counts.
pub open spec fn entries_map<'a>(entries: Seq<(&'a str, HeaderValue<'a>)>) -> Map<
    Seq<char>,
    HeaderValueView,
>
    decreases entries.len(),
{
    if entries.len() == 0 {
        Map::empty()
    } else {
        entries_map(entries.drop_last()).insert(entries.last().0@, entries.last().1@)
    }
}

/// The fields of one header, by their keys. The entries are held in the
/// order in which they were put, and of two with one key the later counts.
#[derive(Debug)]
pub struct FieldMapping<'a> {
    entries: Vec<(&'a str, HeaderValue<'a>)>,
}

impl<'a> View for FieldMapping<'a> {
    type V = Map<Seq<char>, HeaderValueView>;

    closed spec fn view(&self) -> Map<Seq<char>, HeaderValueView> {
        entries_map(self.entries@)
    }
}

/// The single text under `field`: the field must be there, and be no list.
pub open spec fn scalar_of(fields: Map<Seq<char>, HeaderValueView>, field: Field) -> Result<
    Seq<char>,
    BuildErrorView,
> {
    if !fields.contains_key(field.text()) {
        Err(BuildErrorView::Missing(field))
    } else {
        match fields[field.text()] {
            HeaderValueView::One(text) => Ok(text),
            HeaderValueView::Many(_) => Err(BuildErrorView::IsList(field)),
        }
    }
}

/// The list under `field`: the field must be there, and be a list.
pub open spec fn list_of(fields: Map<Seq<char>, HeaderValueView>, field: Field) -> Result<
    Seq<Seq<char>>,
    BuildErrorView,
> {
    if !fields.contains_key(field.text()) {
        Err(BuildErrorView::Missing(field))
    } else {
        match fields[field.text()] {
            HeaderValueView::One(_) => Err(BuildErrorView::NotList(field)),
            HeaderValueView::Many(items) => Ok(items),
        }
    }
}

impl<'a> FieldMapping<'a> {
    /// A mapping without fields.
    pub fn new() -> (r: FieldMapping<'a>)
        ensures
            r@ == Map::<Seq<char>, HeaderValueView>::empty(),
    {
        FieldMapping { entries: Vec::new() }
    }

    /// Puts `value` under `key`, in place of what stood there.
    pub fn insert(&mut self, key: &'a str, value: HeaderValue<'a>)
        ensures
            final(self)@ == old(self)@.insert(key@, value@),
    {
        let ghost before = self.entries@;
        self.entries.push((key, value));
        proof {
            assert(self.entries@.drop_last() == before);
        }
    }

    /// The value under `key`, where there is one.
    pub fn get(&self, key: &str) -> (r: Option<&HeaderValue<'a>>)
        ensures
            match r {
                Some(value) => self@.contains_key(key@) && self@[key@] == value@,
                None => !self@.contains_key(key@),
            },
    {
        let mut i: usize = self.entries.len();
        proof {
            assert(self.entries@.take(i as int) == self.entries@);
        }
        while i > 0
            invariant
                i <= self.entries.len(),
                self@.contains_key(key@) == entries_map(self.entries@.take(i as int)).contains_key(
                    key@,
                ),
                self@.contains_key(key@) ==> self@[key@] == entries_map(
                    self.entries@.take(i as int),
                )[key@],
            decreases i,
        {
            let ghost upto = self.entries@.take(i as int);
            proof {
                assert(upto.drop_last() == self.entries@.take(i - 1));
                assert(upto.last() == self.entries@[i - 1]);
            }
            i -= 1;
            if self.entries[i].0.eq(key) {
                return Some(&self.entries[i].1);
            }
        }
        proof {
            assert(self.entries@.take(0).len() == 0);
        }
        None
    }

    /// The single text under `field`.
    pub fn scalar(&self, field: Field) -> (r: Result<&'a str, BuildError>)
        ensures
            scalar_of(self@, field) == match r {
                Ok(text) => Ok(text@),
                Err(e) => Err(e@),
            },
    {
        match self.get(field.name()) {
            None => Err(BuildError::Missing(field)),
            Some(value) => match value.one() {
                Some(text) => Ok(text),
                None => Err(BuildError::IsList(field)),
            },
        }
    }

    /// The list under `field`.
    pub fn list(&self, field: Field) -> (r: Result<&Vec<&'a str>, BuildError>)
        ensures
            list_of(self@, field) == match r {
                Ok(items) => Ok(views_of(items@)),
                Err(e) => Err(e@),
            },
    {
        match self.get(field.name()) {
            None => Err(BuildError::Missing(field)),
            Some(value) => match value.many() {
                Some(items) => Ok(items),
                None => Err(BuildError::NotList(field)),
            },
        }
    }
}

/// Whether `line` is the line of three dashes that opens and closes a header.
pub open spec fn is_delimiter(line: Seq<char>) -> bool {
    line.len() == 3 && line[0] == '-' && line[1] == '-' && line[2] == '-'
}

/// The index of the first delimiter among the lines from `from` on, or the
/// number of lines where none follows.
pub open spec fn first_delimiter(lines: Seq<Seq<char>>, from: int) -> int
    decreases lines.len() - from,
{
    if from >= lines.len() {
        lines.len() as int
    } else if is_delimiter(lines[from]) {
        from
    } else {
        first_delimiter(lines, from + 1)
    }
}

/// Whether `line` is an item of a list written as a block: after its leading
/// white space it begins with a dash.
pub open spec fn is_item_line(line: Seq<char>) -> bool {
    let rest = trim_start(line);
    rest.len() > 0 && rest[0] == '-'
}

/// The item on an item line: the line without the white space and dashes that
/// it begins with.
pub open spec fn item_text(line: Seq<char>) -> Seq<char> {
    line.skip(run(line, CharClass::SpaceOrDash) as int)
}

/// The number of item lines that follow one another from line `from` on.
pub open spec fn item_run(lines: Seq<Seq<char>>, from: int) -> nat
    decreases lines.len() - from,
{
    if 0 <= from < lines.len() && is_item_line(lines[from]) {
        1 + item_run(lines, from + 1)
    } else {
        0
    }
}

/// The items on the `count` lines from line `from` on.
pub open spec fn block_items(lines: Seq<Seq<char>>, from: int, count: nat) -> Seq<Seq<char>> {
    Seq::new(count, |k: int| item_text(lines[from + k]))
}

/// The pieces of `s` between its commas, each without its leading white
/// space.
pub open spec fn comma_items(s: Seq<char>) -> Seq<Seq<char>>
    decreases s.len(),
{
    let n = find(s, ',');
    if n >= s.len() {
        seq![trim_start(s)]
    } else {
        seq![trim_start(s.take(n))] + comma_items(s.skip(n + 1))
    }
}

/// The items of a list written beside its key: what stands between the first
/// opening bracket and the first closing bracket after it, parted at the
/// commas.
pub open spec fn inline_items(value: Seq<char>) -> Result<Seq<Seq<char>>, HeaderError> {
    let open = find(value, '[');
    if open >= value.len() {
        Err(HeaderError::NoOpeningBracket)
    } else {
        let rest = value.skip(open + 1);
        let close = find(rest, ']');
        if close >= rest.len() {
            Err(HeaderError::NoClosingBracket)
        } else {
            Ok(comma_items(rest.take(close)))
        }
    }
}

/// A character is found in a sequence where the sequence holds it, and only
/// there.
pub proof fn lemma_find_contains(s: Seq<char>, c: char)
    ensures
        find(s, c) < s.len() <==> s.contains(c),
        find(s, c) <= s.len(),
        find(s, c) < s.len() ==> s[find(s, c) as int] == c,
{
    lemma_run_bounds(s, CharClass::Except(c));
    if s.contains(c) {
        let i = choose|i: int| 0 <= i < s.len() && s[i] == c;
        if find(s, c) >= s.len() {
            assert(CharClass::Except(c).has(s[i]));
        }
    }
}

/// A list that stands beside its key needs its brackets: without an opening
/// bracket, or without a closing one behind the first opening one, there are
/// no items but an error, and with both there are items.
pub proof fn lemma_inline_needs_brackets(value: Seq<char>)
    ensures
        inline_items(value) matches Err(e) ==> e == if value.contains('[') {
            HeaderError::NoClosingBracket
        } else {
            HeaderError::NoOpeningBracket
        },
        inline_items(value) is Ok <==> value.contains('[') && value.skip(
            find(value, '[') + 1,
        ).contains(']'),
{
    lemma_find_contains(value, '[');
    lemma_find_contains(value.skip(find(value, '[') + 1), ']');
}

/// Whether `line` opens a list written as a block: its key is that of the
/// weekdays, and nothing follows the colon.
pub open spec fn opens_block(line: Seq<char>) -> bool {
    let colon = find(line, ':');
    colon + 1 == line.len() && line.take(colon) == Field::DaysOfWeek.text()
}

/// The number of lines below line `i` that belong to the entry on it: the
/// item lines below a line that opens a block.
pub open spec fn lines_below(lines: Seq<Seq<char>>, i: int) -> nat {
    if opens_block(lines[i]) {
        item_run(lines, i + 1)
    } else {
        0
    }
}

/// The entry that begins on line `i`: its key and its value. The key is what
/// stands before the first colon. Under the key of the weekdays the value is
/// a list, written beside the key or, where nothing follows the colon, on the
/// item lines below. Under any other key it is what follows the colon,
/// without its leading white space.
pub open spec fn entry_at(lines: Seq<Seq<char>>, i: int) -> Result<
    (Seq<char>, HeaderValueView),
    HeaderError,
> {
    let line = lines[i];
    let colon = find(line, ':');
    if colon >= line.len() {
        Err(HeaderError::NoColon)
    } else {
        let key = line.take(colon);
        let value = line.skip(colon + 1);
        if key == Field::DaysOfWeek.text() {
            if value.len() == 0 {
                Ok((key, HeaderValueView::Many(block_items(lines, i + 1, item_run(lines, i + 1)))))
            } else {
                match inline_items(value) {
                    Err(e) => Err(e),
                    Ok(items) => Ok((key, HeaderValueView::Many(items))),
                }
            }
        } else {
            Ok((key, HeaderValueView::One(trim_start(value))))
        }
    }
}

/// The fields of the entries from line `i` up to the closing delimiter or the
/// last line, put into `fields` one after the other.
pub open spec fn fields_from(
    lines: Seq<Seq<char>>,
    i: int,
    fields: Map<Seq<char>, HeaderValueView>,
) -> Result<Map<Seq<char>, HeaderValueView>, HeaderError>
    decreases
        (if i < lines.len() {
            lines.len() - i
        } else {
            0
        }),
{
    if i < 0 || i >= lines.len() || is_delimiter(lines[i]) {
        Ok(fields)
    } else {
        match entry_at(lines, i) {
            Err(e) => Err(e),
            Ok((key, value)) => fields_from(
                lines,
                i + 1 + lines_below(lines, i),
                fields.insert(key, value),
            ),
        }
    }
}

/// The fields of the header of a document. The header begins after the first
/// delimiter; a document without one has no fields.
pub open spec fn header_of(text: Seq<char>) -> Result<
    Map<Seq<char>, HeaderValueView>,
    HeaderError,
> {
    let lines = lines_of(text);
    fields_from(lines, first_delimiter(lines, 0) + 1, Map::empty())
}

/// Among lines of which none is a delimiter, none is found.
pub proof fn lemma_no_delimiter(lines: Seq<Seq<char>>, from: int)
    requires
        0 <= from,
        forall|i: int| from <= i < lines.len() ==> !is_delimiter(#[trigger] lines[i]),
    ensures
        first_delimiter(lines, from) == lines.len(),
    decreases lines.len() - from,
{
    if from < lines.len() {
        lemma_no_delimiter(lines, from + 1);
    }
}

/// A document without a line of three dashes has no fields, and is no error.
pub proof fn lemma_no_header(text: Seq<char>)
    requires
        forall|i: int|
            0 <= i < lines_of(text).len() ==> !is_delimiter(#[trigger] lines_of(text)[i]),
    ensures
        header_of(text) == Ok::<Map<Seq<char>, HeaderValueView>, HeaderError>(Map::empty()),
{
    lemma_no_delimiter(lines_of(text), 0);
}

/// Tests whether the line at `span` is a delimiter.
fn delimiter_at(chars: &Vec<char>, span: Span) -> (r: bool)
    requires
        span.within(chars@.len()),
    ensures
        r == is_delimiter(span.of(chars@)),
{
    span.end - span.start == 3 && chars[span.start] == '-' && chars[span.start + 1] == '-'
        && chars[span.start + 2] == '-'
}

/// Tests whether the line at `span` is an item line.
fn item_line_at(chars: &Vec<char>, span: Span) -> (r: bool)
    requires
        span.within(chars@.len()),
    ensures
        r == is_item_line(span.of(chars@)),
{
    let at: usize = scan(chars, span.start, span.end, CharClass::Space);
    proof {
        let line = span.of(chars@);
        let rest = trim_start(line);
        assert(rest.len() == span.end - at);
        if at < span.end {
            assert(rest[0] == chars@[at as int]);
        }
    }
    at < span.end && chars[at] == '-'
}

/// The part of `contents` from character `from` up to character `to`.
fn piece<'a>(contents: &'a str, from: usize, to: usize) -> (r: &'a str)
    requires
        from <= to <= contents@.len(),
    ensures
        r@ == contents@.subrange(from as int, to as int),
{
    contents.substring_char(from, to)
}

/// Reads the item lines from line `from` on.
fn read_block<'a>(contents: &'a str, chars: &Vec<char>, lines: &Vec<Span>, from: usize) -> (r: (
    Vec<&'a str>,
    usize,
))
    requires
        chars@ == contents@,
        from <= lines.len(),
        forall|i: int| 0 <= i < lines.len() ==> (#[trigger] lines[i]).within(chars@.len()),
    ensures
        r.1 == from + item_run(texts_of(chars@, lines@), from as int),
        r.1 <= lines.len(),
        views_of(r.0@) == block_items(
            texts_of(chars@, lines@),
            from as int,
            item_run(texts_of(chars@, lines@), from as int),
        ),
{
    let ghost all = texts_of(chars@, lines@);
    let mut items: Vec<&'a str> = Vec::new();
    let mut j: usize = from;
    while j < lines.len() && item_line_at(chars, lines[j])
        invariant
            chars@ == contents@,
            all == texts_of(chars@, lines@),
            from <= j <= lines.len(),
            forall|i: int| 0 <= i < lines.len() ==> (#[trigger] lines[i]).within(chars@.len()),
            item_run(all, from as int) == (j - from) + item_run(all, j as int),
            items.len() == j - from,
            forall|k: int|
                0 <= k < items.len() ==> (#[trigger] items[k])@ == item_text(all[from + k]),
        decreases lines.len() - j,
    {
        let span = lines[j];
        let at: usize = scan(chars, span.start, span.end, CharClass::SpaceOrDash);
        let item = piece(contents, at, span.end);
        proof {
            assert(all[j as int] == span.of(chars@));
            assert(item@ == item_text(all[j as int]));
        }
        items.push(item);
        j += 1;
    }
    proof {
        assert(j < lines.len() ==> all[j as int] == lines[j as int].of(chars@));
        assert(item_run(all, j as int) == 0);
        assert(views_of(items@) =~= block_items(all, from as int, item_run(all, from as int)));
    }
    (items, j)
}

/// Reads the list that stands beside its key, in the value at `span`.
fn read_inline<'a>(contents: &'a str, chars: &Vec<char>, span: Span) -> (r: Result<
    Vec<&'a str>,
    HeaderError,
>)
    requires
        chars@ == contents@,
        span.within(chars@.len()),
    ensures
        inline_items(span.of(chars@)) == match r {
            Ok(items) => Ok(views_of(items@)),
            Err(e) => Err(e),
        },
{
    let ghost value = span.of(chars@);
    let open: usize = scan(chars, span.start, span.end, CharClass::Except('['));
    if open == span.end {
        return Err(HeaderError::NoOpeningBracket);
    }
    let close: usize = scan(chars, open + 1, span.end, CharClass::Except(']'));
    proof {
        assert(value.skip(open - span.start + 1) == chars@.subrange(open + 1, span.end as int));
    }
    if close == span.end {
        return Err(HeaderError::NoClosingBracket);
    }
    let ghost inside = chars@.subrange(open + 1, close as int);
    proof {
        assert(value.skip(open - span.start + 1).take(close - (open + 1)) == inside);
    }
    let mut items: Vec<&'a str> = Vec::new();
    let mut from: usize = open + 1;
    let mut comma: usize = scan(chars, from, close, CharClass::Except(','));
    while comma < close
        invariant
            chars@ == contents@,
            open + 1 <= from <= comma <= close <= chars@.len(),
            inside == chars@.subrange(open + 1, close as int),
            comma - from == find(chars@.subrange(from as int, close as int), ','),
            comma_items(inside) == views_of(items@) + comma_items(
                chars@.subrange(from as int, close as int),
            ),
        decreases close - from,
    {
        let at: usize = scan(chars, from, comma, CharClass::Space);
        let item = piece(contents, at, comma);
        let ghost before = items@;
        let ghost rest = chars@.subrange(from as int, close as int);
        items.push(item);
        proof {
            assert(rest.take(comma - from) == chars@.subrange(from as int, comma as int));
            assert(item@ == trim_start(rest.take(comma - from)));
            assert(rest.skip(comma - from + 1) == chars@.subrange(comma + 1, close as int));
            assert(views_of(items@) == views_of(before) + seq![item@]);
        }
        from = comma + 1;
        comma = scan(chars, from, close, CharClass::Except(','));
    }
    let at: usize = scan(chars, from, close, CharClass::Space);
    let item = piece(contents, at, close);
    let ghost before = items@;
    items.push(item);
    proof {
        let rest = chars@.subrange(from as int, close as int);
        assert(item@ == trim_start(rest));
        assert(views_of(items@) == views_of(before) + seq![item@]);
    }
    Ok(items)
}

/// Reads the entry that begins on line `i`, and says at which line the next
/// one begins.
fn read_entry<'a>(contents: &'a str, chars: &Vec<char>, lines: &Vec<Span>, i: usize) -> (r: Result<
    (&'a str, HeaderValue<'a>, usize),
    HeaderError,
>)
    requires
        chars@ == contents@,
        i < lines.len(),
        forall|k: int| 0 <= k < lines.len() ==> (#[trigger] lines[k]).within(chars@.len()),
    ensures
        entry_at(texts_of(chars@, lines@), i as int) == match r {
            Ok((key, value, _)) => Ok((key@, value@)),
            Err(e) => Err(e),
        },
        r matches Ok((_, _, next)) ==> next <= lines.len() && next == i + 1 + lines_below(
            texts_of(chars@, lines@),
            i as int,
        ),
{
    let ghost all = texts_of(chars@, lines@);
    let span = lines[i];
    let ghost line = span.of(chars@);
    proof {
        assert(all[i as int] == line);
    }
    let colon: usize = scan(chars, span.start, span.end, CharClass::Except(':'));
    if colon == span.end {
        return Err(HeaderError::NoColon);
    }
    let key = piece(contents, span.start, colon);
    proof {
        assert(key@ == line.take(colon - span.start));
        assert(line.skip(colon - span.start + 1) == chars@.subrange(
            colon + 1,
            span.end as int,
        ));
    }
    if key.eq(Field::DaysOfWeek.name()) {
        if colon + 1 == span.end {
            let (items, next) = read_block(contents, chars, lines, i + 1);
            Ok((key, HeaderValue::Many(items), next))
        } else {
            match read_inline(contents, chars, Span { start: colon + 1, end: span.end }) {
                Err(e) => Err(e),
                Ok(items) => Ok((key, HeaderValue::Many(items), i + 1)),
            }
        }
    } else {
        let at: usize = scan(chars, colon + 1, span.end, CharClass::Space);
        let value = piece(contents, at, span.end);
        proof {
            assert(value@ == trim_start(line.skip(colon - span.start + 1)));
        }
        Ok((key, HeaderValue::One(value), i + 1))
    }
}

/// Reads the header of a document into its fields.
///
/// The header stands between the first line of three dashes and the next
/// one, or the end of the document. What stands before and after it is passed
/// over, and a document without a header has no fields. Of two entries with
/// one key the later one counts.
pub fn parse_header<'a>(contents: &'a str) -> (r: Result<FieldMapping<'a>, HeaderError>)
    ensures
        header_of(contents@) == match r {
            Ok(fields) => Ok(fields@),
            Err(e) => Err(e),
        },
{
    let chars = chars_of(contents);
    let lines = split_lines(&chars);
    let ghost all = lines_of(contents@);
    let mut i: usize = 0;
    while i < lines.len() && !delimiter_at(&chars, lines[i])
        invariant
            chars@ == contents@,
            all == texts_of(chars@, lines@),
            i <= lines.len(),
            forall|k: int| 0 <= k < lines.len() ==> (#[trigger] lines[k]).within(chars@.len()),
            first_delimiter(all, 0) == first_delimiter(all, i as int),
        decreases lines.len() - i,
    {
        proof {
            assert(all[i as int] == lines[i as int].of(chars@));
        }
        i += 1;
    }
    proof {
        assert(i < lines.len() ==> all[i as int] == lines[i as int].of(chars@));
        assert(first_delimiter(all, 0) == i);
    }
    let mut fields = FieldMapping::new();
    if i == lines.len() {
        return Ok(fields);
    }
    i += 1;
    let ghost start = i as int;
    while i < lines.len() && !delimiter_at(&chars, lines[i])
        invariant
            chars@ == contents@,
            all == texts_of(chars@, lines@),
            i <= lines.len(),
            forall|k: int| 0 <= k < lines.len() ==> (#[trigger] lines[k]).within(chars@.len()),
            header_of(contents@) == fields_from(all, i as int, fields@),
        decreases lines.len() - i,
    {
        proof {
            assert(all[i as int] == lines[i as int].of(chars@));
        }
        match read_entry(contents, &chars, &lines, i) {
            Err(e) => {
                return Err(e);
            },
            Ok((key, value, next)) => {
                fields.insert(key, value);
                i = next;
            },
        }
    }
    proof {
        assert(i < lines.len() ==> all[i as int] == lines[i as int].of(chars@));
    }
    Ok(fields)
}

} // verus!
