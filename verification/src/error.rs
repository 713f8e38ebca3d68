//! The fields of a document's header by name, and what can go wrong with them.

use crate::clock::ParseFailure;
use vstd::prelude::*;

verus! {

/// A field that the header of a document may hold.
#[derive(Clone, Copy, PartialEq, Eq, Debug)]
pub enum Field {
    AllDay,
    Title,
    Date,
    EndDate,
    Type,
    StartTime,
    EndTime,
    StartRecur,
    EndRecur,
    DaysOfWeek,
}

impl Field {
    /// The key under which the field stands in a header.
    pub open spec fn text(self) -> Seq<char> {
        match self {
            Field::AllDay => "allDay"@,
            Field::Title => "title"@,
            Field::Date => "date"@,
            Field::EndDate => "endDate"@,
            Field::Type => "type"@,
            Field::StartTime => "startTime"@,
            Field::EndTime => "endTime"@,
            Field::StartRecur => "startRecur"@,
            Field::EndRecur => "endRecur"@,
            Field::DaysOfWeek => "daysOfWeek"@,
        }
    }

    /// The key under which the field stands in a header.
    pub fn name(self) -> (r: &'static str)
        ensures
            r@ == self.text(),
    {
        match self {
            Field::AllDay => "allDay",
            Field::Title => "title",
            Field::Date => "date",
            Field::EndDate => "endDate",
            Field::Type => "type",
            Field::StartTime => "startTime",
            Field::EndTime => "endTime",
            Field::StartRecur => "startRecur",
            Field::EndRecur => "endRecur",
            Field::DaysOfWeek => "daysOfWeek",
        }
    }
}

/// No two fields stand under the same key.
pub proof fn lemma_field_texts_differ(a: Field, b: Field)
    ensures
        a != b ==> a.text() != b.text(),
{
    reveal_strlit("allDay");
    reveal_strlit("title");
    reveal_strlit("date");
    reveal_strlit("endDate");
    reveal_strlit("type");
    reveal_strlit("startTime");
    reveal_strlit("endTime");
    reveal_strlit("startRecur");
    reveal_strlit("endRecur");
    reveal_strlit("daysOfWeek");
    let mark = |text: Seq<char>| (text.len(), text[0], text[3]);
    assert(mark(Field::AllDay.text()) == (6nat, 'a', 'D'));
    assert(mark(Field::Title.text()) == (5nat, 't', 'l'));
    assert(mark(Field::Date.text()) == (4nat, 'd', 'e'));
    assert(mark(Field::EndDate.text()) == (7nat, 'e', 'D'));
    assert(mark(Field::Type.text()) == (4nat, 't', 'e'));
    assert(mark(Field::StartTime.text()) == (9nat, 's', 'r'));
    assert(mark(Field::EndTime.text()) == (7nat, 'e', 'T'));
    assert(mark(Field::StartRecur.text()) == (10nat, 's', 'r'));
    assert(mark(Field::EndRecur.text()) == (8nat, 'e', 'R'));
    assert(mark(Field::DaysOfWeek.text()) == (10nat, 'd', 's'));
    assert(a != b ==> mark(a.text()) != mark(b.text()));
}

/// A header that does not have the shape of one.
#[derive(Clone, Copy, PartialEq, Eq, Debug)]
pub enum HeaderError {
    /// A line of the header holds no colon.
    NoColon,
    /// The list that stands beside its key has no opening bracket.
    NoOpeningBracket,
    /// The list that stands beside its key has no closing bracket after the
    /// opening one.
    NoClosingBracket,
}

impl HeaderError {
    /// The words that describe the error.
    pub open spec fn message_text(self) -> Seq<char> {
        match self {
            HeaderError::NoColon => "Cannot find : on header line"@,
            HeaderError::NoOpeningBracket => "Cannot find opening [ on list"@,
            HeaderError::NoClosingBracket => "Cannot find closing ] on list"@,
        }
    }

    /// Describes the error in words.
    pub fn message(self) -> (r: String)
        ensures
            r@ == self.message_text(),
    {
        match self {
            HeaderError::NoColon => String::from_str("Cannot find : on header line"),
            HeaderError::NoOpeningBracket => String::from_str("Cannot find opening [ on list"),
            HeaderError::NoClosingBracket => String::from_str("Cannot find closing ] on list"),
        }
    }
}

impl ParseFailure {
    /// The words that describe the failure.
    pub open spec fn message_text(self) -> Seq<char> {
        match self {
            ParseFailure::OutOfRange => "a number is out of range"@,
            ParseFailure::Impossible => "there is no such date or time"@,
            ParseFailure::NotEnough => "a part is missing"@,
            ParseFailure::Invalid => "a character is out of place"@,
            ParseFailure::TooShort => "the text ends too early"@,
            ParseFailure::TooLong => "text is left over"@,
            ParseFailure::BadFormat => "the form is not supported"@,
            ParseFailure::Unclassified => "it cannot be read"@,
        }
    }

    /// Describes the failure in words.
    pub fn message(self) -> (r: &'static str)
        ensures
            r@ == self.message_text(),
    {
        match self {
            ParseFailure::OutOfRange => "a number is out of range",
            ParseFailure::Impossible => "there is no such date or time",
            ParseFailure::NotEnough => "a part is missing",
            ParseFailure::Invalid => "a character is out of place",
            ParseFailure::TooShort => "the text ends too early",
            ParseFailure::TooLong => "text is left over",
            ParseFailure::BadFormat => "the form is not supported",
            ParseFailure::Unclassified => "it cannot be read",
        }
    }
}

/// A header from which no event can be built.
#[derive(PartialEq, Eq, Debug)]
pub enum BuildError {
    /// A field that the event needs is not in the header.
    Missing(Field),
    /// A field that must be a single value is a list.
    IsList(Field),
    /// A field that must be a list is a single value.
    NotList(Field),
    /// The value of a field cannot be read as the date or time that it is to
    /// be.
    BadValue(Field, ParseFailure),
    /// A field that must be a list with items is a list without any.
    EmptyList(Field),
    /// An item of the list of weekdays is no weekday code.
    UnknownWeekday(String),
}

/// A [`BuildError`] by the values it holds.
pub enum BuildErrorView {
    Missing(Field),
    IsList(Field),
    NotList(Field),
    BadValue(Field, ParseFailure),
    EmptyList(Field),
    UnknownWeekday(Seq<char>),
}

impl View for BuildError {
    type V = BuildErrorView;

    open spec fn view(&self) -> BuildErrorView {
        match *self {
            BuildError::Missing(field) => BuildErrorView::Missing(field),
            BuildError::IsList(field) => BuildErrorView::IsList(field),
            BuildError::NotList(field) => BuildErrorView::NotList(field),
            BuildError::BadValue(field, failure) => BuildErrorView::BadValue(field, failure),
            BuildError::EmptyList(field) => BuildErrorView::EmptyList(field),
            BuildError::UnknownWeekday(code) => BuildErrorView::UnknownWeekday(code@),
        }
    }
}

impl BuildErrorView {
    /// The words that describe the error.
    pub open spec fn message_text(self) -> Seq<char> {
        match self {
            BuildErrorView::Missing(field) => "Has no '"@ + field.text() + "'"@,
            BuildErrorView::IsList(field) => "'"@ + field.text() + "' is a list"@,
            BuildErrorView::NotList(field) => "'"@ + field.text() + "' is not a list"@,
            BuildErrorView::BadValue(field, failure) => "Cannot read '"@ + field.text() + "': "@
                + failure.message_text(),
            BuildErrorView::EmptyList(field) => "'"@ + field.text() + "' is an empty list"@,
            BuildErrorView::UnknownWeekday(code) => "Unknown weekday '"@ + code + "'"@,
        }
    }
}

impl BuildError {
    /// Describes the error in words, which name the field or the code that is
    /// at fault.
    pub fn message(&self) -> (r: String)
        ensures
            r@ == self@.message_text(),
    {
        match self {
            BuildError::Missing(field) => {
                let mut out = String::from_str("Has no '");
                out.append(field.name());
                out.append("'");
                out
            },
            BuildError::IsList(field) => {
                let mut out = String::from_str("'");
                out.append(field.name());
                out.append("' is a list");
                out
            },
            BuildError::NotList(field) => {
                let mut out = String::from_str("'");
                out.append(field.name());
                out.append("' is not a list");
                out
            },
            BuildError::BadValue(field, failure) => {
                let mut out = String::from_str("Cannot read '");
                out.append(field.name());
                out.append("': ");
                out.append(failure.message());
                out
            },
            BuildError::EmptyList(field) => {
                let mut out = String::from_str("'");
                out.append(field.name());
                out.append("' is an empty list");
                out
            },
            BuildError::UnknownWeekday(code) => {
                let mut out = String::from_str("Unknown weekday '");
                out.append(code.as_str());
                out.append("'");
                out
            },
        }
    }
}

/// What can go wrong with one document.
#[derive(PartialEq, Eq, Debug)]
pub enum CalError {
    /// The header does not have the shape of one.
    Header(HeaderError),
    /// No event can be built from the header.
    Build(BuildError),
}

/// A [`CalError`] by the values it holds.
pub enum CalErrorView {
    Header(HeaderError),
    Build(BuildErrorView),
}

impl View for CalError {
    type V = CalErrorView;

    open spec fn view(&self) -> CalErrorView {
        match *self {
            CalError::Header(e) => CalErrorView::Header(e),
            CalError::Build(e) => CalErrorView::Build(e@),
        }
    }
}

impl CalErrorView {
    /// The words that describe the error.
    pub open spec fn message_text(self) -> Seq<char> {
        match self {
            CalErrorView::Header(e) => "CalError("@ + e.message_text() + ")"@,
            CalErrorView::Build(e) => "CalError("@ + e.message_text() + ")"@,
        }
    }
}

impl CalError {
    /// Describes the error in words.
    pub fn message(&self) -> (r: String)
        ensures
            r@ == self@.message_text(),
    {
        let mut out = String::from_str("CalError(");
        match self {
            CalError::Header(e) => {
                let inner = e.message();
                out.append(inner.as_str());
            },
            CalError::Build(e) => {
                let inner = e.message();
                out.append(inner.as_str());
            },
        }
        out.append(")");
        out
    }
}

} // verus!
