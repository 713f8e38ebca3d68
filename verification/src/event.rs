//! Events, how one is built from the fields of a header, and when one is
//! active.

use crate::clock::{Date, Moment, ParseFailure, TimeOfDay, Weekday};
use crate::error::{
    lemma_field_texts_differ, BuildError, BuildErrorView, CalError, CalErrorView, Field,
};
use crate::header::{
    header_of, list_of, parse_header, scalar_of, views_of, FieldMapping, HeaderValueView,
};
use vstd::prelude::*;

verus! {

/// A calendar event.
#[derive(Debug, PartialEq, Eq)]
pub enum Event {
    /// Takes place once, on one day.
    Once { title: String, begin: TimeOfDay, end: TimeOfDay, day: Date },
    /// Takes place on the given days of each week, of which there is one at
    /// the least, from `begin_recur` up to and including `end_recur`, or
    /// without end.
    Recurring {
        title: String,
        begin: TimeOfDay,
        end: TimeOfDay,
        begin_recur: Date,
        end_recur: Option<Date>,
        recur_days: Vec<Weekday>,
    },
    /// Lasts whole days, from `begin_date` up to, not including, `end_date`.
    AllDay { title: String, begin_date: Date, end_date: Date },
}

/// An [`Event`] by the values it holds.
pub enum EventView {
    Once { title: Seq<char>, begin: TimeOfDay, end: TimeOfDay, day: Date },
    Recurring {
        title: Seq<char>,
        begin: TimeOfDay,
        end: TimeOfDay,
        begin_recur: Date,
        end_recur: Option<Date>,
        recur_days: Seq<Weekday>,
    },
    AllDay { title: Seq<char>, begin_date: Date, end_date: Date },
}

impl View for Event {
    type V = EventView;

    open spec fn view(&self) -> EventView {
        match *self {
            Event::Once { title, begin, end, day } => EventView::Once {
                title: title@,
                begin,
                end,
                day,
            },
            Event::Recurring { title, begin, end, begin_recur, end_recur, recur_days } => {
                EventView::Recurring {
                    title: title@,
                    begin,
                    end,
                    begin_recur,
                    end_recur,
                    recur_days: recur_days@,
                }
            },
            Event::AllDay { title, begin_date, end_date } => EventView::AllDay {
                title: title@,
                begin_date,
                end_date,
            },
        }
    }
}

impl EventView {
    /// The title of the event.
    pub open spec fn title(self) -> Seq<char> {
        match self {
            EventView::Once { title, .. } => title,
            EventView::Recurring { title, .. } => title,
            EventView::AllDay { title, .. } => title,
        }
    }

    /// Whether the event holds what an event is to hold: its begin and its
    /// end are times of day, and a recurring event has a day of the week on
    /// which it takes place.
    pub open spec fn well_formed(self) -> bool {
        match self {
            EventView::Once { begin, end, .. } => begin.is_time() && end.is_time(),
            EventView::Recurring { begin, end, recur_days, .. } => {
                &&& begin.is_time()
                &&& end.is_time()
                &&& recur_days.len() > 0
            },
            EventView::AllDay { .. } => true,
        }
    }

    /// Whether the event belongs on the agenda at the moment `now`.
    ///
    /// An event that takes place once is active on its day until its end has
    /// passed. A recurring one is active on its days of the week, within the
    /// dates between which it recurs, until its end has passed. One that lasts
    /// whole days is active from its first day up to, not including, its end
    /// date.
    pub open spec fn active_at(self, now: Moment) -> bool {
        match self {
            EventView::Once { end, day, .. } => day == now.date && now.time.le(end),
            EventView::Recurring { end, begin_recur, end_recur, recur_days, .. } => {
                &&& recur_days.contains(now.date.weekday_spec())
                &&& begin_recur.days <= now.date.days
                &&& (end_recur matches Some(last) ==> now.date.days <= last.days)
                &&& now.time.le(end)
            },
            EventView::AllDay { begin_date, end_date, .. } => begin_date.days <= now.date.days
                < end_date.days,
        }
    }
}

/// Tests whether `days` holds `day`.
fn holds_day(days: &Vec<Weekday>, day: Weekday) -> (r: bool)
    ensures
        r == days@.contains(day),
{
    let mut i: usize = 0;
    while i < days.len()
        invariant
            i <= days.len(),
            forall|k: int| 0 <= k < i ==> days@[k] != day,
        decreases days.len() - i,
    {
        if days[i].same(day) {
            return true;
        }
        i += 1;
    }
    false
}

impl Event {
    /// The title of the event.
    pub fn title(&self) -> (r: &str)
        ensures
            r@ == self@.title(),
    {
        match self {
            Event::Once { title, .. } => title.as_str(),
            Event::Recurring { title, .. } => title.as_str(),
            Event::AllDay { title, .. } => title.as_str(),
        }
    }

    /// Tells whether the event belongs on the agenda at the moment `now`.
    pub fn is_active(&self, now: &Moment) -> (r: bool)
        ensures
            r == self@.active_at(*now),
    {
        match self {
            Event::Once { end, day, .. } => day.days == now.date.days && now.time.not_after(*end),
            Event::Recurring { end, begin_recur, end_recur, recur_days, .. } => {
                let in_time: bool = match end_recur {
                    Some(last) => now.date.days <= last.days,
                    None => true,
                };
                holds_day(recur_days, now.date.weekday()) && begin_recur.days <= now.date.days
                    && in_time && now.time.not_after(*end)
            },
            Event::AllDay { begin_date, end_date, .. } => begin_date.days <= now.date.days
                && now.date.days < end_date.days,
        }
    }
}

/// An event that takes place once is active on its day and no other, at its
/// end and before it.
pub proof fn lemma_once_active(event: EventView, now: Moment)
    requires
        event is Once,
    ensures
        event.active_at(now) <==> (now.date == event->day && now.time.le(event->Once_end)),
{
}

/// A recurring event is not active on a day of the week that is not one of
/// its days, whatever its other fields hold.
pub proof fn lemma_recurring_off_day(event: EventView, now: Moment)
    requires
        event is Recurring,
        !event->recur_days.contains(now.date.weekday_spec()),
    ensures
        !event.active_at(now),
{
}

/// An event that lasts whole days is not active on its end date, and on its
/// first day it is active where that day is before the end date.
pub proof fn lemma_all_day_half_open(event: EventView, now: Moment)
    requires
        event is AllDay,
    ensures
        now.date == event->end_date ==> !event.active_at(now),
        now.date == event->begin_date ==> (event.active_at(now) <==> event->begin_date.days
            < event->end_date.days),
{
}

/// The variant of event that a header asks for.
#[derive(Clone, Copy, PartialEq, Eq, Debug)]
pub enum Kind {
    AllDay,
    Once,
    Recurring,
}

/// The variant that the fields ask for. The first rule that applies decides:
/// with `allDay` set to `true`, an event that lasts whole days; without a
/// `type`, or with the `type` `single`, one that takes place once; else a
/// recurring one.
pub open spec fn kind_of(fields: Map<Seq<char>, HeaderValueView>) -> Kind {
    if scalar_of(fields, Field::AllDay) matches Ok(text) && text == "true"@ {
        Kind::AllDay
    } else if scalar_of(fields, Field::Type) matches Ok(text) && text != "single"@ {
        Kind::Recurring
    } else {
        Kind::Once
    }
}

/// What the reading of the text under `field` comes to: the value that was
/// read, or the failure under the name of the field.
pub open spec fn value_of<T>(field: Field, reading: Result<T, ParseFailure>) -> Result<
    T,
    BuildErrorView,
> {
    match reading {
        Ok(value) => Ok(value),
        Err(failure) => Err(BuildErrorView::BadValue(field, failure)),
    }
}

/// The date under `field`.
pub open spec fn date_of(fields: Map<Seq<char>, HeaderValueView>, field: Field) -> Result<
    Date,
    BuildErrorView,
> {
    match scalar_of(fields, field) {
        Err(e) => Err(e),
        Ok(text) => value_of(field, Date::reading(text)),
    }
}

/// The time of day under `field`.
pub open spec fn time_of(fields: Map<Seq<char>, HeaderValueView>, field: Field) -> Result<
    TimeOfDay,
    BuildErrorView,
> {
    match scalar_of(fields, field) {
        Err(e) => Err(e),
        Ok(text) => value_of(field, TimeOfDay::reading(text)),
    }
}

/// The end date of an event that lasts whole days: the date under `endDate`
/// where that field holds a single text, else the date under `date`.
pub open spec fn end_date_of(fields: Map<Seq<char>, HeaderValueView>) -> Result<
    Date,
    BuildErrorView,
> {
    if scalar_of(fields, Field::EndDate) is Ok {
        date_of(fields, Field::EndDate)
    } else {
        date_of(fields, Field::Date)
    }
}

/// The last date of a recurring event: none where `endRecur` holds no single
/// text, or holds the two characters `""`; else the date under it.
pub open spec fn end_recur_of(fields: Map<Seq<char>, HeaderValueView>) -> Result<
    Option<Date>,
    BuildErrorView,
> {
    match scalar_of(fields, Field::EndRecur) {
        Err(_) => Ok(None),
        Ok(text) => if text == "\"\""@ {
            Ok(None)
        } else {
            match value_of(Field::EndRecur, Date::reading(text)) {
                Err(e) => Err(e),
                Ok(date) => Ok(Some(date)),
            }
        },
    }
}

/// The weekdays that the codes in `items` stand for, in their order; the
/// first item that is no code is the error.
pub open spec fn weekdays_of(items: Seq<Seq<char>>) -> Result<Seq<Weekday>, BuildErrorView>
    decreases items.len(),
{
    if items.len() == 0 {
        Ok(Seq::empty())
    } else {
        match weekdays_of(items.drop_last()) {
            Err(e) => Err(e),
            Ok(days) => match Weekday::of_code(items.last()) {
                None => Err(BuildErrorView::UnknownWeekday(items.last())),
                Some(day) => Ok(days.push(day)),
            },
        }
    }
}

/// The days of the week under `daysOfWeek`: the list must hold an item, and
/// each item must be a weekday code.
pub open spec fn recur_days_of(fields: Map<Seq<char>, HeaderValueView>) -> Result<
    Seq<Weekday>,
    BuildErrorView,
> {
    match list_of(fields, Field::DaysOfWeek) {
        Err(e) => Err(e),
        Ok(items) => if items.len() == 0 {
            Err(BuildErrorView::EmptyList(Field::DaysOfWeek))
        } else {
            weekdays_of(items)
        },
    }
}

/// The event that lasts whole days and is built from `fields`. The fields
/// are read in the order `title`, `date`, `endDate`, and the first that fails
/// is the error.
pub open spec fn all_day_of(fields: Map<Seq<char>, HeaderValueView>) -> Result<
    EventView,
    BuildErrorView,
> {
    match scalar_of(fields, Field::Title) {
        Err(e) => Err(e),
        Ok(title) => match date_of(fields, Field::Date) {
            Err(e) => Err(e),
            Ok(begin_date) => match end_date_of(fields) {
                Err(e) => Err(e),
                Ok(end_date) => Ok(EventView::AllDay { title, begin_date, end_date }),
            },
        },
    }
}

/// The event that takes place once and is built from `fields`. The fields
/// are read in the order `title`, `startTime`, `endTime`, `date`, and the
/// first that fails is the error.
pub open spec fn once_of(fields: Map<Seq<char>, HeaderValueView>) -> Result<
    EventView,
    BuildErrorView,
> {
    match scalar_of(fields, Field::Title) {
        Err(e) => Err(e),
        Ok(title) => match time_of(fields, Field::StartTime) {
            Err(e) => Err(e),
            Ok(begin) => match time_of(fields, Field::EndTime) {
                Err(e) => Err(e),
                Ok(end) => match date_of(fields, Field::Date) {
                    Err(e) => Err(e),
                    Ok(day) => Ok(EventView::Once { title, begin, end, day }),
                },
            },
        },
    }
}

/// The recurring event that is built from `fields`. The fields are read in
/// the order `title`, `startTime`, `endTime`, `startRecur`, `endRecur`,
/// `daysOfWeek`, and the first that fails is the error.
pub open spec fn recurring_of(fields: Map<Seq<char>, HeaderValueView>) -> Result<
    EventView,
    BuildErrorView,
> {
    match scalar_of(fields, Field::Title) {
        Err(e) => Err(e),
        Ok(title) => match time_of(fields, Field::StartTime) {
            Err(e) => Err(e),
            Ok(begin) => match time_of(fields, Field::EndTime) {
                Err(e) => Err(e),
                Ok(end) => match date_of(fields, Field::StartRecur) {
                    Err(e) => Err(e),
                    Ok(begin_recur) => match end_recur_of(fields) {
                        Err(e) => Err(e),
                        Ok(end_recur) => match recur_days_of(fields) {
                            Err(e) => Err(e),
                            Ok(recur_days) => Ok(
                                EventView::Recurring {
                                    title,
                                    begin,
                                    end,
                                    begin_recur,
                                    end_recur,
                                    recur_days,
                                },
                            ),
                        },
                    },
                },
            },
        },
    }
}

/// The event that is built from `fields`.
pub open spec fn event_of(fields: Map<Seq<char>, HeaderValueView>) -> Result<
    EventView,
    BuildErrorView,
> {
    match kind_of(fields) {
        Kind::AllDay => all_day_of(fields),
        Kind::Once => once_of(fields),
        Kind::Recurring => recurring_of(fields),
    }
}

/// The event that the document `text` describes.
pub open spec fn document_event(text: Seq<char>) -> Result<EventView, CalErrorView> {
    match header_of(text) {
        Err(e) => Err(CalErrorView::Header(e)),
        Ok(fields) => match event_of(fields) {
            Err(e) => Err(CalErrorView::Build(e)),
            Ok(event) => Ok(event),
        },
    }
}

/// Says what the reading of the text under `field` comes to: the value that
/// was read, or the failure under the name of the field.
pub fn field_value<T>(field: Field, reading: Result<T, ParseFailure>) -> (r: Result<T, BuildError>)
    ensures
        value_of(field, reading) == match r {
            Ok(value) => Ok(value),
            Err(e) => Err(e@),
        },
{
    match reading {
        Ok(value) => Ok(value),
        Err(failure) => Err(BuildError::BadValue(field, failure)),
    }
}

/// Tells which variant of event the fields ask for.
pub fn select_kind(fields: &FieldMapping) -> (r: Kind)
    ensures
        r == kind_of(fields@),
{
    let all_day: bool = match fields.scalar(Field::AllDay) {
        Ok(text) => text.eq("true"),
        Err(_) => false,
    };
    if all_day {
        return Kind::AllDay;
    }
    let recurring: bool = match fields.scalar(Field::Type) {
        Ok(text) => !text.eq("single"),
        Err(_) => false,
    };
    if recurring {
        Kind::Recurring
    } else {
        Kind::Once
    }
}

/// Reads the date under `field`.
fn read_date_field(fields: &FieldMapping, field: Field) -> (r: Result<Date, BuildError>)
    ensures
        date_of(fields@, field) == match r {
            Ok(date) => Ok(date),
            Err(e) => Err(e@),
        },
{
    match fields.scalar(field) {
        Err(e) => Err(e),
        Ok(text) => field_value(field, Date::parse(text)),
    }
}

/// Reads the time of day under `field`.
fn read_time_field(fields: &FieldMapping, field: Field) -> (r: Result<TimeOfDay, BuildError>)
    ensures
        time_of(fields@, field) == match r {
            Ok(time) => Ok(time),
            Err(e) => Err(e@),
        },
        r matches Ok(time) ==> time.is_time(),
{
    match fields.scalar(field) {
        Err(e) => Err(e),
        Ok(text) => field_value(field, TimeOfDay::parse(text)),
    }
}

/// Reads the days of the week under `daysOfWeek`.
fn read_recur_days(fields: &FieldMapping) -> (r: Result<Vec<Weekday>, BuildError>)
    ensures
        recur_days_of(fields@) == match r {
            Ok(days) => Ok(days@),
            Err(e) => Err(e@),
        },
        r matches Ok(days) ==> days.len() > 0,
{
    match fields.list(Field::DaysOfWeek) {
        Err(e) => Err(e),
        Ok(items) => {
            if items.len() == 0 {
                Err(BuildError::EmptyList(Field::DaysOfWeek))
            } else {
                proof {
                    lemma_weekdays(views_of(items@));
                }
                read_weekdays(items)
            }
        },
    }
}

/// Reads the weekdays that the codes in `items` stand for.
pub fn read_weekdays(items: &Vec<&str>) -> (r: Result<Vec<Weekday>, BuildError>)
    ensures
        weekdays_of(views_of(items@)) == match r {
            Ok(days) => Ok(days@),
            Err(e) => Err(e@),
        },
{
    let ghost codes = views_of(items@);
    let mut days: Vec<Weekday> = Vec::new();
    let mut i: usize = 0;
    while i < items.len()
        invariant
            i <= items.len(),
            codes == views_of(items@),
            weekdays_of(codes.take(i as int)) matches Ok(read) && read == days@,
        decreases items.len() - i,
    {
        proof {
            assert(codes.take(i + 1).drop_last() == codes.take(i as int));
            assert(codes.take(i + 1).last() == items@[i as int]@);
        }
        match Weekday::from_code(items[i]) {
            None => {
                proof {
                    lemma_weekdays_fail(codes, i + 1);
                }
                return Err(BuildError::UnknownWeekday(String::from_str(items[i])));
            },
            Some(day) => {
                days.push(day);
            },
        }
        i += 1;
    }
    proof {
        assert(codes.take(i as int) == codes);
    }
    Ok(days)
}

/// Where the codes up to the `n`th cannot be read, neither can all of them,
/// and the error is the same.
pub proof fn lemma_weekdays_fail(items: Seq<Seq<char>>, n: int)
    requires
        0 <= n <= items.len(),
        weekdays_of(items.take(n)) is Err,
    ensures
        weekdays_of(items) == weekdays_of(items.take(n)),
    decreases items.len() - n,
{
    if n < items.len() {
        assert(items.take(n + 1).drop_last() == items.take(n));
        lemma_weekdays_fail(items, n + 1);
    } else {
        assert(items.take(n) == items);
    }
}

/// Builds the event that lasts whole days.
fn build_all_day(fields: &FieldMapping) -> (r: Result<Event, BuildError>)
    ensures
        all_day_of(fields@) == match r {
            Ok(event) => Ok(event@),
            Err(e) => Err(e@),
        },
{
    let title = match fields.scalar(Field::Title) {
        Err(e) => {
            return Err(e);
        },
        Ok(text) => text,
    };
    let begin_date = match read_date_field(fields, Field::Date) {
        Err(e) => {
            return Err(e);
        },
        Ok(date) => date,
    };
    let end = match fields.scalar(Field::EndDate) {
        Ok(_) => read_date_field(fields, Field::EndDate),
        Err(_) => read_date_field(fields, Field::Date),
    };
    match end {
        Err(e) => Err(e),
        Ok(end_date) => Ok(Event::AllDay { title: String::from_str(title), begin_date, end_date }),
    }
}

/// Builds the event that takes place once.
fn build_once(fields: &FieldMapping) -> (r: Result<Event, BuildError>)
    ensures
        once_of(fields@) == match r {
            Ok(event) => Ok(event@),
            Err(e) => Err(e@),
        },
        r matches Ok(event) ==> event@.well_formed(),
{
    let title = match fields.scalar(Field::Title) {
        Err(e) => {
            return Err(e);
        },
        Ok(text) => text,
    };
    let begin = match read_time_field(fields, Field::StartTime) {
        Err(e) => {
            return Err(e);
        },
        Ok(time) => time,
    };
    let end = match read_time_field(fields, Field::EndTime) {
        Err(e) => {
            return Err(e);
        },
        Ok(time) => time,
    };
    match read_date_field(fields, Field::Date) {
        Err(e) => Err(e),
        Ok(day) => Ok(Event::Once { title: String::from_str(title), begin, end, day }),
    }
}

/// Reads the last date of a recurring event.
fn read_end_recur(fields: &FieldMapping) -> (r: Result<Option<Date>, BuildError>)
    ensures
        end_recur_of(fields@) == match r {
            Ok(last) => Ok(last),
            Err(e) => Err(e@),
        },
{
    match fields.scalar(Field::EndRecur) {
        Err(_) => Ok(None),
        Ok(text) => {
            if text.eq("\"\"") {
                Ok(None)
            } else {
                match field_value(Field::EndRecur, Date::parse(text)) {
                    Err(e) => Err(e),
                    Ok(date) => Ok(Some(date)),
                }
            }
        },
    }
}

/// Builds the recurring event.
fn build_recurring(fields: &FieldMapping) -> (r: Result<Event, BuildError>)
    ensures
        recurring_of(fields@) == match r {
            Ok(event) => Ok(event@),
            Err(e) => Err(e@),
        },
        r matches Ok(event) ==> event@.well_formed(),
{
    let title = match fields.scalar(Field::Title) {
        Err(e) => {
            return Err(e);
        },
        Ok(text) => text,
    };
    let begin = match read_time_field(fields, Field::StartTime) {
        Err(e) => {
            return Err(e);
        },
        Ok(time) => time,
    };
    let end = match read_time_field(fields, Field::EndTime) {
        Err(e) => {
            return Err(e);
        },
        Ok(time) => time,
    };
    let begin_recur = match read_date_field(fields, Field::StartRecur) {
        Err(e) => {
            return Err(e);
        },
        Ok(date) => date,
    };
    let end_recur = match read_end_recur(fields) {
        Err(e) => {
            return Err(e);
        },
        Ok(last) => last,
    };
    match read_recur_days(fields) {
        Err(e) => Err(e),
        Ok(recur_days) => Ok(
            Event::Recurring {
                title: String::from_str(title),
                begin,
                end,
                begin_recur,
                end_recur,
                recur_days,
            },
        ),
    }
}

/// Builds the event that the fields of a header describe.
///
/// The variant is the one that [`kind_of`] names. Each field that the
/// variant needs must be there in its shape, a single text or a list, each
/// date, time of day and weekday code must be readable, and a recurring event
/// must have a weekday. The error names the first field that fails. The
/// event that is built is well formed.
pub fn build_event(fields: &FieldMapping) -> (r: Result<Event, BuildError>)
    ensures
        event_of(fields@) == match r {
            Ok(event) => Ok(event@),
            Err(e) => Err(e@),
        },
        r matches Ok(event) ==> event@.well_formed(),
{
    match select_kind(fields) {
        Kind::AllDay => build_all_day(fields),
        Kind::Once => build_once(fields),
        Kind::Recurring => build_recurring(fields),
    }
}

/// Reads the event that a document describes.
pub fn parse_cal_file(contents: &str) -> (r: Result<Event, CalError>)
    ensures
        document_event(contents@) == match r {
            Ok(event) => Ok(event@),
            Err(e) => Err(e@),
        },
        r matches Ok(event) ==> event@.well_formed(),
{
    match parse_header(contents) {
        Err(e) => Err(CalError::Header(e)),
        Ok(fields) => match build_event(&fields) {
            Err(e) => Err(CalError::Build(e)),
            Ok(event) => Ok(event),
        },
    }
}

/// Whether the document `text` describes `event`.
pub open spec fn yields(text: Seq<char>, event: EventView) -> bool {
    document_event(text) == Ok::<EventView, CalErrorView>(event)
}

/// Whether the document `text` describes no event, for the reason `error`.
pub open spec fn fails_with(text: Seq<char>, error: CalErrorView) -> bool {
    document_event(text) == Err::<EventView, CalErrorView>(error)
}

/// A document that yields no event: its place among the documents, counted
/// from 0, and what is wrong with it.
#[derive(Debug, PartialEq, Eq)]
pub struct DocumentError {
    pub document: usize,
    pub error: CalError,
}

/// Reads the events of all `documents`, in their order, or none: the first
/// document that yields no event is the error.
pub fn parse_events(documents: &Vec<String>) -> (r: Result<Vec<Event>, DocumentError>)
    ensures
        match r {
            Ok(events) => {
                &&& events.len() == documents.len()
                &&& forall|i: int|
                    0 <= i < documents.len() ==> yields(#[trigger] documents[i]@, events[i]@)
                &&& forall|i: int| 0 <= i < events.len() ==> (#[trigger] events[i])@.well_formed()
            },
            Err(failure) => {
                &&& failure.document < documents.len()
                &&& fails_with(documents[failure.document as int]@, failure.error@)
                &&& forall|i: int|
                    0 <= i < failure.document ==> document_event(#[trigger] documents[i]@) is Ok
            },
        },
{
    let mut events: Vec<Event> = Vec::new();
    let mut i: usize = 0;
    while i < documents.len()
        invariant
            i <= documents.len(),
            events.len() == i,
            forall|k: int| 0 <= k < i ==> yields(#[trigger] documents[k]@, events[k]@),
            forall|k: int| 0 <= k < i ==> (#[trigger] events[k])@.well_formed(),
        decreases documents.len() - i,
    {
        match parse_cal_file(documents[i].as_str()) {
            Err(error) => {
                return Err(DocumentError { document: i, error });
            },
            Ok(event) => {
                events.push(event);
            },
        }
        i += 1;
    }
    Ok(events)
}

/// The weekdays of a list of codes are the days that the codes stand for, one
/// for each and in their order; where an item is no code, the first such
/// item is the error.
pub proof fn lemma_weekdays(items: Seq<Seq<char>>)
    ensures
        match weekdays_of(items) {
            Ok(days) => {
                &&& days.len() == items.len()
                &&& forall|i: int|
                    0 <= i < items.len() ==> Weekday::of_code(#[trigger] items[i]) == Some(days[i])
            },
            Err(e) => exists|i: int|
                {
                    &&& 0 <= i < items.len()
                    &&& Weekday::of_code(#[trigger] items[i]) is None
                    &&& e == BuildErrorView::UnknownWeekday(items[i])
                    &&& forall|j: int| 0 <= j < i ==> Weekday::of_code(#[trigger] items[j]) is Some
                },
        },
    decreases items.len(),
{
    if items.len() > 0 {
        let front = items.drop_last();
        lemma_weekdays(front);
        match weekdays_of(front) {
            Ok(days) => {
                if Weekday::of_code(items.last()) is None {
                    let i = items.len() - 1;
                    assert forall|j: int| 0 <= j < i implies Weekday::of_code(
                        #[trigger] items[j],
                    ) is Some by {
                        assert(items[j] == front[j]);
                    }
                    assert(Weekday::of_code(items[i]) is None);
                } else {
                    let all = weekdays_of(items)->Ok_0;
                    assert forall|i: int| 0 <= i < items.len() implies Weekday::of_code(
                        #[trigger] items[i],
                    ) == Some(all[i]) by {
                        if i < front.len() {
                            assert(items[i] == front[i]);
                        }
                    }
                }
            },
            Err(e) => {
                let i = choose|i: int|
                    {
                        &&& 0 <= i < front.len()
                        &&& Weekday::of_code(#[trigger] front[i]) is None
                        &&& e == BuildErrorView::UnknownWeekday(front[i])
                        &&& forall|j: int|
                            0 <= j < i ==> Weekday::of_code(#[trigger] front[j]) is Some
                    };
                assert(items[i] == front[i]);
                assert forall|j: int| 0 <= j < i implies Weekday::of_code(
                    #[trigger] items[j],
                ) is Some by {
                    assert(items[j] == front[j]);
                }
            },
        }
    }
}

/// A recurring event that is built from fields has a day of the week, and
/// as many days as the list of weekdays has items.
pub proof fn lemma_recurring_has_days(fields: Map<Seq<char>, HeaderValueView>)
    ensures
        event_of(fields) matches Ok(EventView::Recurring { recur_days, .. }) ==> {
            &&& recur_days.len() > 0
            &&& list_of(fields, Field::DaysOfWeek) matches Ok(items) && items.len()
                == recur_days.len()
        },
{
    match list_of(fields, Field::DaysOfWeek) {
        Ok(items) => {
            lemma_weekdays(items);
        },
        Err(_) => {},
    }
}

/// A header whose `endRecur` is the two characters `""` yields what the same
/// header yields without an `endRecur`.
pub proof fn lemma_quoted_end_recur(fields: Map<Seq<char>, HeaderValueView>)
    ensures
        event_of(fields.insert(Field::EndRecur.text(), HeaderValueView::One("\"\""@)))
            == event_of(fields.remove(Field::EndRecur.text())),
{
    let key = Field::EndRecur.text();
    let with = fields.insert(key, HeaderValueView::One("\"\""@));
    let without = fields.remove(key);
    assert forall|field: Field| field != Field::EndRecur implies scalar_of(with, field)
        == scalar_of(without, field) && list_of(with, field) == list_of(without, field) by {
        lemma_field_texts_differ(field, Field::EndRecur);
    }
    assert(end_recur_of(with) == end_recur_of(without));
    assert(kind_of(with) == kind_of(without));
    assert(recur_days_of(with) == recur_days_of(without));
    assert(end_date_of(with) == end_date_of(without));
}

} // verus!
