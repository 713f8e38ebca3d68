use agenda::clock::ParseFailure;
use agenda::error::{BuildError, CalError, Field, HeaderError};
use agenda::event::parse_cal_file;

#[test]
fn field_names() {
    assert_eq!(Field::AllDay.name(), "allDay");
    assert_eq!(Field::Title.name(), "title");
    assert_eq!(Field::Date.name(), "date");
    assert_eq!(Field::EndDate.name(), "endDate");
    assert_eq!(Field::Type.name(), "type");
    assert_eq!(Field::StartTime.name(), "startTime");
    assert_eq!(Field::EndTime.name(), "endTime");
    assert_eq!(Field::StartRecur.name(), "startRecur");
    assert_eq!(Field::EndRecur.name(), "endRecur");
    assert_eq!(Field::DaysOfWeek.name(), "daysOfWeek");
}

#[test]
fn header_error_messages() {
    assert_eq!(HeaderError::NoColon.message(), "Cannot find : on header line");
    assert_eq!(HeaderError::NoOpeningBracket.message(), "Cannot find opening [ on list");
    assert_eq!(HeaderError::NoClosingBracket.message(), "Cannot find closing ] on list");
}

#[test]
fn build_error_messages() {
    assert_eq!(BuildError::Missing(Field::Title).message(), "Has no 'title'");
    assert_eq!(BuildError::IsList(Field::StartTime).message(), "'startTime' is a list");
    assert_eq!(BuildError::NotList(Field::DaysOfWeek).message(), "'daysOfWeek' is not a list");
    assert_eq!(BuildError::EmptyList(Field::DaysOfWeek).message(), "'daysOfWeek' is an empty list");
    assert_eq!(
        BuildError::UnknownWeekday("Mo".to_string()).message(),
        "Unknown weekday 'Mo'"
    );
    assert_eq!(BuildError::UnknownWeekday(String::new()).message(), "Unknown weekday ''");
    assert_eq!(
        BuildError::BadValue(Field::EndDate, ParseFailure::Invalid).message(),
        "Cannot read 'endDate': a character is out of place"
    );
}

#[test]
fn parse_failure_messages() {
    assert_eq!(ParseFailure::OutOfRange.message(), "a number is out of range");
    assert_eq!(ParseFailure::Impossible.message(), "there is no such date or time");
    assert_eq!(ParseFailure::NotEnough.message(), "a part is missing");
    assert_eq!(ParseFailure::Invalid.message(), "a character is out of place");
    assert_eq!(ParseFailure::TooShort.message(), "the text ends too early");
    assert_eq!(ParseFailure::TooLong.message(), "text is left over");
    assert_eq!(ParseFailure::BadFormat.message(), "the form is not supported");
    assert_eq!(ParseFailure::Unclassified.message(), "it cannot be read");
}

#[test]
fn cal_error_messages() {
    assert_eq!(
        CalError::Header(HeaderError::NoOpeningBracket).message(),
        "CalError(Cannot find opening [ on list)"
    );
    assert_eq!(
        CalError::Build(BuildError::Missing(Field::Date)).message(),
        "CalError(Has no 'date')"
    );
}

#[test]
fn message_of_a_failing_document() {
    let error = parse_cal_file("---\ntitle: T\nstartTime: 09:00\nendTime: 10:00\ndate: 2024-02-30\n---\n")
        .unwrap_err();
    assert_eq!(error.message(), "CalError(Cannot read 'date': a number is out of range)");
    let error = parse_cal_file("---\ntitle\n---\n").unwrap_err();
    assert_eq!(error.message(), "CalError(Cannot find : on header line)");
}
