//! The parser's failure taxonomy.

use vstd::prelude::*;
use vstd::string::*;

verus! {

/// Why a due-date phrase was rejected.
#[derive(Debug, Clone, PartialEq, Eq)]
pub enum ParseError {
    /// The input was empty or all whitespace.
    EmptyInput,
    /// No grammar shape matched the token sequence.
    UnrecognizedFormat,
    /// A weekday slot held no known weekday name.
    InvalidWeekday,
    /// A time slot did not parse as a clock time.
    InvalidTimeFormat,
    /// A date slot did not parse as a full calendar date.
    InvalidDateFormat,
    /// A lone token parsed neither as a date nor as a time.
    InvalidDateOrTime,
    /// A duration amount was negative, not a number, or out of range.
    InvalidDuration,
    /// A duration unit outside the supported vocabulary, carried verbatim.
    UnsupportedUnit(String),
    /// The phrase normalized to an instant before the reference instant.
    PastDueDate,
    /// Normalization produced a string the past-date guard cannot read back.
    MalformedCandidate,
}

/// Mathematical image of a [`ParseError`], with the unit name as a
/// character sequence.
pub enum ErrView {
    EmptyInput,
    UnrecognizedFormat,
    InvalidWeekday,
    InvalidTimeFormat,
    InvalidDateFormat,
    InvalidDateOrTime,
    InvalidDuration,
    UnsupportedUnit(Seq<char>),
    PastDueDate,
    MalformedCandidate,
}

impl View for ParseError {
    type V = ErrView;

    open spec fn view(&self) -> ErrView {
        match self {
            ParseError::EmptyInput => ErrView::EmptyInput,
            ParseError::UnrecognizedFormat => ErrView::UnrecognizedFormat,
            ParseError::InvalidWeekday => ErrView::InvalidWeekday,
            ParseError::InvalidTimeFormat => ErrView::InvalidTimeFormat,
            ParseError::InvalidDateFormat => ErrView::InvalidDateFormat,
            ParseError::InvalidDateOrTime => ErrView::InvalidDateOrTime,
            ParseError::InvalidDuration => ErrView::InvalidDuration,
            ParseError::UnsupportedUnit(u) => ErrView::UnsupportedUnit(u@),
            ParseError::PastDueDate => ErrView::PastDueDate,
            ParseError::MalformedCandidate => ErrView::MalformedCandidate,
        }
    }
}

/// The human-readable message for each rejection.
pub open spec fn spec_message(e: ErrView) -> Seq<char> {
    match e {
        ErrView::EmptyInput => "Please enter a due date"@,
        ErrView::UnrecognizedFormat => "Unrecognized due date format"@,
        ErrView::InvalidWeekday => "Invalid weekday"@,
        ErrView::InvalidTimeFormat => "Invalid time format. Use HH:MM"@,
        ErrView::InvalidDateFormat => "Invalid date format. Use YYYY-MM-DD"@,
        ErrView::InvalidDateOrTime => "Invalid date or time format"@,
        ErrView::InvalidDuration => "Invalid duration"@,
        ErrView::UnsupportedUnit(u) => "Unsupported time unit '"@ + u + "'"@,
        ErrView::PastDueDate => "Due date cannot be in the past"@,
        ErrView::MalformedCandidate => "Failed to parse due date"@,
    }
}

impl ParseError {
    /// The message a caller surfaces to the user for this rejection.
    pub fn message(&self) -> (m: String)
        ensures
            m@ == spec_message(self@),
    {
        match self {
            ParseError::EmptyInput => String::from_str("Please enter a due date"),
            ParseError::UnrecognizedFormat => String::from_str("Unrecognized due date format"),
            ParseError::InvalidWeekday => String::from_str("Invalid weekday"),
            ParseError::InvalidTimeFormat => String::from_str("Invalid time format. Use HH:MM"),
            ParseError::InvalidDateFormat => String::from_str("Invalid date format. Use YYYY-MM-DD"),
            ParseError::InvalidDateOrTime => String::from_str("Invalid date or time format"),
            ParseError::InvalidDuration => String::from_str("Invalid duration"),
            ParseError::UnsupportedUnit(u) => {
                let mut m = String::from_str("Unsupported time unit '");
                m.append(u.as_str());
                m.append("'");
                m
            },
            ParseError::PastDueDate => String::from_str("Due date cannot be in the past"),
            ParseError::MalformedCandidate => String::from_str("Failed to parse due date"),
        }
    }
}

} // verus!
