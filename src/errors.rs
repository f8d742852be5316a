use vstd::prelude::*;

verus! {

/// Why a request to the service gave no usable data.
#[derive(Debug, Clone, PartialEq, Eq)]
pub enum RequestError {
    /// The request could not be sent or no reply came back.
    GetFailed,
    /// The reply had status 200 but its body is not JSON.
    NotJson,
    /// The reply is JSON, but not of the shape the query expects.
    InvalidReturn,
    /// The reply had a status other than 200: its reason phrase and code.
    BadResponse(String, u16),
}

/// Why a search found nothing.
#[derive(Debug, Clone, PartialEq, Eq)]
pub enum FindError {
    InvalidGroupName(String),
    InvalidLectureRoomName(String),
    InvalidTeacherName(String),
    /// The search term is not a valid regular expression.
    InvalidRegexString(String),
}

/// Why a date or a time could not be read.
#[derive(Debug, Clone, PartialEq, Eq)]
pub enum ParseError {
    InvalidStringProvided(String),
    InvalidTimestampProvided(String),
}

/// Why a schedule could not be read.
#[derive(Debug, Clone, PartialEq, Eq)]
pub enum ScheduleError {
    Request(RequestError),
    Parse(ParseError),
}

} // verus!
