use vstd::prelude::*;

verus! {

/// Every way in which decoding a schedule can fail.
#[derive(Clone, Copy, Debug, PartialEq, Eq, Structural)]
pub enum ScheduleError {
    /// No line of the schedule starts with the address key.
    NotFound,
    /// The matched line has no second comma-separated field.
    MalformedLine,
    /// The coded run, or a token, is not made of whole five-character groups.
    MalformedLength,
    /// A date code holds a character outside the base-36 alphabet.
    InvalidRadixDigit,
    /// A date code's value does not have exactly six decimal digits.
    InvalidDateEncoding,
    /// A date code names a day that the calendar does not have.
    InvalidCalendarDate,
}

impl ScheduleError {
    /// A sentence describing the error, for a notification.
    pub fn description(&self) -> (r: String)
        ensures
            r@ == self.description_spec(),
    {
        match self {
            ScheduleError::NotFound => String::from_str("No result found for specified property"),
            ScheduleError::MalformedLine => String::from_str("Failed to split on ','"),
            ScheduleError::MalformedLength => String::from_str("Coded String length not a multiple of 5"),
            ScheduleError::InvalidRadixDigit => String::from_str("Date code is not a base-36 number"),
            ScheduleError::InvalidDateEncoding => String::from_str("Date code does not decode to six digits"),
            ScheduleError::InvalidCalendarDate => String::from_str("Date conversion failure"),
        }
    }

    pub open spec fn description_spec(&self) -> Seq<char> {
        match self {
            ScheduleError::NotFound => "No result found for specified property"@,
            ScheduleError::MalformedLine => "Failed to split on ','"@,
            ScheduleError::MalformedLength => "Coded String length not a multiple of 5"@,
            ScheduleError::InvalidRadixDigit => "Date code is not a base-36 number"@,
            ScheduleError::InvalidDateEncoding => "Date code does not decode to six digits"@,
            ScheduleError::InvalidCalendarDate => "Date conversion failure"@,
        }
    }
}

} // verus!
