use vstd::prelude::*;

verus! {

/// Declares `std::num::ParseIntError`, which is carried unopened inside
/// `CatalogueError::ParseInt`; only its `Display` text is ever read.
#[verifier::external_type_specification]
#[verifier::external_body]
pub struct ExParseIntError(std::num::ParseIntError);

/// The ways in which a catalogue operation can fail.
#[derive(Debug)]
pub enum CatalogueError {
    /// A pagination parameter is not a decimal integer that fits in `i32`.
    ParseInt(std::num::ParseIntError),
    /// A pagination parameter is a negative integer.
    NegativeParameter,
    /// The operation named an id that the store does not hold.
    QuestionNotFound,
    /// The backing store refused the write; the text is its own message.
    Persistence(String),
}

/// The prefix of the message for a pagination parameter that does not parse.
pub open spec fn parse_failure_prefix() -> Seq<char> {
    "Cannot parse parameter: "@
}

impl CatalogueError {
    /// True for the failures that concern the pagination parameters.
    pub open spec fn is_parameter_error(&self) -> bool {
        self is ParseInt || self is NegativeParameter
    }

    /// A human-readable description of the failure.
    pub fn message(&self) -> (r: String)
        ensures
            self is ParseInt ==> r@.len() >= parse_failure_prefix().len()
                && r@.subrange(0, parse_failure_prefix().len() as int) == parse_failure_prefix(),
            self is NegativeParameter ==> r@ == "Parameter must not be negative"@,
            self is QuestionNotFound ==> r@ == "Question not found"@,
            self matches CatalogueError::Persistence(m) ==> r@ == m@,
    {
        match self {
            CatalogueError::ParseInt(e) => {
                let mut s = String::from_str("Cannot parse parameter: ");
                let detail = e.to_string();
                s.append(detail.as_str());
                s
            },
            CatalogueError::NegativeParameter => String::from_str("Parameter must not be negative"),
            CatalogueError::QuestionNotFound => String::from_str("Question not found"),
            CatalogueError::Persistence(m) => m.clone(),
        }
    }
}

} // verus!
