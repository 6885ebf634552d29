use vstd::prelude::*;

verus! {

/// Which part of a configuration token is missing or out of range.
#[derive(Clone, Copy, Debug, PartialEq, Eq, Structural)]
pub enum TokenFault {
    /// No block letter (`s`, `p`, `d`, `f`, or any other letter) in the token.
    MissingBlockLetter,
    /// No digit before the block letter.
    MissingShell,
    /// The shell digit is `0` or `9`; shells are numbered 1 to 8.
    ShellOutOfRange,
    /// No digit after the block letter.
    MissingCount,
}

/// Errors raised while parsing configurations and normalizing records.
#[derive(Debug)]
pub enum ElementError {
    /// A configuration token lacks its shell digit, block letter or count.
    MalformedToken { token: String, reason: TokenFault },
    /// The block letter of a token is not one of `s`, `p`, `d`, `f`.
    InvalidBlockLetter { token: String, letter: char },
    /// A count or a list is larger than the slot it must fit in.
    CapacityExceeded { context: String, limit: usize, actual: usize },
    /// A field of a record could not be normalized.
    NormalizationFailed { field: String, cause: Box<ElementError> },
}

/// The mathematical content of an [`ElementError`]: its strings as sequences
/// of characters and its numbers as integers.
pub enum ErrorView {
    MalformedToken { token: Seq<char>, reason: TokenFault },
    InvalidBlockLetter { token: Seq<char>, letter: char },
    CapacityExceeded { context: Seq<char>, limit: nat, actual: nat },
    NormalizationFailed { field: Seq<char>, cause: Box<ErrorView> },
}

pub open spec fn error_view(e: ElementError) -> ErrorView
    decreases e,
{
    match e {
        ElementError::MalformedToken { token, reason } => ErrorView::MalformedToken {
            token: token@,
            reason,
        },
        ElementError::InvalidBlockLetter { token, letter } => ErrorView::InvalidBlockLetter {
            token: token@,
            letter,
        },
        ElementError::CapacityExceeded { context, limit, actual } => ErrorView::CapacityExceeded {
            context: context@,
            limit: limit as nat,
            actual: actual as nat,
        },
        ElementError::NormalizationFailed { field, cause } => ErrorView::NormalizationFailed {
            field: field@,
            cause: Box::new(error_view(*cause)),
        },
    }
}

impl View for ElementError {
    type V = ErrorView;

    open spec fn view(&self) -> ErrorView {
        error_view(*self)
    }
}

} // verus!
