//! The ways in which an analysis can end without a result.

use vstd::prelude::*;
use vstd::string::*;

verus! {

/// The terminal error of one analysis call.
#[derive(Clone, Debug, PartialEq, Eq)]
pub enum AnalysisError {
    /// The target is not an absolute `http` or `https` URL. Nothing was fetched.
    InvalidUrl,
    /// The request could not be completed: connection, DNS or timeout.
    NetworkError { reason: String },
    /// The server answered with a status outside 200..=299.
    HttpStatusError { status: u16 },
    /// The browser could not be launched, could not navigate, or a script
    /// failed, while dynamic rendering was enabled.
    RenderError { reason: String },
    /// A selector or pattern of the library was refused by its engine.
    InternalError,
}

/// The mathematical content of an `AnalysisError`.
pub enum AnalysisErrorView {
    InvalidUrl,
    NetworkError { reason: Seq<char> },
    HttpStatusError { status: u16 },
    RenderError { reason: Seq<char> },
    InternalError,
}

impl DeepView for AnalysisError {
    type V = AnalysisErrorView;

    open spec fn deep_view(&self) -> AnalysisErrorView {
        match self {
            AnalysisError::InvalidUrl => AnalysisErrorView::InvalidUrl,
            AnalysisError::NetworkError { reason } => AnalysisErrorView::NetworkError {
                reason: reason@,
            },
            AnalysisError::HttpStatusError { status } => AnalysisErrorView::HttpStatusError {
                status: *status,
            },
            AnalysisError::RenderError { reason } => AnalysisErrorView::RenderError {
                reason: reason@,
            },
            AnalysisError::InternalError => AnalysisErrorView::InternalError,
        }
    }
}

/// The decimal digit of a value below ten.
pub open spec fn digit_of(n: nat) -> char {
    if n == 0 {
        '0'
    } else if n == 1 {
        '1'
    } else if n == 2 {
        '2'
    } else if n == 3 {
        '3'
    } else if n == 4 {
        '4'
    } else if n == 5 {
        '5'
    } else if n == 6 {
        '6'
    } else if n == 7 {
        '7'
    } else if n == 8 {
        '8'
    } else {
        '9'
    }
}

/// The decimal form of a number, without leading zeros.
pub open spec fn decimal(n: nat) -> Seq<char>
    decreases n,
{
    if n < 10 {
        seq![digit_of(n)]
    } else {
        decimal(n / 10).push(digit_of(n % 10))
    }
}

/// What is said of an error.
pub open spec fn message_of(e: AnalysisErrorView) -> Seq<char> {
    match e {
        AnalysisErrorView::InvalidUrl => "Invalid URL format"@,
        AnalysisErrorView::NetworkError { reason } => "Network error: "@ + reason,
        AnalysisErrorView::HttpStatusError { status } => "HTTP error: "@ + decimal(status as nat),
        AnalysisErrorView::RenderError { reason } => "Render error: "@ + reason,
        AnalysisErrorView::InternalError => "Internal error"@,
    }
}

/// The decimal digit of a value below ten.
pub fn decimal_digit(n: u16) -> (r: char)
    requires
        n < 10,
    ensures
        r == digit_of(n as nat),
{
    if n == 0 {
        '0'
    } else if n == 1 {
        '1'
    } else if n == 2 {
        '2'
    } else if n == 3 {
        '3'
    } else if n == 4 {
        '4'
    } else if n == 5 {
        '5'
    } else if n == 6 {
        '6'
    } else if n == 7 {
        '7'
    } else if n == 8 {
        '8'
    } else {
        '9'
    }
}

/// Appends the decimal form of `n` to `out`.
pub fn push_decimal(out: &mut String, n: u16)
    ensures
        final(out)@ == old(out)@ + decimal(n as nat),
    decreases n,
{
    if n < 10 {
        out.push(decimal_digit(n));
        proof {
            assert(old(out)@.push(digit_of(n as nat)) =~= old(out)@ + decimal(n as nat));
        }
    } else {
        push_decimal(out, n / 10);
        out.push(decimal_digit(n % 10));
        proof {
            assert((old(out)@ + decimal((n / 10) as nat)).push(digit_of((n % 10) as nat))
                =~= old(out)@ + decimal(n as nat));
        }
    }
}

impl AnalysisError {
    /// What is said of the error.
    pub fn message(&self) -> (r: String)
        ensures
            r@ == message_of(self.deep_view()),
    {
        match self {
            AnalysisError::InvalidUrl => "Invalid URL format".to_owned(),
            AnalysisError::NetworkError { reason } => {
                let mut r = "Network error: ".to_owned();
                r.append(reason.as_str());
                r
            },
            AnalysisError::HttpStatusError { status } => {
                let mut r = "HTTP error: ".to_owned();
                push_decimal(&mut r, *status);
                r
            },
            AnalysisError::RenderError { reason } => {
                let mut r = "Render error: ".to_owned();
                r.append(reason.as_str());
                r
            },
            AnalysisError::InternalError => "Internal error".to_owned(),
        }
    }
}

} // verus!
