//! What can go wrong at the boundary, and how it is worded for the host.

use vstd::prelude::*;
use vstd::string::*;

verus! {

/// Mathematical model of a boundary error.
pub enum ErrorModel {
    InvalidHandle(nat),
    BuildFailure(Seq<char>),
    HostConversion(Seq<char>),
}

/// An error that crosses the boundary as a host-visible runtime error.
#[derive(Debug, PartialEq, Eq)]
pub enum BridgeError {
    /// The handle names no live instance. Carries the offending handle.
    InvalidHandle(usize),
    /// The build engine failed. Carries the engine's own words, unmodified.
    BuildFailure(String),
    /// The host could not construct a value. Carries the host's own words.
    HostConversion(String),
}

impl View for BridgeError {
    type V = ErrorModel;

    open spec fn view(&self) -> ErrorModel {
        match self {
            BridgeError::InvalidHandle(handle) => ErrorModel::InvalidHandle(*handle as nat),
            BridgeError::BuildFailure(text) => ErrorModel::BuildFailure(text@),
            BridgeError::HostConversion(text) => ErrorModel::HostConversion(text@),
        }
    }
}

/// The character that writes one decimal digit.
pub open spec fn digit_char(digit: nat) -> char
    recommends
        digit < 10,
{
    if digit == 0 {
        '0'
    } else if digit == 1 {
        '1'
    } else if digit == 2 {
        '2'
    } else if digit == 3 {
        '3'
    } else if digit == 4 {
        '4'
    } else if digit == 5 {
        '5'
    } else if digit == 6 {
        '6'
    } else if digit == 7 {
        '7'
    } else if digit == 8 {
        '8'
    } else {
        '9'
    }
}

/// The decimal numeral of `n`: most significant digit first, no leading
/// zero, `0` written as a single digit.
pub open spec fn decimal(n: nat) -> Seq<char>
    decreases n,
{
    if n < 10 {
        seq![digit_char(n)]
    } else {
        decimal(n / 10).push(digit_char(n % 10))
    }
}

/// The words that open the message of an invalid handle.
pub open spec fn invalid_handle_prefix() -> Seq<char> {
    "Invalid builder handle: "@
}

impl ErrorModel {
    /// The text that the host is shown.
    pub open spec fn message(self) -> Seq<char> {
        match self {
            ErrorModel::InvalidHandle(handle) => invalid_handle_prefix() + decimal(handle),
            ErrorModel::BuildFailure(text) => text,
            ErrorModel::HostConversion(text) => text,
        }
    }
}

fn digit_text(digit: usize) -> (text: &'static str)
    requires
        digit < 10,
    ensures
        text@ == seq![digit_char(digit as nat)],
{
    proof {
        reveal_strlit("0");
        reveal_strlit("1");
        reveal_strlit("2");
        reveal_strlit("3");
        reveal_strlit("4");
        reveal_strlit("5");
        reveal_strlit("6");
        reveal_strlit("7");
        reveal_strlit("8");
        reveal_strlit("9");
    }
    let text = if digit == 0 {
        "0"
    } else if digit == 1 {
        "1"
    } else if digit == 2 {
        "2"
    } else if digit == 3 {
        "3"
    } else if digit == 4 {
        "4"
    } else if digit == 5 {
        "5"
    } else if digit == 6 {
        "6"
    } else if digit == 7 {
        "7"
    } else if digit == 8 {
        "8"
    } else {
        "9"
    };
    assert(text@ =~= seq![digit_char(digit as nat)]);
    text
}

/// Writes `n` as a decimal numeral.
pub fn decimal_text(n: usize) -> (text: String)
    ensures
        text@ == decimal(n as nat),
    decreases n,
{
    if n < 10 {
        String::from_str(digit_text(n))
    } else {
        let mut text = decimal_text(n / 10);
        text.append(digit_text(n % 10));
        assert(text@ =~= decimal(n as nat));
        text
    }
}

impl BridgeError {
    /// The text of the runtime error that the host is shown.
    pub fn message(&self) -> (text: String)
        ensures
            text@ == self@.message(),
    {
        match self {
            BridgeError::InvalidHandle(handle) => {
                let mut text = String::from_str("Invalid builder handle: ");
                let digits = decimal_text(*handle);
                text.append(digits.as_str());
                text
            },
            BridgeError::BuildFailure(text) => text.clone(),
            BridgeError::HostConversion(text) => text.clone(),
        }
    }
}

} // verus!
