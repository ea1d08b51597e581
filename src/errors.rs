//! The custom error of the error-handling example, and the HTTP status each
//! variant is answered with.
use vstd::prelude::*;

verus! {

/// One of four application errors.
#[derive(Debug, Clone, Copy, PartialEq, Eq, Structural)]
pub enum CustomError {
    CustomOne,
    CustomTwo,
    CustomThree,
    CustomFour,
}

impl CustomError {
    /// The error drawn for a random number: `0`, `1` and `2` pick the first
    /// three variants, anything else the fourth.
    pub fn from_index(n: u32) -> (r: CustomError)
        ensures
            n == 0 ==> r == CustomError::CustomOne,
            n == 1 ==> r == CustomError::CustomTwo,
            n == 2 ==> r == CustomError::CustomThree,
            n > 2 ==> r == CustomError::CustomFour,
    {
        match n {
            0 => CustomError::CustomOne,
            1 => CustomError::CustomTwo,
            2 => CustomError::CustomThree,
            _ => CustomError::CustomFour,
        }
    }

    /// The HTTP status the error is answered with: forbidden, unauthorized,
    /// internal server error, bad request.
    pub fn status_code(&self) -> (r: u16)
        ensures
            *self == CustomError::CustomOne ==> r == 403,
            *self == CustomError::CustomTwo ==> r == 401,
            *self == CustomError::CustomThree ==> r == 500,
            *self == CustomError::CustomFour ==> r == 400,
    {
        match self {
            CustomError::CustomOne => 403,
            CustomError::CustomTwo => 401,
            CustomError::CustomThree => 500,
            CustomError::CustomFour => 400,
        }
    }

    /// The text the error displays as.
    pub fn message(&self) -> (r: String)
        ensures
            *self == CustomError::CustomOne ==> r@ == "Custom Error 1"@,
            *self == CustomError::CustomTwo ==> r@ == "Custom Error 2"@,
            *self == CustomError::CustomThree ==> r@ == "Custom Error 3"@,
            *self == CustomError::CustomFour ==> r@ == "Custom Error 4"@,
    {
        match self {
            CustomError::CustomOne => "Custom Error 1".to_owned(),
            CustomError::CustomTwo => "Custom Error 2".to_owned(),
            CustomError::CustomThree => "Custom Error 3".to_owned(),
            CustomError::CustomFour => "Custom Error 4".to_owned(),
        }
    }
}

} // verus!
