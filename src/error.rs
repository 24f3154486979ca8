//! The errors that a transformation call reports.
use vstd::prelude::*;
use vstd::string::StringExecFns;

verus! {

/// Errors of a projection or conversion call, with the message of the
/// library that ran it.
#[derive(Debug)]
pub enum ProjError {
    Projection(String),
    Conversion(String),
}

/// The text that opens the description of a failed projection.
pub open spec fn projection_prefix() -> Seq<char> {
    "The projection failed with the following error: "@
}

/// The text that opens the description of a failed conversion.
pub open spec fn conversion_prefix() -> Seq<char> {
    "The conversion failed with the following error: "@
}

impl ProjError {
    /// The description of the error: what failed, then the message.
    pub open spec fn text(&self) -> Seq<char> {
        match self {
            ProjError::Projection(m) => projection_prefix() + m@,
            ProjError::Conversion(m) => conversion_prefix() + m@,
        }
    }

    /// The description of the error: what failed, then the message.
    pub fn to_string(&self) -> (r: String)
        ensures
            r@ == self.text(),
    {
        match self {
            ProjError::Projection(m) => {
                let mut r = "The projection failed with the following error: ".to_owned();
                r.append(m.as_str());
                r
            },
            ProjError::Conversion(m) => {
                let mut r = "The conversion failed with the following error: ".to_owned();
                r.append(m.as_str());
                r
            },
        }
    }

    /// The message of the library that ran the call.
    pub fn message(&self) -> (r: &String)
        ensures
            r == (match self {
                ProjError::Projection(m) => m,
                ProjError::Conversion(m) => m,
            }),
    {
        match self {
            ProjError::Projection(m) => m,
            ProjError::Conversion(m) => m,
        }
    }
}

} // verus!
