//! Filter configuration validation errors.

use crate::text::{decimal_of, push_decimal};
use vstd::prelude::*;
use vstd::string::*;

verus! {

/// Why a filter configuration was refused.
#[derive(Debug, PartialEq, Eq)]
pub enum FilterConfigError {
    InvalidGlob(String),
    InvalidRegex(String),
    InvalidFreqRange(u64, u64),
    MaxAgeZero,
}

/// What a [`FilterConfigError`] stands for.
pub enum ErrorModel {
    InvalidGlob(Seq<char>),
    InvalidRegex(Seq<char>),
    InvalidFreqRange(u64, u64),
    MaxAgeZero,
}

impl View for FilterConfigError {
    type V = ErrorModel;

    open spec fn view(&self) -> ErrorModel {
        match *self {
            FilterConfigError::InvalidGlob(p) => ErrorModel::InvalidGlob(p@),
            FilterConfigError::InvalidRegex(p) => ErrorModel::InvalidRegex(p@),
            FilterConfigError::InvalidFreqRange(a, b) => ErrorModel::InvalidFreqRange(a, b),
            FilterConfigError::MaxAgeZero => ErrorModel::MaxAgeZero,
        }
    }
}

/// An error in words.
pub open spec fn error_text(e: ErrorModel) -> Seq<char> {
    match e {
        ErrorModel::InvalidGlob(p) => "invalid glob pattern: "@ + p,
        ErrorModel::InvalidRegex(p) => "invalid regex pattern: "@ + p,
        ErrorModel::InvalidFreqRange(a, b) => "invalid frequency range: "@ + decimal_of(a as nat)
            + ".."@ + decimal_of(b as nat),
        ErrorModel::MaxAgeZero => "max_age must be > 0"@,
    }
}

impl FilterConfigError {
    /// The error in words.
    pub fn message(&self) -> (r: String)
        ensures
            r@ == error_text(self@),
    {
        match self {
            FilterConfigError::InvalidGlob(p) => {
                "invalid glob pattern: ".to_owned().concat(p.as_str())
            },
            FilterConfigError::InvalidRegex(p) => {
                "invalid regex pattern: ".to_owned().concat(p.as_str())
            },
            FilterConfigError::InvalidFreqRange(a, b) => {
                let mut out = "invalid frequency range: ".to_owned();
                push_decimal(&mut out, *a);
                out.append("..");
                push_decimal(&mut out, *b);
                out
            },
            FilterConfigError::MaxAgeZero => "max_age must be > 0".to_owned(),
        }
    }
}

} // verus!
