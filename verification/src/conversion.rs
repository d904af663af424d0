//! Values converted from the caller's data, and the errors of conversion.

use vstd::prelude::*;
use vstd::string::*;
use crate::text::{
    contains_text, find_text, first_occurrence, lemma_first_occurrence, occurs_at, text_chars,
};
use crate::value::ParquetValue;

verus! {

/// The kind of exception that a failed conversion raises.
#[derive(Clone, Copy, Debug, PartialEq, Eq, Structural)]
pub enum ErrorClass {
    /// The value's text is not validly encoded.
    Encoding,
    /// Any other failure.
    Runtime,
}

/// The Ruby exception class that an error is raised as.
#[derive(Clone, Copy, Debug, PartialEq, Eq, Structural)]
pub enum ExceptionKind {
    ArgumentError,
    TypeError,
    RuntimeError,
    EncodingError,
}

/// A failed conversion of one value, as reported to the caller.
#[derive(Debug)]
pub struct ConversionError {
    pub class: ErrorClass,
    pub message: String,
}

/// The class and message reported for a conversion failure with this
/// message: an encoding error when the message mentions `EncodingError` or
/// `invalid utf-8`, reporting only what follows the first `EncodingError: `
/// when there is one; a runtime error with the whole message otherwise.
pub open spec fn spec_classify(message: Seq<char>) -> (ErrorClass, Seq<char>) {
    if contains_text(message, "EncodingError"@) || contains_text(message, "invalid utf-8"@) {
        match first_occurrence(message, "EncodingError: "@) {
            Some(p) => (
                ErrorClass::Encoding,
                message.subrange(p + "EncodingError: "@.len(), message.len() as int),
            ),
            None => (ErrorClass::Encoding, message),
        }
    } else {
        (ErrorClass::Runtime, message)
    }
}

/// How a failure message is classified, by what occurs in it:
/// - a message in which neither `EncodingError` nor `invalid utf-8` occurs
///   is a runtime error, reported whole;
/// - a message in which `EncodingError: ` first occurs at `p` is an
///   encoding error, reported from just after that occurrence;
/// - a message in which `invalid utf-8` occurs but `EncodingError: ` does
///   not is an encoding error, reported whole.
pub proof fn law_classification(message: Seq<char>, p: int)
    ensures
        (forall|i: int| !occurs_at(message, "EncodingError"@, i))
            && (forall|i: int| !occurs_at(message, "invalid utf-8"@, i)) ==> spec_classify(message)
            == (ErrorClass::Runtime, message),
        occurs_at(message, "EncodingError: "@, p) && (forall|i: int|
            0 <= i < p ==> !occurs_at(message, "EncodingError: "@, i)) ==> spec_classify(message)
            == (ErrorClass::Encoding, message.subrange(p + 15, message.len() as int)),
        (exists|i: int| occurs_at(message, "invalid utf-8"@, i)) && (forall|i: int|
            !occurs_at(message, "EncodingError: "@, i)) ==> spec_classify(message) == (
            ErrorClass::Encoding,
            message,
        ),
{
    reveal_strlit("EncodingError");
    reveal_strlit("EncodingError: ");
    reveal_strlit("invalid utf-8");
    lemma_first_occurrence(message, "EncodingError"@);
    lemma_first_occurrence(message, "invalid utf-8"@);
    lemma_first_occurrence(message, "EncodingError: "@);
    if occurs_at(message, "EncodingError: "@, p) {
        assert(message.subrange(p, p + 13) =~= message.subrange(p, p + 15).subrange(0, 13));
        assert("EncodingError: "@.subrange(0, 13) =~= "EncodingError"@);
        assert(occurs_at(message, "EncodingError"@, p));
        if forall|i: int| 0 <= i < p ==> !occurs_at(message, "EncodingError: "@, i) {
            let q = first_occurrence(message, "EncodingError: "@)->Some_0;
            assert(q == p);
        }
    }
    if exists|i: int| occurs_at(message, "invalid utf-8"@, i) {
        let i = choose|i: int| occurs_at(message, "invalid utf-8"@, i);
        assert(occurs_at(message, "invalid utf-8"@, i));
    }
}

/// Classifies the message of a failed conversion, as [`spec_classify`] states.
pub fn classify_conversion_error(message: &str) -> (r: ConversionError)
    ensures
        (r.class, r.message@) == spec_classify(message@),
{
    let chars = text_chars(message);
    let encoding = text_chars("EncodingError");
    let utf8 = text_chars("invalid utf-8");
    let found_encoding = find_text(&chars, &encoding);
    let found_utf8 = find_text(&chars, &utf8);
    if found_encoding.is_some() || found_utf8.is_some() {
        let marker = text_chars("EncodingError: ");
        match find_text(&chars, &marker) {
            Some(p) => {
                proof {
                    lemma_first_occurrence(chars@, marker@);
                }
                let n = message.unicode_len();
                let rest = message.substring_char(p + marker.len(), n);
                ConversionError { class: ErrorClass::Encoding, message: String::from_str(rest) }
            },
            None => ConversionError {
                class: ErrorClass::Encoding,
                message: String::from_str(message),
            },
        }
    } else {
        ConversionError { class: ErrorClass::Runtime, message: String::from_str(message) }
    }
}

/// The exception a conversion failure of this class is raised as.
pub open spec fn class_exception(class: ErrorClass) -> ExceptionKind {
    match class {
        ErrorClass::Encoding => ExceptionKind::EncodingError,
        ErrorClass::Runtime => ExceptionKind::RuntimeError,
    }
}

impl ConversionError {
    /// The exception this failure is raised as: an encoding error or a
    /// runtime error, by its class.
    pub fn exception(&self) -> (k: ExceptionKind)
        ensures
            k == class_exception(self.class),
    {
        match self.class {
            ErrorClass::Encoding => ExceptionKind::EncodingError,
            ErrorClass::Runtime => ExceptionKind::RuntimeError,
        }
    }

    /// The text raised for this failure.
    pub fn message(&self) -> (m: String)
        ensures
            m@ == self.message@,
    {
        self.message.clone()
    }
}

/// The values of an array as converted in order, up to the first value
/// that failed to convert.
pub struct ConvertedValues {
    /// The values converted before the first failure, or all of them.
    pub values: Vec<ParquetValue>,
    /// The message of the first failure, if one failed.
    pub failure: Option<String>,
}

/// An argument that must be an array of values.
pub enum ArrayArg {
    /// The argument is not an array.
    NotArray,
    /// The argument is an array, with its values converted.
    Items(ConvertedValues),
}

} // verus!
