//! Commonly used data types.

use vstd::prelude::*;
use vstd::string::StringExecFns;
use vstd::string::StringSliceAdditionalSpecFns;

verus! {

/// A JSON value.
#[derive(Debug, PartialEq, Eq)]
pub enum JsonValue {
    Null,
    Bool(bool),
    /// A number, as the text that spells it.
    Number(String),
    String(String),
    Array(Vec<JsonValue>),
    /// An object, as its members in their order.
    Object(Vec<(String, JsonValue)>),
}

/// An error parsing a value.
#[derive(Debug, Clone, PartialEq, Eq)]
pub enum ParseError {
    /// The value has another type than the one that was expected.
    ExpectedType,
    /// There is no value where one is needed.
    ExpectedInput,
    /// The value has the expected type and cannot be read; with the reason.
    Custom(String),
}

/// `Expected another input type.`
pub open spec fn expected_type_text() -> Seq<char> {
    "Expected another input type."@
}

/// `An input value is expected.`
pub open spec fn expected_input_text() -> Seq<char> {
    "An input value is expected."@
}

impl ParseError {
    /// The message of the error.
    pub open spec fn message(self) -> Seq<char> {
        match self {
            ParseError::ExpectedType => expected_type_text(),
            ParseError::ExpectedInput => expected_input_text(),
            ParseError::Custom(reason) => reason@,
        }
    }

    /// Consume this error and convert it into a message.
    pub fn into_message(self) -> (message: String)
        ensures
            message@ == self.message(),
    {
        match self {
            ParseError::ExpectedType => String::from_str("Expected another input type."),
            ParseError::ExpectedInput => String::from_str("An input value is expected."),
            ParseError::Custom(reason) => reason,
        }
    }
}

/// An error parsing or a value.
pub type ParseResult<T> = Result<T, ParseError>;

/// Represents a type that can parsing from JSON.
pub trait ParseFromJSON: Sized {
    /// What parsing `value` may give.
    open spec fn parsed_from_json(value: JsonValue, parsed: ParseResult<Self>) -> bool {
        true
    }

    /// Parse from [`JsonValue`].
    fn parse_from_json(value: JsonValue) -> (parsed: ParseResult<Self>)
        ensures
            Self::parsed_from_json(value, parsed),
    ;
}

/// Represents a type that can parsing from parameter. (header, query, path,
/// cookie)
pub trait ParseFromParameter: Sized {
    /// What parsing `value` may give.
    open spec fn parsed_from_parameter(value: Option<Seq<char>>, parsed: ParseResult<Self>) -> bool {
        true
    }

    /// Parse from the text of a parameter, or from its absence.
    fn parse_from_parameter(value: Option<&str>) -> (parsed: ParseResult<Self>)
        ensures
            Self::parsed_from_parameter(
                match value {
                    Some(text) => Some(text@),
                    None => None,
                },
                parsed,
            ),
    ;
}

/// Represents a type that can converted to JSON.
pub trait ToJSON {
    /// What converting `self` may give.
    open spec fn converted_to_json(&self, json: JsonValue) -> bool {
        true
    }

    /// Convert this value to [`JsonValue`].
    fn to_json(&self) -> (json: JsonValue)
        ensures
            self.converted_to_json(json),
    ;
}

/// The bytes that a text stands for in the standard base64 alphabet with
/// padding, if it stands for any.
pub uninterp spec fn base64_decoded(text: Seq<u8>) -> Option<Seq<u8>>;

/// What bytes are written as in the standard base64 alphabet with padding.
pub uninterp spec fn base64_encoded(bytes: Seq<u8>) -> Seq<char>;

/// `base64::DecodeError`: why a text is not base64.
#[verifier::external_type_specification]
#[verifier::external_body]
pub struct ExDecodeError(base64::DecodeError);

/// `base64::decode`: the bytes that `text` stands for, or why it stands for
/// none. A slice is never longer than `isize::MAX`, below which the lengths
/// that the function computes do not overflow.
#[verifier::external_body]
fn decode(text: &[u8]) -> (decoded: Result<Vec<u8>, base64::DecodeError>)
    ensures
        match decoded {
            Ok(bytes) => base64_decoded(text@) == Some(bytes@),
            Err(_) => base64_decoded(text@) is None,
        },
{
    base64::decode(text)
}

/// `base64::encode`: `bytes` in the standard alphabet with padding. A slice
/// is never longer than `isize::MAX`, below which the length that the
/// function computes does not overflow.
#[verifier::external_body]
fn encode(bytes: &[u8]) -> (text: String)
    ensures
        text@ == base64_encoded(bytes@),
{
    base64::encode(bytes)
}

/// `ToString::to_string` of `base64::DecodeError`: the error in words.
#[verifier::external_body]
fn describe(error: &base64::DecodeError) -> (words: String) {
    error.to_string()
}

/// Represents a binary data encoded with base64.
#[derive(Debug, Clone, Eq, PartialEq, Hash)]
pub struct Base64(pub Vec<u8>);

impl Base64 {
    /// The name of the type in a schema: `string(bytes)`.
    pub fn name() -> (name: String)
        ensures
            name@ == "string(bytes)"@,
    {
        String::from_str("string(bytes)")
    }

    /// What decoding gave, as a parsed value: the bytes, or the reason why
    /// there are none.
    pub fn from_decoded(decoded: Result<Vec<u8>, String>) -> (parsed: ParseResult<Self>)
        ensures
            match decoded {
                Ok(bytes) => parsed matches Ok(data) && data.0 == bytes,
                Err(reason) => parsed matches Err(ParseError::Custom(r)) && r == reason,
            },
    {
        match decoded {
            Ok(bytes) => Ok(Base64(bytes)),
            Err(reason) => Err(ParseError::Custom(reason)),
        }
    }

    /// Parses base64 text.
    pub fn parse(text: &str) -> (parsed: ParseResult<Self>)
        ensures
            Self::parsed_from_text(text.spec_bytes(), parsed),
    {
        match decode(text.as_bytes()) {
            Ok(bytes) => Self::from_decoded(Ok(bytes)),
            Err(error) => Self::from_decoded(Err(describe(&error))),
        }
    }

    /// What parsing base64 `text` gives: the bytes it stands for, or a
    /// `Custom` error if it stands for none.
    pub open spec fn parsed_from_text(text: Seq<u8>, parsed: ParseResult<Self>) -> bool {
        match base64_decoded(text) {
            Some(bytes) => parsed matches Ok(data) && data.0@ == bytes,
            None => parsed matches Err(e) && e is Custom,
        }
    }
}

impl ParseFromJSON for Base64 {
    /// A string is parsed as base64 text. Any other value has the wrong
    /// type.
    open spec fn parsed_from_json(value: JsonValue, parsed: ParseResult<Self>) -> bool {
        match value {
            JsonValue::String(text) => Self::parsed_from_text(
                vstd::utf8::encode_utf8(text@),
                parsed,
            ),
            _ => parsed matches Err(e) && e is ExpectedType,
        }
    }

    fn parse_from_json(value: JsonValue) -> (parsed: ParseResult<Self>) {
        if let JsonValue::String(text) = value {
            Base64::parse(text.as_str())
        } else {
            Err(ParseError::ExpectedType)
        }
    }
}

impl ParseFromParameter for Base64 {
    /// A parameter is parsed as base64 text. A missing one is an error.
    open spec fn parsed_from_parameter(value: Option<Seq<char>>, parsed: ParseResult<Self>) -> bool {
        match value {
            Some(text) => Self::parsed_from_text(vstd::utf8::encode_utf8(text), parsed),
            None => parsed matches Err(e) && e is ExpectedInput,
        }
    }

    fn parse_from_parameter(value: Option<&str>) -> (parsed: ParseResult<Self>) {
        match value {
            Some(text) => Base64::parse(text),
            None => Err(ParseError::ExpectedInput),
        }
    }
}

impl ToJSON for Base64 {
    /// The bytes as a string of base64 text.
    open spec fn converted_to_json(&self, json: JsonValue) -> bool {
        json matches JsonValue::String(text) && text@ == base64_encoded(self.0@)
    }

    fn to_json(&self) -> (json: JsonValue) {
        JsonValue::String(encode(self.0.as_slice()))
    }
}

} // verus!
