//! Parameter types for the API operation.

use super::types::{ParseFromParameter, ParseResult};
use crate::http::{is_visible, value_to_str};
use std::ops::Deref;
use vstd::prelude::*;

verus! {

/// A parameter error.
#[derive(Debug, Clone, PartialEq, Eq)]
pub enum ParseRequestError {
    /// Failed to parse a parameter.
    ParseParam {
        /// The name of the parameter.
        name: String,
        /// The reason for the error.
        reason: String,
    },
}

/// Represents the parameters passed by the request header.
#[derive(Debug, PartialEq, Eq)]
pub struct Header<T>(pub T);

impl<T> Deref for Header<T> {
    type Target = T;

    fn deref(&self) -> (inner: &Self::Target)
        ensures
            *inner == self.0,
    {
        &self.0
    }
}

impl<T> Header<T> {
    /// The parameter, to change it in place.
    pub fn get_mut(&mut self) -> (inner: &mut T)
        ensures
            *inner == old(self).0,
            final(self).0 == *final(inner),
    {
        &mut self.0
    }
}

/// What a request holds for a header, as plain values.
pub open spec fn held(value: Option<&[u8]>) -> Option<Seq<u8>> {
    match value {
        Some(bytes) => Some(bytes@),
        None => None,
    }
}

/// The text that a header is read as: its value if it has one that is
/// visible ASCII throughout; else none, as if the header were missing.
pub open spec fn text_of(value: Option<Seq<u8>>) -> Option<Seq<u8>> {
    match value {
        Some(bytes) if is_visible(bytes) => Some(bytes),
        _ => None,
    }
}

impl<T: ParseFromParameter> Header<T> {
    /// What extracting the header `name` may give, when the request holds
    /// `value` for it.
    ///
    /// A header with text is parsed. Without text the default stands in, if
    /// there is one; else the absence itself is parsed. An error of parsing
    /// is reported under the name of the header, with its message.
    pub open spec fn extracted<D: FnOnce() -> T>(
        name: Seq<char>,
        value: Option<Seq<u8>>,
        default_value: Option<D>,
        made: Result<Self, ParseRequestError>,
    ) -> bool {
        match text_of(value) {
            Some(bytes) => exists|parsed: ParseResult<T>, chars: Seq<char>|
                {
                    &&& vstd::utf8::encode_utf8(chars) == bytes
                    &&& #[trigger] T::parsed_from_parameter(Some(chars), parsed)
                    &&& Self::reported(name, parsed, made)
                },
            None => match default_value {
                Some(default) => made matches Ok(header) && call_ensures(default, (), header.0),
                None => exists|parsed: ParseResult<T>| #[trigger]
                    T::parsed_from_parameter(None, parsed) && Self::reported(name, parsed, made),
            },
        }
    }

    /// How the result of parsing is handed on: a value as the header, an
    /// error under the name of the header, with its message.
    pub open spec fn reported(
        name: Seq<char>,
        parsed: ParseResult<T>,
        made: Result<Self, ParseRequestError>,
    ) -> bool {
        match parsed {
            Ok(value) => made matches Ok(header) && header.0 == value,
            Err(error) => made matches Err(ParseRequestError::ParseParam { name: n, reason })
                && n@ == name && reason@ == error.message(),
        }
    }

    /// Hands on the result of parsing the header `name`.
    pub fn report(name: &str, parsed: ParseResult<T>) -> (made: Result<Self, ParseRequestError>)
        ensures
            Self::reported(name@, parsed, made),
    {
        match parsed {
            Ok(value) => Ok(Header(value)),
            Err(error) => Err(
                ParseRequestError::ParseParam {
                    name: name.to_owned(),
                    reason: error.into_message(),
                },
            ),
        }
    }

    /// Extracts the header `name` from what the request holds for it.
    pub fn from_request<D: FnOnce() -> T>(
        name: &str,
        value: Option<&[u8]>,
        default_value: Option<D>,
    ) -> (made: Result<Self, ParseRequestError>)
        requires
            default_value matches Some(default) ==> call_requires(default, ()),
        ensures
            Self::extracted(name@, held(value), default_value, made),
    {
        let text = match value {
            Some(bytes) => value_to_str(bytes),
            None => None,
        };
        match (text, default_value) {
            (Some(text), _) => {
                let parsed = T::parse_from_parameter(Some(text.as_str()));
                assert(T::parsed_from_parameter(Some(text@), parsed));
                Self::report(name, parsed)
            },
            (None, Some(default)) => Ok(Header(default())),
            (None, None) => {
                let parsed = T::parse_from_parameter(None);
                Self::report(name, parsed)
            },
        }
    }
}

} // verus!
