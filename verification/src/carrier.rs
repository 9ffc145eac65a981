//! Traits for representing carriers that propagate span contexts across
//! process boundaries.
//!
//! The concrete wire formats are external collaborators: these traits only
//! fix the call shapes that a pluggable codec must satisfy, and the
//! conventions it must follow. An extraction returns `Ok(None)` when the
//! carrier holds no span context at all; an error is reserved for a
//! malformed one. An injection or extraction error propagates to the
//! caller unchanged.
use crate::span::SpanContext;
use crate::Result;
use std::collections::BTreeMap;
use std::collections::HashMap;
use vstd::prelude::*;

verus! {

/// This trait allows to inject `SpanContext` to `TextMap`.
pub trait InjectToTextMap<T: TextMap>: Sized {
    /// Injects `context` to `carrier`.
    fn inject_to_text_map(context: &SpanContext<Self>, carrier: &mut T) -> Result<()>;
}

/// This trait allows to extract `SpanContext` from `TextMap`.
pub trait ExtractFromTextMap<T: TextMap>: Sized {
    /// Extracts `SpanContext` from `carrier`.
    ///
    /// If `carrier` contains no span context, it will return `Ok(None)`.
    fn extract_from_text_map(carrier: &T) -> Result<Option<SpanContext<Self>>>;
}

/// This trait represents carriers which support the **Text Map** format:
/// an arbitrary string-to-string map with an unrestricted character set
/// for both keys and values.
pub trait TextMap {
    /// Sets the value of `key` in the map to `value`.
    fn set(&mut self, key: &str, value: &str);

    /// Gets the value of `key`.
    fn get(&self, key: &str) -> Option<&str>;
}

impl TextMap for HashMap<String, String> {
    fn set(&mut self, key: &str, value: &str) {
        self.insert(key.to_owned(), value.to_owned());
    }

    fn get(&self, key: &str) -> Option<&str> {
        match HashMap::get(self, key) {
            Some(v) => Some(v.as_str()),
            None => None,
        }
    }
}

impl TextMap for BTreeMap<String, String> {
    fn set(&mut self, key: &str, value: &str) {
        self.insert(key.to_owned(), value.to_owned());
    }

    fn get(&self, key: &str) -> Option<&str> {
        match BTreeMap::get(self, key) {
            Some(v) => Some(v.as_str()),
            None => None,
        }
    }
}

/// This trait allows to inject `SpanContext` to HTTP header.
pub trait InjectToHttpHeader<T: SetHttpHeaderField>: Sized {
    /// Injects `context` to `carrier`.
    fn inject_to_http_header(context: &SpanContext<Self>, carrier: &mut T) -> Result<()>;
}

/// This trait allows to extract `SpanContext` from HTTP header.
pub trait ExtractFromHttpHeader<T: GetHttpHeaderField>: Sized {
    /// Extracts `SpanContext` from `carrier`.
    ///
    /// If `carrier` contains no span context, it will return `Ok(None)`.
    fn extract_from_http_header(carrier: &T) -> Result<Option<SpanContext<Self>>>;
}

/// This trait allows to insert fields in a HTTP header.
pub trait SetHttpHeaderField {
    /// Sets the value of the field named `name` in the HTTP header to
    /// `value`.
    fn set_http_header_field(&mut self, name: &str, value: &str) -> Result<()>;
}

impl SetHttpHeaderField for HashMap<String, String> {
    fn set_http_header_field(&mut self, name: &str, value: &str) -> Result<()> {
        self.insert(name.to_owned(), value.to_owned());
        Ok(())
    }
}

/// This trait allows to read a named field of a HTTP header.
pub trait GetHttpHeaderField {
    /// Gets the value of the field named `name`, if the header has it.
    fn http_header_field(&self, name: &str) -> Option<&str>;
}

impl GetHttpHeaderField for HashMap<String, String> {
    fn http_header_field(&self, name: &str) -> Option<&str> {
        match HashMap::get(self, name) {
            Some(v) => Some(v.as_str()),
            None => None,
        }
    }
}

/// This trait allows to inject `SpanContext` to a binary carrier: any
/// byte sink the codec for `Self` can write to.
pub trait InjectToBinary<T>: Sized {
    /// Injects `context` to `carrier`.
    fn inject_to_binary(context: &SpanContext<Self>, carrier: &mut T) -> Result<()>;
}

/// This trait allows to extract `SpanContext` from a binary carrier: any
/// byte source the codec for `Self` can read from.
pub trait ExtractFromBinary<T>: Sized {
    /// Extracts `SpanContext` from `carrier`.
    ///
    /// If `carrier` contains no span context, it will return `Ok(None)`.
    fn extract_from_binary(carrier: &mut T) -> Result<Option<SpanContext<Self>>>;
}

} // verus!
