//! Errors by what can be done about them.

use std::borrow::Cow;

use vstd::prelude::*;

verus! {

/// An error that is just a message.
#[derive(Debug, Eq, PartialEq)]
pub struct Message(pub Cow<'static, str>);

/// What can be the message of an error.
pub trait IntoMessage: Sized {
    /// The message.
    spec fn as_message(self) -> Cow<'static, str>;

    /// The message.
    fn into_message(self) -> (message: Cow<'static, str>)
        ensures
            message == self.as_message(),
    ;
}

impl IntoMessage for Cow<'static, str> {
    open spec fn as_message(self) -> Cow<'static, str> {
        self
    }

    fn into_message(self) -> (message: Cow<'static, str>) {
        self
    }
}

impl IntoMessage for String {
    open spec fn as_message(self) -> Cow<'static, str> {
        Cow::Owned(self)
    }

    fn into_message(self) -> (message: Cow<'static, str>) {
        Cow::Owned(self)
    }
}

impl IntoMessage for &'static str {
    open spec fn as_message(self) -> Cow<'static, str> {
        Cow::Borrowed(self)
    }

    fn into_message(self) -> (message: Cow<'static, str>) {
        Cow::Borrowed(self)
    }
}

/// An error caused by malformed or internally inconsistent data.
#[derive(Debug, Eq, PartialEq)]
pub struct CorruptionError {
    /// The error message.
    pub message: Cow<'static, str>,
}

impl CorruptionError {
    /// Create a new instance that displays the given `message`.
    pub fn new(message: impl IntoMessage) -> (err: Self)
        ensures
            err.message == message.as_message(),
    {
        CorruptionError { message: message.into_message() }
    }

    /// What the error says: its message.
    pub fn text(&self) -> (text: String)
        ensures
            text@ == self.message@,
    {
        match &self.message {
            Cow::Borrowed(message) => (*message).to_owned(),
            Cow::Owned(message) => message.clone(),
        }
    }
}

impl From<Message> for CorruptionError {
    fn from(message: Message) -> (err: Self) {
        CorruptionError::new(message.0)
    }
}

impl vstd::std_specs::convert::FromSpecImpl<Message> for CorruptionError {
    open spec fn obeys_from_spec() -> bool {
        true
    }

    open spec fn from_spec(message: Message) -> Self {
        CorruptionError { message: message.0 }
    }
}

impl From<String> for CorruptionError {
    fn from(message: String) -> (err: Self) {
        CorruptionError { message: Cow::Owned(message) }
    }
}

impl vstd::std_specs::convert::FromSpecImpl<String> for CorruptionError {
    open spec fn obeys_from_spec() -> bool {
        true
    }

    open spec fn from_spec(message: String) -> Self {
        CorruptionError { message: Cow::Owned(message) }
    }
}

impl From<&'static str> for CorruptionError {
    fn from(message: &'static str) -> (err: Self) {
        CorruptionError { message: Cow::Borrowed(message) }
    }
}

impl vstd::std_specs::convert::FromSpecImpl<&'static str> for CorruptionError {
    open spec fn obeys_from_spec() -> bool {
        true
    }

    open spec fn from_spec(message: &'static str) -> Self {
        CorruptionError { message: Cow::Borrowed(message) }
    }
}

/// What is kept of an error of another library: what it says, and the error that caused it, if any.
#[derive(Debug, Eq, PartialEq)]
pub struct SourceError {
    /// What it says.
    pub message: String,
    /// The error that caused it.
    pub source: Option<Box<SourceError>>,
}

/// A transparent wrapper for dependency-specific errors known to be retryable.
#[derive(Debug, Eq, PartialEq)]
pub struct RetryableError(pub SourceError);

impl RetryableError {
    /// Mark `source` as retryable.
    pub fn new(source: SourceError) -> (err: Self)
        ensures
            err.0 == source,
    {
        RetryableError(source)
    }

    /// What the error says: just what the error that was marked says.
    pub fn text(&self) -> (text: String)
        ensures
            text@ == self.0.message@,
    {
        self.0.message.clone()
    }

    /// The error that was marked.
    pub fn source(&self) -> (source: &SourceError)
        ensures
            *source == self.0,
    {
        &self.0
    }
}

} // verus!
