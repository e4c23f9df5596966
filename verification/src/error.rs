//! The error type of the launcher's core operations.
use vstd::prelude::*;

verus! {

/// An error of a core operation, carrying a message for the user.
#[derive(Debug, Clone)]
pub struct CoreError {
    message: String,
}

impl View for CoreError {
    type V = Seq<char>;

    /// The message of the error.
    open spec fn view(&self) -> Seq<char> {
        self.spec_message()
    }
}

impl CoreError {
    /// The message of the error.
    pub closed spec fn spec_message(&self) -> Seq<char> {
        self.message@
    }

    /// An error with the given message.
    pub fn new(message: String) -> (r: CoreError)
        ensures
            r@ == message@,
    {
        CoreError { message }
    }

    /// The message of the error.
    pub fn message(&self) -> (r: &str)
        ensures
            r@ == self@,
    {
        self.message.as_str()
    }

    /// The message of the error, as an owned string.
    pub fn into_message(self) -> (r: String)
        ensures
            r@ == self@,
    {
        self.message
    }
}

impl From<String> for CoreError {
    /// An error carrying `message`.
    fn from(message: String) -> (r: CoreError) {
        CoreError { message }
    }
}

impl vstd::std_specs::convert::FromSpecImpl<String> for CoreError {
    open spec fn obeys_from_spec() -> bool {
        true
    }

    closed spec fn from_spec(v: String) -> CoreError {
        CoreError { message: v }
    }
}

impl<'a> From<&'a str> for CoreError {
    /// An error carrying a copy of `message`. A spec function cannot make a `String` of a
    /// `&str`, so this conversion states nothing of its result; `CoreError::new` with an
    /// owned string states the message.
    fn from(message: &'a str) -> (r: CoreError) {
        CoreError { message: message.to_owned() }
    }
}

impl<'a> vstd::std_specs::convert::FromSpecImpl<&'a str> for CoreError {
    open spec fn obeys_from_spec() -> bool {
        false
    }

    closed spec fn from_spec(v: &'a str) -> CoreError {
        choose|e: CoreError| e@ == v@
    }
}

impl From<CoreError> for String {
    /// The message of `error`.
    fn from(error: CoreError) -> (r: String) {
        error.message
    }
}

impl vstd::std_specs::convert::FromSpecImpl<CoreError> for String {
    open spec fn obeys_from_spec() -> bool {
        true
    }

    closed spec fn from_spec(v: CoreError) -> String {
        v.message
    }
}

/// The error that `CoreError::from` makes of a string carries that string as its message.
pub broadcast proof fn lemma_error_from_string(message: String)
    ensures
        (#[trigger] <CoreError as vstd::std_specs::convert::FromSpec<String>>::from_spec(message))@
            == message@,
{
}

/// The string that `String::from` makes of an error is the error's message.
pub broadcast proof fn lemma_string_from_error(error: CoreError)
    ensures
        (#[trigger] <String as vstd::std_specs::convert::FromSpec<CoreError>>::from_spec(error))@
            == error@,
{
}

/// What converting between errors and their messages keeps.
pub broadcast group group_error_conversions {
    lemma_error_from_string,
    lemma_string_from_error,
}

/// The result of a core operation.
pub type CoreResult<T> = Result<T, CoreError>;

} // verus!
