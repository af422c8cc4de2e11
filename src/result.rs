use vstd::prelude::*;

verus! {

/// What a path resolves to.
#[derive(Debug, Clone, Copy, PartialEq, Eq, Structural)]
pub enum CmdType {
    Prop,
    List,
    Action,
    NotFound,
}

/// The typed failures of the engine.
#[derive(Debug)]
pub enum ConsoleError {
    UnknownProperty,
    UnknownCommand,
    InvalidValue(String),
    InvalidUsage(String),
    NoResults,
}

/// The outcome of one command: text on success, or a typed failure.
pub struct ConsoleResult(pub Result<String, ConsoleError>);

/// The text shown to the user for an error.
pub open spec fn error_message(e: ConsoleError) -> Seq<char> {
    match e {
        ConsoleError::UnknownProperty => "Unknown property"@,
        ConsoleError::UnknownCommand => "Unknown command"@,
        ConsoleError::InvalidValue(d) => "Invalid value: "@ + d@,
        ConsoleError::InvalidUsage(d) => "Usage: "@ + d@,
        ConsoleError::NoResults => "No results"@,
    }
}

/// A successful result with the given text.
pub open spec fn is_ok_with(r: ConsoleResult, t: Seq<char>) -> bool {
    r.0 is Ok && r.0->Ok_0@ == t
}

impl ConsoleError {
    /// The user-visible message of this error.
    pub fn message(&self) -> (r: String)
        ensures
            r@ == error_message(*self),
    {
        match self {
            ConsoleError::UnknownProperty => "Unknown property".to_string(),
            ConsoleError::UnknownCommand => "Unknown command".to_string(),
            ConsoleError::InvalidValue(d) => {
                let mut r = "Invalid value: ".to_string();
                r.append(d.as_str());
                r
            },
            ConsoleError::InvalidUsage(d) => {
                let mut r = "Usage: ".to_string();
                r.append(d.as_str());
                r
            },
            ConsoleError::NoResults => "No results".to_string(),
        }
    }
}

impl ConsoleResult {
    pub fn ok(text: String) -> (r: ConsoleResult)
        ensures
            r.0 == Ok::<String, ConsoleError>(text),
    {
        ConsoleResult(Ok(text))
    }

    pub fn err(e: ConsoleError) -> (r: ConsoleResult)
        ensures
            r.0 == Err::<String, ConsoleError>(e),
    {
        ConsoleResult(Err(e))
    }

    /// A successful result with no text.
    pub fn empty() -> (r: ConsoleResult)
        ensures
            is_ok_with(r, Seq::empty()),
    {
        ConsoleResult(Ok(String::new()))
    }
}

} // verus!
