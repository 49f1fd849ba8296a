use vstd::prelude::*;
use vstd::string::*;

verus! {

/// Errors describing what was wrong with a query while it was being
/// transformed into a request.
#[derive(Debug)]
pub enum QueryError {
    Error,
}

impl QueryError {
    pub open spec fn spec_message(&self) -> Seq<char> {
        "Query Error\n"@
    }

    /// The text that describes the error to a reader.
    pub fn message(&self) -> (r: String)
        ensures
            r@ == self.spec_message(),
    {
        String::from_str("Query Error\n")
    }
}

/// Errors describing what was wrong with the response obtained after a
/// request.
#[derive(Debug)]
pub enum ParseError {
    ParsableTextNotFound,
    InvalidResponseText,
    JsonUnparsable(String),
}

impl ParseError {
    pub open spec fn spec_message(&self) -> Seq<char> {
        match self {
            ParseError::ParsableTextNotFound => "The response text doesn't contain text to be parsed\n"@,
            ParseError::InvalidResponseText => "The response text is malformed and cannot be parsed\n"@,
            ParseError::JsonUnparsable(cause) => "Error in json parsing, cause: "@ + cause@,
        }
    }

    /// The text that describes the error to a reader.
    pub fn message(&self) -> (r: String)
        ensures
            r@ == self.spec_message(),
    {
        match self {
            ParseError::ParsableTextNotFound => String::from_str(
                "The response text doesn't contain text to be parsed\n",
            ),
            ParseError::InvalidResponseText => String::from_str(
                "The response text is malformed and cannot be parsed\n",
            ),
            ParseError::JsonUnparsable(cause) => {
                let mut r = String::from_str("Error in json parsing, cause: ");
                r.append(cause.as_str());
                r
            },
        }
    }
}

/// Errors describing what went wrong in an interaction with a
/// `PluginManager`.
#[derive(Debug)]
pub enum PluginError {
    DuplicatedPlugin(String),
    UnregisteredPlugin(String),
    NoDefaultPlugin,
    DownloadError(String),
    StreamError(String),
}

impl PluginError {
    pub open spec fn spec_message(&self) -> Seq<char> {
        match self {
            PluginError::DuplicatedPlugin(name) => "Duplicated plugin: `"@ + name@ + "`\n"@,
            PluginError::UnregisteredPlugin(name) => "Unregistered plugin: `"@ + name@ + "`\n"@,
            PluginError::NoDefaultPlugin => "No plugin has been set as default yet\n"@,
            PluginError::DownloadError(msg) => "An error occured while downloading\n"@
                + "Here's the cause: "@ + msg@ + "\n"@,
            PluginError::StreamError(msg) => "An error occured while streaming\n"@
                + "Here's the cause: "@ + msg@ + "\n"@,
        }
    }

    /// The text that describes the error to a reader.
    pub fn message(&self) -> (r: String)
        ensures
            r@ == self.spec_message(),
    {
        match self {
            PluginError::DuplicatedPlugin(name) => {
                let mut r = String::from_str("Duplicated plugin: `");
                r.append(name.as_str());
                r.append("`\n");
                r
            },
            PluginError::UnregisteredPlugin(name) => {
                let mut r = String::from_str("Unregistered plugin: `");
                r.append(name.as_str());
                r.append("`\n");
                r
            },
            PluginError::NoDefaultPlugin => String::from_str("No plugin has been set as default yet\n"),
            PluginError::DownloadError(msg) => {
                let mut r = String::from_str("An error occured while downloading\n");
                r.append("Here's the cause: ");
                r.append(msg.as_str());
                r.append("\n");
                r
            },
            PluginError::StreamError(msg) => {
                let mut r = String::from_str("An error occured while streaming\n");
                r.append("Here's the cause: ");
                r.append(msg.as_str());
                r.append("\n");
                r
            },
        }
    }
}

} // verus!
