use vstd::prelude::*;

verus! {

/// The path that selects standard input.
pub const STDIN_MARKER: &'static str = "-";

/// The name that standard input is shown under.
pub const STDIN_NAME: &'static str = "<stdin>";

/// Where a path says the input comes from.
#[derive(Debug, Clone, Copy, PartialEq, Eq, Structural)]
pub enum Origin {
    Console,
    Network,
    File,
}

/// Whether `url::Url::parse` reads an absolute URL from `s`.
pub uninterp spec fn parses_as_url(s: Seq<char>) -> bool;

/// Relies on `url::Url::parse`: it succeeds exactly when the text is an
/// absolute URL, and its answer depends on the text alone.
#[verifier::external_body]
fn is_url(s: &str) -> (r: bool)
    ensures
        r == parses_as_url(s@),
{
    url::Url::parse(s).is_ok()
}

/// The origin that `path` selects: the marker selects standard input, an
/// absolute URL the network, anything else a file.
pub open spec fn origin_of(path: Seq<char>) -> Origin {
    if path == STDIN_MARKER@ {
        Origin::Console
    } else if parses_as_url(path) {
        Origin::Network
    } else {
        Origin::File
    }
}

fn is_stdin_marker(path: &str) -> (r: bool)
    ensures
        r == (path@ == STDIN_MARKER@),
{
    String::from_str(path) == String::from_str(STDIN_MARKER)
}

pub fn select_origin(path: &str) -> (r: Origin)
    ensures
        r == origin_of(path@),
{
    if is_stdin_marker(path) {
        Origin::Console
    } else if is_url(path) {
        Origin::Network
    } else {
        Origin::File
    }
}

/// The name that input opened from `path` is shown under.
pub fn source_name(path: &str) -> (r: String)
    ensures
        r@ == if path@ == STDIN_MARKER@ {
            STDIN_NAME@
        } else {
            path@
        },
{
    if is_stdin_marker(path) {
        String::from_str(STDIN_NAME)
    } else {
        String::from_str(path)
    }
}

/// Why input could not be opened.
#[derive(Debug, Clone, PartialEq, Eq)]
pub enum StreamError {
    /// Neither the network nor the file system could open the input; the
    /// text names what was tried and why it failed.
    Open(String),
}

/// The text of the failure to open `path` for the reason `cause`.
pub open spec fn open_failure_text(path: Seq<char>, cause: Seq<char>) -> Seq<char> {
    path + ": "@ + cause
}

/// The failure to open `path`, for the reason `cause`.
pub fn open_error(path: &str, cause: &str) -> (r: StreamError)
    ensures
        r matches StreamError::Open(text) && text@ == open_failure_text(path@, cause@),
{
    let mut text = String::from_str(path);
    text.append(": ");
    text.append(cause);
    StreamError::Open(text)
}

impl StreamError {
    /// The text of the failure.
    pub fn detail(&self) -> (r: &str)
        ensures
            self matches StreamError::Open(text) && r@ == text@,
    {
        match self {
            StreamError::Open(text) => text.as_str(),
        }
    }

    /// The failure as a message for a person.
    pub fn message(&self) -> (r: String)
        ensures
            self matches StreamError::Open(text) && r@ == "Failed to open file '"@ + text@ + "':\n"@,
    {
        match self {
            StreamError::Open(text) => {
                let mut s = String::from_str("Failed to open file '");
                s.append(text.as_str());
                s.append("':\n");
                s
            },
        }
    }
}

} // verus!
