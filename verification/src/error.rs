use crate::text::{decimal, push_decimal, push_str_chars, string_of};
use vstd::prelude::*;

verus! {

/// std's I/O error, carried unchanged by `PairsError::Io`.
#[verifier::external_type_specification]
#[verifier::external_body]
pub struct ExIoError(std::io::Error);

/// Everything that can make a `pairs` command fail.
#[derive(Debug)]
pub enum PairsError {
    GitCommandFailed(String),
    UnknownPin(u16),
    InvalidPin(String),
    NoPinsFound,
    NothingToStash,
    NotAGitRepository,
    NoRemoteOrigin,
    NoCommitsYet,
    UserAborted,
    Io(std::io::Error),
}

/// The text that describes an error; for `Io` it is `"IO error: "` followed by
/// what std prints for the I/O error, which this library does not model.
pub open spec fn message_text(e: PairsError) -> Option<Seq<char>> {
    match e {
        PairsError::GitCommandFailed(msg) => Some("Git command failed: "@ + msg@),
        PairsError::UnknownPin(pin) => Some("Unknown pin: "@ + decimal(pin as nat)),
        PairsError::InvalidPin(pin) => Some("Invalid pin: "@ + pin@ + ", must be a number"@),
        PairsError::NoPinsFound => Some("No pins found."@),
        PairsError::NothingToStash => Some("Working tree is clean, nothing to stash."@),
        PairsError::NotAGitRepository => Some("Not within a git repository."@),
        PairsError::NoRemoteOrigin => Some("No remote named 'origin' found."@),
        PairsError::NoCommitsYet => Some("The repository has no commits yet."@),
        PairsError::UserAborted => Some("Aborted by user."@),
        PairsError::Io(_) => None,
    }
}

/// What std's `Display` writes for an I/O error.
#[verifier::external_body]
fn io_error_text(e: &std::io::Error) -> String {
    format!("{e}")
}

impl PairsError {
    /// The human-readable message of the error (what `Display` shows).
    pub fn message(&self) -> (m: String)
        ensures
            message_text(*self) matches Some(t) ==> m@ == t,
            self is Io ==> m@.len() >= 10 && m@.take(10) == "IO error: "@,
    {
        let mut buf: Vec<char> = Vec::new();
        match self {
            PairsError::GitCommandFailed(msg) => {
                push_str_chars(&mut buf, "Git command failed: ");
                push_str_chars(&mut buf, msg.as_str());
            },
            PairsError::UnknownPin(pin) => {
                push_str_chars(&mut buf, "Unknown pin: ");
                push_decimal(&mut buf, *pin);
            },
            PairsError::InvalidPin(pin) => {
                push_str_chars(&mut buf, "Invalid pin: ");
                push_str_chars(&mut buf, pin.as_str());
                push_str_chars(&mut buf, ", must be a number");
            },
            PairsError::NoPinsFound => push_str_chars(&mut buf, "No pins found."),
            PairsError::NothingToStash => push_str_chars(
                &mut buf,
                "Working tree is clean, nothing to stash.",
            ),
            PairsError::NotAGitRepository => push_str_chars(&mut buf, "Not within a git repository."),
            PairsError::NoRemoteOrigin => push_str_chars(&mut buf, "No remote named 'origin' found."),
            PairsError::NoCommitsYet => push_str_chars(&mut buf, "The repository has no commits yet."),
            PairsError::UserAborted => push_str_chars(&mut buf, "Aborted by user."),
            PairsError::Io(err) => {
                push_str_chars(&mut buf, "IO error: ");
                proof {
                    reveal_strlit("IO error: ");
                }
                let ghost prefix = buf@;
                let text = io_error_text(err);
                push_str_chars(&mut buf, text.as_str());
                assert(buf@.take(10) =~= prefix);
            },
        }
        proof {
            if !(self is Io) {
                assert(buf@ == message_text(*self)->Some_0);
            }
        }
        string_of(&buf)
    }
}

impl From<std::io::Error> for PairsError {
    fn from(source: std::io::Error) -> (e: Self)
        ensures
            e == PairsError::Io(source),
    {
        PairsError::Io(source)
    }
}

impl vstd::std_specs::convert::FromSpecImpl<std::io::Error> for PairsError {
    open spec fn obeys_from_spec() -> bool {
        true
    }

    open spec fn from_spec(source: std::io::Error) -> Self {
        PairsError::Io(source)
    }
}

} // verus!
