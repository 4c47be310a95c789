//! Editing core of a modal text editor: a rope-backed buffer with an edit
//! history, cursor motions and a Normal/Insert state machine.

use vstd::prelude::*;
use vstd::string::StringExecFns;

pub mod chars;
pub mod text;
pub mod rope;
pub mod event;
pub mod history;
pub mod cursor;
pub mod buffer;
pub mod step;
pub mod scan;
pub mod motion;
pub mod motion_text;
pub mod search;
pub mod modal;
pub mod window_edit;
pub mod keymap;
pub mod state;

verus! {

/// Errors surfaced by the editing core.
#[derive(Debug)]
pub enum Error {
    /// An internally inconsistent request, such as a direction qualifier
    /// that the motion does not support.
    Fatal(String),
    /// The search pattern does not compile.
    BadPattern(String),
    IOError(String),
    FailConvert(String),
    /// The initial content could not be turned into text.
    FailBuffer(String),
}

impl Error {
    /// Text of the error: the name of its kind, a colon and the message.
    pub fn to_string(&self) -> (s: String)
        ensures
            s@ == self.prefix() + self.message(),
    {
        let (kind, msg) = match self {
            Error::Fatal(msg) => ("Fatal: ", msg),
            Error::BadPattern(msg) => ("BadPattern: ", msg),
            Error::IOError(msg) => ("IOError: ", msg),
            Error::FailConvert(msg) => ("FailConvert: ", msg),
            Error::FailBuffer(msg) => ("FailBuffer: ", msg),
        };
        kind.to_owned().concat(msg.as_str())
    }

    /// The message the error carries.
    pub open spec fn message(&self) -> Seq<char> {
        match self {
            Error::Fatal(msg) => msg@,
            Error::BadPattern(msg) => msg@,
            Error::IOError(msg) => msg@,
            Error::FailConvert(msg) => msg@,
            Error::FailBuffer(msg) => msg@,
        }
    }

    /// The label that `to_string` puts before the message.
    pub open spec fn prefix(&self) -> Seq<char> {
        match self {
            Error::Fatal(_) => "Fatal: "@,
            Error::BadPattern(_) => "BadPattern: "@,
            Error::IOError(_) => "IOError: "@,
            Error::FailConvert(_) => "FailConvert: "@,
            Error::FailBuffer(_) => "FailBuffer: "@,
        }
    }
}

} // verus!
