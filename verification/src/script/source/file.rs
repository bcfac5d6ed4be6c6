//! Scripts in files, found by path. A watch asks for the time of the last
//! change again and again.
use vstd::prelude::*;

use crate::script::error::ScriptError;
use crate::text::{cat3, debug_quoted};

verus! {

/// The source that takes a key for a path.
pub struct FileSource;

/// The complaint about a file.
pub open spec fn file_text(what: Seq<char>, key: Seq<char>, cause: Seq<char>) -> Seq<char> {
    what + crate::text::debug_text(key) + ": "@ + cause
}

fn file_error(what: &str, key: &str, cause: &str) -> (r: ScriptError)
    ensures
        r.says(file_text(what@, key@, cause@)),
{
    let quoted = debug_quoted(key);
    let mut text = cat3(what, quoted.as_str(), ": ");
    text.append(cause);
    ScriptError::Failed(text)
}

impl Default for FileSource {
    fn default() -> (r: Self)
        ensures
            r == FileSource,
    {
        FileSource
    }
}

impl FileSource {
    /// The source.
    pub fn new() -> (r: Self)
        ensures
            r == FileSource,
    {
        FileSource
    }

    /// Takes what reading the file came to: its text, or why there is none.
    pub fn file_read(&self, key: &str, answer: Result<String, String>) -> (r: Result<
        String,
        ScriptError,
    >)
        ensures
            match answer {
                Ok(code) => r == Ok::<String, ScriptError>(code),
                Err(cause) => crate::script::error::fails(
                    r,
                    file_text("file source: read "@, key@, cause@),
                ),
            },
    {
        match answer {
            Ok(code) => Ok(code),
            Err(cause) => Err(file_error("file source: read ", key, cause.as_str())),
        }
    }

    /// Takes what the first look at the time of the last change came to. The
    /// watch begins there.
    pub fn watch_begins(&self, key: &str, answer: Result<i128, String>) -> (r: Result<
        FilePoll,
        ScriptError,
    >)
        ensures
            match answer {
                Ok(modified) => r is Ok && r->Ok_0.seen() == modified,
                Err(cause) => crate::script::error::fails(
                    r,
                    file_text("file source: stat "@, key@, cause@),
                ),
            },
    {
        match answer {
            Ok(modified) => Ok(FilePoll { baseline: modified }),
            Err(cause) => Err(file_error("file source: stat ", key, cause.as_str())),
        }
    }
}

/// A watch of a file: the time of the last change seen, in nanoseconds.
pub struct FilePoll {
    baseline: i128,
}

impl FilePoll {
    /// The time of the last change seen.
    pub closed spec fn seen(&self) -> i128 {
        self.baseline
    }

    /// Takes another look, which may not find the file. It is a change if the
    /// file was changed after the last change seen.
    pub fn observe(&mut self, modified: Option<i128>) -> (r: bool)
        ensures
            r == (modified is Some && modified->0 > old(self).seen()),
            final(self).seen() == (if r {
                modified->0
            } else {
                old(self).seen()
            }),
            final(self).seen() >= old(self).seen(),
    {
        match modified {
            Some(time) => {
                if time > self.baseline {
                    self.baseline = time;
                    true
                } else {
                    false
                }
            },
            None => false,
        }
    }
}

} // verus!
