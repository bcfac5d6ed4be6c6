//! Scripts out of a configuration source, which holds bytes under keys and may
//! have none for a key.
use vstd::prelude::*;

use crate::script::error::ScriptError;
use crate::text::{cat3, debug_quoted, decode};

verus! {

/// Why a configuration source failed.
#[derive(Debug, PartialEq, Eq)]
pub enum ConfigFailure {
    /// It cannot be watched.
    NotWatchable,
    /// Anything else, as a line of text.
    Other(String),
}

/// The complaint about a key.
pub open spec fn config_text(key: Seq<char>, what: Seq<char>) -> Seq<char> {
    "config source: key "@ + crate::text::debug_text(key) + what
}

/// `e` is the failure `failure`, in the terms of script sources.
pub open spec fn bridges(failure: ConfigFailure, e: ScriptError) -> bool {
    match failure {
        ConfigFailure::NotWatchable => e == ScriptError::CapabilityNotSupported,
        ConfigFailure::Other(cause) => e.says(cause@),
    }
}

/// A source that cannot be watched is told from any other failure, which keeps
/// its line of text.
pub proof fn failures_are_told_apart(failure: ConfigFailure, e: ScriptError)
    requires
        bridges(failure, e),
    ensures
        failure is NotWatchable <==> e == ScriptError::CapabilityNotSupported,
        failure matches ConfigFailure::Other(cause) ==> (e matches ScriptError::Failed(msg) && msg@
            == cause@),
{
}

/// A failure, in the terms of script sources.
pub fn bridge_error(failure: ConfigFailure) -> (r: ScriptError)
    ensures
        bridges(failure, r),
{
    match failure {
        ConfigFailure::NotWatchable => ScriptError::CapabilityNotSupported,
        ConfigFailure::Other(cause) => ScriptError::Failed(cause),
    }
}

fn config_error(key: &str, what: &str) -> (r: ScriptError)
    ensures
        r.says(config_text(key@, what@)),
{
    let quoted = debug_quoted(key);
    ScriptError::Failed(cat3("config source: key ", quoted.as_str(), what))
}

/// Takes what a configuration source answered to a load: bytes are a script if
/// they are UTF-8, and a key without bytes is a failure.
pub fn config_loaded(key: &str, answer: Result<Option<Vec<u8>>, ConfigFailure>) -> (r: Result<
    String,
    ScriptError,
>)
    ensures
        match answer {
            Ok(Some(bytes)) => if vstd::utf8::valid_utf8(bytes@) {
                r is Ok && r->Ok_0@ == vstd::utf8::decode_utf8(bytes@)
            } else {
                crate::script::error::fails(r, config_text(key@, " is not valid UTF-8"@))
            },
            Ok(None) => crate::script::error::fails(r, config_text(key@, " not found"@)),
            Err(failure) => r is Err && bridges(failure, r->Err_0),
        },
{
    match answer {
        Ok(Some(bytes)) => match decode(bytes) {
            Some(text) => Ok(text),
            None => Err(config_error(key, " is not valid UTF-8")),
        },
        Ok(None) => Err(config_error(key, " not found")),
        Err(failure) => Err(bridge_error(failure)),
    }
}

} // verus!
