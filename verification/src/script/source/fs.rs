//! Scripts in a tree of names that does not change.
use vstd::prelude::*;

use crate::script::error::ScriptError;
use crate::text::{cat, cat3, chars_of, debug_quoted, strip_prefix};

verus! {

/// A tree of names with contents, supplied by the caller. It is a pure lookup:
/// what stands under a name does not change.
pub trait StaticTree {
    /// What stands under a name.
    fn read(&self, path: &str) -> Option<String>;
}

/// The source that looks keys up in a tree, all under one prefix.
pub struct FileSystemSource<T> {
    pub tree: T,
    pub prefix: String,
}

/// A text without the slash that it may begin with.
pub open spec fn unslashed(s: Seq<char>) -> Seq<char> {
    if s.len() > 0 && s[0] == '/' {
        s.skip(1)
    } else {
        s
    }
}

/// A prefix in its normal form: no slash at the front, one at the end unless it
/// is empty.
pub open spec fn normal_prefix(s: Seq<char>) -> Seq<char> {
    let p = unslashed(s);
    if p.len() > 0 && p.last() != '/' {
        p + "/"@
    } else {
        p
    }
}

/// A prefix comes out without a slash at the front, and with a slash at its end
/// where anything is left of it. A slash at either end makes no difference, and
/// what is between stays as it is.
pub proof fn slashes_make_no_difference(s: Seq<char>)
    requires
        s.len() > 0,
        s[0] != '/',
        s.last() != '/',
    ensures
        normal_prefix(s) == s + seq!['/'],
        normal_prefix(s + seq!['/']) == s + seq!['/'],
        normal_prefix(seq!['/'] + s) == s + seq!['/'],
        normal_prefix(seq!['/'] + s + seq!['/']) == s + seq!['/'],
        normal_prefix(Seq::empty()).len() == 0,
        normal_prefix(seq!['/']).len() == 0,
        unslashed(s) == s,
        unslashed(seq!['/'] + s) == s,
{
    reveal_strlit("/");
    assert("/"@ =~= seq!['/']);
    assert((seq!['/'] + s).skip(1) =~= s);
    assert((seq!['/'] + s + seq!['/']).skip(1) =~= s + seq!['/']);
    assert(seq!['/'].skip(1) =~= Seq::empty());
}

fn without_slash(s: &str) -> (r: String)
    ensures
        r@ == unslashed(s@),
{
    proof {
        reveal_strlit("/");
    }
    match strip_prefix(s, "/") {
        Some(rest) => {
            assert(s@.skip(1) =~= rest@);
            assert(s@[0] == '/');
            rest
        },
        None => {
            proof {
                if s@.len() > 0 && s@[0] == '/' {
                    assert("/"@ =~= s@.take(1));
                    assert("/"@.is_prefix_of(s@));
                }
            }
            s.to_owned()
        },
    }
}

/// A key is looked up under the prefix, with a slash in front or without; what
/// the tree holds there is the script, and what it does not hold is a failure.
pub proof fn key_is_looked_up_under_the_prefix<T: StaticTree>(
    source: FileSystemSource<T>,
    key: Seq<char>,
    found: Option<String>,
    r: Result<String, ScriptError>,
)
    requires
        source.gives(key, found, r),
    ensures
        found matches Some(code) ==> r == Ok::<String, ScriptError>(code),
        found is None ==> r is Err,
        key.len() == 0 || key[0] != '/' ==> source.full_name(key) == source.prefix@ + key
            && source.full_name(seq!['/'] + key) == source.prefix@ + key,
{
    assert((seq!['/'] + key).skip(1) =~= key);
}

impl<T: StaticTree> FileSystemSource<T> {
    /// The name that a key is looked up under.
    pub open spec fn full_name(&self, key: Seq<char>) -> Seq<char> {
        self.prefix@ + unslashed(key)
    }

    /// `r` is what a load of a key gives, the tree holding `found` under its full
    /// name.
    pub open spec fn gives(
        &self,
        key: Seq<char>,
        found: Option<String>,
        r: Result<String, ScriptError>,
    ) -> bool {
        match found {
            Some(code) => r == Ok::<String, ScriptError>(code),
            None => crate::script::error::fails(
                r,
                "fs source: read "@ + crate::text::debug_text(self.full_name(key)) + ": not found"@,
            ),
        }
    }

    /// The source over a tree, without a prefix.
    pub fn new(tree: T) -> (r: Self)
        ensures
            r.tree == tree,
            r.prefix@ == Seq::<char>::empty(),
    {
        FileSystemSource { tree, prefix: String::new() }
    }

    /// Sets the prefix, in its normal form.
    pub fn with_prefix(self, prefix: &str) -> (r: Self)
        ensures
            r.tree == self.tree,
            r.prefix@ == normal_prefix(prefix@),
    {
        let p = without_slash(prefix);
        let chars = chars_of(p.as_str());
        let n: usize = chars.len();
        if n > 0 && chars[n - 1] != '/' {
            return FileSystemSource { tree: self.tree, prefix: cat(p.as_str(), "/") };
        }
        FileSystemSource { tree: self.tree, prefix: p }
    }

    /// The script of a key, the tree holding `found` under its full name.
    pub fn found(&self, key: &str, found: Option<String>) -> (r: Result<String, ScriptError>)
        ensures
            self.gives(key@, found, r),
    {
        match found {
            Some(code) => Ok(code),
            None => {
                let full = self.path_of(key);
                let quoted = debug_quoted(full.as_str());
                Err(ScriptError::Failed(cat3("fs source: read ", quoted.as_str(), ": not found")))
            },
        }
    }

    /// The name that a key is looked up under.
    pub fn path_of(&self, key: &str) -> (r: String)
        ensures
            r@ == self.full_name(key@),
    {
        let rest = without_slash(key);
        cat(self.prefix.as_str(), rest.as_str())
    }

    /// The script of a key: what the tree reads under its full name.
    pub fn load(&self, key: &str) -> (r: Result<String, ScriptError>)
        ensures
            exists|path: &str, found: Option<String>|
                path@ == self.full_name(key@) && #[trigger] call_ensures(
                    T::read,
                    (&self.tree, path),
                    found,
                ) && self.gives(key@, found, r),
    {
        let full = self.path_of(key);
        let path = full.as_str();
        let found = self.tree.read(path);
        let ghost seen = found;
        assert(call_ensures(T::read, (&self.tree, path), seen));
        self.found(key, found)
    }
}

} // verus!
