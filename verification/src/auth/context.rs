//! What can be asked of the surroundings.
use vstd::prelude::*;
use crate::auth::types::AuthContext;
use crate::dict;
use crate::dict::Dict;
use crate::paths;
use crate::paths::join_path;
use crate::text;
use crate::text::strip_prefix;
use crate::views;

verus! {

/// A path with the home directory in the place of a leading `~/`, where it is known.
pub open spec fn expanded(path: Seq<char>, home: Option<Seq<char>>) -> Seq<char> {
    match (text::after_prefix(path, "~/"@), home) {
        (Some(rest), Some(h)) => paths::joined_path(h, rest),
        _ => path,
    }
}

/// A path with the home directory in the place of a leading `~/`.
pub fn expand_home(path: &str, home: Option<&str>) -> (r: String)
    ensures
        r@ == expanded(path@, views::opt(home)),
{
    match (strip_prefix(path, "~/"), home) {
        (Some(rest), Some(h)) => join_path(h, rest.as_str()),
        _ => path.to_owned(),
    }
}

/// The surroundings as they were found: the variables that are set, and the paths
/// that exist.
pub struct DefaultAuthContext {
    pub variables: Dict<String>,
    pub existing: Vec<String>,
}

impl AuthContext for DefaultAuthContext {
    /// The value of a variable.
    fn env(&self, name: &str) -> (r: Option<String>)
        ensures
            views::opt(r) == (if dict::texts(self.variables@).contains_key(name@) {
                Some(dict::texts(self.variables@)[name@])
            } else {
                None
            }),
    {
        match self.variables.get_text(name) {
            Some(v) => Some(v.to_owned()),
            None => None,
        }
    }

    /// Whether a path exists; a leading `~/` stands for the home directory.
    fn file_exists(&self, path: &str) -> (r: bool)
        ensures
            r == views::all(self.existing@).contains(
                expanded(
                    path@,
                    if dict::texts(self.variables@).contains_key("HOME"@) {
                        Some(dict::texts(self.variables@)["HOME"@])
                    } else {
                        None
                    },
                ),
            ),
    {
        let full: String = expand_home(path, self.variables.get_text("HOME"));
        text::is_one_of(&self.existing, full.as_str())
    }
}

/// The surroundings, given the variables that are set and the paths that exist.
pub fn default_provider_auth_context(variables: Dict<String>, existing: Vec<String>) -> (r:
    DefaultAuthContext)
    ensures
        r.variables == variables,
        r.existing == existing,
{
    DefaultAuthContext { variables, existing }
}

/// A path in the home directory is found there; any other stays as it is, and so does every path
/// where the home directory is not known.
pub proof fn law_home_is_filled_in(rest: Seq<char>, path: Seq<char>, home: Seq<char>)
    ensures
        expanded("~/"@ + rest, Some(home)) == paths::joined_path(home, rest),
        !text::begins(path, "~/"@) ==> expanded(path, Some(home)) == path,
        expanded(path, None) == path,
{
    let p = "~/"@ + rest;
    assert(p.take("~/"@.len() as int) =~= "~/"@);
    assert(p.skip("~/"@.len() as int) =~= rest);
}

} // verus!
