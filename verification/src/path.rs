//! Where the store file lies: at the path that the user gave, or else in the
//! home directory of the user.

use vstd::prelude::*;

verus! {

/// The path of the store file in a home directory.
pub open spec fn default_path_spec(home: Seq<char>) -> Seq<char> {
    home + "/.todo"@
}

/// The path of the store file: the one that was given, or else the one in
/// the home directory, where there is a home directory.
pub open spec fn path_spec(explicit: Option<Seq<char>>, home: Option<Seq<char>>) -> Option<
    Seq<char>,
> {
    match (explicit, home) {
        (Some(path), _) => Some(path),
        (None, Some(home)) => Some(default_path_spec(home)),
        (None, None) => None,
    }
}

/// The characters of a string that may be missing.
pub open spec fn text_of(string: Option<String>) -> Option<Seq<char>> {
    match string {
        Some(s) => Some(s@),
        None => None,
    }
}

/// `dirs::home_dir`: the home directory of the user, as the environment and
/// the system's user database give it, or `None` where neither gives one. The
/// path is handed on as text. Nothing is claimed of the result.
#[verifier::external_body]
fn home_dir() -> (home: Option<String>) {
    match dirs::home_dir() {
        Some(home) => Some(home.display().to_string()),
        None => None,
    }
}

/// The path of the store file in the home directory `home`.
pub fn default_path(home: &str) -> (path: String)
    ensures
        path@ == default_path_spec(home@),
{
    let mut path = home.to_owned();
    path.append("/.todo");
    path
}

/// Picks the path of the store file, given the path that the user asked for
/// and the home directory, each of which may be missing.
pub fn path_from(explicit: Option<String>, home: Option<String>) -> (path: Option<String>)
    ensures
        text_of(path) == path_spec(text_of(explicit), text_of(home)),
{
    match explicit {
        Some(path) => Some(path),
        None => match home {
            Some(home) => Some(default_path(home.as_str())),
            None => None,
        },
    }
}

/// The path of the store file for this user. A path that was asked for is
/// taken as it is, and the home directory is then not looked up. Without one,
/// the path is the default one in the home directory of the user, whichever
/// that is, and there is none where the user has no home directory.
pub fn resolve_path(explicit: Option<String>) -> (path: Option<String>)
    ensures
        explicit is Some ==> path == explicit,
        explicit is None ==> (path matches Some(p) ==> exists|home: Seq<char>|
            p@ == default_path_spec(home)),
{
    match explicit {
        Some(path) => Some(path),
        None => {
            let home = home_dir();
            let path = path_from(None, home);
            proof {
                if path is Some {
                    assert(path->0@ == default_path_spec(home->0@));
                }
            }
            path
        },
    }
}

} // verus!
