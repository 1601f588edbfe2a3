//! Where profiles and configuration live.
//!
//! A configuration directory `.envio` may exist in the working directory (the
//! local scope) and in the user's home (the global scope); the local one wins
//! where it exists. Paths are text with `/` between their parts, joined by the
//! rule of `std::path::Path::join` on Unix. The library never touches the file
//! system: whether a path exists is asked of a probe that the caller hands in.

use crate::error::{AppError, AppErrorView};
use crate::text::{contains_char, has_char, join_path, joined, lowered, to_ascii_lower};
use vstd::prelude::*;
use vstd::string::StringExecFns;

verus! {

/// Which of the two configuration directories is meant.
#[derive(Debug, Clone, Copy, PartialEq, Eq, Structural)]
pub enum ConfigScope {
    /// Below the working directory.
    Local,
    /// Below the user's home.
    Global,
}

/// The scope that a word names, whatever the case of its letters.
pub open spec fn scope_of_word(word: Seq<char>) -> Option<ConfigScope> {
    if lowered(word) == "local"@ {
        Some(ConfigScope::Local)
    } else if lowered(word) == "global"@ {
        Some(ConfigScope::Global)
    } else {
        None
    }
}

impl ConfigScope {
    /// The word for the scope.
    pub fn as_str(&self) -> (word: &'static str)
        ensures
            word@ == self.word(),
    {
        match self {
            ConfigScope::Local => "local",
            ConfigScope::Global => "global",
        }
    }

    /// The word for the scope.
    pub open spec fn word(self) -> Seq<char> {
        match self {
            ConfigScope::Local => "local"@,
            ConfigScope::Global => "global"@,
        }
    }

    /// The scope that a word names: `local` or `global`, in any mix of upper
    /// and lower case.
    pub fn parse(word: &str) -> (scope: Option<ConfigScope>)
        ensures
            scope == scope_of_word(word@),
    {
        let lower = to_ascii_lower(word);
        if lower == "local".to_owned() {
            Some(ConfigScope::Local)
        } else if lower == "global".to_owned() {
            Some(ConfigScope::Global)
        } else {
            None
        }
    }
}

/// The two directories that the scopes start from.
#[derive(Debug, PartialEq, Eq)]
pub struct BaseDirs {
    /// The working directory of the process.
    pub cwd: String,
    /// The home directory of the user.
    pub home: String,
}

/// What a [`BaseDirs`] holds.
pub struct BaseDirsView {
    pub cwd: Seq<char>,
    pub home: Seq<char>,
}

impl View for BaseDirs {
    type V = BaseDirsView;

    open spec fn view(&self) -> BaseDirsView {
        BaseDirsView { cwd: self.cwd@, home: self.home@ }
    }
}

/// The configuration directory of a scope.
pub open spec fn config_dir(scope: ConfigScope, dirs: BaseDirsView) -> Seq<char> {
    match scope {
        ConfigScope::Local => joined(dirs.cwd, ".envio"@),
        ConfigScope::Global => joined(dirs.home, ".envio"@),
    }
}

/// The profile directory of a scope.
pub open spec fn profile_dir(scope: ConfigScope, dirs: BaseDirsView) -> Seq<char> {
    joined(config_dir(scope, dirs), "profiles"@)
}

/// The local scope where `local_exists`, the global one otherwise.
pub open spec fn scope_in_use(local_exists: bool) -> ConfigScope {
    if local_exists {
        ConfigScope::Local
    } else {
        ConfigScope::Global
    }
}

/// The file of the profile `name` below the directory `dir`: `name` with
/// `.env` behind it, joined to `dir`.
pub open spec fn profile_file(dir: Seq<char>, name: Seq<char>) -> Seq<char> {
    joined(dir, name + ".env"@)
}

/// The file of the profile `name` in the profile directory of `scope`.
pub open spec fn scoped_profile_file(
    scope: ConfigScope,
    dirs: BaseDirsView,
    name: Seq<char>,
) -> Seq<char> {
    profile_file(profile_dir(scope, dirs), name)
}

/// The probe was asked about a path with the text `path` and answered `found`.
pub open spec fn probed<P: Fn(&str) -> bool>(probe: &P, path: Seq<char>, found: bool) -> bool {
    exists|asked: &str| asked@ == path && call_ensures(*probe, (asked,), found)
}

/// The configuration directory of a scope.
pub fn config_dir_for(scope: ConfigScope, dirs: &BaseDirs) -> (path: String)
    ensures
        path@ == config_dir(scope, dirs@),
{
    match scope {
        ConfigScope::Local => join_path(dirs.cwd.as_str(), ".envio"),
        ConfigScope::Global => join_path(dirs.home.as_str(), ".envio"),
    }
}

/// The configuration directory in use: the local one where the probe finds
/// it, the global one otherwise.
pub fn get_config_dir<P: Fn(&str) -> bool>(dirs: &BaseDirs, exists: &P) -> (path: String)
    requires
        forall|asked: &str| call_requires(*exists, (asked,)),
    ensures
        exists|found: bool|
            probed(exists, config_dir(ConfigScope::Local, dirs@), found) && path@ == config_dir(
                scope_in_use(found),
                dirs@,
            ),
{
    let local = config_dir_for(ConfigScope::Local, dirs);
    let found = call_probe(exists, local.as_str());
    if found {
        local
    } else {
        config_dir_for(ConfigScope::Global, dirs)
    }
}

/// The profile directory of a scope.
pub fn profile_dir_for(scope: ConfigScope, dirs: &BaseDirs) -> (path: String)
    ensures
        path@ == profile_dir(scope, dirs@),
{
    let config = config_dir_for(scope, dirs);
    join_path(config.as_str(), "profiles")
}

/// The profile directory in use: the local one where the probe finds it, the
/// global one otherwise.
pub fn get_profile_dir<P: Fn(&str) -> bool>(dirs: &BaseDirs, exists: &P) -> (path: String)
    requires
        forall|asked: &str| call_requires(*exists, (asked,)),
    ensures
        exists|found: bool|
            probed(exists, profile_dir(ConfigScope::Local, dirs@), found) && path@ == profile_dir(
                scope_in_use(found),
                dirs@,
            ),
{
    let local = profile_dir_for(ConfigScope::Local, dirs);
    let found = call_probe(exists, local.as_str());
    if found {
        local
    } else {
        profile_dir_for(ConfigScope::Global, dirs)
    }
}

/// The shell script that sets the variables, in the configuration directory
/// in use.
pub fn get_shellscript_path<P: Fn(&str) -> bool>(dirs: &BaseDirs, exists: &P) -> (path: String)
    requires
        forall|asked: &str| call_requires(*exists, (asked,)),
    ensures
        exists|found: bool|
            probed(exists, config_dir(ConfigScope::Local, dirs@), found) && path@ == joined(
                config_dir(scope_in_use(found), dirs@),
                "setenv.sh"@,
            ),
{
    let config = get_config_dir(dirs, exists);
    join_path(config.as_str(), "setenv.sh")
}

/// Whether `s` holds a path separator of any platform: `/` or `\`.
pub fn contains_path_separator(s: &str) -> (found: bool)
    ensures
        found == (has_char(s@, '/') || has_char(s@, '\\')),
{
    contains_char(s, '/') || contains_char(s, '\\')
}

/// Asks the probe about one path.
fn call_probe<P: Fn(&str) -> bool>(probe: &P, path: &str) -> (found: bool)
    requires
        call_requires(*probe, (path,)),
    ensures
        probed(probe, path@, found),
{
    probe(path)
}

/// The path for a profile that need not exist yet: `<name>.env` in the
/// profile directory of the given scope, or of the scope in use where none is
/// given. A name that begins with `/` is an absolute path and stands alone,
/// without the directory, as it does for `Path::join`.
pub fn build_profile_path<P: Fn(&str) -> bool>(
    profile_name: &str,
    scope: Option<ConfigScope>,
    dirs: &BaseDirs,
    exists: &P,
) -> (path: String)
    requires
        forall|asked: &str| call_requires(*exists, (asked,)),
    ensures
        match scope {
            Some(scope) => path@ == scoped_profile_file(scope, dirs@, profile_name@),
            None => exists|found: bool|
                probed(exists, profile_dir(ConfigScope::Local, dirs@), found) && path@
                    == scoped_profile_file(scope_in_use(found), dirs@, profile_name@),
        },
{
    let mut file = profile_name.to_owned();
    file.append(".env");
    let dir = match scope {
        Some(scope) => profile_dir_for(scope, dirs),
        None => get_profile_dir(dirs, exists),
    };
    join_path(dir.as_str(), file.as_str())
}

/// What [`get_profile_path`] returns for a profile file at `path` of which the
/// probe says `found`.
pub open spec fn existing_profile(path: Seq<char>, name: Seq<char>, found: bool) -> Result<
    Seq<char>,
    AppErrorView,
> {
    if found {
        Ok(path)
    } else {
        Err(AppErrorView::ProfileDoesNotExist(name))
    }
}

/// The path of an `Ok`, the view of the error of an `Err`.
pub open spec fn path_outcome(r: Result<String, AppError>) -> Result<Seq<char>, AppErrorView> {
    match r {
        Ok(path) => Ok(path@),
        Err(e) => Err(e@),
    }
}

/// The path for a profile that must exist: the path that
/// [`build_profile_path`] gives where the probe finds it, and an error that
/// names the profile otherwise.
pub fn get_profile_path<P: Fn(&str) -> bool>(
    profile_name: &str,
    scope: Option<ConfigScope>,
    dirs: &BaseDirs,
    exists: &P,
) -> (r: Result<String, AppError>)
    requires
        forall|asked: &str| call_requires(*exists, (asked,)),
    ensures
        match scope {
            Some(scope) => exists|found: bool|
                #![trigger probed(exists, scoped_profile_file(scope, dirs@, profile_name@), found)]
                probed(exists, scoped_profile_file(scope, dirs@, profile_name@), found)
                    && path_outcome(r) == existing_profile(
                    scoped_profile_file(scope, dirs@, profile_name@),
                    profile_name@,
                    found,
                ),
            None => exists|local: bool, found: bool|
                #![trigger probed(
                    exists,
                    scoped_profile_file(scope_in_use(local), dirs@, profile_name@),
                    found,
                )]
                probed(exists, profile_dir(ConfigScope::Local, dirs@), local) && probed(
                    exists,
                    scoped_profile_file(scope_in_use(local), dirs@, profile_name@),
                    found,
                ) && path_outcome(r) == existing_profile(
                    scoped_profile_file(scope_in_use(local), dirs@, profile_name@),
                    profile_name@,
                    found,
                ),
        },
{
    let path = build_profile_path(profile_name, scope, dirs, exists);
    let found = call_probe(exists, path.as_str());
    if !found {
        return Err(AppError::ProfileDoesNotExist(profile_name.to_owned()));
    }
    Ok(path)
}

} // verus!
