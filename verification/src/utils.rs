//! Helpers of the command-line application that compute on text.

use crate::env::{distinct_keys, parse_into, Entry, EnvMap};
use crate::error::{AppError, AppErrorView};
use crate::text::{
    after_last, chars_of, contains_word, join_path, joined, occurs, replace_all, replaced,
    start_after_last, text_between,
};
use vstd::prelude::*;

verus! {

/// Reads variables from text that a user wrote or pasted: one `KEY=VALUE` per
/// line, lines ended by a newline or by a carriage return and a newline.
/// Lines without `=` are skipped, a line is split at its first `=`, and a later
/// line replaces the value of an earlier one with the same key.
pub fn parse_envs_from_string(buffer: &str) -> (r: Result<EnvMap, AppError>)
    ensures
        r matches Ok(envs) && envs@ == parse_into(Seq::empty(), buffer@, true) && distinct_keys(
            envs@,
        ),
{
    Ok(EnvMap::parse(buffer, true))
}

/// The configuration file, relative to the home directory, of a shell whose
/// name holds `bash`, `zsh` or `fish`, looked for in this order.
pub open spec fn shell_config(shell: Seq<char>) -> Option<Seq<char>> {
    if occurs(shell, "bash"@) {
        Some(".bashrc"@)
    } else if occurs(shell, "zsh"@) {
        Some(".zshrc"@)
    } else if occurs(shell, "fish"@) {
        Some(".config/fish/config.fish"@)
    } else {
        None
    }
}

/// What [`get_shell_config_path`] returns for the value of `SHELL`, if it is
/// set, and the home directory.
pub open spec fn shell_config_path(shell: Option<Seq<char>>, home: Seq<char>) -> Result<
    Seq<char>,
    AppErrorView,
> {
    match shell {
        None => Err(AppErrorView::Msg("Failed to get SHELL environment variable"@)),
        Some(value) => match shell_config(after_last(value, '/')) {
            Some(file) => Ok(joined(home, file)),
            None => Err(AppErrorView::UnsupportedShell(after_last(value, '/'))),
        },
    }
}

/// The path of an `Ok`, the view of the error of an `Err`.
pub open spec fn text_outcome(r: Result<String, AppError>) -> Result<Seq<char>, AppErrorView> {
    match r {
        Ok(path) => Ok(path@),
        Err(e) => Err(e@),
    }
}

/// The configuration file of the user's shell, below the home directory.
///
/// `shell` is the value of the `SHELL` variable, if it is set. The shell's
/// name is what follows the last `/` of that value.
pub fn get_shell_config_path(shell: Option<&str>, home: &str) -> (r: Result<String, AppError>)
    ensures
        text_outcome(r) == shell_config_path(
            match shell {
                Some(value) => Some(value@),
                None => None,
            },
            home@,
        ),
{
    let value = match shell {
        Some(value) => value,
        None => {
            return Err(AppError::Msg("Failed to get SHELL environment variable".to_owned()));
        },
    };
    let chars = chars_of(value);
    let from = start_after_last(&chars, '/');
    let name = text_between(&chars, from, chars.len());
    let name_chars = chars_of(name.as_str());
    let file = if contains_word(&name_chars, &chars_of("bash")) {
        ".bashrc"
    } else if contains_word(&name_chars, &chars_of("zsh")) {
        ".zshrc"
    } else if contains_word(&name_chars, &chars_of("fish")) {
        ".config/fish/config.fish"
    } else {
        return Err(AppError::UnsupportedShell(name));
    };
    Ok(join_path(home, file))
}

/// `path` with every occurrence of the home directory written as `~`.
pub fn shorten_home(path: &str, home: &str) -> (short: String)
    ensures
        short@ == replaced(path@, home@, "~"@),
{
    replace_all(path, home, "~")
}

} // verus!
