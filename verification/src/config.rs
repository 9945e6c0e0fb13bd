//! The session's configuration: editor command, hidden-file default, preview
//! line cap, and theme name, with the documented defaults. Loading and
//! parsing the configuration file is the caller's business; this module
//! holds the values and the checks on them.

use vstd::prelude::*;

use crate::text::{contains_seq, str_contains};

verus! {

#[derive(Debug)]
pub struct Config {
    pub editor: String,
    pub editor_args: Vec<String>,
    pub show_hidden: bool,
    pub preview_max_lines: usize,
    pub theme: String,
}

/// The default editor command.
pub fn default_editor() -> (r: String)
    ensures
        r@ == "vim"@,
{
    String::from_str("vim")
}

/// The default editor arguments: none.
pub fn default_editor_args() -> (r: Vec<String>)
    ensures
        r@.len() == 0,
{
    Vec::new()
}

/// Hidden files start out hidden.
pub fn default_show_hidden() -> (r: bool)
    ensures
        r == false,
{
    false
}

/// The default cap on previewed lines.
pub fn default_preview_max_lines() -> (r: usize)
    ensures
        r == 1000,
{
    1000
}

/// The default highlighting theme name.
pub fn default_theme() -> (r: String)
    ensures
        r@ == "base16-ocean.dark"@,
{
    String::from_str("base16-ocean.dark")
}

impl Default for Config {
    /// The configuration used when no file supplies one.
    fn default() -> (r: Config)
        ensures
            r.editor@ == "vim"@,
            r.editor_args@.len() == 0,
            r.show_hidden == false,
            r.preview_max_lines == 1000,
            r.theme@ == "base16-ocean.dark"@,
    {
        Config {
            editor: default_editor(),
            editor_args: default_editor_args(),
            show_hidden: default_show_hidden(),
            preview_max_lines: default_preview_max_lines(),
            theme: default_theme(),
        }
    }
}

/// What went wrong while loading a configuration file; each variant carries
/// the underlying error rendered as text.
#[derive(Debug)]
pub enum ConfigError {
    Read(String),
    Parse(String),
}

impl ConfigError {
    /// The user-visible description of the error.
    pub fn message(&self) -> (r: String)
        ensures
            match self {
                ConfigError::Read(d) => r@ == "Failed to read config: "@ + d@,
                ConfigError::Parse(d) => r@ == "Failed to parse config: "@ + d@,
            },
    {
        match self {
            ConfigError::Read(d) => {
                let mut s = String::from_str("Failed to read config: ");
                s.append(d.as_str());
                s
            },
            ConfigError::Parse(d) => {
                let mut s = String::from_str("Failed to parse config: ");
                s.append(d.as_str());
                s
            },
        }
    }
}

/// A command string holds one of the shell metacharacters the loader warns
/// about.
pub open spec fn has_dangerous_pattern(s: Seq<char>) -> bool {
    ||| contains_seq(s, "$("@)
    ||| contains_seq(s, "`"@)
    ||| contains_seq(s, ";"@)
    ||| contains_seq(s, "&&"@)
    ||| contains_seq(s, "||"@)
    ||| contains_seq(s, "|"@)
    ||| contains_seq(s, ">"@)
    ||| contains_seq(s, "<"@)
}

/// Scans a command string for the shell metacharacters the loader warns
/// about.
pub fn contains_dangerous_pattern(s: &str) -> (r: bool)
    ensures
        r == has_dangerous_pattern(s@),
{
    if str_contains(s, "$(") {
        return true;
    }
    if str_contains(s, "`") {
        return true;
    }
    if str_contains(s, ";") {
        return true;
    }
    if str_contains(s, "&&") {
        return true;
    }
    if str_contains(s, "||") {
        return true;
    }
    if str_contains(s, "|") {
        return true;
    }
    if str_contains(s, ">") {
        return true;
    }
    if str_contains(s, "<") {
        return true;
    }
    false
}

impl Config {
    /// Whether the configured editor command or any of its arguments holds a
    /// pattern worth a warning.
    pub fn editor_has_warnings(&self) -> (r: bool)
        ensures
            r == (has_dangerous_pattern(self.editor@) || exists|i: int|
                0 <= i < self.editor_args@.len() && has_dangerous_pattern(
                    (#[trigger] self.editor_args@[i])@,
                )),
    {
        if contains_dangerous_pattern(self.editor.as_str()) {
            return true;
        }
        let mut i: usize = 0;
        while i < self.editor_args.len()
            invariant
                0 <= i <= self.editor_args@.len(),
                forall|k: int|
                    0 <= k < i ==> !has_dangerous_pattern((#[trigger] self.editor_args@[k])@),
            decreases self.editor_args@.len() - i,
        {
            if contains_dangerous_pattern(self.editor_args[i].as_str()) {
                return true;
            }
            i = i + 1;
        }
        false
    }

    /// Checks the editor command; dangerous-looking patterns only warrant a
    /// warning (see `editor_has_warnings`), so validation always passes.
    pub fn validate_editor(&self) -> (r: Result<(), ConfigError>)
        ensures
            r is Ok,
    {
        Ok(())
    }
}

} // verus!
