//! The configured external editor: the command and arguments the session
//! launches on request. Running the process and juggling the terminal modes
//! around it is the caller's business.

use vstd::prelude::*;

use crate::config::Config;

verus! {

pub struct Editor {
    pub command: String,
    pub args: Vec<String>,
}

/// Copies a vector of strings element by element.
pub fn clone_string_vec(v: &Vec<String>) -> (r: Vec<String>)
    ensures
        r@ == v@,
{
    let mut out: Vec<String> = Vec::new();
    let mut i: usize = 0;
    while i < v.len()
        invariant
            0 <= i <= v@.len(),
            out@.len() == i,
            forall|k: int| 0 <= k < i ==> out@[k] == v@[k],
        decreases v@.len() - i,
    {
        out.push(v[i].clone());
        i = i + 1;
    }
    assert(out@ =~= v@);
    out
}

impl Editor {
    /// Takes the editor command and arguments from the configuration.
    pub fn new(config: &Config) -> (r: Editor)
        ensures
            r.command@ == config.editor@,
            r.args@ == config.editor_args@,
    {
        Editor { command: config.editor.clone(), args: clone_string_vec(&config.editor_args) }
    }

    /// The command to launch.
    pub fn command(&self) -> (r: &String)
        ensures
            r == self.command,
    {
        &self.command
    }

    /// The arguments to pass before the file path.
    pub fn args(&self) -> (r: &Vec<String>)
        ensures
            r == self.args,
    {
        &self.args
    }
}

} // verus!
