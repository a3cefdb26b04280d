//! A small runtime for command-line front ends: a console to print on and a
//! directory of prompt files.

use vstd::prelude::*;
use crate::paths::{join_path, path_join};

verus! {

/// Where a front end prints.
pub trait Console {
    fn print_line(&mut self, s: &str);

    fn print(&mut self, s: &str);
}

/// A console and the directory the prompts are read from.
pub struct Runtime<'a, C: Console> {
    console: &'a mut C,
    prompts_dir: String,
}

impl<'a, C: Console> Runtime<'a, C> {
    /// A runtime printing on `console`, with prompts in `prompts_dir`.
    pub fn new(console: &'a mut C, prompts_dir: String) -> (r: Self)
        ensures
            r.dir() == prompts_dir@,
            r.console_value() == *old(console),
    {
        Runtime { console, prompts_dir }
    }

    /// The prompts directory.
    pub closed spec fn dir(&self) -> Seq<char> {
        self.prompts_dir@
    }

    /// The prompts directory.
    pub fn prompts_dir(&self) -> (r: &str)
        ensures
            r@ == self.dir(),
    {
        self.prompts_dir.as_str()
    }

    /// The file of the prompt `name`.
    pub fn prompt_path(&self, name: &str) -> (r: String)
        ensures
            r@ == path_join(self.dir(), name@ + ".md"@),
    {
        let file = String::from_str(name).concat(".md");
        join_path(self.prompts_dir.as_str(), file.as_str())
    }

    /// The console the runtime prints on.
    pub closed spec fn console_value(&self) -> C {
        *self.console
    }

    /// The console, to print on; what is done through it is what the runtime
    /// holds afterwards, and the prompts directory stays.
    pub fn console_mut(&mut self) -> (r: &mut C)
        ensures
            *r == old(self).console_value(),
            final(self).console_value() == *final(r),
            final(self).dir() == old(self).dir(),
    {
        self.console
    }
}

} // verus!
