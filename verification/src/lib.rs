//! A library of books and their authors, with clusters of author aliases, and
//! the state behind the window that edits it.
use vstd::prelude::*;

pub mod ids;
pub mod author_model;
pub mod book_model;
pub mod library_model;
pub mod aka;
pub mod text;
pub mod library_window;

verus! {

/// The start-up configuration taken from the command line.
pub struct Config {
    argstr: String,
}

impl View for Config {
    type V = Seq<char>;

    /// The argument the configuration holds.
    closed spec fn view(&self) -> Seq<char> {
        self.argstr@
    }
}

impl Config {
    /// The configuration from the command line `args`, program name first:
    /// the argument after it, or nothing when there is none. Refuses an
    /// empty command line, which lacks even the program name.
    pub fn build(args: Vec<String>) -> (r: Result<Config, &'static str>)
        ensures
            match r {
                Ok(config) => {
                    &&& args@.len() > 0
                    &&& config@ == if args@.len() > 1 { args@[1]@ } else { Seq::<char>::empty() }
                },
                Err(e) => args@.len() == 0 && e@ == "No program name??"@,
            },
    {
        if args.len() == 0 {
            return Err("No program name??");
        }
        let argstr = if args.len() > 1 {
            args[1].clone()
        } else {
            String::new()
        };
        Ok(Config { argstr })
    }

    /// The argument the configuration was built from, or the empty string.
    pub fn argstr(&self) -> (r: &str)
        ensures
            r@ == self@,
    {
        self.argstr.as_str()
    }
}

} // verus!
