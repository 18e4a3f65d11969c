//! The command line: one positional argument, the path of the image.

use vstd::prelude::*;

verus! {

/// What the command line asked for.
pub struct Config {
    file_path: String,
}

impl Config {
    /// The path of the image to play.
    pub closed spec fn path(self) -> Seq<char> {
        self.file_path@
    }

    /// Reads the arguments as the operating system hands them over: the
    /// program's name first, then the image path. Anything after the path is
    /// ignored.
    pub fn new(args: &[String]) -> (result: Result<Config, &str>)
        ensures
            args@.len() < 2 <==> result is Err,
            result matches Err(message) ==> message@ == "not enough arguments"@,
            result matches Ok(config) ==> config.path() == args@[1]@,
    {
        if args.len() < 2 {
            Err("not enough arguments")
        } else {
            Ok(Config { file_path: args[1].clone() })
        }
    }

    /// The path of the image to play.
    pub fn file_path(&self) -> (path: &str)
        ensures
            path@ == self.path(),
    {
        self.file_path.as_str()
    }
}

} // verus!
