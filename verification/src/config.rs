use vstd::prelude::*;

verus! {

/// Command-line configuration: the path of the image to convert.
pub struct Config {
    pub path: String,
}

impl Config {
    /// Reads the image path from the argument list.  The first argument is
    /// the program name; the second is the path.  A list holding only the
    /// program name has no path to read and is outside the contract, so
    /// callers reject it first.
    pub fn new(args: &[String]) -> (r: Result<Config, &'static str>)
        requires
            args@.len() != 1,
        ensures
            match r {
                Ok(c) => args@.len() >= 2 && c.path@ == args@[1]@,
                Err(m) => args@.len() == 0 && m@ == "Not enough arguments"@,
            },
    {
        if args.len() < 1 {
            return Err("Not enough arguments");
        }

        let path = args[1].clone();

        Ok(Config { path })
    }
}

} // verus!
