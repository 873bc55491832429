//! Resolving a search request from the program's arguments.

use vstd::prelude::*;

verus! {

/// The message carried by the error for too few arguments.
pub const USAGE: &'static str = "You must enter in this order: query and filename";

/// What to search for, where, and whether case matters.
pub struct Config {
    pub query: String,
    pub filename: String,
    pub case_sensitive: bool,
}

impl Config {
    /// Reads the query and the file name from `args` (the program name first).
    /// `case_insensitive_set` tells whether the `CASE_INSENSITIVE` variable is
    /// present in the environment, whatever its value; matching is
    /// case-sensitive only when it is absent.
    pub fn new(args: &[String], case_insensitive_set: bool) -> (r: Result<Config, &'static str>)
        ensures
            r is Ok <==> args@.len() >= 3,
            r matches Ok(c) ==> c.query@ == args@[1]@ && c.filename@ == args@[2]@
                && c.case_sensitive == !case_insensitive_set,
            r matches Err(e) ==> e@ == USAGE@,
    {
        if args.len() < 3 {
            proof { reveal_strlit("You must enter in this order: query and filename"); }
            return Err(USAGE);
        }
        let query = args[1].clone();
        let filename = args[2].clone();
        let case_sensitive = !case_insensitive_set;
        Ok(Config { query, filename, case_sensitive })
    }
}

} // verus!
