use vstd::prelude::*;

verus! {

/// The local-filesystem backend: every path it is given is taken below its
/// working directory, which starts at the library's root.
#[derive(Clone, Debug)]
pub struct LocalFs {
    pub pwd: String,
}

impl LocalFs {
    pub fn new(start: String) -> (r: LocalFs)
        ensures
            r.pwd@ == start@,
    {
        LocalFs { pwd: start }
    }
}

} // verus!
