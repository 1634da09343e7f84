use vstd::prelude::*;

verus! {

/// An error reported by the library, carrying a human-readable description.
#[derive(Debug)]
pub struct CerebroError {
    pub description: String,
}

impl CerebroError {
    pub fn new(msg: &str) -> (r: Self)
        ensures
            r.description@ == msg@,
    {
        CerebroError { description: msg.to_owned() }
    }

    /// The description, as `Display` would print it.
    pub fn to_string(&self) -> (r: String)
        ensures
            r@ == self.description@,
    {
        self.description.clone()
    }
}

} // verus!
