use vstd::prelude::*;

verus! {

/// The document that a piece of source text comes from, named by its URI.
#[derive(Debug, PartialEq, Eq, Hash)]
pub struct DocLoc {
    pub uri: String,
}

impl DocLoc {
    /// Names the document with the given URI.
    pub fn new(uri: String) -> (doc_loc: DocLoc)
        ensures
            doc_loc.uri@ == uri@,
    {
        DocLoc { uri }
    }
}

impl Clone for DocLoc {
    fn clone(&self) -> (copy: Self)
        ensures
            copy == *self,
    {
        DocLoc { uri: self.uri.clone() }
    }
}

} // verus!
