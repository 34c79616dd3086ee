//! A builder of trees from a directory, holding the directory's path.
use vstd::prelude::*;

verus! {

/// The directory from which a tree is built.
pub struct TreeBuilder<'a>(&'a str);

impl<'a> View for TreeBuilder<'a> {
    type V = Seq<char>;

    /// The path of the directory.
    closed spec fn view(&self) -> Seq<char> {
        self.0@
    }
}

impl<'a> TreeBuilder<'a> {
    /// A builder for the directory at `path`.
    pub fn new(path: &'a str) -> (b: Self)
        ensures
            b@ == path@,
    {
        TreeBuilder(path)
    }
}

} // verus!
