//! A project as a tree of dependencies that refer to one another.

use crate::purl::Purl;
use vstd::prelude::*;

verus! {

/// A package with the dependencies that it pulls in directly.
#[derive(Debug)]
pub struct Dependency<'a> {
    pub purl: Purl,
    pub children: Vec<&'a Dependency<'a>>,
}

impl<'a> Dependency<'a> {
    /// Adds `child` behind the children that are there.
    pub fn add_child(&mut self, child: &'a Dependency<'a>)
        ensures
            final(self).purl == old(self).purl,
            final(self).children@ == old(self).children@.push(child),
    {
        self.children.push(child);
    }

    /// Moves `children` behind the children that are there.
    pub fn add_children(&mut self, children: &mut Vec<&'a Dependency<'a>>)
        ensures
            final(self).purl == old(self).purl,
            final(self).children@ == old(self).children@ + old(children)@,
            final(children)@ == Seq::<&'a Dependency<'a>>::empty(),
    {
        self.children.append(children);
    }
}

} // verus!
