//! The texts of the open documents, by their identifiers.

use crate::key_map::{as_map, KeyMap};
use vstd::prelude::*;

verus! {

/// What is kept of an open document.
#[derive(Debug)]
pub struct StorageItems {
    pub document: String,
}

impl Clone for StorageItems {
    fn clone(&self) -> (r: Self)
        ensures
            r == *self,
    {
        StorageItems { document: self.document.clone() }
    }
}

/// The open documents.
pub struct DocumentStore {
    inner: KeyMap<String, StorageItems>,
}

impl View for DocumentStore {
    type V = Map<Seq<char>, Seq<char>>;

    /// The text of each open document.
    closed spec fn view(&self) -> Map<Seq<char>, Seq<char>> {
        Map::new(
            |k: Seq<char>| as_map(self.inner@).dom().contains(k),
            |k: Seq<char>| as_map(self.inner@)[k].document@,
        )
    }
}

impl DocumentStore {
    pub fn new() -> (s: Self)
        ensures
            s@ == Map::<Seq<char>, Seq<char>>::empty(),
    {
        let s = DocumentStore { inner: KeyMap::new() };
        assert(s@ =~= Map::<Seq<char>, Seq<char>>::empty());
        s
    }

    /// Keeps `content` for the document `url`, in place of what was kept.
    pub fn insert(&mut self, url: &str, content: String)
        ensures
            final(self)@ == old(self)@.insert(url@, content@),
    {
        let item = StorageItems { document: content };
        self.inner.insert(url.to_owned(), item);
        assert(self@ =~= old(self)@.insert(url@, content@));
    }

    /// What is kept for the document `url`.
    pub fn get(&self, url: &str) -> (r: Option<StorageItems>)
        ensures
            match r {
                Some(item) => self@.dom().contains(url@) && self@[url@] == item.document@,
                None => !self@.dom().contains(url@),
            },
    {
        match self.inner.get(&url.to_owned()) {
            Some(item) => Some(item.clone()),
            None => None,
        }
    }

    /// Forgets every document.
    pub fn clear(&mut self)
        ensures
            final(self)@ == Map::<Seq<char>, Seq<char>>::empty(),
    {
        self.inner.clear();
        assert(self@ =~= Map::<Seq<char>, Seq<char>>::empty());
    }
}

} // verus!
