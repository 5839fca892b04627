//! The identity cache: which delivery endpoint stands for which author in
//! which destination channel.

use vstd::prelude::*;
use crate::str_map::StrMap;

verus! {

/// The cached impersonation endpoints, by destination channel and then by
/// source author.
pub struct Data {
    pub webhooks: StrMap<StrMap<String>>,
}

impl Data {
    /// Both levels of the cache are well-formed maps.
    pub open spec fn wf(&self) -> bool {
        &&& self.webhooks.wf()
        &&& forall|channel: Seq<char>| #[trigger]
            self.webhooks@.contains_key(channel) ==> self.webhooks@[channel].wf()
    }

    /// The endpoints by (destination channel, source author).
    pub open spec fn view(&self) -> Map<(Seq<char>, Seq<char>), Seq<char>> {
        Map::new(
            |k: (Seq<char>, Seq<char>)|
                self.webhooks@.contains_key(k.0) && self.webhooks@[k.0]@.contains_key(k.1),
            |k: (Seq<char>, Seq<char>)| self.webhooks@[k.0]@[k.1]@,
        )
    }

    /// The empty cache.
    pub fn new() -> (data: Self)
        ensures
            data.wf(),
            data@ == Map::<(Seq<char>, Seq<char>), Seq<char>>::empty(),
    {
        Data { webhooks: StrMap::new() }
    }

    /// The endpoint cached for `author` in `channel`.
    pub fn lookup(&self, channel: &str, author: &str) -> (r: Option<&String>)
        requires
            self.wf(),
        ensures
            r.is_some() == self@.contains_key((channel@, author@)),
            r.is_some() ==> r.unwrap()@ == self@[(channel@, author@)],
    {
        match self.webhooks.get(channel) {
            Some(authors) => authors.get(author),
            None => None,
        }
    }

    /// Caches `endpoint` for `author` in `channel`, in place of an earlier one.
    pub fn insert(&mut self, channel: &str, author: &str, endpoint: String)
        requires
            old(self).wf(),
        ensures
            final(self).wf(),
            final(self)@ == old(self)@.insert((channel@, author@), endpoint@),
    {
        let ghost before = *self;
        let mut authors = match self.webhooks.remove(channel) {
            Some(authors) => authors,
            None => StrMap::new(),
        };
        authors.insert(author.to_owned(), endpoint);
        self.webhooks.insert(channel.to_owned(), authors);
        proof {
            assert forall|c: Seq<char>| #[trigger]
                self.webhooks@.contains_key(c) implies self.webhooks@[c].wf() by {}
            assert forall|k: (Seq<char>, Seq<char>)| #[trigger]
                self@.contains_key(k) == before@.insert(
                    (channel@, author@),
                    endpoint@,
                ).contains_key(k) by {}
        }
    }
}

impl Default for Data {
    /// The empty cache.
    fn default() -> (data: Data)
        ensures
            data.wf(),
            data@ == Map::<(Seq<char>, Seq<char>), Seq<char>>::empty(),
    {
        Data::new()
    }
}

} // verus!
