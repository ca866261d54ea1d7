//! The open documents of the language server, keyed by URI.
use vstd::prelude::*;
use crate::query::str_eq;

verus! {

/// Contents of the open documents, keyed by URI.
pub struct DocumentStore {
    docs: Vec<(String, String)>,
    contents: Ghost<Map<Seq<char>, Seq<char>>>,
}

impl View for DocumentStore {
    type V = Map<Seq<char>, Seq<char>>;

    closed spec fn view(&self) -> Map<Seq<char>, Seq<char>> {
        self.contents@
    }
}

impl Default for DocumentStore {
    /// An empty store.
    fn default() -> (s: Self)
        ensures
            s.wf(),
            s@ == Map::<Seq<char>, Seq<char>>::empty(),
    {
        DocumentStore::new()
    }
}

impl DocumentStore {
    /// Each URI appears once, and the entries are exactly the map's.
    pub closed spec fn wf(&self) -> bool {
        &&& forall|i: int, j: int|
            0 <= i < j < self.docs@.len() ==> self.docs@[i].0@ != self.docs@[j].0@
        &&& forall|i: int|
            0 <= i < self.docs@.len() ==> self.contents@.contains_key(#[trigger] self.docs@[i].0@)
                && self.contents@[self.docs@[i].0@] == self.docs@[i].1@
        &&& forall|k: Seq<char>|
            self.contents@.contains_key(k) ==> exists|i: int|
                0 <= i < self.docs@.len() && #[trigger] self.docs@[i].0@ == k
    }

    /// An empty store.
    pub fn new() -> (s: Self)
        ensures
            s.wf(),
            s@ == Map::<Seq<char>, Seq<char>>::empty(),
    {
        DocumentStore { docs: Vec::new(), contents: Ghost(Map::empty()) }
    }

    /// Position of the entry for `uri`, if there is one.
    fn position(&self, uri: &str) -> (r: Option<usize>)
        requires
            self.wf(),
        ensures
            match r {
                Some(i) => i < self.docs@.len() && self.docs@[i as int].0@ == uri@,
                None => !self@.contains_key(uri@),
            },
    {
        let mut i: usize = 0;
        while i < self.docs.len()
            invariant
                0 <= i <= self.docs@.len(),
                forall|k: int| 0 <= k < i ==> self.docs@[k].0@ != uri@,
            decreases self.docs.len() - i,
        {
            if str_eq(self.docs[i].0.as_str(), uri) {
                return Some(i);
            }
            i += 1;
        }
        None
    }

    /// Records `text` as the contents of `uri`.
    pub fn update(&mut self, uri: &str, text: String)
        requires
            old(self).wf(),
        ensures
            final(self).wf(),
            final(self)@ == old(self)@.insert(uri@, text@),
    {
        let ghost new_map = self.contents@.insert(uri@, text@);
        match self.position(uri) {
            Some(i) => {
                let key = self.docs[i].0.clone();
                self.docs.set(i, (key, text));
                self.contents = Ghost(new_map);
                assert forall|a: int| 0 <= a < self.docs@.len() implies self.docs@[a].0@
                    == old(self).docs@[a].0@ by {}
                assert forall|a: int|
                    0 <= a < self.docs@.len() implies self.contents@.contains_key(
                    #[trigger] self.docs@[a].0@,
                ) && self.contents@[self.docs@[a].0@] == self.docs@[a].1@ by {
                    if a != i {
                        assert(old(self).docs@[a].0@ != uri@);
                    }
                }
                assert forall|k: Seq<char>| self.contents@.contains_key(k) implies exists|j: int|
                    0 <= j < self.docs@.len() && #[trigger] self.docs@[j].0@ == k by {
                    if k != uri@ {
                        let j = choose|j: int|
                            0 <= j < old(self).docs@.len() && #[trigger] old(self).docs@[j].0@ == k;
                        assert(self.docs@[j].0@ == k);
                    } else {
                        assert(self.docs@[i as int].0@ == k);
                    }
                }
            },
            None => {
                let key = String::from_str(uri);
                self.docs.push((key, text));
                self.contents = Ghost(new_map);
                let ghost n = old(self).docs@.len() as int;
                assert forall|a: int| 0 <= a < n implies old(self).docs@[a].0@ != uri@ by {
                    assert(old(self).contents@.contains_key(old(self).docs@[a].0@));
                }
                assert forall|a: int| 0 <= a < n implies self.docs@[a] == old(self).docs@[a] by {}
                assert(self.docs@[n].0@ == uri@);
                assert forall|a: int, b: int|
                    0 <= a < b < self.docs@.len() implies self.docs@[a].0@ != self.docs@[b].0@ by {
                    if b < n {
                        assert(old(self).docs@[a].0@ != old(self).docs@[b].0@);
                    }
                }
                assert forall|a: int|
                    0 <= a < self.docs@.len() implies self.contents@.contains_key(
                    #[trigger] self.docs@[a].0@,
                ) && self.contents@[self.docs@[a].0@] == self.docs@[a].1@ by {
                    if a < n {
                        assert(old(self).contents@.contains_key(old(self).docs@[a].0@));
                    }
                }
                assert forall|k: Seq<char>| self.contents@.contains_key(k) implies exists|j: int|
                    0 <= j < self.docs@.len() && #[trigger] self.docs@[j].0@ == k by {
                    if k != uri@ {
                        let j = choose|j: int|
                            0 <= j < old(self).docs@.len() && #[trigger] old(self).docs@[j].0@ == k;
                        assert(self.docs@[j].0@ == k);
                    } else {
                        assert(self.docs@[self.docs@.len() - 1].0@ == k);
                    }
                }
            },
        }
    }

    /// Forgets the contents of `uri`.
    pub fn close(&mut self, uri: &str)
        requires
            old(self).wf(),
        ensures
            final(self).wf(),
            final(self)@ == old(self)@.remove(uri@),
    {
        let ghost new_map = self.contents@.remove(uri@);
        match self.position(uri) {
            Some(i) => {
                self.docs.remove(i);
                self.contents = Ghost(new_map);
                assert forall|a: int, b: int|
                    0 <= a < b < self.docs@.len() implies self.docs@[a].0@ != self.docs@[b].0@ by {
                    let oa = if a < i { a } else { a + 1 };
                    let ob = if b < i { b } else { b + 1 };
                    assert(self.docs@[a] == old(self).docs@[oa]);
                    assert(self.docs@[b] == old(self).docs@[ob]);
                }
                assert forall|a: int| 0 <= a < self.docs@.len() implies self.contents@.contains_key(
                    #[trigger] self.docs@[a].0@,
                ) && self.contents@[self.docs@[a].0@] == self.docs@[a].1@ by {
                    let oa = if a < i { a } else { a + 1 };
                    assert(self.docs@[a] == old(self).docs@[oa]);
                }
                assert forall|k: Seq<char>| self.contents@.contains_key(k) implies exists|j: int|
                    0 <= j < self.docs@.len() && #[trigger] self.docs@[j].0@ == k by {
                    let j = choose|j: int|
                        0 <= j < old(self).docs@.len() && #[trigger] old(self).docs@[j].0@ == k;
                    assert(j != i);
                    let nj = if j < i { j } else { j - 1 };
                    assert(self.docs@[nj] == old(self).docs@[j]);
                }
            },
            None => {
                assert(new_map =~= self.contents@);
            },
        }
    }

    /// The contents recorded for `uri`, if any.
    pub fn get(&self, uri: &str) -> (r: Option<String>)
        requires
            self.wf(),
        ensures
            match r {
                Some(t) => self@.contains_key(uri@) && self@[uri@] == t@,
                None => !self@.contains_key(uri@),
            },
    {
        match self.position(uri) {
            Some(i) => Some(self.docs[i].1.clone()),
            None => None,
        }
    }
}

/// Reading a document after an update gives back the text written.
pub proof fn law_read_after_update(store: Map<Seq<char>, Seq<char>>, uri: Seq<char>, text: Seq<char>)
    ensures
        store.insert(uri, text).contains_key(uri),
        store.insert(uri, text)[uri] == text,
{
}

/// After a close, nothing is recorded for that document.
pub proof fn law_close_forgets(store: Map<Seq<char>, Seq<char>>, uri: Seq<char>)
    ensures
        !store.remove(uri).contains_key(uri),
{
}

/// An update or a close of one document leaves every other document as it was.
pub proof fn law_other_documents_unchanged(
    store: Map<Seq<char>, Seq<char>>,
    uri: Seq<char>,
    text: Seq<char>,
    other: Seq<char>,
)
    requires
        other != uri,
    ensures
        store.insert(uri, text).contains_key(other) == store.contains_key(other),
        store.contains_key(other) ==> store.insert(uri, text)[other] == store[other],
        store.remove(uri).contains_key(other) == store.contains_key(other),
        store.contains_key(other) ==> store.remove(uri)[other] == store[other],
{
}

} // verus!
