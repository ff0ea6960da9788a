//! Maps from MIME types to handler lists, kept in ascending order of the
//! MIME types.

use crate::desktop_list::DesktopList;
use crate::handler::DesktopHandler;
use crate::mime_type::{is_mime_text, MimeType};
use crate::text::{compare_text, lemma_lex_asymmetric, lemma_lex_transitive, lex_lt, Order};
use vstd::prelude::*;

verus! {

/// Maps from MIME text to handler names, as the contracts see them.
pub type Associations = Map<Seq<char>, Seq<Seq<char>>>;

/// The list of a MIME text, empty where the map has none.
pub open spec fn list_of(m: Associations, mime: Seq<char>) -> Seq<Seq<char>> {
    if m.contains_key(mime) {
        m[mime]
    } else {
        Seq::empty()
    }
}

/// The list with the handler behind the others, unless it holds it.
pub open spec fn with_handler(list: Seq<Seq<char>>, handler: Seq<char>) -> Seq<Seq<char>> {
    if list.contains(handler) {
        list
    } else {
        list.push(handler)
    }
}

/// Associations as the contracts see them: MIME text and handler names.
pub type Entries = Seq<(Seq<char>, Seq<Seq<char>>)>;

/// The MIME types ascend strictly along the sequence.
pub open spec fn keys_ascend(e: Entries) -> bool {
    forall|i: int, j: int| 0 <= i < j < e.len() ==> lex_lt(#[trigger] e[i].0, #[trigger] e[j].0)
}

/// Some association of `e` is for the MIME text `k`.
pub open spec fn has_key(e: Entries, k: Seq<char>) -> bool {
    exists|i: int| 0 <= i < e.len() && #[trigger] e[i].0 == k
}

/// A position of `e` that is for the MIME text `k`, where there is one.
pub open spec fn key_index(e: Entries, k: Seq<char>) -> int {
    choose|i: int| 0 <= i < e.len() && #[trigger] e[i].0 == k
}

/// The map that the associations stand for.
pub open spec fn map_of(e: Entries) -> Map<Seq<char>, Seq<Seq<char>>> {
    Map::new(|k: Seq<char>| has_key(e, k), |k: Seq<char>| e[key_index(e, k)].1)
}

/// Ascending associations map each of their MIME types to its own list.
pub proof fn lemma_map_of_entry(e: Entries, i: int)
    requires
        keys_ascend(e),
        0 <= i < e.len(),
    ensures
        map_of(e).contains_key(e[i].0),
        map_of(e)[e[i].0] == e[i].1,
{
    let k = e[i].0;
    assert(has_key(e, k));
    let c = key_index(e, k);
    assert(map_of(e)[k] == e[c].1);
    if c < i {
        lemma_lex_asymmetric(e[c].0, e[i].0);
    } else if i < c {
        lemma_lex_asymmetric(e[i].0, e[c].0);
    }
}

/// Putting a new MIME type at its place in the order adds it to the map.
pub proof fn lemma_map_of_insert(e: Entries, pos: int, k: Seq<char>, v: Seq<Seq<char>>)
    requires
        keys_ascend(e),
        0 <= pos <= e.len(),
        forall|i: int| 0 <= i < pos ==> lex_lt(#[trigger] e[i].0, k),
        pos < e.len() ==> lex_lt(k, e[pos].0),
    ensures
        keys_ascend(e.insert(pos, (k, v))),
        map_of(e.insert(pos, (k, v))) == map_of(e).insert(k, v),
{
    let n = e.insert(pos, (k, v));
    assert forall|i: int| 0 <= i < n.len() implies #[trigger] n[i] == (if i < pos {
        e[i]
    } else if i == pos {
        (k, v)
    } else {
        e[i - 1]
    }) by {}
    assert forall|j: int| pos <= j < e.len() implies lex_lt(k, #[trigger] e[j].0) by {
        if j > pos {
            lemma_lex_transitive(k, e[pos].0, e[j].0);
        }
    }
    assert forall|i: int, j: int| 0 <= i < j < n.len() implies lex_lt(
        #[trigger] n[i].0,
        #[trigger] n[j].0,
    ) by {
        if i < pos && j > pos {
            assert(lex_lt(e[i].0, e[j - 1].0));
        } else if i > pos {
            assert(lex_lt(e[i - 1].0, e[j - 1].0));
        } else if i == pos {
            assert(lex_lt(k, e[j - 1].0));
        }
    }
    assert forall|key: Seq<char>| map_of(n).contains_key(key) == map_of(e).insert(
        k,
        v,
    ).contains_key(key) by {
        if has_key(n, key) {
            let i = key_index(n, key);
            if i < pos {
                assert(e[i].0 == key);
            } else if i > pos {
                assert(e[i - 1].0 == key);
            }
        }
        if has_key(e, key) {
            let i = key_index(e, key);
            if i < pos {
                assert(n[i].0 == key);
            } else {
                assert(n[i + 1].0 == key);
            }
        }
        if key == k {
            assert(n[pos].0 == key);
        }
    }
    assert forall|key: Seq<char>| map_of(n).contains_key(key) implies map_of(n)[key] == map_of(
        e,
    ).insert(k, v)[key] by {
        let i = key_index(n, key);
        lemma_map_of_entry(n, i);
        if i < pos {
            lemma_map_of_entry(e, i);
            lemma_lex_asymmetric(e[i].0, k);
        } else if i > pos {
            lemma_map_of_entry(e, i - 1);
            lemma_lex_asymmetric(k, e[i - 1].0);
        }
    }
    assert(map_of(n) =~= map_of(e).insert(k, v));
}

/// Giving a MIME type another list changes the map at that type alone.
pub proof fn lemma_map_of_update(e: Entries, pos: int, v: Seq<Seq<char>>)
    requires
        keys_ascend(e),
        0 <= pos < e.len(),
    ensures
        keys_ascend(e.update(pos, (e[pos].0, v))),
        map_of(e.update(pos, (e[pos].0, v))) == map_of(e).insert(e[pos].0, v),
{
    let k = e[pos].0;
    let n = e.update(pos, (k, v));
    assert forall|i: int, j: int| 0 <= i < j < n.len() implies lex_lt(
        #[trigger] n[i].0,
        #[trigger] n[j].0,
    ) by {
        assert(n[i].0 == e[i].0 && n[j].0 == e[j].0);
    }
    assert forall|key: Seq<char>| map_of(n).contains_key(key) == map_of(e).insert(
        k,
        v,
    ).contains_key(key) by {
        if has_key(n, key) {
            let i = key_index(n, key);
            assert(e[i].0 == key);
        }
        if has_key(e, key) {
            let i = key_index(e, key);
            assert(n[i].0 == key);
        }
        if key == k {
            assert(n[pos].0 == key);
        }
    }
    assert forall|key: Seq<char>| map_of(n).contains_key(key) implies map_of(n)[key] == map_of(
        e,
    ).insert(k, v)[key] by {
        let i = key_index(n, key);
        lemma_map_of_entry(n, i);
        if i != pos {
            lemma_map_of_entry(e, i);
            assert(n[i] == e[i]);
            if i < pos {
                lemma_lex_asymmetric(e[i].0, e[pos].0);
            } else {
                lemma_lex_asymmetric(e[pos].0, e[i].0);
            }
        }
    }
    assert(map_of(n) =~= map_of(e).insert(k, v));
}

/// Taking an association out takes its MIME type out of the map.
pub proof fn lemma_map_of_remove(e: Entries, pos: int)
    requires
        keys_ascend(e),
        0 <= pos < e.len(),
    ensures
        keys_ascend(e.remove(pos)),
        map_of(e.remove(pos)) == map_of(e).remove(e[pos].0),
{
    let k = e[pos].0;
    let n = e.remove(pos);
    assert forall|i: int| 0 <= i < n.len() implies #[trigger] n[i] == (if i < pos {
        e[i]
    } else {
        e[i + 1]
    }) by {}
    assert forall|i: int, j: int| 0 <= i < j < n.len() implies lex_lt(
        #[trigger] n[i].0,
        #[trigger] n[j].0,
    ) by {
        let i0 = if i < pos { i } else { i + 1 };
        let j0 = if j < pos { j } else { j + 1 };
        assert(lex_lt(e[i0].0, e[j0].0));
    }
    assert forall|key: Seq<char>| map_of(n).contains_key(key) == map_of(e).remove(
        k,
    ).contains_key(key) by {
        if has_key(n, key) {
            let i = key_index(n, key);
            let i0 = if i < pos { i } else { i + 1 };
            assert(e[i0].0 == key);
            if i0 < pos {
                lemma_lex_asymmetric(e[i0].0, e[pos].0);
            } else {
                lemma_lex_asymmetric(e[pos].0, e[i0].0);
            }
        }
        if has_key(e, key) && key != k {
            let i = key_index(e, key);
            if i < pos {
                assert(n[i].0 == key);
            } else {
                assert(n[i - 1].0 == key);
            }
        }
    }
    assert forall|key: Seq<char>| map_of(n).contains_key(key) implies map_of(n)[key] == map_of(
        e,
    ).remove(k)[key] by {
        let i = key_index(n, key);
        lemma_map_of_entry(n, i);
        let i0 = if i < pos { i } else { i + 1 };
        lemma_map_of_entry(e, i0);
    }
    assert(map_of(n) =~= map_of(e).remove(k));
}

/// The handlers of one MIME type.
#[derive(Debug, PartialEq, Eq)]
pub struct Association {
    pub mime: MimeType,
    pub handlers: DesktopList,
}

/// The associations as the contracts see them.
pub open spec fn association_views(v: Seq<Association>) -> Entries {
    Seq::new(v.len(), |i: int| (v[i].mime@, v[i].handlers@))
}

/// A map from MIME types to handler lists. Its associations are kept in
/// ascending order of the MIME types; no list is empty.
#[derive(Debug, PartialEq, Eq)]
pub struct MimeMap {
    entries: Vec<Association>,
}

impl View for MimeMap {
    type V = Map<Seq<char>, Seq<Seq<char>>>;

    open spec fn view(&self) -> Map<Seq<char>, Seq<Seq<char>>> {
        map_of(self.entries())
    }
}

impl Clone for MimeMap {
    fn clone(&self) -> (r: Self)
        ensures
            r@ == self@,
            r.entries() == self.entries(),
            self.wf() ==> r.wf(),
    {
        let mut entries: Vec<Association> = Vec::new();
        let mut i: usize = 0;
        while i < self.entries.len()
            invariant
                i <= self.entries.len(),
                entries.len() == i,
                forall|k: int|
                    0 <= k < i ==> entries[k].mime@ == self.entries[k].mime@ && entries[k].handlers@
                        == self.entries[k].handlers@,
            decreases self.entries.len() - i,
        {
            entries.push(
                Association {
                    mime: self.entries[i].mime.clone(),
                    handlers: self.entries[i].handlers.clone(),
                },
            );
            i += 1;
        }
        assert(association_views(entries@) == association_views(self.entries@));
        MimeMap { entries }
    }
}

impl MimeMap {
    /// The associations in the order in which they are kept.
    pub closed spec fn entries(&self) -> Entries {
        association_views(self.entries@)
    }

    /// The MIME types ascend, each is a MIME text, and each list is free
    /// of repetition and not empty.
    pub open spec fn wf(&self) -> bool {
        let e = self.entries();
        &&& keys_ascend(e)
        &&& forall|i: int| 0 <= i < e.len() ==> is_mime_text(#[trigger] e[i].0)
        &&& forall|i: int|
            0 <= i < e.len() ==> (#[trigger] e[i].1).len() > 0 && e[i].1.no_duplicates()
    }

    /// The empty map.
    pub fn new() -> (r: Self)
        ensures
            r.wf(),
            r@ == Map::<Seq<char>, Seq<Seq<char>>>::empty(),
            r.entries().len() == 0,
    {
        let r = MimeMap { entries: Vec::new() };
        assert(r@ =~= Map::<Seq<char>, Seq<Seq<char>>>::empty());
        r
    }

    /// The number of MIME types.
    pub fn len(&self) -> (r: usize)
        ensures
            r == self.entries().len(),
    {
        self.entries.len()
    }

    /// Whether the map holds no MIME type.
    pub fn is_empty(&self) -> (r: bool)
        ensures
            r == (self.entries().len() == 0),
            self.wf() ==> r == (self@ == Map::<Seq<char>, Seq<Seq<char>>>::empty()),
    {
        proof {
            if self.wf() && self.entries.len() > 0 {
                lemma_map_of_entry(self.entries(), 0);
            }
            if self.entries.len() == 0 {
                assert(self@ =~= Map::<Seq<char>, Seq<Seq<char>>>::empty());
            }
        }
        self.entries.len() == 0
    }

    /// The MIME type at a position of the ascending order.
    pub fn mime_at(&self, i: usize) -> (r: &MimeType)
        requires
            i < self.entries().len(),
        ensures
            r@ == self.entries()[i as int].0,
    {
        &self.entries[i].mime
    }

    /// The handlers at a position of the ascending order.
    pub fn handlers_at(&self, i: usize) -> (r: &DesktopList)
        requires
            i < self.entries().len(),
        ensures
            r@ == self.entries()[i as int].1,
    {
        &self.entries[i].handlers
    }

    /// Where the MIME text `key` stands, or would stand, in the order.
    fn search(&self, key: &str) -> (r: (usize, bool))
        requires
            self.wf(),
        ensures
            r.0 <= self.entries().len(),
            r.1 ==> r.0 < self.entries().len() && self.entries()[r.0 as int].0 == key@,
            !r.1 ==> !self@.contains_key(key@),
            !r.1 ==> forall|i: int| 0 <= i < r.0 ==> lex_lt(#[trigger] self.entries()[i].0, key@),
            !r.1 && r.0 < self.entries().len() ==> lex_lt(key@, self.entries()[r.0 as int].0),
    {
        let mut i: usize = 0;
        while i < self.entries.len()
            invariant
                i <= self.entries.len(),
                self.wf(),
                forall|j: int| 0 <= j < i ==> lex_lt(#[trigger] self.entries()[j].0, key@),
            decreases self.entries.len() - i,
        {
            match compare_text(self.entries[i].mime.as_str(), key) {
                Order::Equal => {
                    return (i, true);
                },
                Order::Greater => {
                    proof {
                        self.lemma_absent(key@, i as int);
                    }
                    return (i, false);
                },
                Order::Less => {},
            }
            i += 1;
        }
        proof {
            self.lemma_absent(key@, i as int);
        }
        (i, false)
    }

    /// A text that stands between two neighbours is no MIME type of the map.
    proof fn lemma_absent(&self, key: Seq<char>, pos: int)
        requires
            self.wf(),
            0 <= pos <= self.entries().len(),
            forall|j: int| 0 <= j < pos ==> lex_lt(#[trigger] self.entries()[j].0, key),
            pos < self.entries().len() ==> lex_lt(key, self.entries()[pos].0),
        ensures
            !self@.contains_key(key),
    {
        let e = self.entries();
        if has_key(e, key) {
            let i = key_index(e, key);
            if i < pos {
                lemma_lex_asymmetric(e[i].0, key);
            } else {
                lemma_lex_asymmetric(key, e[pos].0);
                if i > pos {
                    lemma_lex_transitive(key, e[pos].0, e[i].0);
                    lemma_lex_asymmetric(key, e[i].0);
                }
            }
        }
    }

    /// Whether the map holds the MIME text `key`.
    pub fn contains_key(&self, key: &str) -> (r: bool)
        requires
            self.wf(),
        ensures
            r == self@.contains_key(key@),
    {
        let (pos, found) = self.search(key);
        proof {
            if found {
                lemma_map_of_entry(self.entries(), pos as int);
            }
        }
        found
    }

    /// The handlers of the MIME text `key`.
    pub fn get(&self, key: &str) -> (r: Option<&DesktopList>)
        requires
            self.wf(),
        ensures
            match r {
                Some(l) => self@.contains_key(key@) && l@ == self@[key@] && l.wf() && l@.len()
                    > 0,
                None => !self@.contains_key(key@),
            },
    {
        let (pos, found) = self.search(key);
        if found {
            proof {
                lemma_map_of_entry(self.entries(), pos as int);
            }
            Some(&self.entries[pos].handlers)
        } else {
            None
        }
    }

    /// Gives the MIME type this list, in place of the one it had.
    pub fn insert(&mut self, mime: MimeType, handlers: DesktopList)
        requires
            old(self).wf(),
            mime.wf(),
            handlers.wf(),
            handlers@.len() > 0,
        ensures
            final(self).wf(),
            final(self)@ == old(self)@.insert(mime@, handlers@),
    {
        let (pos, found) = self.search(mime.as_str());
        let ghost before = self.entries();
        let ghost k = mime@;
        let ghost v = handlers@;
        if found {
            self.entries.set(pos, Association { mime, handlers });
            proof {
                lemma_map_of_update(before, pos as int, v);
                assert(self.entries() == before.update(pos as int, (k, v)));
            }
        } else {
            self.entries.insert(pos, Association { mime, handlers });
            proof {
                lemma_map_of_insert(before, pos as int, k, v);
                assert(self.entries() == before.insert(pos as int, (k, v)));
            }
        }
    }

    /// Adds a handler behind the handlers of a MIME type, unless it is
    /// among them. Tells whether the map changed.
    pub fn add(&mut self, mime: &MimeType, handler: &DesktopHandler) -> (changed: bool)
        requires
            old(self).wf(),
            mime.wf(),
        ensures
            final(self).wf(),
            final(self)@ == old(self)@.insert(
                mime@,
                with_handler(list_of(old(self)@, mime@), handler@),
            ),
            changed == !list_of(old(self)@, mime@).contains(handler@),
    {
        let mut list = match self.get(mime.as_str()) {
            Some(l) => l.clone(),
            None => DesktopList::new(),
        };
        let changed = list.push_back(handler.clone());
        self.insert(mime.clone(), list);
        changed
    }

    /// Takes the MIME text `key` out of the map, and tells whether the map
    /// held it.
    pub fn remove(&mut self, key: &str) -> (changed: bool)
        requires
            old(self).wf(),
        ensures
            final(self).wf(),
            changed == old(self)@.contains_key(key@),
            final(self)@ == old(self)@.remove(key@),
    {
        let (pos, found) = self.search(key);
        let ghost before = self.entries();
        if found {
            self.entries.remove(pos);
            proof {
                lemma_map_of_entry(before, pos as int);
                lemma_map_of_remove(before, pos as int);
                assert(self.entries() == before.remove(pos as int));
                assert forall|i: int| 0 <= i < self.entries().len() implies is_mime_text(
                    #[trigger] self.entries()[i].0,
                ) && self.entries()[i].1.len() > 0 && self.entries()[i].1.no_duplicates() by {
                    let i0 = if i < pos { i } else { i + 1 };
                    assert(self.entries()[i] == before[i0]);
                }
            }
            true
        } else {
            assert(self@ =~= self@.remove(key@));
            false
        }
    }
}

} // verus!
