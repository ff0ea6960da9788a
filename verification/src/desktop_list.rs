//! Ordered lists of desktop handlers without repetition.

use crate::handler::DesktopHandler;
use crate::text::views;
use vstd::prelude::*;

verus! {

/// The names of stored handlers, in order.
pub open spec fn handler_views(v: Seq<DesktopHandler>) -> Seq<Seq<char>> {
    Seq::new(v.len(), |i: int| v[i]@)
}

/// The handlers of one MIME type, the primary one first. No handler
/// occurs twice.
#[derive(Debug, PartialEq, Eq)]
pub struct DesktopList {
    handlers: Vec<DesktopHandler>,
}

impl View for DesktopList {
    type V = Seq<Seq<char>>;

    closed spec fn view(&self) -> Seq<Seq<char>> {
        handler_views(self.handlers@)
    }
}

impl Clone for DesktopList {
    fn clone(&self) -> (r: Self)
        ensures
            r@ == self@,
    {
        let mut handlers: Vec<DesktopHandler> = Vec::new();
        let mut i: usize = 0;
        while i < self.handlers.len()
            invariant
                i <= self.handlers.len(),
                handlers.len() == i,
                forall|k: int| 0 <= k < i ==> handlers[k]@ == self.handlers[k]@,
            decreases self.handlers.len() - i,
        {
            handlers.push(self.handlers[i].clone());
            i += 1;
        }
        assert(handler_views(handlers@) == handler_views(self.handlers@));
        DesktopList { handlers }
    }
}

impl DesktopList {
    /// No handler occurs twice.
    pub open spec fn wf(&self) -> bool {
        self@.no_duplicates()
    }

    /// The empty list.
    pub fn new() -> (r: Self)
        ensures
            r@ == Seq::<Seq<char>>::empty(),
            r.wf(),
    {
        let r = DesktopList { handlers: Vec::new() };
        assert(r@ == Seq::<Seq<char>>::empty());
        r
    }

    /// The list of one handler.
    pub fn single(handler: DesktopHandler) -> (r: Self)
        ensures
            r@ == seq![handler@],
            r.wf(),
    {
        let mut handlers: Vec<DesktopHandler> = Vec::new();
        handlers.push(handler);
        let r = DesktopList { handlers };
        assert(r@ == seq![handler@]);
        r
    }

    /// The handlers of `names` in order, each where it first occurs.
    pub(crate) fn from_names(names: Vec<String>) -> (r: Self)
        requires
            views(names@).no_duplicates(),
        ensures
            r@ == views(names@),
            r.wf(),
    {
        let mut handlers: Vec<DesktopHandler> = Vec::new();
        let mut i: usize = 0;
        while i < names.len()
            invariant
                i <= names.len(),
                handlers.len() == i,
                forall|k: int| 0 <= k < i ==> handlers[k]@ == names[k]@,
            decreases names.len() - i,
        {
            handlers.push(DesktopHandler(names[i].clone()));
            i += 1;
        }
        assert(handler_views(handlers@) == views(names@));
        DesktopList { handlers }
    }

    /// The number of handlers.
    pub fn len(&self) -> (r: usize)
        ensures
            r == self@.len(),
    {
        self.handlers.len()
    }

    /// Whether the list holds no handler.
    pub fn is_empty(&self) -> (r: bool)
        ensures
            r == (self@.len() == 0),
    {
        self.handlers.len() == 0
    }

    /// The handler at a position.
    pub fn get(&self, i: usize) -> (r: &DesktopHandler)
        requires
            i < self@.len(),
        ensures
            r@ == self@[i as int],
    {
        &self.handlers[i]
    }

    /// The primary handler: the first of the list.
    pub fn front(&self) -> (r: Option<&DesktopHandler>)
        ensures
            match r {
                Some(h) => self@.len() > 0 && h@ == self@[0],
                None => self@.len() == 0,
            },
    {
        if self.handlers.len() > 0 {
            Some(&self.handlers[0])
        } else {
            None
        }
    }

    /// The position of a handler in the list.
    pub fn position(&self, handler: &DesktopHandler) -> (r: Option<usize>)
        ensures
            match r {
                Some(i) => i < self@.len() && self@[i as int] == handler@ && forall|j: int|
                    0 <= j < i ==> self@[j] != handler@,
                None => !self@.contains(handler@),
            },
    {
        let mut i: usize = 0;
        while i < self.handlers.len()
            invariant
                i <= self.handlers.len(),
                forall|j: int| 0 <= j < i ==> self@[j] != handler@,
            decreases self.handlers.len() - i,
        {
            if self.handlers[i].same(handler) {
                return Some(i);
            }
            i += 1;
        }
        None
    }

    /// Whether the list holds the handler.
    pub fn contains(&self, handler: &DesktopHandler) -> (r: bool)
        ensures
            r == self@.contains(handler@),
    {
        self.position(handler).is_some()
    }

    /// Adds a handler behind the others, unless the list holds it already.
    /// Tells whether the list changed.
    pub fn push_back(&mut self, handler: DesktopHandler) -> (changed: bool)
        requires
            old(self).wf(),
        ensures
            final(self).wf(),
            changed == !old(self)@.contains(handler@),
            final(self)@ == if changed {
                old(self)@.push(handler@)
            } else {
                old(self)@
            },
    {
        if self.contains(&handler) {
            false
        } else {
            let ghost before = self@;
            self.handlers.push(handler);
            assert(self@ == before.push(handler@));
            assert forall|i: int, j: int|
                0 <= i < self@.len() && 0 <= j < self@.len() && i != j implies self@[i]
                != self@[j] by {
                if i < before.len() {
                    assert(before.contains(before[i]));
                }
                if j < before.len() {
                    assert(before.contains(before[j]));
                }
            }
            true
        }
    }

    /// Adds a handler before the others, unless the list holds it already.
    /// Tells whether the list changed.
    pub fn push_front(&mut self, handler: DesktopHandler) -> (changed: bool)
        requires
            old(self).wf(),
        ensures
            final(self).wf(),
            changed == !old(self)@.contains(handler@),
            final(self)@ == if changed {
                seq![handler@] + old(self)@
            } else {
                old(self)@
            },
    {
        if self.contains(&handler) {
            false
        } else {
            let ghost before = self@;
            self.handlers.insert(0, handler);
            assert(self@ == seq![handler@] + before);
            assert forall|i: int, j: int|
                0 <= i < self@.len() && 0 <= j < self@.len() && i != j implies self@[i]
                != self@[j] by {
                if i > 0 {
                    assert(before.contains(before[i - 1]));
                }
                if j > 0 {
                    assert(before.contains(before[j - 1]));
                }
            }
            true
        }
    }

    /// Takes a handler out of the list, where the list holds it. Tells
    /// whether the list changed. The other handlers keep their order.
    pub fn remove(&mut self, handler: &DesktopHandler) -> (changed: bool)
        requires
            old(self).wf(),
        ensures
            final(self).wf(),
            changed == old(self)@.contains(handler@),
            !final(self)@.contains(handler@),
            changed ==> final(self)@ == old(self)@.remove(old(self)@.index_of(handler@)),
            !changed ==> final(self)@ == old(self)@,
    {
        match self.position(handler) {
            Some(i) => {
                let ghost before = self@;
                self.handlers.remove(i);
                proof {
                    assert(before.contains(handler@));
                    let k = before.index_of(handler@);
                    assert(k == i);
                    assert(self@ == before.remove(i as int));
                    assert forall|a: int, b: int|
                        0 <= a < self@.len() && 0 <= b < self@.len() && a != b implies self@[a]
                        != self@[b] by {
                        let a0 = if a < i { a } else { a + 1 };
                        let b0 = if b < i { b } else { b + 1 };
                        assert(self@[a] == before[a0]);
                        assert(self@[b] == before[b0]);
                    }
                    if self@.contains(handler@) {
                        let a = choose|a: int| 0 <= a < self@.len() && self@[a] == handler@;
                        let a0 = if a < i { a } else { a + 1 };
                        assert(self@[a] == before[a0]);
                    }
                }
                true
            },
            None => false,
        }
    }
}

} // verus!
