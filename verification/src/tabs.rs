//! The tab list: the open tabs in strip order and which one is active.
//! Every operation keeps the active index inside the list whenever the
//! list is not empty.

use vstd::prelude::*;

verus! {

/// The open tabs and the active one.
pub struct Tabs<T> {
    pub items: Vec<T>,
    pub active: usize,
}

/// The tabs of `items` whose `exited` flag is clear, in order.
pub open spec fn kept<T>(items: Seq<T>, exited: Seq<bool>) -> Seq<T>
    decreases items.len(),
{
    if items.len() == 0 {
        Seq::empty()
    } else {
        let before = kept(items.drop_last(), exited);
        if exited[items.len() - 1] {
            before
        } else {
            before.push(items.last())
        }
    }
}

impl<T> Tabs<T> {
    /// The active index lies inside a non-empty list.
    pub open spec fn wf(&self) -> bool {
        self.items@.len() > 0 ==> self.active < self.items@.len()
    }

    /// No tabs yet.
    pub fn new() -> (t: Tabs<T>)
        ensures
            t.items@.len() == 0,
            t.active == 0,
            t.wf(),
    {
        Tabs { items: Vec::new(), active: 0 }
    }

    /// The active tab, if there is one.
    pub fn active_tab(&self) -> (t: Option<&T>)
        ensures
            self.active < self.items@.len() ==> t == Some(&self.items@[self.active as int]),
            self.active >= self.items@.len() ==> t is None,
    {
        if self.active < self.items.len() {
            Some(&self.items[self.active])
        } else {
            None
        }
    }

    /// Where a new tab opens: right of the active tab, or first in an
    /// empty strip.
    pub open spec fn insert_index(&self) -> int {
        if self.items@.len() == 0 {
            0
        } else {
            self.active + 1
        }
    }

    /// Open a new tab right of the active one (first, without tabs) and
    /// make it active.
    pub fn insert_after_active(&mut self, t: T)
        requires
            old(self).wf(),
        ensures
            final(self).items@ == old(self).items@.insert(old(self).insert_index(), t),
            final(self).active == old(self).insert_index(),
            final(self).wf(),
    {
        let at = if self.items.len() == 0 { 0 } else { self.active + 1 };
        self.items.insert(at, t);
        self.active = at;
    }

    /// Close the active tab and return it; the tab now at its place (or
    /// the last one) becomes active. Nothing happens without tabs.
    pub fn close_active(&mut self) -> (closed: Option<T>)
        requires
            old(self).wf(),
        ensures
            final(self).wf(),
            old(self).items@.len() == 0 ==> closed is None && *final(self) == *old(self),
            old(self).items@.len() > 0 ==> {
                &&& closed == Some(old(self).items@[old(self).active as int])
                &&& final(self).items@ == old(self).items@.remove(old(self).active as int)
                &&& final(self).active == (if old(self).active < final(self).items@.len()
                    || final(self).items@.len() == 0 {
                    old(self).active as int
                } else {
                    final(self).items@.len() - 1
                })
            },
    {
        if self.items.len() == 0 {
            return None;
        }
        let idx = if self.active < self.items.len() - 1 { self.active } else { self.items.len() - 1 };
        let closed = self.items.remove(idx);
        if self.items.len() > 0 && self.active >= self.items.len() {
            self.active = self.items.len() - 1;
        }
        Some(closed)
    }

    /// Make tab `idx` active, if there is one; says whether there was.
    pub fn select(&mut self, idx: usize) -> (selected: bool)
        requires
            old(self).wf(),
        ensures
            selected == (idx < old(self).items@.len()),
            final(self).wf(),
            final(self).items@ == old(self).items@,
            final(self).active == (if idx < old(self).items@.len() {
                idx
            } else {
                old(self).active
            }),
    {
        if idx < self.items.len() {
            self.active = idx;
            true
        } else {
            false
        }
    }

    /// Make the `n`th tab (counting from one) active, if there is one.
    pub fn select_nth(&mut self, n: u8)
        requires
            old(self).wf(),
        ensures
            final(self).wf(),
            final(self).items@ == old(self).items@,
            final(self).active == (if n >= 1 && n - 1 < old(self).items@.len() {
                (n - 1) as usize
            } else if n == 0 && 0 < old(self).items@.len() {
                0
            } else {
                old(self).active
            }),
    {
        let idx: usize = if n == 0 { 0 } else { (n - 1) as usize };
        self.select(idx);
    }

    /// Activate the tab to the left, if any.
    pub fn prev(&mut self)
        requires
            old(self).wf(),
        ensures
            final(self).wf(),
            final(self).items@ == old(self).items@,
            final(self).active == (if old(self).active > 0 {
                old(self).active - 1
            } else {
                0
            }),
    {
        if self.active > 0 {
            self.active -= 1;
        }
    }

    /// Activate the tab to the right, if any.
    pub fn next(&mut self)
        requires
            old(self).wf(),
        ensures
            final(self).wf(),
            final(self).items@ == old(self).items@,
            final(self).active == (if old(self).active + 1 < old(self).items@.len() {
                old(self).active + 1
            } else {
                old(self).active as int
            }),
    {
        if self.items.len() > 0 && self.active < self.items.len() - 1 {
            self.active += 1;
        }
    }

    /// Drop the tabs whose shell exited (`exited[i]` for tab `i`), keeping
    /// the others in order. When the active tab went, or the active index
    /// fell off the end, the last tab becomes active. Returns whether any
    /// tab was dropped.
    pub fn reap(&mut self, exited: &Vec<bool>) -> (changed: bool)
        requires
            old(self).wf(),
            exited@.len() == old(self).items@.len(),
        ensures
            final(self).wf(),
            final(self).items@ == kept(old(self).items@, exited@),
            changed == (final(self).items@.len() != old(self).items@.len()),
            final(self).active == (if final(self).items@.len() > 0 && ((old(self).active
                < old(self).items@.len() && exited@[old(self).active as int]) || old(self).active
                >= final(self).items@.len()) {
                final(self).items@.len() - 1
            } else {
                old(self).active as int
            }),
    {
        let n = self.items.len();
        let active_was_exited = self.active < n && exited[self.active];
        let mut old_items: Vec<T> = Vec::new();
        std::mem::swap(&mut old_items, &mut self.items);
        let ghost all = old_items@;
        let mut i: usize = 0;
        while i < n
            invariant
                i <= n,
                n == all.len(),
                exited@.len() == n,
                old_items@ == all.skip(i as int),
                self.items@ == kept(all.take(i as int), exited@),
                self.active == old(self).active,
            decreases n - i,
        {
            let t = old_items.remove(0);
            assert(all.take(i + 1).drop_last() =~= all.take(i as int));
            assert(all.take(i + 1).last() == t);
            assert(old_items@ =~= all.skip(i + 1));
            if !exited[i] {
                self.items.push(t);
            }
            i += 1;
        }
        assert(all.take(n as int) =~= all);
        let len = self.items.len();
        if len > 0 && (active_was_exited || self.active >= len) {
            self.active = len - 1;
        }
        proof {
            lemma_kept_len(all, exited@);
        }
        len != n
    }
}

proof fn lemma_kept_len<T>(items: Seq<T>, exited: Seq<bool>)
    ensures
        kept(items, exited).len() <= items.len(),
    decreases items.len(),
{
    if items.len() > 0 {
        lemma_kept_len(items.drop_last(), exited);
    }
}

} // verus!
