//! An append-only log of generated values tagged with the action that
//! produced them, with a movable cursor. Consecutive rewrites coalesce
//! into a single slot instead of growing the log.

use vstd::prelude::*;

verus! {

/// The kind of change one history entry records.
#[derive(Debug, Clone, Copy, PartialEq, Eq, Structural)]
pub enum GenerationAction {
    New,
    Continue,
    Rewrite,
}

/// What one `add` does to the log: append and move the cursor to the new
/// entry, unless both the new and the latest recorded action are rewrites,
/// in which case the item at the cursor is overwritten in place.
pub open spec fn spec_add<T>(
    items: Seq<T>,
    actions: Seq<GenerationAction>,
    idx: int,
    item: T,
    action: GenerationAction,
) -> (Seq<T>, Seq<GenerationAction>, int) {
    if items.len() == 0 || action != GenerationAction::Rewrite || actions.len() == 0
        || actions.last() != GenerationAction::Rewrite {
        (items.push(item), actions.push(action), items.len() as int)
    } else {
        (items.update(idx, item), actions, idx)
    }
}

/// The generic generation log: items, their actions, and a cursor.
#[derive(Debug, Clone)]
pub struct GenerationHistory<T: Clone> {
    items: Vec<T>,
    actions: Vec<GenerationAction>,
    idx: i32,
}

impl<T: Clone> GenerationHistory<T> {
    /// The logged items, oldest first.
    pub closed spec fn spec_items(&self) -> Seq<T> {
        self.items@
    }

    /// The action that produced each logged item.
    pub closed spec fn spec_actions(&self) -> Seq<GenerationAction> {
        self.actions@
    }

    /// The cursor: -1 on an empty log, else a valid item index.
    pub closed spec fn spec_idx(&self) -> int {
        self.idx as int
    }

    /// The log's invariant: actions parallel items, and the cursor is a
    /// valid index as soon as the log is non-empty.
    pub open spec fn wf(&self) -> bool {
        &&& self.spec_items().len() == self.spec_actions().len()
        &&& self.spec_items().len() <= 0x7fff_ffff
        &&& self.spec_items().len() == 0 ==> self.spec_idx() == -1
        &&& self.spec_items().len() > 0 ==> 0 <= self.spec_idx() < self.spec_items().len()
    }

    /// An empty log.
    pub fn new() -> (r: Self)
        ensures
            r.wf(),
            r.spec_items() == Seq::<T>::empty(),
            r.spec_actions() == Seq::<GenerationAction>::empty(),
            r.spec_idx() == -1,
    {
        GenerationHistory { items: Vec::new(), actions: Vec::new(), idx: -1 }
    }

    /// Record `item` with `action`; coalesce consecutive rewrites.
    /// Returns the cursor, which afterwards points at the recorded item.
    pub fn add(&mut self, item: T, action: GenerationAction) -> (r: i32)
        requires
            old(self).wf(),
            old(self).spec_items().len() < 0x7fff_ffff,
        ensures
            final(self).wf(),
            (final(self).spec_items(), final(self).spec_actions(), final(self).spec_idx())
                == spec_add(
                old(self).spec_items(),
                old(self).spec_actions(),
                old(self).spec_idx(),
                item,
                action,
            ),
            r as int == final(self).spec_idx(),
    {
        if self.items.is_empty() || action != GenerationAction::Rewrite {
            return self.plain_add(item, action);
        }
        let last_action = &self.actions[self.actions.len() - 1];
        if *last_action != GenerationAction::Rewrite {
            return self.plain_add(item, action);
        }
        let at = self.idx as usize;
        self.items[at] = item;
        self.idx
    }

    /// Append unconditionally and move the cursor to the new entry.
    fn plain_add(&mut self, item: T, action: GenerationAction) -> (r: i32)
        requires
            old(self).wf(),
            old(self).spec_items().len() < 0x7fff_ffff,
        ensures
            final(self).wf(),
            final(self).spec_items() == old(self).spec_items().push(item),
            final(self).spec_actions() == old(self).spec_actions().push(action),
            final(self).spec_idx() == old(self).spec_items().len() as int,
            r as int == final(self).spec_idx(),
    {
        self.items.push(item);
        self.actions.push(action);
        self.idx = (self.items.len() - 1) as i32;
        self.idx
    }

    /// Move the cursor one step toward the start, clamped at the first
    /// entry, and return the item there; `None` on an empty log.
    pub fn previous(&mut self) -> (r: Option<&T>)
        requires
            old(self).wf(),
        ensures
            final(self).wf(),
            final(self).spec_items() == old(self).spec_items(),
            final(self).spec_actions() == old(self).spec_actions(),
            old(self).spec_items().len() == 0 ==> r is None && *final(self) == *old(self),
            old(self).spec_items().len() > 0 ==> {
                &&& final(self).spec_idx() == if old(self).spec_idx() > 0 {
                    old(self).spec_idx() - 1
                } else {
                    0
                }
                &&& r matches Some(v) && *v == final(self).spec_items()[final(self).spec_idx()]
            },
    {
        if self.items.is_empty() {
            return None;
        }
        if self.idx > 0 {
            self.idx = self.idx - 1;
        } else {
            self.idx = 0;
        }
        Some(&self.items[self.idx as usize])
    }

    /// Move the cursor one step toward the end, clamped at the last entry,
    /// and return the item there; `None` on an empty log.
    pub fn next(&mut self) -> (r: Option<&T>)
        requires
            old(self).wf(),
        ensures
            final(self).wf(),
            final(self).spec_items() == old(self).spec_items(),
            final(self).spec_actions() == old(self).spec_actions(),
            old(self).spec_items().len() == 0 ==> r is None && *final(self) == *old(self),
            old(self).spec_items().len() > 0 ==> {
                &&& final(self).spec_idx() == if old(self).spec_idx() + 1
                    < old(self).spec_items().len() {
                    old(self).spec_idx() + 1
                } else {
                    old(self).spec_items().len() - 1
                }
                &&& r matches Some(v) && *v == final(self).spec_items()[final(self).spec_idx()]
            },
    {
        if self.items.is_empty() {
            return None;
        }
        let last = (self.items.len() - 1) as i32;
        if self.idx < last {
            self.idx = self.idx + 1;
        } else {
            self.idx = last;
        }
        Some(&self.items[self.idx as usize])
    }
}

/// Law: an add of a fresh value, then two rewrites, leaves a two-entry log
/// whose second slot holds the latest rewrite — consecutive rewrites
/// coalesce into one slot.
pub proof fn lemma_rewrites_coalesce<T>(x: T, y: T, z: T)
    ensures
        ({
            let s1 = spec_add(
                Seq::<T>::empty(),
                Seq::<GenerationAction>::empty(),
                -1,
                x,
                GenerationAction::New,
            );
            let s2 = spec_add(s1.0, s1.1, s1.2, y, GenerationAction::Rewrite);
            let s3 = spec_add(s2.0, s2.1, s2.2, z, GenerationAction::Rewrite);
            &&& s3.0 == seq![x, z]
            &&& s3.1 == seq![GenerationAction::New, GenerationAction::Rewrite]
            &&& s3.2 == 1
        }),
{
    let s1 = spec_add(
        Seq::<T>::empty(),
        Seq::<GenerationAction>::empty(),
        -1,
        x,
        GenerationAction::New,
    );
    let s2 = spec_add(s1.0, s1.1, s1.2, y, GenerationAction::Rewrite);
    let s3 = spec_add(s2.0, s2.1, s2.2, z, GenerationAction::Rewrite);
    assert(s2.0 =~= seq![x, y]);
    assert(s3.0 =~= seq![x, z]);
    assert(s3.1 =~= seq![GenerationAction::New, GenerationAction::Rewrite]);
}

/// Law: two adds that are not consecutive rewrites both append, so both
/// values are preserved in order.
pub proof fn lemma_distinct_adds_append<T>(x: T, y: T)
    ensures
        ({
            let s1 = spec_add(
                Seq::<T>::empty(),
                Seq::<GenerationAction>::empty(),
                -1,
                x,
                GenerationAction::New,
            );
            let s2 = spec_add(s1.0, s1.1, s1.2, y, GenerationAction::New);
            &&& s2.0 == seq![x, y]
            &&& s2.2 == 1
        }),
{
    let s1 = spec_add(
        Seq::<T>::empty(),
        Seq::<GenerationAction>::empty(),
        -1,
        x,
        GenerationAction::New,
    );
    let s2 = spec_add(s1.0, s1.1, s1.2, y, GenerationAction::New);
    assert(s2.0 =~= seq![x, y]);
}

} // verus!
