//! The hot/active capture tables.
//!
//! Each table maps a widget identity to the single pointer source currently
//! responsible for that status.  The tables keep at most one entry per
//! identity: a later claim on the same identity overwrites the owning source
//! (last writer wins), it never adds a second entry.  That exclusivity is
//! what keeps two simultaneous pointers from jointly holding one widget.

use vstd::prelude::*;
use crate::events::EventSource;
use crate::id::Id;
use crate::id::IdV;

verus! {

/// No two entries of the table speak of the same identity.
pub open spec fn entries_unique(s: Seq<(Id, EventSource)>) -> bool {
    forall|i: int, j: int| 0 <= i < j < s.len() ==> s[i].0@ != s[j].0@
}

/// The table as a finite map from identity to owning source.
pub open spec fn table_view(s: Seq<(Id, EventSource)>) -> Map<IdV, EventSource>
    decreases s.len(),
{
    if s.len() == 0 {
        Map::empty()
    } else {
        table_view(s.drop_last()).insert(s.last().0@, s.last().1)
    }
}

/// A key is in the table's map exactly when some entry carries it.
pub proof fn lemma_table_view_contains(s: Seq<(Id, EventSource)>, k: IdV)
    ensures
        table_view(s).contains_key(k) <==> exists|i: int| 0 <= i < s.len() && s[i].0@ == k,
    decreases s.len(),
{
    if s.len() > 0 {
        lemma_table_view_contains(s.drop_last(), k);
        if s.last().0@ == k {
            assert(s[s.len() - 1].0@ == k);
        } else if table_view(s).contains_key(k) {
            let i = choose|i: int| 0 <= i < s.drop_last().len() && s.drop_last()[i].0@ == k;
            assert(s[i].0@ == k);
        } else {
            assert(forall|i: int|
                0 <= i < s.len() - 1 ==> s.drop_last()[i] == s[i]);
        }
    }
}

/// In a table without repeated identities, the map sends each entry's
/// identity to that entry's source.
pub proof fn lemma_table_view_at(s: Seq<(Id, EventSource)>, i: int)
    requires
        entries_unique(s),
        0 <= i < s.len(),
    ensures
        table_view(s).contains_key(s[i].0@),
        table_view(s)[s[i].0@] == s[i].1,
    decreases s.len(),
{
    if i == s.len() - 1 {
        assert(s.last() == s[i]);
    } else {
        assert(entries_unique(s.drop_last())) by {
            assert(forall|a: int, b: int|
                0 <= a < b < s.len() - 1 ==> s.drop_last()[a] == s[a] && s.drop_last()[b] == s[b]);
        }
        lemma_table_view_at(s.drop_last(), i);
        assert(s.drop_last()[i] == s[i]);
        assert(s.last().0@ != s[i].0@);
    }
}

/// Appending an entry inserts its pair into the map.
pub proof fn lemma_table_view_push(s: Seq<(Id, EventSource)>, e: (Id, EventSource))
    ensures
        table_view(s.push(e)) == table_view(s).insert(e.0@, e.1),
{
    assert(s.push(e).drop_last() =~= s);
    assert(s.push(e).last() == e);
}

/// Removing the only entry that carries a key removes that key from the map.
pub proof fn lemma_table_view_remove(s: Seq<(Id, EventSource)>, i: int)
    requires
        entries_unique(s),
        0 <= i < s.len(),
    ensures
        entries_unique(s.remove(i)),
        table_view(s.remove(i)) == table_view(s).remove(s[i].0@),
    decreases s.len(),
{
    let k = s[i].0@;
    let r = s.remove(i);
    assert(forall|j: int| 0 <= j < i ==> r[j] == s[j]);
    assert(forall|j: int| i <= j < r.len() ==> r[j] == s[j + 1]);
    assert(entries_unique(r));
    if i == s.len() - 1 {
        assert(r =~= s.drop_last());
        lemma_table_view_contains(s.drop_last(), k);
        assert(!table_view(s.drop_last()).contains_key(k));
        assert(table_view(s).remove(k) =~= table_view(s.drop_last()));
    } else {
        assert(entries_unique(s.drop_last())) by {
            assert(forall|a: int, b: int|
                0 <= a < b < s.len() - 1 ==> s.drop_last()[a] == s[a] && s.drop_last()[b] == s[b]);
        }
        lemma_table_view_remove(s.drop_last(), i);
        assert(r.drop_last() =~= s.drop_last().remove(i));
        assert(r.last() == s.last());
        let lk = s.last().0@;
        let lv = s.last().1;
        assert(lk != k);
        assert(table_view(r) == table_view(s.drop_last()).remove(k).insert(lk, lv));
        assert(table_view(s.drop_last()).remove(k).insert(lk, lv) =~= table_view(
            s.drop_last(),
        ).insert(lk, lv).remove(k));
    }
}

/// The pair of capture tables as maps.
pub ghost struct CaptureV {
    pub hot: Map<IdV, EventSource>,
    pub active: Map<IdV, EventSource>,
}

/// The persistent capture state: which identity is hovered by which source,
/// and which identity is exclusively captured by which source.
pub struct ComponentState {
    hot: Vec<(Id, EventSource)>,
    active: Vec<(Id, EventSource)>,
}

impl View for ComponentState {
    type V = CaptureV;

    closed spec fn view(&self) -> CaptureV {
        CaptureV { hot: table_view(self.hot@), active: table_view(self.active@) }
    }
}

/// The index of the entry for `id`, if the table holds one.
fn find_index(coll: &Vec<(Id, EventSource)>, id: &Id) -> (r: Option<usize>)
    ensures
        match r {
            Some(i) => i < coll@.len() && coll@[i as int].0@ == id@,
            None => forall|i: int| 0 <= i < coll@.len() ==> coll@[i].0@ != id@,
        },
{
    let mut i: usize = 0;
    while i < coll.len()
        invariant
            i <= coll@.len(),
            forall|j: int| 0 <= j < i ==> coll@[j].0@ != id@,
        decreases coll@.len() - i,
    {
        if coll[i].0 == *id {
            return Some(i);
        }
        i = i + 1;
    }
    None
}

/// Claims `id` for `because` in one table: the entry for `id`, if any, is
/// overwritten, so the table keeps at most one entry per identity.
fn mark(coll: &mut Vec<(Id, EventSource)>, id: &Id, because: EventSource)
    requires
        entries_unique(old(coll)@),
    ensures
        entries_unique(final(coll)@),
        table_view(final(coll)@) == table_view(old(coll)@).insert(id@, because),
{
    let found = find_index(coll, id);
    match found {
        Some(i) => {
            let ghost s0 = coll@;
            proof {
                lemma_table_view_remove(s0, i as int);
            }
            coll.remove(i);
            let ghost s1 = coll@;
            let entry = (id.clone(), because);
            let ghost e = entry;
            coll.push(entry);
            proof {
                assert(coll@ == s1.push(e));
                lemma_table_view_push(s1, e);
                assert(table_view(coll@) == table_view(s0).remove(id@).insert(id@, because));
                assert(table_view(s0).remove(id@).insert(id@, because) =~= table_view(s0).insert(
                    id@,
                    because,
                ));
                assert(forall|j: int| 0 <= j < s1.len() ==> s1[j].0@ != id@);
            }
        },
        None => {
            let ghost s0 = coll@;
            let entry = (id.clone(), because);
            let ghost e = entry;
            coll.push(entry);
            proof {
                assert(coll@ == s0.push(e));
                lemma_table_view_push(s0, e);
            }
        },
    }
}

/// Drops every entry for `id` from one table.
fn unmark_all(coll: &mut Vec<(Id, EventSource)>, id: &Id)
    requires
        entries_unique(old(coll)@),
    ensures
        entries_unique(final(coll)@),
        table_view(final(coll)@) == table_view(old(coll)@).remove(id@),
{
    let found = find_index(coll, id);
    match found {
        Some(i) => {
            proof {
                lemma_table_view_remove(coll@, i as int);
            }
            coll.remove(i);
        },
        None => {
            proof {
                lemma_table_view_contains(coll@, id@);
                assert(table_view(coll@).remove(id@) =~= table_view(coll@));
            }
        },
    }
}

/// Drops the entry for `id` from one table only if its owner is `because`.
fn unmark_one(coll: &mut Vec<(Id, EventSource)>, id: &Id, because: EventSource)
    requires
        entries_unique(old(coll)@),
    ensures
        entries_unique(final(coll)@),
        table_view(final(coll)@) == if table_view(old(coll)@).contains_key(id@) && table_view(
            old(coll)@,
        )[id@] == because {
            table_view(old(coll)@).remove(id@)
        } else {
            table_view(old(coll)@)
        },
{
    let found = find_index(coll, id);
    match found {
        Some(i) => {
            proof {
                lemma_table_view_at(coll@, i as int);
            }
            if coll[i].1 == because {
                proof {
                    lemma_table_view_remove(coll@, i as int);
                }
                coll.remove(i);
            }
        },
        None => {
            proof {
                lemma_table_view_contains(coll@, id@);
            }
        },
    }
}

/// The zero-or-one owning source for `id` in one table, as a short sequence.
fn owners_of(coll: &Vec<(Id, EventSource)>, id: &Id) -> (r: Vec<EventSource>)
    requires
        entries_unique(coll@),
    ensures
        table_view(coll@).contains_key(id@) ==> r@ == seq![table_view(coll@)[id@]],
        !table_view(coll@).contains_key(id@) ==> r@ == Seq::<EventSource>::empty(),
        r@.len() <= 1,
{
    let found = find_index(coll, id);
    let mut r: Vec<EventSource> = Vec::new();
    match found {
        Some(i) => {
            proof {
                lemma_table_view_at(coll@, i as int);
            }
            r.push(coll[i].1);
            proof {
                assert(r@ =~= seq![table_view(coll@)[id@]]);
            }
        },
        None => {
            proof {
                lemma_table_view_contains(coll@, id@);
            }
        },
    }
    r
}

impl ComponentState {
    /// Both tables hold at most one entry per identity.
    pub closed spec fn wf(&self) -> bool {
        entries_unique(self.hot@) && entries_unique(self.active@)
    }

    /// Fresh capture state: nothing hot, nothing active.
    pub fn new() -> (r: ComponentState)
        ensures
            r.wf(),
            r@.hot == Map::<IdV, EventSource>::empty(),
            r@.active == Map::<IdV, EventSource>::empty(),
    {
        ComponentState { hot: Vec::new(), active: Vec::new() }
    }

    /// Claims active capture of `id` for `because`, overwriting any earlier
    /// owner (last writer wins within the frame's resolution order).
    pub fn make_active(&mut self, id: &Id, because: EventSource)
        requires
            old(self).wf(),
        ensures
            final(self).wf(),
            final(self)@.active == old(self)@.active.insert(id@, because),
            final(self)@.hot == old(self)@.hot,
    {
        mark(&mut self.active, id, because);
    }

    /// Claims hover of `id` for `because`, overwriting any earlier owner.
    pub fn make_hot(&mut self, id: &Id, because: EventSource)
        requires
            old(self).wf(),
        ensures
            final(self).wf(),
            final(self)@.hot == old(self)@.hot.insert(id@, because),
            final(self)@.active == old(self)@.active,
    {
        mark(&mut self.hot, id, because);
    }

    /// Drops active capture of `id`, whoever owns it.
    pub fn remove_all_active(&mut self, id: &Id)
        requires
            old(self).wf(),
        ensures
            final(self).wf(),
            final(self)@.active == old(self)@.active.remove(id@),
            final(self)@.hot == old(self)@.hot,
    {
        unmark_all(&mut self.active, id);
    }

    /// Drops active capture of `id` only if `because` owns it.
    pub fn remove_active(&mut self, id: &Id, because: EventSource)
        requires
            old(self).wf(),
        ensures
            final(self).wf(),
            final(self)@.active == if old(self)@.active.contains_key(id@) && old(
                self,
            )@.active[id@] == because {
                old(self)@.active.remove(id@)
            } else {
                old(self)@.active
            },
            final(self)@.hot == old(self)@.hot,
    {
        unmark_one(&mut self.active, id, because);
    }

    /// Drops hover of `id` only if `because` owns it.
    pub fn remove_hot(&mut self, id: &Id, because: EventSource)
        requires
            old(self).wf(),
        ensures
            final(self).wf(),
            final(self)@.hot == if old(self)@.hot.contains_key(id@) && old(self)@.hot[id@]
                == because {
                old(self)@.hot.remove(id@)
            } else {
                old(self)@.hot
            },
            final(self)@.active == old(self)@.active,
    {
        unmark_one(&mut self.hot, id, because);
    }

    /// Drops hover of `id`, whoever owns it.
    pub fn remove_all_hot(&mut self, id: &Id)
        requires
            old(self).wf(),
        ensures
            final(self).wf(),
            final(self)@.hot == old(self)@.hot.remove(id@),
            final(self)@.active == old(self)@.active,
    {
        unmark_all(&mut self.hot, id);
    }

    /// Whether some source has active capture of `id`.
    pub fn is_active(&self, id: &Id) -> (r: bool)
        requires
            self.wf(),
        ensures
            r == self@.active.contains_key(id@),
    {
        let found = find_index(&self.active, id);
        proof {
            lemma_table_view_contains(self.active@, id@);
        }
        match found {
            Some(i) => {
                proof {
                    lemma_table_view_at(self.active@, i as int);
                }
                true
            },
            None => false,
        }
    }

    /// Whether some source hovers `id`.
    pub fn is_hot(&self, id: &Id) -> (r: bool)
        requires
            self.wf(),
        ensures
            r == self@.hot.contains_key(id@),
    {
        let found = find_index(&self.hot, id);
        proof {
            lemma_table_view_contains(self.hot@, id@);
        }
        match found {
            Some(i) => {
                proof {
                    lemma_table_view_at(self.hot@, i as int);
                }
                true
            },
            None => false,
        }
    }

    /// The zero-or-one source hovering `id`, as a sequence for API symmetry.
    pub fn why_hot(&self, id: &Id) -> (r: Vec<EventSource>)
        requires
            self.wf(),
        ensures
            self@.hot.contains_key(id@) ==> r@ == seq![self@.hot[id@]],
            !self@.hot.contains_key(id@) ==> r@ == Seq::<EventSource>::empty(),
            r@.len() <= 1,
    {
        owners_of(&self.hot, id)
    }

    /// The zero-or-one source with active capture of `id`.
    pub fn why_active(&self, id: &Id) -> (r: Vec<EventSource>)
        requires
            self.wf(),
        ensures
            self@.active.contains_key(id@) ==> r@ == seq![self@.active[id@]],
            !self@.active.contains_key(id@) ==> r@ == Seq::<EventSource>::empty(),
            r@.len() <= 1,
    {
        owners_of(&self.active, id)
    }
}

} // verus!
