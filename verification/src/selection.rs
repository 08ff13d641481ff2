//! The insertion-ordered set of selected atoms, driven by the select and
//! deselect signals that the picking subsystem raises.

use vstd::prelude::*;

verus! {

/// One signal from the picking subsystem: an atom was selected or deselected.
#[derive(Clone, Copy, Debug)]
pub enum SelectionEvent {
    Select(usize),
    Deselect(usize),
}

/// The selection after one event: a select appends the id if absent, a
/// deselect removes every occurrence; both are no-ops otherwise.
pub open spec fn apply_selection_event(ids: Seq<usize>, ev: SelectionEvent) -> Seq<usize> {
    match ev {
        SelectionEvent::Select(id) => if ids.contains(id) {
            ids
        } else {
            ids.push(id)
        },
        SelectionEvent::Deselect(id) => ids.filter(|x: usize| x != id),
    }
}

/// The selection after a stream of events, applied in arrival order.
pub open spec fn apply_selection_events(ids: Seq<usize>, evs: Seq<SelectionEvent>) -> Seq<usize>
    decreases evs.len(),
{
    if evs.len() == 0 {
        ids
    } else {
        apply_selection_event(apply_selection_events(ids, evs.drop_last()), evs.last())
    }
}

/// The atom identifiers currently selected, in the order they were selected.
/// Each identifier occurs at most once.
pub struct SelectedAtoms {
    ids: Vec<usize>,
}

impl View for SelectedAtoms {
    type V = Seq<usize>;

    closed spec fn view(&self) -> Seq<usize> {
        self.ids@
    }
}

impl Default for SelectedAtoms {
    fn default() -> (s: Self)
        ensures
            s@ == Seq::<usize>::empty(),
    {
        SelectedAtoms { ids: Vec::new() }
    }
}

impl SelectedAtoms {
    /// No identifier is recorded twice.
    pub open spec fn wf(&self) -> bool {
        forall|i: int, j: int| 0 <= i < j < self@.len() ==> self@[i] != self@[j]
    }

    /// An empty selection.
    pub fn new() -> (s: Self)
        ensures
            s@ == Seq::<usize>::empty(),
            s.wf(),
    {
        SelectedAtoms { ids: Vec::new() }
    }

    /// Whether `id` is currently selected.
    pub fn contains(&self, id: usize) -> (r: bool)
        ensures
            r == self@.contains(id),
    {
        let mut k: usize = 0;
        while k < self.ids.len()
            invariant
                0 <= k <= self.ids.len(),
                forall|i: int| 0 <= i < k ==> self.ids@[i] != id,
            decreases self.ids.len() - k,
        {
            if self.ids[k] == id {
                return true;
            }
            k = k + 1;
        }
        false
    }

    /// Record `id` as selected: appended at the end if absent, otherwise a
    /// no-op, so selecting twice is the same as selecting once.
    pub fn select(&mut self, id: usize)
        requires
            old(self).wf(),
        ensures
            final(self)@ == apply_selection_event(old(self)@, SelectionEvent::Select(id)),
            final(self).wf(),
    {
        if !self.contains(id) {
            self.ids.push(id);
        }
    }

    /// Drop `id` from the selection; a no-op when it is absent.  The relative
    /// order of the remaining identifiers is kept.
    pub fn deselect(&mut self, id: usize)
        requires
            old(self).wf(),
        ensures
            final(self)@ == apply_selection_event(old(self)@, SelectionEvent::Deselect(id)),
            final(self).wf(),
    {
        let n = self.ids.len();
        let mut out: Vec<usize> = Vec::new();
        let mut k: usize = 0;
        while k < n
            invariant
                0 <= k <= n,
                self@ == old(self)@,
                n == self.ids.len(),
                out@ == self.ids@.take(k as int).filter(|x: usize| x != id),
            decreases n - k,
        {
            let x = self.ids[k];
            proof {
                assert(self.ids@.take(k as int + 1).drop_last() =~= self.ids@.take(k as int));
                assert(self.ids@.take(k as int + 1).last() == self.ids@[k as int]);
                reveal_with_fuel(Seq::<_>::filter, 2);
            }
            if x != id {
                out.push(x);
            }
            k = k + 1;
        }
        proof {
            assert(self.ids@.take(n as int) =~= self.ids@);
            lemma_filter_keeps_distinct(self.ids@, |x: usize| x != id);
        }
        self.ids = out;
    }

    /// The selected identifiers in selection order.
    pub fn snapshot(&self) -> (r: &Vec<usize>)
        ensures
            r@ == self@,
    {
        &self.ids
    }

    /// Forget every selection (the displayed molecule was replaced or
    /// respawned).
    pub fn clear(&mut self)
        ensures
            final(self)@ == Seq::<usize>::empty(),
            final(self).wf(),
    {
        self.ids.clear();
    }
}

/// Filtering a sequence of pairwise-distinct identifiers leaves its elements
/// pairwise distinct.
proof fn lemma_filter_keeps_distinct(s: Seq<usize>, p: spec_fn(usize) -> bool)
    requires
        forall|i: int, j: int| 0 <= i < j < s.len() ==> s[i] != s[j],
    ensures
        forall|i: int, j: int|
            0 <= i < j < s.filter(p).len() ==> s.filter(p)[i] != s.filter(p)[j],
    decreases s.len(),
{
    reveal_with_fuel(Seq::<_>::filter, 1);
    if s.len() > 0 {
        let rest = s.drop_last();
        lemma_filter_keeps_distinct(rest, p);
        let rf = rest.filter(p);
        if p(s.last()) {
            assert forall|i: int, j: int|
                0 <= i < j < s.filter(p).len() implies s.filter(p)[i] != s.filter(p)[j] by {
                if j < s.filter(p).len() - 1 {
                    assert(s.filter(p)[i] == rf[i]);
                    assert(s.filter(p)[j] == rf[j]);
                } else {
                    assert(s.filter(p)[i] == rf[i]);
                    assert(rf.contains(rf[i]));
                    rest.lemma_filter_contains_rev(p, rf[i]);
                    let m = choose|m: int| 0 <= m < rest.len() && rest[m] == rf[i];
                    assert(s[m] == rest[m]);
                    assert(s[m] != s[s.len() - 1]);
                }
            }
        }
    }
}

/// Apply a tick's worth of selection and deselection signals in arrival
/// order, as the picking subsystem delivered them.
pub fn update_atom_selection(selected_atoms: &mut SelectedAtoms, events: &Vec<SelectionEvent>)
    requires
        old(selected_atoms).wf(),
    ensures
        final(selected_atoms)@ == apply_selection_events(old(selected_atoms)@, events@),
        final(selected_atoms).wf(),
{
    let mut k: usize = 0;
    while k < events.len()
        invariant
            0 <= k <= events.len(),
            selected_atoms@ == apply_selection_events(old(selected_atoms)@, events@.take(k as int)),
            selected_atoms.wf(),
        decreases events.len() - k,
    {
        proof {
            assert(events@.take(k as int + 1).drop_last() =~= events@.take(k as int));
        }
        match events[k] {
            SelectionEvent::Select(id) => selected_atoms.select(id),
            SelectionEvent::Deselect(id) => selected_atoms.deselect(id),
        }
        k = k + 1;
    }
    proof {
        assert(events@.take(events@.len() as int) =~= events@);
    }
}

/// The identifiers of the atoms whose picking state is "selected", in the
/// order the picking subsystem lists them.
pub open spec fn selected_ids(atoms: Seq<(usize, bool)>) -> Seq<usize>
    decreases atoms.len(),
{
    if atoms.len() == 0 {
        Seq::empty()
    } else {
        let rest = selected_ids(atoms.drop_last());
        if atoms.last().1 {
            rest.push(atoms.last().0)
        } else {
            rest
        }
    }
}

/// Collect the identifiers of the atoms marked as selected, keeping their
/// order.  Each pair carries an atom identifier and its picking state.
pub fn get_selected_atoms(atoms: &Vec<(usize, bool)>) -> (r: Vec<usize>)
    ensures
        r@ == selected_ids(atoms@),
{
    let mut selected: Vec<usize> = Vec::new();
    let mut k: usize = 0;
    while k < atoms.len()
        invariant
            0 <= k <= atoms.len(),
            selected@ == selected_ids(atoms@.take(k as int)),
        decreases atoms.len() - k,
    {
        proof {
            assert(atoms@.take(k as int + 1).drop_last() =~= atoms@.take(k as int));
            assert(atoms@.take(k as int + 1).last() == atoms@[k as int]);
        }
        let (id, is_selected) = atoms[k];
        if is_selected {
            selected.push(id);
        }
        k = k + 1;
    }
    proof {
        assert(atoms@.take(atoms@.len() as int) =~= atoms@);
    }
    selected
}

} // verus!
