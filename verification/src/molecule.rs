//! The trajectory store: the ordered sequence of molecule frames that the
//! rendering tick reads, together with the cursor-driven frame queries.

use vstd::prelude::*;
use vstd::arithmetic::div_mod::lemma_mod_division_less_than_divisor;
use crate::cursor::FrameCursor;
use crate::cursor::cursor_index_of;

verus! {

/// One frame of a trajectory is a molecular structure of the chemistry
/// library: atoms, bonds, lattice and title.  The store never looks inside a
/// frame; it only keeps, counts and hands out frames.
#[verifier::external_type_specification]
#[verifier::external_body]
pub struct ExMolecule(gchemol::Molecule);

/// The full ordered sequence of molecule frames.  It may be empty at startup;
/// a load replaces the whole sequence at once, so a reader never observes a
/// partial state between the old and the new frames.
pub struct MoleculeTrajectory {
    mols: Vec<gchemol::Molecule>,
}

impl View for MoleculeTrajectory {
    type V = Seq<gchemol::Molecule>;

    closed spec fn view(&self) -> Seq<gchemol::Molecule> {
        self.mols@
    }
}

impl Default for MoleculeTrajectory {
    fn default() -> (t: Self)
        ensures
            t@ == Seq::<gchemol::Molecule>::empty(),
    {
        MoleculeTrajectory { mols: Vec::new() }
    }
}

impl MoleculeTrajectory {
    /// A trajectory holding exactly the given frames, in order.
    pub fn new(mols: Vec<gchemol::Molecule>) -> (t: Self)
        ensures
            t@ == mols@,
    {
        MoleculeTrajectory { mols }
    }

    /// Replace the entire frame sequence atomically.
    pub fn load(&mut self, mols: Vec<gchemol::Molecule>)
        ensures
            final(self)@ == mols@,
    {
        self.mols = mols;
    }

    /// The number of molecule frames.
    pub fn nframes(&self) -> (n: usize)
        ensures
            n == self@.len(),
    {
        self.mols.len()
    }

    /// Read-only access to the whole frame sequence.
    pub fn get_molecules(&self) -> (mols: &Vec<gchemol::Molecule>)
        ensures
            mols@ == self@,
    {
        &self.mols
    }

    /// The logical index the cursor selects among this trajectory's frames:
    /// absent when the trajectory is empty, otherwise the Euclidean remainder
    /// of the cursor's raw position.
    pub fn get_current_frame_index(&self, current_frame: &FrameCursor) -> (r: Option<usize>)
        ensures
            self@.len() == 0 ==> r is None,
            self@.len() > 0 ==> (r matches Some(i) && cursor_index_of(
                current_frame@,
                self@.len() as int,
            ) == Some(i as int) && i < self@.len()),
    {
        let nframes = self.mols.len();
        let r = current_frame.current(nframes);
        proof {
            if nframes > 0 {
                lemma_mod_division_less_than_divisor(current_frame@, nframes as int);
            }
        }
        r
    }

    /// Read-only access to the frame the cursor selects, absent when the
    /// trajectory is empty.
    pub fn get_current_molecule(&self, current_frame: &FrameCursor) -> (r: Option<
        &gchemol::Molecule,
    >)
        ensures
            self@.len() == 0 ==> r is None,
            self@.len() > 0 ==> (r matches Some(m) && *m == self@[current_frame@ % (
            self@.len() as int)]),
    {
        match self.get_current_frame_index(current_frame) {
            Some(index) => Some(&self.mols[index]),
            None => None,
        }
    }

    /// Mutable access to the frame the cursor selects, absent when the
    /// trajectory is empty.  The other frames are untouched.
    pub fn get_current_molecule_mut(&mut self, current_frame: &FrameCursor) -> (r: Option<
        &mut gchemol::Molecule,
    >)
        ensures
            old(self)@.len() == 0 ==> r is None && final(self)@ == old(self)@,
            old(self)@.len() > 0 ==> (r matches Some(m) && *m == old(self)@[current_frame@ % (
            old(self)@.len() as int)] && final(self)@ == old(self)@.update(
                current_frame@ % (old(self)@.len() as int),
                *final(m),
            )),
    {
        match self.get_current_frame_index(current_frame) {
            Some(index) => Some(&mut self.mols[index]),
            None => None,
        }
    }
}

/// Which frames a rendering tick should show: exactly the frame the cursor
/// selects is visible, every other frame is hidden.  Absent when the
/// trajectory is empty, in which case no visibility changes.
pub fn frame_visibilities(traj: &MoleculeTrajectory, current_frame: &FrameCursor) -> (r: Option<
    Vec<bool>,
>)
    ensures
        traj@.len() == 0 ==> r is None,
        traj@.len() > 0 ==> (r matches Some(v) && v@.len() == traj@.len() && forall|i: int|
            0 <= i < v@.len() ==> v@[i] == (i == current_frame@ % (traj@.len() as int))),
{
    match traj.get_current_frame_index(current_frame) {
        Some(ci) => {
            let n = traj.nframes();
            let mut v: Vec<bool> = Vec::new();
            let mut k: usize = 0;
            while k < n
                invariant
                    0 <= k <= n,
                    v@.len() == k,
                    forall|i: int| 0 <= i < k ==> v@[i] == (i == ci as int),
                decreases n - k,
            {
                v.push(k == ci);
                k = k + 1;
            }
            Some(v)
        },
        None => None,
    }
}

} // verus!
