//! The per-tick command dispatcher.  Once per tick it drains the whole
//! backlog of the bridge, oldest first, and applies each command to the
//! shared viewer state: a load replaces the trajectory, resets the cursor to
//! the first frame and clears the selection; a delete removes the displayed
//! molecule and is a silent no-op when nothing is displayed.

use vstd::prelude::*;
use crate::cursor::FrameCursor;
use crate::molecule::MoleculeTrajectory;
use crate::net::{CmdView, CommandBridge, RemoteCommand, StreamEvent};
use crate::selection::SelectedAtoms;

verus! {

/// The shared state the tick loop owns: the trajectory, the frame cursor, the
/// atom selection, and whether a molecule is currently displayed (spawned) by
/// the rendering layer.
pub struct ViewerState {
    pub traj: MoleculeTrajectory,
    pub cursor: FrameCursor,
    pub selection: SelectedAtoms,
    pub displayed: bool,
}

/// The mathematical value of the viewer state.
#[verifier::ext_equal]
pub struct StateView {
    pub traj: Seq<gchemol::Molecule>,
    pub cursor: int,
    pub selection: Seq<usize>,
    pub displayed: bool,
}

impl View for ViewerState {
    type V = StateView;

    open spec fn view(&self) -> StateView {
        StateView {
            traj: self.traj@,
            cursor: self.cursor@,
            selection: self.selection@,
            displayed: self.displayed,
        }
    }
}

impl ViewerState {
    /// The state at startup: no frame, cursor at the first frame, nothing
    /// selected, nothing displayed.
    pub fn new() -> (s: Self)
        ensures
            s@.traj == Seq::<gchemol::Molecule>::empty(),
            s@.cursor == 0,
            s@.selection == Seq::<usize>::empty(),
            !s@.displayed,
            s.selection.wf(),
    {
        ViewerState {
            traj: MoleculeTrajectory::default(),
            cursor: FrameCursor::new(),
            selection: SelectedAtoms::new(),
            displayed: false,
        }
    }
}

/// What one applied command records in the tick's order-of-effects trace:
/// a load of that many frames, a deletion of the displayed molecule, or a
/// deletion that found nothing to delete.
#[derive(Clone, Copy, Debug, PartialEq, Eq, Structural)]
pub enum Effect {
    Loaded(usize),
    Deleted,
    DeleteNoop,
}

/// The state after one command.  A load replaces the whole trajectory, resets
/// the cursor and clears the selection — a stale cursor or selection must
/// never survive a replacement.  A delete only undisplays the molecule; the
/// stored frames are kept.
pub open spec fn apply_command(s: StateView, c: CmdView) -> StateView {
    match c {
        CmdView::Load(frames) => StateView {
            traj: frames,
            cursor: 0,
            selection: Seq::empty(),
            displayed: frames.len() > 0,
        },
        CmdView::Delete => StateView {
            traj: s.traj,
            cursor: s.cursor,
            selection: s.selection,
            displayed: false,
        },
    }
}

/// What one command records in the trace, given the state it is applied to.
pub open spec fn effect_of(s: StateView, c: CmdView) -> Effect {
    match c {
        CmdView::Load(frames) => Effect::Loaded(frames.len() as usize),
        CmdView::Delete => if s.displayed {
            Effect::Deleted
        } else {
            Effect::DeleteNoop
        },
    }
}

/// The state after a backlog of commands, applied oldest first.
pub open spec fn apply_all(s: StateView, cs: Seq<CmdView>) -> StateView
    decreases cs.len(),
{
    if cs.len() == 0 {
        s
    } else {
        apply_command(apply_all(s, cs.drop_last()), cs.last())
    }
}

/// The order-of-effects trace of a backlog: the effect of each command on the
/// state the commands before it produced, in application order.
pub open spec fn trace_of(s: StateView, cs: Seq<CmdView>) -> Seq<Effect>
    decreases cs.len(),
{
    if cs.len() == 0 {
        Seq::empty()
    } else {
        trace_of(s, cs.drop_last()).push(
            effect_of(apply_all(s, cs.drop_last()), cs.last()),
        )
    }
}

/// Drain the bridge's whole backlog and apply every command in arrival order.
/// Returns the order-of-effects trace.  Commands enqueued after this drain
/// are left for the next tick.
pub fn dispatch_tick(state: &mut ViewerState, bridge: &mut CommandBridge) -> (trace: Vec<Effect>)
    requires
        old(state).selection.wf(),
    ensures
        final(bridge)@ == Seq::<CmdView>::empty(),
        final(state)@ == apply_all(old(state)@, old(bridge)@),
        trace@ == trace_of(old(state)@, old(bridge)@),
        final(state).selection.wf(),
{
    let mut events = bridge.drain();
    let mut trace: Vec<Effect> = Vec::new();
    let ghost backlog = old(bridge)@;
    let ghost done: Seq<CmdView> = Seq::empty();
    while events.len() > 0
        invariant
            backlog == done + events@.map_values(|e: StreamEvent| e@),
            state@ == apply_all(old(state)@, done),
            trace@ == trace_of(old(state)@, done),
            state.selection.wf(),
        decreases events.len(),
    {
        let ghost pre_events = events@;
        let event = events.remove(0);
        let ghost cmd = event@;
        proof {
            assert(pre_events.map_values(|e: StreamEvent| e@)
                =~= seq![cmd] + events@.map_values(|e: StreamEvent| e@));
            assert(done + (seq![cmd] + events@.map_values(|e: StreamEvent| e@))
                =~= done.push(cmd) + events@.map_values(|e: StreamEvent| e@));
            assert(done.push(cmd).drop_last() =~= done);
            assert(done.push(cmd).last() == cmd);
        }
        match event.0 {
            RemoteCommand::Load(mols) => {
                let nframes = mols.len();
                state.traj.load(mols);
                state.cursor.reset();
                state.selection.clear();
                state.displayed = nframes > 0;
                trace.push(Effect::Loaded(nframes));
            },
            RemoteCommand::Delete => {
                if state.displayed {
                    state.displayed = false;
                    trace.push(Effect::Deleted);
                } else {
                    trace.push(Effect::DeleteNoop);
                }
            },
        }
        proof {
            assert(state@ =~= apply_all(old(state)@, done.push(cmd)));
            done = done.push(cmd);
        }
    }
    proof {
        assert(events@.map_values(|e: StreamEvent| e@) =~= Seq::<CmdView>::empty());
        assert(backlog =~= done);
    }
    trace
}

/// Law: a backlog without a load leaves the trajectory, the cursor and the
/// selection exactly as they were — deletions only undisplay.
pub proof fn lemma_no_load_preserves_state(s: StateView, cs: Seq<CmdView>)
    requires
        forall|j: int| 0 <= j < cs.len() ==> !(#[trigger] cs[j] matches CmdView::Load(_)),
    ensures
        apply_all(s, cs).traj == s.traj,
        apply_all(s, cs).cursor == s.cursor,
        apply_all(s, cs).selection == s.selection,
    decreases cs.len(),
{
    if cs.len() > 0 {
        lemma_no_load_preserves_state(s, cs.drop_last());
    }
}

/// Law: when a backlog holds at least one load, the tick ends with the store
/// holding exactly the frames of the last load processed, the cursor reset to
/// the first frame and the selection cleared, whatever commands stood before
/// or between.
pub proof fn lemma_last_load_wins(s: StateView, cs: Seq<CmdView>, i: int)
    requires
        0 <= i < cs.len(),
        cs[i] matches CmdView::Load(_),
        forall|j: int| i < j < cs.len() ==> !(#[trigger] cs[j] matches CmdView::Load(_)),
    ensures
        cs[i] matches CmdView::Load(frames) ==> apply_all(s, cs).traj == frames,
        apply_all(s, cs).cursor == 0,
        apply_all(s, cs).selection == Seq::<usize>::empty(),
    decreases cs.len(),
{
    if i == cs.len() - 1 {
    } else {
        lemma_last_load_wins(s, cs.drop_last(), i);
    }
}

/// Law: the trace lists one effect per command, in arrival order: the effect
/// at position `j` is the effect of command `j` on the state left by the
/// commands before it.
pub proof fn lemma_trace_in_order(s: StateView, cs: Seq<CmdView>, j: int)
    requires
        0 <= j < cs.len(),
    ensures
        trace_of(s, cs).len() == cs.len(),
        trace_of(s, cs)[j] == effect_of(apply_all(s, cs.take(j)), cs[j]),
    decreases cs.len(),
{
    lemma_trace_len(s, cs);
    if j == cs.len() - 1 {
        assert(cs.take(j) =~= cs.drop_last());
    } else {
        lemma_trace_in_order(s, cs.drop_last(), j);
        assert(cs.drop_last().take(j) =~= cs.take(j));
    }
}

/// The trace is exactly as long as the backlog.
pub proof fn lemma_trace_len(s: StateView, cs: Seq<CmdView>)
    ensures
        trace_of(s, cs).len() == cs.len(),
    decreases cs.len(),
{
    if cs.len() > 0 {
        lemma_trace_len(s, cs.drop_last());
    }
}

} // verus!
