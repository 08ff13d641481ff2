//! The remote-command bridge: a FIFO queue of commands from external
//! producers (a console, a file-drop handler, a network listener) into the
//! per-tick consumer.  Commands are never reordered and never dropped
//! silently; a drain hands over the whole backlog, oldest first.

use vstd::prelude::*;

verus! {

/// A command arriving from outside the rendering tick: replace the trajectory
/// with new molecule frames, or delete the displayed molecule.
pub enum RemoteCommand {
    Load(Vec<gchemol::Molecule>),
    Delete,
}

/// The mathematical value of a remote command: the frames it carries, or the
/// deletion marker.
pub enum CmdView {
    Load(Seq<gchemol::Molecule>),
    Delete,
}

impl View for RemoteCommand {
    type V = CmdView;

    open spec fn view(&self) -> CmdView {
        match self {
            RemoteCommand::Load(mols) => CmdView::Load(mols@),
            RemoteCommand::Delete => CmdView::Delete,
        }
    }
}

/// The envelope a command travels in through the host's event-passing
/// mechanism; it adds nothing beyond the command.
pub struct StreamEvent(pub RemoteCommand);

impl View for StreamEvent {
    type V = CmdView;

    open spec fn view(&self) -> CmdView {
        self.0@
    }
}

/// The one-directional channel from producers to the per-tick consumer.
/// Its view is the backlog of pending commands, oldest first.
pub struct CommandBridge {
    queue: Vec<StreamEvent>,
}

impl View for CommandBridge {
    type V = Seq<CmdView>;

    closed spec fn view(&self) -> Seq<CmdView> {
        self.queue@.map_values(|e: StreamEvent| e@)
    }
}

impl Default for CommandBridge {
    fn default() -> (b: Self)
        ensures
            b@ == Seq::<CmdView>::empty(),
    {
        CommandBridge { queue: Vec::new() }
    }
}

impl CommandBridge {
    /// An idle bridge with no pending command.
    pub fn new() -> (b: Self)
        ensures
            b@ == Seq::<CmdView>::empty(),
    {
        CommandBridge { queue: Vec::new() }
    }

    /// How many commands are pending.
    pub fn len(&self) -> (n: usize)
        ensures
            n == self@.len(),
    {
        self.queue.len()
    }

    /// Enqueue a command behind every command already pending.  Nothing is
    /// dropped: the queue grows by exactly this event.
    pub fn send(&mut self, event: StreamEvent)
        ensures
            final(self)@ == old(self)@.push(event@),
    {
        proof {
            assert(old(self).queue@.push(event).map_values(|e: StreamEvent| e@)
                =~= old(self).queue@.map_values(|e: StreamEvent| e@).push(event@));
        }
        self.queue.push(event);
    }

    /// Hand the whole backlog to the consumer, oldest first, leaving the
    /// bridge idle.  Commands enqueued later are not seen by this drain.
    pub fn drain(&mut self) -> (events: Vec<StreamEvent>)
        ensures
            final(self)@ == Seq::<CmdView>::empty(),
            events@.map_values(|e: StreamEvent| e@) == old(self)@,
    {
        let mut events: Vec<StreamEvent> = Vec::new();
        core::mem::swap(&mut self.queue, &mut events);
        proof {
            assert(Seq::<StreamEvent>::empty().map_values(|e: StreamEvent| e@)
                =~= Seq::<CmdView>::empty());
        }
        events
    }
}

} // verus!
