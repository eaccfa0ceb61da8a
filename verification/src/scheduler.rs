//! The frame scheduler: what one tick does to the canvas, and when a
//! frame is due.

use vstd::prelude::*;
use crate::canvas::{canvas_commands, expired, prune_spec, update_spec, CanvasState, LayerView};
use crate::draw::PaintCommand;
use crate::network::Command;
use crate::wayland::{presentation_spec, Presentation, WaylandApp};

verus! {

/// The receiving half of crossbeam's channel, through which the listeners
/// hand their commands over. Nothing is known of what it holds.
#[verifier::external_type_specification]
#[verifier::external_body]
#[verifier::reject_recursive_types(T)]
pub struct ExReceiver<T>(crossbeam::channel::Receiver<T>);

/// `Receiver::len` of crossbeam's channel: the number of messages in the
/// channel at the moment of the call. Senders may add to it at any time,
/// so nothing is claimed of the number.
#[verifier::external_body]
fn queued(receiver: &crossbeam::channel::Receiver<Command>) -> (count: usize) {
    receiver.len()
}

/// `Receiver::try_recv` of crossbeam's channel: the next message if one is
/// waiting, without blocking; `None` where the channel is empty or its
/// senders are gone. Which of these holds depends on the senders.
#[verifier::external_body]
fn take_next(receiver: &crossbeam::channel::Receiver<Command>) -> (command: Option<Command>) {
    receiver.try_recv().ok()
}

/// The canvas after each command of the list was applied in turn.
pub open spec fn apply_all(
    layers: Map<i32, LayerView>,
    commands: Seq<Command>,
    now: u64,
) -> Map<i32, LayerView>
    decreases commands.len(),
{
    if commands.len() == 0 {
        layers
    } else {
        update_spec(apply_all(layers, commands.drop_last(), now), commands.last(), now)
    }
}

/// Whether some layer has run out at `now`.
pub open spec fn any_expired(layers: Map<i32, LayerView>, now: u64) -> bool {
    exists|id: i32| #[trigger] layers.contains_key(id) && expired(layers[id], now)
}

/// The canvas, the surface it is shown on, and whether a frame was asked for.
pub struct Scheduler {
    pub canvas: CanvasState,
    pub app: WaylandApp,
    /// A frame is owed whatever the tick brings: set by `request_render`,
    /// and by changes to the canvas while the surface is not configured.
    pub dirty: bool,
}

impl Scheduler {
    /// An empty canvas on a surface of the given size that is not yet
    /// configured.
    pub fn new(width: u32, height: u32) -> (s: Scheduler)
        ensures
            s.canvas@ == Map::<i32, LayerView>::empty(),
            s.app.width == width,
            s.app.height == height,
            s.app.renderer.width == width,
            s.app.renderer.height == height,
            s.app.renderer@ == Seq::<PaintCommand>::empty(),
            !s.app.configured,
            !s.app.needs_render,
            !s.dirty,
    {
        Scheduler { canvas: CanvasState::new(), app: WaylandApp::new(width, height), dirty: false }
    }

    /// Asks for a frame on the next tick, whether or not the canvas
    /// changes: for a frame that could not be presented, to try again.
    pub fn request_render(&mut self)
        ensures
            final(self).dirty,
            final(self).canvas == old(self).canvas,
            final(self).app == old(self).app,
    {
        self.dirty = true;
    }

    /// Whether the tick at `now` that applies `commands` owes a frame: the
    /// surface is configured, and a command was applied, a layer ran out,
    /// the surface was resized or a frame was asked for.
    pub open spec fn frame_due(&self, now: u64, commands: Seq<Command>) -> bool {
        self.app.configured && (self.app.needs_render || self.dirty || commands.len() > 0
            || any_expired(self.canvas@, now))
    }

    /// Whether `after` and `frame` are what one tick leaves and returns:
    /// the tick at `now` that applies `commands`, with a shared region of
    /// `pool_len` bytes. The canvas is pruned and then updated by each
    /// command in turn; the surface keeps its size and state. Where a
    /// frame is due, the renderer holds the frame of the new canvas, the
    /// requests for a frame are settled, and the frame to present is
    /// returned if the surface can present one. Where none is due,
    /// nothing is rendered or returned, and a change to the canvas is
    /// remembered as a request.
    pub open spec fn advances_to(
        &self,
        after: Scheduler,
        now: u64,
        commands: Seq<Command>,
        pool_len: usize,
        frame: Option<Presentation>,
    ) -> bool {
        &&& after.canvas@ == apply_all(prune_spec(self.canvas@, now), commands, now)
        &&& after.app.configured == self.app.configured
        &&& after.app.width == self.app.width
        &&& after.app.height == self.app.height
        &&& after.app.renderer.width == self.app.renderer.width
        &&& after.app.renderer.height == self.app.renderer.height
        &&& self.frame_due(now, commands) ==> {
            &&& after.app.renderer@ == canvas_commands(after.canvas@)
            &&& !after.app.needs_render
            &&& !after.dirty
            &&& frame is Some <==> after.app.presentable()
            &&& frame is Some ==> frame->Some_0 == presentation_spec(
                after.app.renderer.width,
                after.app.renderer.height,
                pool_len,
            )
        }
        &&& !self.frame_due(now, commands) ==> {
            &&& frame is None
            &&& after.app.renderer == self.app.renderer
            &&& after.app.needs_render == self.app.needs_render
            &&& after.dirty == (self.dirty || commands.len() > 0 || any_expired(self.canvas@, now))
        }
    }

    /// One tick at `now` with the commands that were waiting. Layers that
    /// have run out are removed, then the commands are applied in order.
    /// Where a frame is due the canvas is rendered and the frame to
    /// present is returned, if the surface can present one.
    pub fn advance(&mut self, now: u64, commands: Vec<Command>, pool_len: usize) -> (frame: Option<
        Presentation,
    >)
        ensures
            old(self).advances_to(*final(self), now, commands@, pool_len, frame),
    {
        let pruned = self.canvas.prune(now);
        let applied = commands.len();
        let ghost all = commands@;
        let ghost start = self.canvas@;
        for command in it: commands
            invariant
                it.seq() == all,
                self.canvas@ == apply_all(start, all.take(it.index() as int), now),
                self.app == old(self).app,
                self.dirty == old(self).dirty,
        {
            assert(all.take(it.index() + 1).drop_last() =~= all.take(it.index() as int));
            self.canvas.update(command, now);
        }
        assert(all.take(all.len() as int) =~= all);
        let pending = self.app.needs_render || self.dirty || applied > 0 || pruned;
        if self.app.configured && pending {
            self.canvas.render(&mut self.app.renderer);
            let frame = self.app.render_if_configured(pool_len);
            self.app.needs_render = false;
            self.dirty = false;
            frame
        } else {
            self.dirty = self.dirty || applied > 0 || pruned;
            None
        }
    }

    /// One tick at `now`: takes the commands that are waiting in the
    /// channel, as many as it held when the tick began, and advances by
    /// them. Which commands these are is for the senders to decide.
    pub fn tick(
        &mut self,
        receiver: &crossbeam::channel::Receiver<Command>,
        now: u64,
        pool_len: usize,
    ) -> (frame: Option<Presentation>)
        ensures
            exists|commands: Seq<Command>| #[trigger]
                old(self).advances_to(*final(self), now, commands, pool_len, frame),
    {
        let waiting = queued(receiver);
        let mut commands: Vec<Command> = Vec::new();
        let mut taken: usize = 0;
        while taken < waiting
            invariant
                taken <= waiting,
            decreases waiting - taken,
        {
            match take_next(receiver) {
                Some(command) => commands.push(command),
                None => {
                    break ;
                },
            }
            taken += 1;
        }
        self.advance(now, commands, pool_len)
    }
}

} // verus!
