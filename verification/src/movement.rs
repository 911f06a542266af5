use vstd::prelude::*;
use std::sync::mpsc::Sender;
use crate::channel::ChannelSender;
use crate::geometry::{fits_i32, Rect};

verus! {

/// A message to the thread that moves a window's thumbnail.
#[derive(Clone, Copy, Debug, PartialEq, Eq, Structural)]
pub enum MovementMsg {
    Update { x: i32, y: i32 },
    Stop,
}

/// The three phases of moving one window.
pub enum WmMovementState {
    /// The window is static.
    Idle,
    /// The window is moving: it is cloaked, and a thumbnail of it follows the
    /// position, driven by the thread at the other end of `tx`.
    Translating { current_x: i32, current_y: i32, thumbnail_handle: isize, tx: ChannelSender<MovementMsg> },
    /// The movement stopped; the window itself still has to be put where its
    /// thumbnail was last shown.
    Snapping { final_x: i32, final_y: i32 },
}

/// A window and the phase of its movement.
pub struct ManagedWindow {
    pub hwnd: isize,
    pub state: WmMovementState,
}

/// What the caller does for one position update.
#[derive(Clone, Copy, Debug, PartialEq, Eq, Structural)]
pub enum MovementStep {
    /// The movement begins: cloak the window, register a thumbnail of it
    /// shown at `dest`, start the thread that moves the thumbnail, and hand
    /// both to `begin_translating`.
    Begin { dest: Rect },
    /// The position was handed to the thumbnail thread; `enqueued` is false
    /// when that thread is gone, which the caller reports.
    Forwarded { enqueued: bool },
    /// The movement is over: put the window at `(final_x, final_y)`,
    /// uncloak it, then call `finish_snap`.
    Snap { final_x: i32, final_y: i32 },
}

impl ManagedWindow {
    pub fn new(hwnd: isize) -> (w: Self)
        ensures
            w.hwnd == hwnd,
            w.state is Idle,
    {
        ManagedWindow { hwnd, state: WmMovementState::Idle }
    }

    /// One step of the movement pipeline with the window's new position and
    /// size. While the window moves, the new position is handed to the
    /// thumbnail thread's channel, after everything handed to it before.
    pub fn update_movement(&mut self, new_x: i32, new_y: i32, width: i32, height: i32) -> (step: MovementStep)
        requires
            old(self).state is Idle ==> fits_i32(new_x + width) && fits_i32(new_y + height),
        ensures
            final(self).hwnd == old(self).hwnd,
            old(self).state is Idle ==> step == (MovementStep::Begin {
                dest: Rect { left: new_x, top: new_y, right: (new_x + width) as i32, bottom: (new_y + height) as i32 },
            }) && final(self).state is Idle,
            old(self).state matches WmMovementState::Translating { thumbnail_handle, tx, .. } ==> {
                &&& step is Forwarded
                &&& final(self).state matches WmMovementState::Translating {
                    current_x,
                    current_y,
                    thumbnail_handle: th,
                    tx: tx2,
                }
                &&& current_x == new_x
                &&& current_y == new_y
                &&& th == thumbnail_handle
                &&& tx2.sender() == tx.sender()
                &&& tx2.handed() == tx.handed().push(MovementMsg::Update { x: new_x, y: new_y })
            },
            old(self).state matches WmMovementState::Snapping { final_x, final_y } ==> step
                == (MovementStep::Snap { final_x, final_y }) && final(self).state == old(self).state,
    {
        let mut state = WmMovementState::Idle;
        core::mem::swap(&mut state, &mut self.state);
        match state {
            WmMovementState::Idle => {
                MovementStep::Begin { dest: Rect::from_origin_size(new_x, new_y, width, height) }
            },
            WmMovementState::Translating { current_x: _, current_y: _, thumbnail_handle, mut tx } => {
                let enqueued = tx.send(MovementMsg::Update { x: new_x, y: new_y });
                self.state = WmMovementState::Translating {
                    current_x: new_x,
                    current_y: new_y,
                    thumbnail_handle,
                    tx,
                };
                MovementStep::Forwarded { enqueued }
            },
            WmMovementState::Snapping { final_x, final_y } => {
                self.state = WmMovementState::Snapping { final_x, final_y };
                MovementStep::Snap { final_x, final_y }
            },
        }
    }

    /// Enters the moving phase once the window is cloaked and its thumbnail
    /// registered and shown at `(x, y)`; `tx` is the channel to the thread
    /// that moves the thumbnail, with nothing handed to it yet.
    pub fn begin_translating(&mut self, x: i32, y: i32, thumbnail_handle: isize, tx: Sender<MovementMsg>)
        ensures
            final(self).hwnd == old(self).hwnd,
            final(self).state matches WmMovementState::Translating {
                current_x,
                current_y,
                thumbnail_handle: th,
                tx: c,
            } && current_x == x && current_y == y && th == thumbnail_handle && c.sender() == tx
                && c.handed() == Seq::<MovementMsg>::empty(),
    {
        self.state = WmMovementState::Translating {
            current_x: x,
            current_y: y,
            thumbnail_handle,
            tx: ChannelSender::new(tx),
        };
    }

    /// The window was put at its final place and uncloaked: it is idle
    /// again. A window in another phase is left as it is.
    pub fn finish_snap(&mut self)
        ensures
            final(self).hwnd == old(self).hwnd,
            old(self).state is Snapping ==> final(self).state is Idle,
            !(old(self).state is Snapping) ==> final(self).state == old(self).state,
    {
        if let WmMovementState::Snapping { .. } = self.state {
            self.state = WmMovementState::Idle;
        }
    }

    /// The user stopped moving: hands `Stop` to the thumbnail thread and
    /// returns the thumbnail to unregister; once it is unregistered,
    /// `enter_snapping` starts the last phase. A window that is not moving
    /// is left as it is.
    pub fn stop_movement(&mut self) -> (thumbnail: Option<isize>)
        ensures
            final(self).hwnd == old(self).hwnd,
            old(self).state matches WmMovementState::Translating { current_x, current_y, thumbnail_handle, tx } ==> {
                &&& thumbnail == Some(thumbnail_handle)
                &&& final(self).state matches WmMovementState::Translating {
                    current_x: cx,
                    current_y: cy,
                    thumbnail_handle: th,
                    tx: tx2,
                }
                &&& cx == current_x
                &&& cy == current_y
                &&& th == thumbnail_handle
                &&& tx2.sender() == tx.sender()
                &&& tx2.handed() == tx.handed().push(MovementMsg::Stop)
            },
            !(old(self).state is Translating) ==> thumbnail is None && final(self).state == old(self).state,
    {
        let mut state = WmMovementState::Idle;
        core::mem::swap(&mut state, &mut self.state);
        match state {
            WmMovementState::Translating { current_x, current_y, thumbnail_handle, mut tx } => {
                let _ = tx.send(MovementMsg::Stop);
                self.state = WmMovementState::Translating { current_x, current_y, thumbnail_handle, tx };
                Some(thumbnail_handle)
            },
            other => {
                self.state = other;
                None
            },
        }
    }

    /// Enters the snapping phase at the last position of a moving window and
    /// hands back the channel to its thumbnail thread; dropping it closes the
    /// channel. A window that is not moving is left as it is.
    pub fn enter_snapping(&mut self) -> (tx: Option<ChannelSender<MovementMsg>>)
        ensures
            final(self).hwnd == old(self).hwnd,
            old(self).state matches WmMovementState::Translating { current_x, current_y, tx: t, .. } ==> {
                &&& tx == Some(t)
                &&& final(self).state == (WmMovementState::Snapping { final_x: current_x, final_y: current_y })
            },
            !(old(self).state is Translating) ==> tx is None && final(self).state == old(self).state,
    {
        let mut state = WmMovementState::Idle;
        core::mem::swap(&mut state, &mut self.state);
        match state {
            WmMovementState::Translating { current_x, current_y, thumbnail_handle: _, tx } => {
                self.state = WmMovementState::Snapping { final_x: current_x, final_y: current_y };
                Some(tx)
            },
            other => {
                self.state = other;
                None
            },
        }
    }
}

/// Where the thumbnail thread moves the thumbnail after draining the
/// messages that queued up behind the one it woke for, at `(x, y)`: the
/// last position among them, or `None` when one of them says stop.
pub open spec fn drained_position(x: i32, y: i32, pending: Seq<MovementMsg>) -> Option<(i32, i32)>
    decreases pending.len(),
{
    if pending.len() == 0 {
        Some((x, y))
    } else {
        match drained_position(x, y, pending.drop_last()) {
            None => None,
            Some(_) => match pending.last() {
                MovementMsg::Update { x, y } => Some((x, y)),
                MovementMsg::Stop => None,
            },
        }
    }
}

/// Drains queued thumbnail positions so that only the most recent one is
/// shown; `None` means the thread stops.
pub fn drain_latest(x: i32, y: i32, pending: &Vec<MovementMsg>) -> (r: Option<(i32, i32)>)
    ensures
        r == drained_position(x, y, pending@),
{
    let mut latest_x = x;
    let mut latest_y = y;
    let mut i: usize = 0;
    while i < pending.len()
        invariant
            i <= pending@.len(),
            drained_position(x, y, pending@.subrange(0, i as int)) == Some((latest_x, latest_y)),
        decreases pending@.len() - i,
    {
        assert(pending@.subrange(0, i + 1).drop_last() == pending@.subrange(0, i as int));
        match pending[i] {
            MovementMsg::Update { x: next_x, y: next_y } => {
                latest_x = next_x;
                latest_y = next_y;
            },
            MovementMsg::Stop => {
                proof {
                    lemma_drain_stops(x, y, pending@, i as int + 1);
                }
                return None;
            },
        }
        i = i + 1;
    }
    assert(pending@.subrange(0, pending@.len() as int) == pending@);
    Some((latest_x, latest_y))
}

/// Once a prefix of the queue says stop, so does every longer prefix.
proof fn lemma_drain_stops(x: i32, y: i32, pending: Seq<MovementMsg>, n: int)
    requires
        0 <= n <= pending.len(),
        drained_position(x, y, pending.subrange(0, n)) is None,
    ensures
        drained_position(x, y, pending) is None,
    decreases pending.len() - n,
{
    if n < pending.len() {
        assert(pending.subrange(0, n + 1).drop_last() == pending.subrange(0, n));
        lemma_drain_stops(x, y, pending, n + 1);
    } else {
        assert(pending.subrange(0, n) == pending);
    }
}

/// Draining a queue stops the thread exactly when a stop message is queued,
/// and otherwise shows the position of the last queued update, or the one
/// the thread woke for when nothing else was queued.
pub proof fn lemma_drain_keeps_latest(x: i32, y: i32, pending: Seq<MovementMsg>)
    ensures
        (drained_position(x, y, pending) is None) == (exists|i: int|
            0 <= i < pending.len() && pending[i] is Stop),
        (forall|i: int| 0 <= i < pending.len() ==> pending[i] is Update) ==> drained_position(
            x,
            y,
            pending,
        ) == (if pending.len() == 0 {
            Some((x, y))
        } else {
            Some((pending.last()->x, pending.last()->y))
        }),
    decreases pending.len(),
{
    if pending.len() > 0 {
        let prefix = pending.drop_last();
        lemma_drain_keeps_latest(x, y, prefix);
        if exists|i: int| 0 <= i < prefix.len() && prefix[i] is Stop {
            let i = choose|i: int| 0 <= i < prefix.len() && prefix[i] is Stop;
            assert(pending[i] is Stop);
        }
        if exists|i: int| 0 <= i < pending.len() && pending[i] is Stop {
            let i = choose|i: int| 0 <= i < pending.len() && pending[i] is Stop;
            if i < prefix.len() {
                assert(prefix[i] is Stop);
            }
        }
        if forall|i: int| 0 <= i < pending.len() ==> pending[i] is Update {
            assert forall|i: int| 0 <= i < prefix.len() implies prefix[i] is Update by {
                assert(prefix[i] == pending[i]);
            }
        }
    }
}

} // verus!
