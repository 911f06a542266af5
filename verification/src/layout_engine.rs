use vstd::prelude::*;
use std::collections::HashMap;
use std::sync::mpsc::Sender;
use vstd::std_specs::iter::IteratorSpec;
use crate::channel::ChannelSender;
use crate::geometry::Rect;

verus! {

broadcast use vstd::std_specs::hash::group_hash_axioms;

/// How a window is moved while the strip scrolls.
#[derive(Clone, Copy, Debug, PartialEq, Eq, Structural)]
pub enum PipelineType {
    /// Cloak the window and move a thumbnail of it.
    StandardApp,
    /// Clip the window to nothing and let the front end draw a proxy card.
    HeavyGame,
}

/// A message to the movement worker.
#[derive(Clone, Copy, Debug, PartialEq, Eq, Structural)]
pub enum MovementMsg {
    Init { hwnd: isize, pipeline: PipelineType, tauri_host_hwnd: isize },
    Update { hwnd: isize, x: i32, y: i32, width: i32, height: i32 },
    Commit { hwnd: isize, final_x: i32, final_y: i32, final_width: i32, final_height: i32 },
}

/// What the watcher last saw of a managed window.
#[derive(Clone, Copy, Debug, PartialEq, Eq, Structural)]
pub struct WindowState {
    pub hwnd: isize,
    pub rect: Rect,
    pub is_visible: bool,
}

/// The outcome of asking the desktop for a window's rectangle.
#[derive(Clone, Copy, Debug, PartialEq, Eq, Structural)]
pub enum RectQuery {
    Found(Rect),
    /// The desktop refused (a window of a more privileged process); the
    /// window is still recorded, with an empty rectangle.
    AccessDenied,
    /// Any other failure; the window is left out.
    Unavailable,
}

/// One reading of a managed window by the watcher.
#[derive(Clone, Copy, Debug, PartialEq, Eq, Structural)]
pub struct WindowSample {
    pub hwnd: isize,
    pub rect: RectQuery,
    pub is_visible: bool,
}

/// The state a reading yields, unless the window is left out.
pub open spec fn sample_state(s: WindowSample) -> Option<WindowState> {
    match s.rect {
        RectQuery::Found(r) => Some(WindowState { hwnd: s.hwnd, rect: r, is_visible: s.is_visible }),
        RectQuery::AccessDenied => Some(
            WindowState {
                hwnd: s.hwnd,
                rect: Rect { left: 0, top: 0, right: 0, bottom: 0 },
                is_visible: s.is_visible,
            },
        ),
        RectQuery::Unavailable => None,
    }
}

/// The states a round of readings yields, a later reading of a window
/// replacing an earlier one.
pub open spec fn sampled_states(samples: Seq<WindowSample>) -> Map<isize, WindowState>
    decreases samples.len(),
{
    if samples.len() == 0 {
        Map::empty()
    } else {
        let m = sampled_states(samples.drop_last());
        match sample_state(samples.last()) {
            Some(st) => m.insert(samples.last().hwnd, st),
            None => m,
        }
    }
}

/// The shadow copy of the managed windows' positions and visibility, which
/// the watcher refreshes in the background.
pub struct WindowStateCache {
    states: HashMap<isize, WindowState>,
}

impl View for WindowStateCache {
    type V = Map<isize, WindowState>;

    closed spec fn view(&self) -> Map<isize, WindowState> {
        self.states@
    }
}

impl WindowStateCache {
    pub fn new() -> (c: Self)
        ensures
            c@ == Map::<isize, WindowState>::empty(),
    {
        WindowStateCache { states: HashMap::new() }
    }

    /// Replaces the cache with what one round of readings yields.
    pub fn refresh(&mut self, samples: &Vec<WindowSample>)
        ensures
            final(self)@ == sampled_states(samples@),
    {
        let mut states: HashMap<isize, WindowState> = HashMap::new();
        let mut i: usize = 0;
        while i < samples.len()
            invariant
                i <= samples@.len(),
                states@ == sampled_states(samples@.subrange(0, i as int)),
            decreases samples@.len() - i,
        {
            let s = samples[i];
            assert(samples@.subrange(0, i + 1).drop_last() == samples@.subrange(0, i as int));
            match s.rect {
                RectQuery::Found(r) => {
                    states.insert(s.hwnd, WindowState { hwnd: s.hwnd, rect: r, is_visible: s.is_visible });
                },
                RectQuery::AccessDenied => {
                    states.insert(s.hwnd, WindowState { hwnd: s.hwnd, rect: Rect::zero(), is_visible: s.is_visible });
                },
                RectQuery::Unavailable => {},
            }
            i = i + 1;
        }
        assert(samples@.subrange(0, samples@.len() as int) == samples@);
        self.states = states;
    }

    /// Forgets a window.
    pub fn remove(&mut self, hwnd: isize)
        ensures
            final(self)@ == old(self)@.remove(hwnd),
    {
        self.states.remove(&hwnd);
    }

    /// What the cache holds for `hwnd`.
    pub fn get(&self, hwnd: isize) -> (r: Option<WindowState>)
        ensures
            r == (if self@.contains_key(hwnd) {
                Some(self@[hwnd])
            } else {
                None
            }),
    {
        match self.states.get(&hwnd) {
            Some(s) => Some(*s),
            None => None,
        }
    }

    /// The windows the cache holds as visible, each once, in no set order.
    pub fn visible_hwnds(&self) -> (hs: Vec<isize>)
        ensures
            hs@.no_duplicates(),
            forall|h: isize| hs@.contains(h) <==> (self@.contains_key(h) && self@[h].is_visible),
    {
        let mut out: Vec<isize> = Vec::new();
        let iter = self.states.iter();
        let ghost entries = iter.remaining();
        assert(entries.no_duplicates());
        for kv in it: iter
            invariant
                it.seq() == entries,
                entries.no_duplicates(),
                forall|j: int| #![trigger entries[j]] 0 <= j < entries.len() ==> self@.contains_key(*entries[j].0) && self@[*entries[j].0] == *entries[j].1,
                out@.no_duplicates(),
                forall|h: isize| out@.contains(h) <==> exists|j: int| 0 <= j < it.index() && *entries[j].0 == h && entries[j].1.is_visible,
        {
            let (h, st) = kv;
            let ghost idx = it.index();
            let ghost before = out@;
            assert(kv == entries[idx]);
            if st.is_visible {
                proof {
                    if out@.contains(*h) {
                        let j = choose|j: int| 0 <= j < idx && *entries[j].0 == *h && entries[j].1.is_visible;
                        assert(entries[j] == entries[idx]);
                    }
                }
                out.push(*h);
            }
            proof {
                assert forall|g: isize| out@.contains(g) <==> exists|j: int| 0 <= j < idx + 1 && *entries[j].0 == g && entries[j].1.is_visible by {
                    if out@.contains(g) {
                        if before.contains(g) {
                            let j = choose|j: int| 0 <= j < idx && *entries[j].0 == g && entries[j].1.is_visible;
                            assert(0 <= j < idx + 1);
                        } else {
                            let k = choose|k: int| 0 <= k < out@.len() && out@[k] == g;
                            assert(k == before.len());
                            assert(*entries[idx].0 == g && entries[idx].1.is_visible);
                        }
                    }
                    if exists|j: int| 0 <= j < idx + 1 && *entries[j].0 == g && entries[j].1.is_visible {
                        let j = choose|j: int| 0 <= j < idx + 1 && *entries[j].0 == g && entries[j].1.is_visible;
                        if j < idx {
                            assert(before.contains(g));
                            let k = choose|k: int| 0 <= k < before.len() && before[k] == g;
                            assert(out@[k] == g);
                        } else {
                            assert(out@[before.len() as int] == g);
                        }
                    }
                }
            }
        }
        out
    }
}

/// The hwnd a worker message is about.
pub open spec fn msg_hwnd(m: MovementMsg) -> isize {
    match m {
        MovementMsg::Init { hwnd, .. } => hwnd,
        MovementMsg::Update { hwnd, .. } => hwnd,
        MovementMsg::Commit { hwnd, .. } => hwnd,
    }
}

/// One burst of queued worker messages, sorted by phase: the inits and the
/// commits in arrival order, and for each window at most one update.
pub struct Batch {
    pub inits: Vec<MovementMsg>,
    pub updates: HashMap<isize, MovementMsg>,
    pub commits: Vec<MovementMsg>,
}

/// What a burst of messages sorts into: each update replaces the pending
/// update of its window, and a commit drops it.
pub open spec fn coalesced(msgs: Seq<MovementMsg>) -> (Seq<MovementMsg>, Map<isize, MovementMsg>, Seq<MovementMsg>)
    decreases msgs.len(),
{
    if msgs.len() == 0 {
        (Seq::empty(), Map::empty(), Seq::empty())
    } else {
        let (inits, updates, commits) = coalesced(msgs.drop_last());
        let m = msgs.last();
        match m {
            MovementMsg::Init { .. } => (inits.push(m), updates, commits),
            MovementMsg::Update { hwnd, .. } => (inits, updates.insert(hwnd, m), commits),
            MovementMsg::Commit { hwnd, .. } => (inits, updates.remove(hwnd), commits.push(m)),
        }
    }
}

/// Sorts a burst of worker messages so that each window is moved at most
/// once, to its most recent position.
pub fn coalesce(msgs: &Vec<MovementMsg>) -> (b: Batch)
    ensures
        (b.inits@, b.updates@, b.commits@) == coalesced(msgs@),
{
    let mut inits: Vec<MovementMsg> = Vec::new();
    let mut updates: HashMap<isize, MovementMsg> = HashMap::new();
    let mut commits: Vec<MovementMsg> = Vec::new();
    let mut i: usize = 0;
    while i < msgs.len()
        invariant
            i <= msgs@.len(),
            (inits@, updates@, commits@) == coalesced(msgs@.subrange(0, i as int)),
        decreases msgs@.len() - i,
    {
        let m = msgs[i];
        assert(msgs@.subrange(0, i + 1).drop_last() == msgs@.subrange(0, i as int));
        assert(msgs@.subrange(0, i + 1).last() == m);
        match m {
            MovementMsg::Init { .. } => {
                inits.push(m);
            },
            MovementMsg::Update { hwnd, .. } => {
                updates.insert(hwnd, m);
            },
            MovementMsg::Commit { hwnd, .. } => {
                commits.push(m);
                updates.remove(&hwnd);
            },
        }
        i = i + 1;
    }
    assert(msgs@.subrange(0, msgs@.len() as int) == msgs@);
    Batch { inits, updates, commits }
}

/// Message `i` is an update of `h`, and no later message updates or commits `h`.
pub open spec fn last_touch_is_update(msgs: Seq<MovementMsg>, h: isize, i: int) -> bool {
    &&& 0 <= i < msgs.len()
    &&& msgs[i] is Update
    &&& msg_hwnd(msgs[i]) == h
    &&& forall|j: int| i < j < msgs.len() ==> #[trigger] msg_hwnd(msgs[j]) != h || msgs[j] is Init
}

/// Coalescing keeps only the most recent update of each window, and a commit
/// overrides an update queued before it: a window has a pending update
/// exactly when its last update or commit in the burst is an update, and the
/// pending update is that message. Inits and commits all stay, in order.
pub proof fn lemma_coalesce_latest(msgs: Seq<MovementMsg>, h: isize)
    ensures
        coalesced(msgs).1.contains_key(h) == exists|i: int| last_touch_is_update(msgs, h, i),
        forall|i: int| last_touch_is_update(msgs, h, i) ==> coalesced(msgs).1[h] == msgs[i],
        coalesced(msgs).0 == msgs.filter(|m: MovementMsg| m is Init),
        coalesced(msgs).2 == msgs.filter(|m: MovementMsg| m is Commit),
    decreases msgs.len(),
{
    if msgs.len() > 0 {
        let prefix = msgs.drop_last();
        let n = msgs.len() - 1;
        lemma_coalesce_latest(prefix, h);
        assert(msgs == prefix.push(msgs.last()));
        let m = msgs.last();
        if msg_hwnd(m) == h && !(m is Init) {
            if m is Update {
                assert(last_touch_is_update(msgs, h, n));
            } else {
                assert forall|i: int| !last_touch_is_update(msgs, h, i) by {
                    if last_touch_is_update(msgs, h, i) && i < n {
                        assert(msg_hwnd(msgs[n]) != h || msgs[n] is Init);
                    }
                }
            }
            assert forall|i: int| last_touch_is_update(msgs, h, i) implies i == n by {
                if i < n {
                    assert(msg_hwnd(msgs[n]) != h || msgs[n] is Init);
                }
            }
        } else {
            assert forall|i: int| last_touch_is_update(msgs, h, i) implies last_touch_is_update(prefix, h, i) by {
                assert(i != n);
                assert forall|j: int| i < j < prefix.len() implies #[trigger] msg_hwnd(prefix[j]) != h || prefix[j] is Init by {
                    assert(prefix[j] == msgs[j]);
                    assert(msg_hwnd(msgs[j]) != h || msgs[j] is Init);
                }
            }
            assert forall|i: int| last_touch_is_update(prefix, h, i) implies last_touch_is_update(msgs, h, i) by {
                assert forall|j: int| i < j < msgs.len() implies #[trigger] msg_hwnd(msgs[j]) != h || msgs[j] is Init by {
                    if j < n {
                        assert(msgs[j] == prefix[j]);
                        assert(msg_hwnd(prefix[j]) != h || prefix[j] is Init);
                    }
                }
            }
        }
        reveal(Seq::filter);
    } else {
        reveal(Seq::filter);
    }
}

/// What the front end is told about a proxy card.
#[derive(Clone, Copy, Debug, PartialEq, Eq, Structural)]
pub enum ProxyAction {
    Show,
    Update,
    Hide,
}

/// A proxy-card event for the front end.
#[derive(Clone, Copy, Debug, PartialEq, Eq, Structural)]
pub struct ProxyCard {
    pub hwnd: isize,
    pub action: ProxyAction,
    pub x: i32,
    pub y: i32,
    pub width: i32,
    pub height: i32,
}

/// What the worker does for an init.
#[derive(Clone, Copy, Debug, PartialEq, Eq, Structural)]
pub enum InitAction {
    /// Cloak the window and register a thumbnail of it on the host window;
    /// report a registered thumbnail with `thumbnail_registered`.
    CloakAndRegister { hwnd: isize, tauri_host_hwnd: isize },
    /// Clip the window to an empty region and emit the card.
    ClipAndShow(ProxyCard),
}

/// What the worker does for an update.
#[derive(Clone, Copy, Debug, PartialEq, Eq, Structural)]
pub enum UpdateAction {
    /// The window is not moving, or its thumbnail could not be registered.
    Nothing,
    /// Show the thumbnail with its top-left corner at `(x, y)` and the given
    /// size, fully opaque, client area only.
    MoveThumbnail { thumbnail: isize, x: i32, y: i32, width: i32, height: i32 },
    /// Emit the card.
    MoveProxy(ProxyCard),
}

/// What the worker does, after putting the window at its final place, to
/// finish a commit.
#[derive(Clone, Copy, Debug, PartialEq, Eq, Structural)]
pub enum CommitAction {
    /// The window was not moving.
    Nothing,
    /// Uncloak the window and unregister its thumbnail, if it has one.
    Uncloak { thumbnail: Option<isize> },
    /// Remove the clip region and emit the card.
    UnclipAndHide(ProxyCard),
}

/// The abstract state of the movement worker.
pub ghost struct WorkerView {
    pub thumbnails: Map<isize, isize>,
    pub pipelines: Map<isize, PipelineType>,
}

/// The windows the movement worker is moving: each one's pipeline, and the
/// thumbnails it registered.
pub struct WorkerState {
    active_thumbnails: HashMap<isize, isize>,
    active_pipelines: HashMap<isize, PipelineType>,
}

impl View for WorkerState {
    type V = WorkerView;

    closed spec fn view(&self) -> WorkerView {
        WorkerView { thumbnails: self.active_thumbnails@, pipelines: self.active_pipelines@ }
    }
}

/// What an init does to the worker, and the action it asks for.
pub open spec fn init_effect(w: WorkerView, hwnd: isize, pipeline: PipelineType, tauri_host_hwnd: isize) -> (WorkerView, InitAction) {
    (
        WorkerView { pipelines: w.pipelines.insert(hwnd, pipeline), ..w },
        match pipeline {
            PipelineType::StandardApp => InitAction::CloakAndRegister { hwnd, tauri_host_hwnd },
            PipelineType::HeavyGame => InitAction::ClipAndShow(
                ProxyCard { hwnd, action: ProxyAction::Show, x: 0, y: 0, width: 0, height: 0 },
            ),
        },
    )
}

/// The inits of a batch, in arrival order: the worker afterwards and the
/// actions, one per init; other messages are passed over.
pub open spec fn planned_inits(w: WorkerView, msgs: Seq<MovementMsg>) -> (WorkerView, Seq<InitAction>)
    decreases msgs.len(),
{
    if msgs.len() == 0 {
        (w, Seq::empty())
    } else {
        let (w1, acts) = planned_inits(w, msgs.drop_last());
        match msgs.last() {
            MovementMsg::Init { hwnd, pipeline, tauri_host_hwnd } => {
                let (w2, a) = init_effect(w1, hwnd, pipeline, tauri_host_hwnd);
                (w2, acts.push(a))
            },
            _ => (w1, acts),
        }
    }
}

/// The action that moving `hwnd` to `(x, y)` with the given size asks for.
pub open spec fn update_action(w: WorkerView, hwnd: isize, x: i32, y: i32, width: i32, height: i32) -> UpdateAction {
    if !w.pipelines.contains_key(hwnd) {
        UpdateAction::Nothing
    } else if w.pipelines[hwnd] == PipelineType::StandardApp {
        if w.thumbnails.contains_key(hwnd) {
            UpdateAction::MoveThumbnail { thumbnail: w.thumbnails[hwnd], x, y, width, height }
        } else {
            UpdateAction::Nothing
        }
    } else {
        UpdateAction::MoveProxy(ProxyCard { hwnd, action: ProxyAction::Update, x, y, width, height })
    }
}

/// The action a queued update message asks for; any other message asks for
/// nothing.
pub open spec fn update_msg_action(w: WorkerView, m: MovementMsg) -> UpdateAction {
    match m {
        MovementMsg::Update { hwnd, x, y, width, height } => update_action(w, hwnd, x, y, width, height),
        _ => UpdateAction::Nothing,
    }
}

/// What a commit of `hwnd` does to the worker, and the action it asks for.
pub open spec fn commit_effect(w: WorkerView, hwnd: isize) -> (WorkerView, CommitAction) {
    if !w.pipelines.contains_key(hwnd) {
        (w, CommitAction::Nothing)
    } else if w.pipelines[hwnd] == PipelineType::StandardApp {
        (
            WorkerView { pipelines: w.pipelines.remove(hwnd), thumbnails: w.thumbnails.remove(hwnd) },
            CommitAction::Uncloak {
                thumbnail: if w.thumbnails.contains_key(hwnd) {
                    Some(w.thumbnails[hwnd])
                } else {
                    None
                },
            },
        )
    } else {
        (
            WorkerView { pipelines: w.pipelines.remove(hwnd), ..w },
            CommitAction::UnclipAndHide(
                ProxyCard { hwnd, action: ProxyAction::Hide, x: 0, y: 0, width: 0, height: 0 },
            ),
        )
    }
}

/// The commits of a batch, in arrival order: the worker afterwards and, for
/// each commit, the message with the action that finishes it; other messages
/// are passed over.
pub open spec fn planned_commits(w: WorkerView, msgs: Seq<MovementMsg>) -> (WorkerView, Seq<(MovementMsg, CommitAction)>)
    decreases msgs.len(),
{
    if msgs.len() == 0 {
        (w, Seq::empty())
    } else {
        let (w1, acts) = planned_commits(w, msgs.drop_last());
        match msgs.last() {
            MovementMsg::Commit { hwnd, .. } => {
                let (w2, a) = commit_effect(w1, hwnd);
                (w2, acts.push((msgs.last(), a)))
            },
            _ => (w1, acts),
        }
    }
}

impl WorkerState {
    pub fn new() -> (w: Self)
        ensures
            w@.thumbnails == Map::<isize, isize>::empty(),
            w@.pipelines == Map::<isize, PipelineType>::empty(),
    {
        WorkerState { active_thumbnails: HashMap::new(), active_pipelines: HashMap::new() }
    }

    /// A window starts moving along `pipeline`.
    pub fn on_init(&mut self, hwnd: isize, pipeline: PipelineType, tauri_host_hwnd: isize) -> (a: InitAction)
        ensures
            (final(self)@, a) == init_effect(old(self)@, hwnd, pipeline, tauri_host_hwnd),
            final(self)@ == (WorkerView { pipelines: old(self)@.pipelines.insert(hwnd, pipeline), ..old(self)@ }),
            pipeline == PipelineType::StandardApp ==> a == (InitAction::CloakAndRegister { hwnd, tauri_host_hwnd }),
            pipeline == PipelineType::HeavyGame ==> a == InitAction::ClipAndShow(
                ProxyCard { hwnd, action: ProxyAction::Show, x: 0, y: 0, width: 0, height: 0 },
            ),
    {
        self.active_pipelines.insert(hwnd, pipeline);
        match pipeline {
            PipelineType::StandardApp => InitAction::CloakAndRegister { hwnd, tauri_host_hwnd },
            PipelineType::HeavyGame => InitAction::ClipAndShow(
                ProxyCard { hwnd, action: ProxyAction::Show, x: 0, y: 0, width: 0, height: 0 },
            ),
        }
    }

    /// The thumbnail of `hwnd` was registered.
    pub fn thumbnail_registered(&mut self, hwnd: isize, thumbnail: isize)
        ensures
            final(self)@ == (WorkerView { thumbnails: old(self)@.thumbnails.insert(hwnd, thumbnail), ..old(self)@ }),
    {
        self.active_thumbnails.insert(hwnd, thumbnail);
    }

    /// The pipeline `hwnd` moves along, if it is moving.
    pub fn pipeline_of(&self, hwnd: isize) -> (r: Option<PipelineType>)
        ensures
            r == (if self@.pipelines.contains_key(hwnd) { Some(self@.pipelines[hwnd]) } else { None }),
    {
        match self.active_pipelines.get(&hwnd) {
            Some(p) => Some(*p),
            None => None,
        }
    }

    /// The thumbnail registered for `hwnd`, if any.
    pub fn thumbnail_of(&self, hwnd: isize) -> (r: Option<isize>)
        ensures
            r == (if self@.thumbnails.contains_key(hwnd) { Some(self@.thumbnails[hwnd]) } else { None }),
    {
        match self.active_thumbnails.get(&hwnd) {
            Some(t) => Some(*t),
            None => None,
        }
    }

    /// The latest position of a moving window.
    pub fn on_update(&self, hwnd: isize, x: i32, y: i32, width: i32, height: i32) -> (a: UpdateAction)
        ensures
            a == update_action(self@, hwnd, x, y, width, height),
            !self@.pipelines.contains_key(hwnd) ==> a == UpdateAction::Nothing,
            self@.pipelines.get(hwnd) == Some(PipelineType::StandardApp) ==> a == (if self@.thumbnails.contains_key(hwnd) {
                UpdateAction::MoveThumbnail { thumbnail: self@.thumbnails[hwnd], x, y, width, height }
            } else {
                UpdateAction::Nothing
            }),
            self@.pipelines.get(hwnd) == Some(PipelineType::HeavyGame) ==> a == UpdateAction::MoveProxy(
                ProxyCard { hwnd, action: ProxyAction::Update, x, y, width, height },
            ),
    {
        match self.active_pipelines.get(&hwnd) {
            None => UpdateAction::Nothing,
            Some(PipelineType::StandardApp) => match self.active_thumbnails.get(&hwnd) {
                Some(t) => UpdateAction::MoveThumbnail { thumbnail: *t, x, y, width, height },
                None => UpdateAction::Nothing,
            },
            Some(PipelineType::HeavyGame) => UpdateAction::MoveProxy(
                ProxyCard { hwnd, action: ProxyAction::Update, x, y, width, height },
            ),
        }
    }

    /// `hwnd` reached its final place: it stops moving.
    pub fn on_commit(&mut self, hwnd: isize) -> (a: CommitAction)
        ensures
            (final(self)@, a) == commit_effect(old(self)@, hwnd),
            final(self)@.pipelines == old(self)@.pipelines.remove(hwnd),
            !old(self)@.pipelines.contains_key(hwnd) ==> a == CommitAction::Nothing && final(self)@ == old(self)@,
            old(self)@.pipelines.get(hwnd) == Some(PipelineType::StandardApp) ==> final(self)@.thumbnails
                == old(self)@.thumbnails.remove(hwnd) && a == (CommitAction::Uncloak {
                thumbnail: if old(self)@.thumbnails.contains_key(hwnd) {
                    Some(old(self)@.thumbnails[hwnd])
                } else {
                    None
                },
            }),
            old(self)@.pipelines.get(hwnd) == Some(PipelineType::HeavyGame) ==> final(self)@.thumbnails
                == old(self)@.thumbnails && a == CommitAction::UnclipAndHide(
                ProxyCard { hwnd, action: ProxyAction::Hide, x: 0, y: 0, width: 0, height: 0 },
            ),
    {
        let ghost before = self.active_pipelines@;
        match self.active_pipelines.remove(&hwnd) {
            None => {
                assert(self.active_pipelines@ =~= before);
                CommitAction::Nothing
            },
            Some(PipelineType::StandardApp) => {
                let thumbnail = self.active_thumbnails.remove(&hwnd);
                CommitAction::Uncloak { thumbnail }
            },
            Some(PipelineType::HeavyGame) => CommitAction::UnclipAndHide(
                ProxyCard { hwnd, action: ProxyAction::Hide, x: 0, y: 0, width: 0, height: 0 },
            ),
        }
    }
}

impl WorkerState {
    /// Phase one of a batch: every init, in arrival order. Returns the
    /// action for each; report each thumbnail registered for a
    /// `CloakAndRegister` with `thumbnail_registered`.
    pub fn plan_inits(&mut self, msgs: &Vec<MovementMsg>) -> (acts: Vec<InitAction>)
        ensures
            (final(self)@, acts@) == planned_inits(old(self)@, msgs@),
    {
        let mut acts: Vec<InitAction> = Vec::new();
        let mut i: usize = 0;
        while i < msgs.len()
            invariant
                i <= msgs@.len(),
                (self@, acts@) == planned_inits(old(self)@, msgs@.subrange(0, i as int)),
            decreases msgs@.len() - i,
        {
            proof {
                assert(msgs@.subrange(0, i + 1).drop_last() == msgs@.subrange(0, i as int));
                assert(msgs@.subrange(0, i + 1).last() == msgs@[i as int]);
            }
            if let MovementMsg::Init { hwnd, pipeline, tauri_host_hwnd } = msgs[i] {
                let a = self.on_init(hwnd, pipeline, tauri_host_hwnd);
                acts.push(a);
            }
            i = i + 1;
        }
        assert(msgs@.subrange(0, msgs@.len() as int) == msgs@);
        acts
    }

    /// Phase two of a batch: the pending update of each window, in no set
    /// order. Returns each window with the action its update asks for.
    pub fn plan_updates(&self, updates: &HashMap<isize, MovementMsg>) -> (acts: Vec<(isize, UpdateAction)>)
        requires
        ensures
            acts@.len() == updates@.len(),
            forall|i: int, j: int| 0 <= i < acts@.len() && 0 <= j < acts@.len() && i != j ==> acts@[i].0 != acts@[j].0,
            forall|i: int|
                0 <= i < acts@.len() ==> updates@.contains_key(#[trigger] acts@[i].0) && acts@[i].1 == update_msg_action(
                    self@,
                    updates@[acts@[i].0],
                ),
            forall|h: isize| updates@.contains_key(h) ==> exists|i: int| 0 <= i < acts@.len() && #[trigger] acts@[i].0 == h,
    {
        let mut acts: Vec<(isize, UpdateAction)> = Vec::new();
        let iter = updates.iter();
        let ghost entries = iter.remaining();
        assert(entries.no_duplicates());
        for kv in it: iter
            invariant
                it.seq() == entries,
                entries.no_duplicates(),
                entries.len() == updates@.len(),
                forall|j: int| #![trigger entries[j]] 0 <= j < entries.len() ==> updates@.contains_key(*entries[j].0) && updates@[*entries[j].0] == *entries[j].1,
                forall|h: isize| #[trigger] updates@.contains_key(h) ==> entries.contains((&h, &updates@[h])),
                acts@.len() == it.index(),
                forall|i: int| 0 <= i < acts@.len() ==> acts@[i].0 == *entries[i].0 && acts@[i].1 == update_msg_action(self@, *entries[i].1),
        {
            let (h, m) = kv;
            let ghost idx = it.index();
            assert(kv == entries[idx]);
            assert(updates@.contains_key(*h));
            let a = match *m {
                MovementMsg::Update { hwnd, x, y, width, height } => self.on_update(hwnd, x, y, width, height),
                _ => UpdateAction::Nothing,
            };
            acts.push((*h, a));
        }
        proof {
            assert forall|i: int| 0 <= i < acts@.len() implies updates@.contains_key(#[trigger] acts@[i].0) && acts@[i].1
                == update_msg_action(self@, updates@[acts@[i].0]) by {
                assert(updates@[*entries[i].0] == *entries[i].1);
            }
            assert forall|i: int, j: int| 0 <= i < acts@.len() && 0 <= j < acts@.len() && i != j implies acts@[i].0 != acts@[j].0 by {
                if acts@[i].0 == acts@[j].0 {
                    assert(*entries[i].1 == updates@[*entries[i].0]);
                    assert(*entries[j].1 == updates@[*entries[j].0]);
                    assert(entries[i] == entries[j]);
                }
            }
            assert forall|h: isize| updates@.contains_key(h) implies exists|i: int| 0 <= i < acts@.len() && #[trigger] acts@[i].0 == h by {
                assert(entries.contains((&h, &updates@[h])));
                let k = choose|k: int| 0 <= k < entries.len() && entries[k] == (&h, &updates@[h]);
                assert(acts@[k].0 == h);
            }
        }
        acts
    }

    /// Phase three of a batch: every commit, in arrival order. Returns each
    /// commit with the action that finishes it once the window is at its
    /// final place.
    pub fn plan_commits(&mut self, msgs: &Vec<MovementMsg>) -> (acts: Vec<(MovementMsg, CommitAction)>)
        ensures
            (final(self)@, acts@) == planned_commits(old(self)@, msgs@),
    {
        let mut acts: Vec<(MovementMsg, CommitAction)> = Vec::new();
        let mut i: usize = 0;
        while i < msgs.len()
            invariant
                i <= msgs@.len(),
                (self@, acts@) == planned_commits(old(self)@, msgs@.subrange(0, i as int)),
            decreases msgs@.len() - i,
        {
            proof {
                assert(msgs@.subrange(0, i + 1).drop_last() == msgs@.subrange(0, i as int));
                assert(msgs@.subrange(0, i + 1).last() == msgs@[i as int]);
            }
            let m = msgs[i];
            if let MovementMsg::Commit { hwnd, .. } = m {
                let a = self.on_commit(hwnd);
                acts.push((m, a));
            }
            i = i + 1;
        }
        assert(msgs@.subrange(0, msgs@.len() as int) == msgs@);
        acts
    }
}

/// The worker after the thumbnails registered during the inits of a batch,
/// as pairs of window and thumbnail in the order they were registered.
pub open spec fn registered(w: WorkerView, regs: Seq<(isize, isize)>) -> WorkerView
    decreases regs.len(),
{
    if regs.len() == 0 {
        w
    } else {
        let w1 = registered(w, regs.drop_last());
        WorkerView { thumbnails: w1.thumbnails.insert(regs.last().0, regs.last().1), ..w1 }
    }
}

/// The actions the inits of a batch ask for, one per init in arrival order.
pub open spec fn init_actions_of(msgs: Seq<MovementMsg>) -> Seq<InitAction>
    decreases msgs.len(),
{
    if msgs.len() == 0 {
        Seq::empty()
    } else {
        let acts = init_actions_of(msgs.drop_last());
        match msgs.last() {
            MovementMsg::Init { hwnd, pipeline, tauri_host_hwnd } => acts.push(
                init_effect(WorkerView { pipelines: Map::empty(), thumbnails: Map::empty() }, hwnd, pipeline, tauri_host_hwnd).1,
            ),
            _ => acts,
        }
    }
}

/// The actions of the inits do not depend on the worker's state.
pub proof fn lemma_init_actions_stateless(w: WorkerView, msgs: Seq<MovementMsg>)
    ensures
        planned_inits(w, msgs).1 == init_actions_of(msgs),
    decreases msgs.len(),
{
    if msgs.len() > 0 {
        lemma_init_actions_stateless(w, msgs.drop_last());
    }
}

/// The inits of a batch, the updates kept for it, and its commits, each
/// with the action the worker takes, in the order the worker takes them.
pub struct BatchPlan {
    pub inits: Vec<InitAction>,
    pub updates: Vec<(isize, UpdateAction)>,
    pub commits: Vec<(MovementMsg, CommitAction)>,
}

/// The actions the inits of a batch ask for, one per init in arrival order;
/// they are the same whatever the worker's state.
pub fn init_actions(msgs: &Vec<MovementMsg>) -> (acts: Vec<InitAction>)
    ensures
        acts@ == init_actions_of(msgs@),
{
    let mut acts: Vec<InitAction> = Vec::new();
    let mut scratch = WorkerState::new();
    let mut i: usize = 0;
    while i < msgs.len()
        invariant
            i <= msgs@.len(),
            acts@ == init_actions_of(msgs@.subrange(0, i as int)),
        decreases msgs@.len() - i,
    {
        proof {
            assert(msgs@.subrange(0, i + 1).drop_last() == msgs@.subrange(0, i as int));
            assert(msgs@.subrange(0, i + 1).last() == msgs@[i as int]);
        }
        if let MovementMsg::Init { hwnd, pipeline, tauri_host_hwnd } = msgs[i] {
            let a = scratch.on_init(hwnd, pipeline, tauri_host_hwnd);
            acts.push(a);
        }
        i = i + 1;
    }
    assert(msgs@.subrange(0, msgs@.len() as int) == msgs@);
    acts
}

impl WorkerState {
    /// One drained batch, phase by phase: first every init, in arrival order
    /// (the actions are those `init_actions` gave; the caller has carried
    /// them out and registered the thumbnails in `registrations`), then the
    /// one pending update of each window, acted on with every init and
    /// registration of the batch in place, then every commit, in arrival
    /// order, acted on after all of that.
    pub fn plan_batch(&mut self, batch: &Batch, registrations: &Vec<(isize, isize)>) -> (plan: BatchPlan)
        ensures
            ({
                let (after_inits, init_acts) = planned_inits(old(self)@, batch.inits@);
                let before_updates = registered(after_inits, registrations@);
                let (after_commits, commit_acts) = planned_commits(before_updates, batch.commits@);
                &&& plan.inits@ == init_acts
                &&& plan.inits@ == init_actions_of(batch.inits@)
                &&& plan.updates@.len() == batch.updates@.len()
                &&& forall|i: int, j: int|
                    0 <= i < plan.updates@.len() && 0 <= j < plan.updates@.len() && i != j
                        ==> plan.updates@[i].0 != plan.updates@[j].0
                &&& forall|i: int|
                    0 <= i < plan.updates@.len() ==> batch.updates@.contains_key(#[trigger] plan.updates@[i].0)
                        && plan.updates@[i].1 == update_msg_action(before_updates, batch.updates@[plan.updates@[i].0])
                &&& forall|h: isize|
                    batch.updates@.contains_key(h) ==> exists|i: int|
                        0 <= i < plan.updates@.len() && #[trigger] plan.updates@[i].0 == h
                &&& plan.commits@ == commit_acts
                &&& final(self)@ == after_commits
            }),
    {
        proof {
            lemma_init_actions_stateless(self@, batch.inits@);
        }
        let inits = self.plan_inits(&batch.inits);
        let ghost after_inits = self@;
        let mut i: usize = 0;
        while i < registrations.len()
            invariant
                i <= registrations@.len(),
                self@ == registered(after_inits, registrations@.subrange(0, i as int)),
            decreases registrations@.len() - i,
        {
            proof {
                assert(registrations@.subrange(0, i + 1).drop_last() == registrations@.subrange(0, i as int));
                assert(registrations@.subrange(0, i + 1).last() == registrations@[i as int]);
            }
            let (hwnd, thumbnail) = registrations[i];
            self.thumbnail_registered(hwnd, thumbnail);
            i = i + 1;
        }
        assert(registrations@.subrange(0, registrations@.len() as int) == registrations@);
        let updates = self.plan_updates(&batch.updates);
        let commits = self.plan_commits(&batch.commits);
        BatchPlan { inits, updates, commits }
    }
}

/// Within one batch, the window's update that the worker acts on is its most
/// recent one, with that update's position and size, unless a commit of the
/// window came after it, in which case the worker moves nothing for it.
pub proof fn lemma_batch_moves_latest(msgs: Seq<MovementMsg>, w: WorkerView, h: isize, i: int)
    requires
        0 <= i < msgs.len(),
    ensures
        last_touch_is_update(msgs, h, i) ==> coalesced(msgs).1.contains_key(h) && update_msg_action(
            w,
            coalesced(msgs).1[h],
        ) == update_msg_action(w, msgs[i]) && msgs[i] == coalesced(msgs).1[h],
        (msgs[i] is Commit && msg_hwnd(msgs[i]) == h && forall|j: int|
            i < j < msgs.len() ==> !(msgs[j] is Update && msg_hwnd(msgs[j]) == h))
            ==> !coalesced(msgs).1.contains_key(h),
{
    lemma_coalesce_latest(msgs, h);
    if msgs[i] is Commit && msg_hwnd(msgs[i]) == h && forall|j: int|
        i < j < msgs.len() ==> !(msgs[j] is Update && msg_hwnd(msgs[j]) == h) {
        assert forall|k: int| !last_touch_is_update(msgs, h, k) by {
            if last_touch_is_update(msgs, h, k) {
                if k < i {
                    assert(msg_hwnd(msgs[i]) != h || msgs[i] is Init);
                } else if k > i {
                    assert(!(msgs[k] is Update && msg_hwnd(msgs[k]) == h));
                }
            }
        }
    }
}

/// The sending end of the movement worker's queue.
pub struct MovementWorker {
    sender: ChannelSender<MovementMsg>,
}

impl MovementWorker {
    /// The worker that reads what is sent on `sender`; nothing handed to it yet.
    pub fn new(sender: Sender<MovementMsg>) -> (w: Self)
        ensures
            w.sender() == sender,
            w.handed() == Seq::<MovementMsg>::empty(),
    {
        MovementWorker { sender: ChannelSender::new(sender) }
    }

    /// The channel the worker reads.
    pub closed spec fn sender(&self) -> Sender<MovementMsg> {
        self.sender.sender()
    }

    /// The messages handed to the worker's channel so far, oldest first.
    pub closed spec fn handed(&self) -> Seq<MovementMsg> {
        self.sender.handed()
    }

    /// Queues `msg` for the worker without waiting: it is handed to the
    /// worker's channel after everything handed before. When the worker is
    /// gone the message is dropped.
    pub fn send(&mut self, msg: MovementMsg)
        ensures
            final(self).sender() == old(self).sender(),
            final(self).handed() == old(self).handed().push(msg),
    {
        let _ = self.sender.send(msg);
    }
}

/// The abstract state of the coordinator.
pub ghost struct CoordinatorView {
    pub cache: Map<isize, WindowState>,
    pub tauri_host_hwnd: isize,
    pub managed_hwnds: Seq<isize>,
    /// The channel to the movement worker.
    pub sender: Sender<MovementMsg>,
    /// The messages handed to that channel so far, oldest first.
    pub sent: Seq<MovementMsg>,
}

/// Ties the window cache, the list of managed windows and the movement
/// worker together for the scroll gestures of the front end.
pub struct WmMovementCoordinator {
    cache: WindowStateCache,
    worker: MovementWorker,
    tauri_host_hwnd: isize,
    managed_hwnds: Vec<isize>,
}

impl View for WmMovementCoordinator {
    type V = CoordinatorView;

    closed spec fn view(&self) -> CoordinatorView {
        CoordinatorView {
            cache: self.cache@,
            tauri_host_hwnd: self.tauri_host_hwnd,
            managed_hwnds: self.managed_hwnds@,
            sender: self.worker.sender(),
            sent: self.worker.handed(),
        }
    }
}

/// The init that starts moving `hwnd` when a scroll begins.
pub open spec fn scroll_init(hwnd: isize, tauri_host_hwnd: isize) -> MovementMsg {
    MovementMsg::Init { hwnd, pipeline: PipelineType::StandardApp, tauri_host_hwnd }
}

impl WmMovementCoordinator {
    /// Each managed window is listed once.
    pub open spec fn wf(&self) -> bool {
        self@.managed_hwnds.no_duplicates()
    }

    /// A coordinator with no managed windows and an empty cache, whose moves
    /// go to `worker` and whose thumbnails are shown on `tauri_host_hwnd`.
    pub fn new(worker: MovementWorker, tauri_host_hwnd: isize) -> (c: Self)
        ensures
            c.wf(),
            c@ == (CoordinatorView {
                cache: Map::empty(),
                tauri_host_hwnd,
                managed_hwnds: Seq::empty(),
                sender: worker.sender(),
                sent: worker.handed(),
            }),
    {
        WmMovementCoordinator {
            cache: WindowStateCache::new(),
            worker,
            tauri_host_hwnd,
            managed_hwnds: Vec::new(),
        }
    }

    /// Starts watching `hwnd`, unless it is watched already.
    pub fn add_managed_window(&mut self, hwnd: isize)
        requires
            old(self).wf(),
        ensures
            final(self).wf(),
            final(self)@ == (CoordinatorView {
                managed_hwnds: if old(self)@.managed_hwnds.contains(hwnd) {
                    old(self)@.managed_hwnds
                } else {
                    old(self)@.managed_hwnds.push(hwnd)
                },
                ..old(self)@
            }),
    {
        let mut i: usize = 0;
        while i < self.managed_hwnds.len()
            invariant
                self@ == old(self)@,
                old(self).wf(),
                i <= self.managed_hwnds@.len(),
                forall|j: int| 0 <= j < i ==> self.managed_hwnds@[j] != hwnd,
            decreases self.managed_hwnds@.len() - i,
        {
            if self.managed_hwnds[i] == hwnd {
                return;
            }
            i = i + 1;
        }
        self.managed_hwnds.push(hwnd);
    }

    /// Stops watching `hwnd` and forgets what the cache holds of it.
    pub fn remove_managed_window(&mut self, hwnd: isize)
        requires
            old(self).wf(),
        ensures
            final(self).wf(),
            final(self)@ == (CoordinatorView {
                managed_hwnds: old(self)@.managed_hwnds.filter(|h: isize| h != hwnd),
                cache: old(self)@.cache.remove(hwnd),
                ..old(self)@
            }),
            !final(self)@.managed_hwnds.contains(hwnd),
    {
        let ghost old_list = self.managed_hwnds@;
        let mut kept: Vec<isize> = Vec::new();
        let mut i: usize = 0;
        while i < self.managed_hwnds.len()
            invariant
                old_list == self.managed_hwnds@,
                old_list.no_duplicates(),
                i <= old_list.len(),
                kept@ == old_list.subrange(0, i as int).filter(|h: isize| h != hwnd),
                kept@.no_duplicates(),
                forall|h: isize| kept@.contains(h) ==> old_list.subrange(0, i as int).contains(h) && h != hwnd,
            decreases old_list.len() - i,
        {
            let h = self.managed_hwnds[i];
            let ghost kept_before = kept@;
            proof {
                reveal(Seq::filter);
                assert(old_list.subrange(0, i + 1).drop_last() == old_list.subrange(0, i as int));
            }
            if h != hwnd {
                proof {
                    if kept@.contains(h) {
                        let k = choose|k: int| 0 <= k < i && old_list[k] == h;
                        assert(old_list.subrange(0, i as int)[k] == h);
                    }
                }
                kept.push(h);
            }
            proof {
                assert forall|g: isize| kept@.contains(g) implies old_list.subrange(0, i + 1).contains(g) && g != hwnd by {
                    let k = choose|k: int| 0 <= k < kept@.len() && kept@[k] == g;
                    if k < kept_before.len() {
                        assert(kept_before[k] == g);
                        assert(kept_before.contains(g));
                        let ghost prev = old_list.subrange(0, i as int);
                        assert(prev.contains(g));
                        let m = choose|m: int| 0 <= m < prev.len() && prev[m] == g;
                        assert(old_list.subrange(0, i + 1)[m] == g);
                    } else {
                        assert(old_list.subrange(0, i + 1)[i as int] == g);
                    }
                }
            }
            i = i + 1;
        }
        assert(old_list.subrange(0, old_list.len() as int) == old_list);
        self.managed_hwnds = kept;
        self.cache.remove(hwnd);
    }

    /// The managed windows, in the order they were added.
    pub fn managed_hwnds(&self) -> (hs: Vec<isize>)
        ensures
            hs@ == self@.managed_hwnds,
    {
        self.managed_hwnds.clone()
    }

    /// Stores what the watcher read of the managed windows.
    pub fn refresh_cache(&mut self, samples: &Vec<WindowSample>)
        requires
            old(self).wf(),
        ensures
            final(self).wf(),
            final(self)@ == (CoordinatorView { cache: sampled_states(samples@), ..old(self)@ }),
    {
        self.cache.refresh(samples);
    }

    /// What the cache holds for `hwnd`.
    pub fn cached_state(&self, hwnd: isize) -> (r: Option<WindowState>)
        ensures
            r == (if self@.cache.contains_key(hwnd) {
                Some(self@.cache[hwnd])
            } else {
                None
            }),
    {
        self.cache.get(hwnd)
    }

    /// The pipeline that moves `hwnd`: every window is an ordinary
    /// application until heavy games can be told apart.
    fn categorize_window(&self, _hwnd: isize) -> (p: PipelineType)
        ensures
            p == PipelineType::StandardApp,
    {
        PipelineType::StandardApp
    }

    /// The inits that a scroll start sends: one for each window the cache
    /// holds as visible, in no set order.
    pub fn scroll_inits(&self) -> (msgs: Vec<MovementMsg>)
        ensures
            msgs@.no_duplicates(),
            forall|m: MovementMsg| #[trigger] msgs@.contains(m) <==> exists|h: isize| m == scroll_init(h, self@.tauri_host_hwnd)
                && self@.cache.contains_key(h) && self@.cache[h].is_visible,
    {
        let hs = self.cache.visible_hwnds();
        let mut out: Vec<MovementMsg> = Vec::new();
        let mut i: usize = 0;
        while i < hs.len()
            invariant
                i <= hs@.len(),
                hs@.no_duplicates(),
                out@ == hs@.subrange(0, i as int).map_values(|h: isize| scroll_init(h, self.tauri_host_hwnd)),
            decreases hs@.len() - i,
        {
            let pipeline = self.categorize_window(hs[i]);
            out.push(MovementMsg::Init { hwnd: hs[i], pipeline, tauri_host_hwnd: self.tauri_host_hwnd });
            proof {
                assert(hs@.subrange(0, i + 1) == hs@.subrange(0, i as int).push(hs@[i as int]));
            }
            i = i + 1;
        }
        proof {
            assert(hs@.subrange(0, hs@.len() as int) == hs@);
            let f = |h: isize| scroll_init(h, self.tauri_host_hwnd);
            assert forall|a: int, b: int| 0 <= a < out@.len() && 0 <= b < out@.len() && a != b implies out@[a] != out@[b] by {
                assert(out@[a] == f(hs@[a]));
                assert(out@[b] == f(hs@[b]));
            }
            assert forall|m: MovementMsg| #[trigger] out@.contains(m) <==> exists|h: isize| m == scroll_init(h, self@.tauri_host_hwnd)
                && self@.cache.contains_key(h) && self@.cache[h].is_visible by {
                if out@.contains(m) {
                    let k = choose|k: int| 0 <= k < out@.len() && out@[k] == m;
                    assert(hs@.contains(hs@[k]));
                }
                if exists|h: isize| m == scroll_init(h, self@.tauri_host_hwnd) && self@.cache.contains_key(h) && self@.cache[h].is_visible {
                    let h = choose|h: isize| m == scroll_init(h, self@.tauri_host_hwnd) && self@.cache.contains_key(h) && self@.cache[h].is_visible;
                    assert(hs@.contains(h));
                    let k = choose|k: int| 0 <= k < hs@.len() && hs@[k] == h;
                    assert(out@[k] == m);
                }
            }
        }
        out
    }

    /// A scroll starts: every window the cache holds as visible starts
    /// moving, each with one init, in no set order.
    pub fn begin_scroll(&mut self)
        requires
            old(self).wf(),
        ensures
            final(self).wf(),
            final(self)@ == (CoordinatorView { sent: final(self)@.sent, ..old(self)@ }),
            final(self)@.sent.len() >= old(self)@.sent.len(),
            final(self)@.sent.subrange(0, old(self)@.sent.len() as int) == old(self)@.sent,
            ({
                let new_msgs = final(self)@.sent.subrange(old(self)@.sent.len() as int, final(self)@.sent.len() as int);
                &&& new_msgs.no_duplicates()
                &&& forall|m: MovementMsg| #[trigger] new_msgs.contains(m) <==> exists|h: isize|
                    m == scroll_init(h, old(self)@.tauri_host_hwnd) && old(self)@.cache.contains_key(h)
                        && old(self)@.cache[h].is_visible
            }),
    {
        let inits = self.scroll_inits();
        let ghost before = self@.sent;
        let mut i: usize = 0;
        while i < inits.len()
            invariant
                i <= inits@.len(),
                self@ == (CoordinatorView { sent: self@.sent, ..old(self)@ }),
                before == old(self)@.sent,
                self@.sent == before + inits@.subrange(0, i as int),
            decreases inits@.len() - i,
        {
            self.worker.send(inits[i]);
            proof {
                assert(inits@.subrange(0, i + 1) == inits@.subrange(0, i as int).push(inits@[i as int]));
                assert(before + inits@.subrange(0, i + 1) == (before + inits@.subrange(0, i as int)).push(inits@[i as int]));
            }
            i = i + 1;
        }
        proof {
            assert(inits@.subrange(0, inits@.len() as int) == inits@);
            assert((before + inits@).subrange(0, before.len() as int) == before);
            assert((before + inits@).subrange(before.len() as int, (before + inits@).len() as int) == inits@);
        }
    }

    /// A new position of `hwnd` during a scroll.
    pub fn stream_scroll_update(&mut self, hwnd: isize, x: i32, y: i32, width: i32, height: i32)
        requires
            old(self).wf(),
        ensures
            final(self).wf(),
            final(self)@ == (CoordinatorView {
                sent: old(self)@.sent.push(MovementMsg::Update { hwnd, x, y, width, height }),
                ..old(self)@
            }),
    {
        self.worker.send(MovementMsg::Update { hwnd, x, y, width, height });
    }

    /// The scroll ended: `hwnd` goes to its final place.
    pub fn end_scroll(&mut self, hwnd: isize, final_x: i32, final_y: i32, final_width: i32, final_height: i32)
        requires
            old(self).wf(),
        ensures
            final(self).wf(),
            final(self)@ == (CoordinatorView {
                sent: old(self)@.sent.push(MovementMsg::Commit { hwnd, final_x, final_y, final_width, final_height }),
                ..old(self)@
            }),
    {
        self.worker.send(MovementMsg::Commit { hwnd, final_x, final_y, final_width, final_height });
    }
}

/// An ordinary application window's movement: its init asks to cloak it and
/// register a thumbnail on the host; once the thumbnail is registered, an
/// update moves that thumbnail to the new rectangle; the commit asks to
/// uncloak it and unregister that same thumbnail, and afterwards the worker
/// tracks neither a pipeline nor a thumbnail for it.
pub proof fn lemma_standard_app_cycle(
    w: WorkerView,
    hwnd: isize,
    host: isize,
    thumbnail: isize,
    x: i32,
    y: i32,
    width: i32,
    height: i32,
)
    requires
        !w.pipelines.contains_key(hwnd),
    ensures
        ({
            let (w1, init) = init_effect(w, hwnd, PipelineType::StandardApp, host);
            let w2 = WorkerView { thumbnails: w1.thumbnails.insert(hwnd, thumbnail), ..w1 };
            let (w3, commit) = commit_effect(w2, hwnd);
            &&& init == (InitAction::CloakAndRegister { hwnd, tauri_host_hwnd: host })
            &&& update_action(w2, hwnd, x, y, width, height) == (UpdateAction::MoveThumbnail {
                thumbnail,
                x,
                y,
                width,
                height,
            })
            &&& commit == (CommitAction::Uncloak { thumbnail: Some(thumbnail) })
            &&& !w3.pipelines.contains_key(hwnd)
            &&& !w3.thumbnails.contains_key(hwnd)
        }),
{
}

/// A heavy game's movement: its init asks to clip it and show its proxy
/// card, an update moves the card to the new rectangle, and the commit asks
/// to unclip it and hide the card; afterwards it has no pipeline.
pub proof fn lemma_heavy_game_cycle(w: WorkerView, hwnd: isize, host: isize, x: i32, y: i32, width: i32, height: i32)
    requires
        !w.pipelines.contains_key(hwnd),
    ensures
        ({
            let (w1, init) = init_effect(w, hwnd, PipelineType::HeavyGame, host);
            let (w2, commit) = commit_effect(w1, hwnd);
            &&& init == InitAction::ClipAndShow(
                ProxyCard { hwnd, action: ProxyAction::Show, x: 0, y: 0, width: 0, height: 0 },
            )
            &&& update_action(w1, hwnd, x, y, width, height) == UpdateAction::MoveProxy(
                ProxyCard { hwnd, action: ProxyAction::Update, x, y, width, height },
            )
            &&& commit == CommitAction::UnclipAndHide(
                ProxyCard { hwnd, action: ProxyAction::Hide, x: 0, y: 0, width: 0, height: 0 },
            )
            &&& !w2.pipelines.contains_key(hwnd)
        }),
{
}

/// Reading `i` of `h` is kept (its rectangle was found, or access was
/// denied) and no later reading of `h` is kept.
pub open spec fn last_kept_reading(samples: Seq<WindowSample>, h: isize, i: int) -> bool {
    &&& 0 <= i < samples.len()
    &&& samples[i].hwnd == h
    &&& !(samples[i].rect is Unavailable)
    &&& forall|j: int| i < j < samples.len() ==> #[trigger] samples[j].hwnd != h || samples[j].rect is Unavailable
}

/// A refresh records each managed window as its last usable reading shows
/// it: the cache holds a window exactly when some reading of it found its
/// rectangle or was denied access; it then holds that window's last such
/// reading, with that reading's own visibility, and the rectangle found, or
/// an empty rectangle where access was denied.
pub proof fn lemma_refresh_records_readings(samples: Seq<WindowSample>, h: isize)
    ensures
        sampled_states(samples).contains_key(h) == exists|i: int| last_kept_reading(samples, h, i),
        forall|i: int|
            last_kept_reading(samples, h, i) ==> {
                let st = sampled_states(samples)[h];
                &&& st.hwnd == h
                &&& st.is_visible == samples[i].is_visible
                &&& (samples[i].rect matches RectQuery::Found(r) ==> st.rect == r)
                &&& (samples[i].rect is AccessDenied ==> st.rect == Rect { left: 0, top: 0, right: 0, bottom: 0 })
            },
    decreases samples.len(),
{
    if samples.len() > 0 {
        let prefix = samples.drop_last();
        let n = samples.len() - 1;
        lemma_refresh_records_readings(prefix, h);
        let last = samples.last();
        if last.hwnd == h && !(last.rect is Unavailable) {
            assert(last_kept_reading(samples, h, n));
            assert forall|i: int| last_kept_reading(samples, h, i) implies i == n by {
                if i < n {
                    assert(samples[n].hwnd != h || samples[n].rect is Unavailable);
                }
            }
        } else {
            assert forall|i: int| last_kept_reading(samples, h, i) implies last_kept_reading(prefix, h, i) by {
                assert(i != n);
                assert forall|j: int| i < j < prefix.len() implies #[trigger] prefix[j].hwnd != h || prefix[j].rect is Unavailable by {
                    assert(prefix[j] == samples[j]);
                    assert(samples[j].hwnd != h || samples[j].rect is Unavailable);
                }
            }
            assert forall|i: int| last_kept_reading(prefix, h, i) implies last_kept_reading(samples, h, i) by {
                assert(prefix[i] == samples[i]);
                assert forall|j: int| i < j < samples.len() implies #[trigger] samples[j].hwnd != h || samples[j].rect is Unavailable by {
                    if j < n {
                        assert(samples[j] == prefix[j]);
                        assert(prefix[j].hwnd != h || prefix[j].rect is Unavailable);
                    }
                }
            }
        }
    }
}

/// A scroll start moves every visible window as an ordinary application
/// (through a thumbnail), shown on the coordinator's host window.
pub proof fn lemma_scroll_init_is_standard_app(hwnd: isize, tauri_host_hwnd: isize)
    ensures
        scroll_init(hwnd, tauri_host_hwnd) matches MovementMsg::Init { hwnd: h, pipeline: p, tauri_host_hwnd: t }
            && h == hwnd && p == PipelineType::StandardApp && t == tauri_host_hwnd,
{
}

} // verus!
